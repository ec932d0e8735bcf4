//! What the server decides for one connection, and the sizes it runs with.
//! The sockets, the worker threads and the queue between them are the
//! caller's.

use vstd::prelude::*;
use vstd::string::StringExecFns;
use crate::http::parse_error::ParseError;
use crate::http::request::{parse_request, Request, RequestView};
use crate::http::request_handler::{bad_request_page, RequestHandler};
use crate::http::response::{body_text, Response};
use crate::http::status_code::StatusCode;
use crate::http::text::{decimal, push_decimal};

verus! {

/// The bytes read from a connection in its one read.
pub const READ_BUFFER_SIZE: usize = 1024;

/// The accepted connections that may wait for a worker.
pub const QUEUE_CAPACITY: usize = 100;

/// The number of workers: the parallelism that the host offers, and one
/// where it offers none or does not say.
pub fn pool_size(available: Option<usize>) -> (n: usize)
    ensures
        n >= 1,
        n == match available {
            Some(count) if count >= 1 => count,
            _ => 1usize,
        },
{
    match available {
        Some(count) => if count >= 1 {
            count
        } else {
            1
        },
        None => 1,
    }
}

/// The address to listen on: the host, a colon, the port in decimal.
pub fn addr(ip: &str, port: u16) -> (r: String)
    ensures
        r@ == ip@ + ":"@ + decimal(port as nat),
{
    let mut r = String::from_str(ip);
    r.append(":");
    push_decimal(&mut r, port);
    r
}

/// Why no request came of a connection.
#[derive(Clone, Copy, Debug, PartialEq, Eq, Structural)]
pub enum DecodeError {
    /// The read failed.
    Read,
    /// The bytes read are no request.
    Parse(ParseError),
}

impl DecodeError {
    /// The text that the client is told.
    pub open spec fn spec_message(&self) -> Seq<char> {
        match self {
            DecodeError::Read => "Failed to read request bytes"@,
            DecodeError::Parse(_) => "Error converting bytes to result!"@,
        }
    }

    /// Returns the text that the client is told.
    pub fn message(&self) -> (r: &'static str)
        ensures
            r@ == self.spec_message(),
    {
        match self {
            DecodeError::Read => "Failed to read request bytes",
            DecodeError::Parse(_) => "Error converting bytes to result!",
        }
    }
}

/// The outcome of a read as plain values: the bytes read, or `None` where
/// the read failed.
pub open spec fn read_view(read: Option<&[u8]>) -> Option<Seq<u8>> {
    match read {
        Some(bytes) => Some(bytes@),
        None => None,
    }
}

/// What a read amounts to: the request that its bytes parse to, or why
/// there is none.
pub open spec fn decode_spec(read: Option<Seq<u8>>) -> Result<RequestView, DecodeError> {
    match read {
        None => Err(DecodeError::Read),
        Some(bytes) => match parse_request(bytes) {
            Ok(request) => Ok(request),
            Err(e) => Err(DecodeError::Parse(e)),
        },
    }
}

/// Turns the outcome of a connection's read into a request: `read` holds
/// exactly the bytes that were read, or `None` where the read failed.
pub fn decode<'a>(read: Option<&'a [u8]>) -> (r: Result<Request<'a>, DecodeError>)
    ensures
        match r {
            Ok(request) => decode_spec(read_view(read)) == Ok::<RequestView, DecodeError>(request@),
            Err(e) => decode_spec(read_view(read)) == Err::<RequestView, DecodeError>(e),
        },
{
    match read {
        None => Err(DecodeError::Read),
        Some(bytes) => match Request::try_from(bytes) {
            Ok(request) => Ok(request),
            Err(e) => Err(DecodeError::Parse(e)),
        },
    }
}

/// Answers one connection: the request that was read goes to the handler's
/// `handle`, with the response as it came, and the response is left as
/// `handle` leaves it; where the read failed or the bytes are no request,
/// the client gets a 400 that says so. Either way one response is sent to
/// `res`, and no more.
///
/// Returns why the client got the 400, where it did.
pub fn serve<H: RequestHandler>(handler: &H, read: Option<&[u8]>, res: &mut Response) -> (r: Result<
    (),
    DecodeError,
>)
    ensures
        final(res).writer@ == old(res).writer@ + final(res).spec_wire(),
        *final(final(res).writer) == *final(old(res).writer),
        match decode_spec(read_view(read)) {
            Ok(request) => r is Ok && exists|q: &Request, w: &mut Response|
                q@ == request && *w == *old(res) && *final(w) == *final(res) && call_ensures(
                    H::handle,
                    (handler, q, w),
                    (),
                ),
            Err(e) => r == Err::<(), DecodeError>(e) && final(res).status == StatusCode::BadRequest
                && body_text(final(res).body) == bad_request_page(e.spec_message()),
        },
{
    match decode(read) {
        Ok(request) => {
            handler.handle(&request, res);
            Ok(())
        },
        Err(e) => {
            handler.handle_bad(res, e.message());
            Err(e)
        },
    }
}

/// Answers one connection on its own sink: a fresh response is bound to
/// `sink`, and `serve` answers on it. What the sink gains is one response:
/// the one that the handler's `handle` leaves of a fresh response to the
/// request that was read, or the 400 that says why there was none. Nothing
/// but the handler, the bytes read and the sink enters into it.
pub fn answer<H: RequestHandler>(handler: &H, read: Option<&[u8]>, sink: &mut Vec<u8>) -> (r: Result<
    (),
    DecodeError,
>)
    ensures
        exists|w: &mut Response|
            {
                &&& w.status == StatusCode::Okay
                &&& w.body is None
                &&& w.writer@ == old(sink)@
                &&& final(sink)@ == old(sink)@ + final(w).spec_wire()
                &&& match decode_spec(read_view(read)) {
                    Ok(request) => r is Ok && exists|q: &Request|
                        q@ == request && call_ensures(H::handle, (handler, q, w), ()),
                    Err(e) => r == Err::<(), DecodeError>(e) && final(w).status
                        == StatusCode::BadRequest && body_text(final(w).body) == bad_request_page(
                        e.spec_message(),
                    ),
                }
            },
{
    let mut res = Response::new(sink);
    serve(handler, read, &mut res)
}

} // verus!
