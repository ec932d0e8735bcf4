use vstd::prelude::*;
use vstd::string::StringExecFns;
use vstd::string::StringSliceAdditionalSpecFns;
use vstd::utf8::encode_utf8;
use crate::http::status_code::StatusCode;
use crate::http::text::{decimal, push_decimal};

verus! {

/// The body that `gen_403` sets.
pub open spec fn permission_denied_page() -> Seq<char> {
    "<h1>403 Permission Denied</h1><p>You do not have permission to access the requested resource.</p>"@
}

/// The body that `gen_404` sets.
pub open spec fn not_found_page() -> Seq<char> {
    "<h1>404 Not Found</h1><p>The page you requested could not be found on this server.</p>"@
}

/// The text of a body: empty where there is none.
pub open spec fn body_text(body: Option<String>) -> Seq<char> {
    match body {
        Some(b) => b@,
        None => Seq::empty(),
    }
}

/// A response as text: the status line, the header placeholder, a blank
/// line, then the body.
pub open spec fn wire_text(status: StatusCode, body: Seq<char>) -> Seq<char> {
    "HTTP/1.1 "@ + decimal(status.spec_code() as nat) + " "@ + status.spec_reason()
        + "\r\nTODO: HEADERS\r\n\r\n"@ + body
}

/// A response as it goes out: the UTF-8 bytes of its text.
pub open spec fn wire(status: StatusCode, body: Option<String>) -> Seq<u8> {
    encode_utf8(wire_text(status, body_text(body)))
}

/// A response in the making, bound to the sink of one connection.
///
/// Status and body may be set any number of times; `send` writes them to the
/// sink. Of the operations here, only those that send touch the sink, and
/// they add to its end. Each contract ends by saying that the response stays
/// bound to the sink it was made on: what the sink holds in the end is what
/// the response's sink holds in the end.
#[derive(Debug)]
pub struct Response<'w> {
    /// The status that `send` will write.
    pub status: StatusCode,
    /// The body that `send` will write, if any.
    pub body: Option<String>,
    /// The sink: the bytes that go out on the connection, in order.
    pub writer: &'w mut Vec<u8>,
}

impl<'w> Response<'w> {
    /// What `send` would write now.
    pub open spec fn spec_wire(&self) -> Seq<u8> {
        wire(self.status, self.body)
    }

    /// A fresh response on `writer`: status `Okay`, no body, nothing written.
    pub fn new(writer: &'w mut Vec<u8>) -> (r: Self)
        ensures
            r.status == StatusCode::Okay,
            r.body is None,
            *r.writer == *old(writer),
            *final(r.writer) == *final(writer),
    {
        Response { status: StatusCode::Okay, body: None, writer }
    }

    /// The sink, with all that was sent to it so far.
    pub fn writer(&self) -> (w: &Vec<u8>)
        ensures
            w@ == old(self.writer)@,
    {
        &*self.writer
    }

    /// Sets status `Okay` and the body, and sends.
    pub fn ok(&mut self, body: Option<String>)
        ensures
            final(self).status == StatusCode::Okay,
            final(self).body == body,
            final(self).writer@ == old(self).writer@ + wire(StatusCode::Okay, body),
            *final(final(self).writer) == *final(old(self).writer),
    {
        self.status = StatusCode::Okay;
        self.body = body;
        self.send()
    }

    /// Sets status `BadRequest` and the body, and sends.
    pub fn bad_request(&mut self, body: Option<String>)
        ensures
            final(self).status == StatusCode::BadRequest,
            final(self).body == body,
            final(self).writer@ == old(self).writer@ + wire(StatusCode::BadRequest, body),
            *final(final(self).writer) == *final(old(self).writer),
    {
        self.status = StatusCode::BadRequest;
        self.body = body;
        self.send()
    }

    /// Sets status `NotFound` and the body, and sends.
    pub fn not_found(&mut self, body: Option<String>)
        ensures
            final(self).status == StatusCode::NotFound,
            final(self).body == body,
            final(self).writer@ == old(self).writer@ + wire(StatusCode::NotFound, body),
            *final(final(self).writer) == *final(old(self).writer),
    {
        self.status = StatusCode::NotFound;
        self.body = body;
        self.send()
    }

    /// Sets the 403 page and sends it.
    pub fn send_403(&mut self)
        ensures
            final(self).status == StatusCode::PermissionDenied,
            body_text(final(self).body) == permission_denied_page(),
            final(self).writer@ == old(self).writer@ + final(self).spec_wire(),
            *final(final(self).writer) == *final(old(self).writer),
    {
        self.gen_403().send()
    }

    /// Sets status `PermissionDenied` and the 403 page as body. Sends nothing.
    pub fn gen_403(&mut self) -> (r: &mut Self)
        ensures
            r.status == StatusCode::PermissionDenied,
            r.body is Some,
            body_text(r.body) == permission_denied_page(),
            *r.writer == *old(self).writer,
            *final(r.writer) == *final(old(self).writer),
            *final(self) == *final(r),
    {
        self.status = StatusCode::PermissionDenied;
        self.body = Some(
            String::from_str(
                "<h1>403 Permission Denied</h1><p>You do not have permission to access the requested resource.</p>",
            ),
        );
        self
    }

    /// Sets status `NotFound` and the 404 page as body. Sends nothing.
    pub fn gen_404(&mut self) -> (r: &mut Self)
        ensures
            r.status == StatusCode::NotFound,
            r.body is Some,
            body_text(r.body) == not_found_page(),
            *r.writer == *old(self).writer,
            *final(r.writer) == *final(old(self).writer),
            *final(self) == *final(r),
    {
        self.status = StatusCode::NotFound;
        self.body = Some(
            String::from_str(
                "<h1>404 Not Found</h1><p>The page you requested could not be found on this server.</p>",
            ),
        );
        self
    }

    /// Sets the 404 page and sends it.
    pub fn send_404(&mut self)
        ensures
            final(self).status == StatusCode::NotFound,
            body_text(final(self).body) == not_found_page(),
            final(self).writer@ == old(self).writer@ + final(self).spec_wire(),
            *final(final(self).writer) == *final(old(self).writer),
    {
        self.gen_404().send()
    }

    /// Adds `text` to the end of the body; where there is no body, `text`
    /// becomes the body. The status stays. Sends nothing.
    pub fn append(&mut self, text: String) -> (r: &mut Self)
        ensures
            r.status == old(self).status,
            r.body is Some,
            body_text(r.body) == body_text(old(self).body) + text@,
            *r.writer == *old(self).writer,
            *final(r.writer) == *final(old(self).writer),
            *final(self) == *final(r),
    {
        let joined = match &self.body {
            Some(cur) => {
                let mut s = cur.clone();
                s.append(text.as_str());
                s
            },
            None => text,
        };
        assert(joined@ =~= body_text(self.body) + text@);
        self.body = Some(joined);
        self
    }

    /// Writes the response to the sink: status line, header placeholder,
    /// blank line, body. Status and body stay as they are.
    pub fn send(&mut self)
        ensures
            final(self).status == old(self).status,
            final(self).body == old(self).body,
            final(self).writer@ == old(self).writer@ + old(self).spec_wire(),
            *final(final(self).writer) == *final(old(self).writer),
    {
        let mut line = String::from_str("HTTP/1.1 ");
        push_decimal(&mut line, self.status.code());
        line.append(" ");
        line.append(self.status.reason());
        line.append("\r\nTODO: HEADERS\r\n\r\n");
        match &self.body {
            Some(b) => line.append(b.as_str()),
            None => {},
        }
        assert(line@ =~= wire_text(self.status, body_text(self.body)));
        let bytes = line.as_str().as_bytes();
        let ghost before = self.writer@;
        self.writer.extend_from_slice(bytes);
        assert(self.writer@ =~= before + bytes@);
    }
}

} // verus!
