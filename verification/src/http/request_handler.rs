use vstd::prelude::*;
use vstd::string::StringExecFns;
use crate::http::method::Method;
use crate::http::request::Request;
use crate::http::response::{body_text, not_found_page, Response};
use crate::http::status_code::StatusCode;

verus! {

/// The body of the answer to a request that could not be had: the message
/// in a fixed frame.
pub open spec fn bad_request_page(message: Seq<char>) -> Seq<char> {
    "<h1>400 Bad Request</h1><p>"@ + message + "</p>"@
}

/// Whether a status and a body are the answer of an operation that the
/// handler does not define: the 404 page.
pub open spec fn is_fallback(status: StatusCode, body: Seq<char>) -> bool {
    status == StatusCode::NotFound && body == not_found_page()
}

/// What answers requests: one operation for each verb.
///
/// Each operation is handed the request and the response of one connection
/// and ends by sending that response, once. An operation that a handler
/// does not define answers with the 404 page.
pub trait RequestHandler {
    /// Answers `req` with the operation of its method, and with no other:
    /// the response is left as that operation leaves it, called on this
    /// request and on the response as it came.
    fn handle(&self, req: &Request, res: &mut Response)
        ensures
            final(res).writer@ == old(res).writer@ + final(res).spec_wire(),
            *final(final(res).writer) == *final(old(res).writer),
            exists|r: &mut Response|
                *r == *old(res) && *final(r) == *final(res) && match req@.method {
                    Method::GET => call_ensures(Self::get, (self, req, r), ()),
                    Method::POST => call_ensures(Self::post, (self, req, r), ()),
                    Method::DELETE => call_ensures(Self::delete, (self, req, r), ()),
                    Method::PUT => call_ensures(Self::put, (self, req, r), ()),
                    Method::HEAD => call_ensures(Self::head, (self, req, r), ()),
                    Method::CONNECT => call_ensures(Self::connect, (self, req, r), ()),
                    Method::OPTIONS => call_ensures(Self::options, (self, req, r), ()),
                    Method::TRACE => call_ensures(Self::trace, (self, req, r), ()),
                    Method::PATCH => call_ensures(Self::patch, (self, req, r), ()),
                },
    {
        match req.method() {
            Method::GET => self.get(req, res),
            Method::POST => self.post(req, res),
            Method::DELETE => self.delete(req, res),
            Method::PUT => self.put(req, res),
            Method::HEAD => self.head(req, res),
            Method::CONNECT => self.connect(req, res),
            Method::OPTIONS => self.options(req, res),
            Method::TRACE => self.trace(req, res),
            Method::PATCH => self.patch(req, res),
        }
    }

    /// Answers a request that could not be read or parsed: a 400 whose body
    /// is `message` in the frame of `bad_request_page`.
    fn handle_bad(&self, res: &mut Response, message: &str)
        ensures
            final(res).status == StatusCode::BadRequest,
            body_text(final(res).body) == bad_request_page(message@),
            final(res).writer@ == old(res).writer@ + final(res).spec_wire(),
            *final(final(res).writer) == *final(old(res).writer),
    {
        let mut page = String::from_str("<h1>400 Bad Request</h1><p>");
        page.append(message);
        page.append("</p>");
        res.bad_request(Some(page))
    }

    /// Answers a `GET`.
    fn get(&self, req: &Request, res: &mut Response)
        ensures
            final(res).writer@ == old(res).writer@ + final(res).spec_wire(),
            *final(final(res).writer) == *final(old(res).writer),
        default_ensures
            is_fallback(final(res).status, body_text(final(res).body)),
    {
        res.send_404()
    }

    /// Answers a `DELETE`.
    fn delete(&self, req: &Request, res: &mut Response)
        ensures
            final(res).writer@ == old(res).writer@ + final(res).spec_wire(),
            *final(final(res).writer) == *final(old(res).writer),
        default_ensures
            is_fallback(final(res).status, body_text(final(res).body)),
    {
        res.send_404()
    }

    /// Answers a `POST`.
    fn post(&self, req: &Request, res: &mut Response)
        ensures
            final(res).writer@ == old(res).writer@ + final(res).spec_wire(),
            *final(final(res).writer) == *final(old(res).writer),
        default_ensures
            is_fallback(final(res).status, body_text(final(res).body)),
    {
        res.send_404()
    }

    /// Answers a `PUT`.
    fn put(&self, req: &Request, res: &mut Response)
        ensures
            final(res).writer@ == old(res).writer@ + final(res).spec_wire(),
            *final(final(res).writer) == *final(old(res).writer),
        default_ensures
            is_fallback(final(res).status, body_text(final(res).body)),
    {
        res.send_404()
    }

    /// Answers a `HEAD`.
    fn head(&self, req: &Request, res: &mut Response)
        ensures
            final(res).writer@ == old(res).writer@ + final(res).spec_wire(),
            *final(final(res).writer) == *final(old(res).writer),
        default_ensures
            is_fallback(final(res).status, body_text(final(res).body)),
    {
        res.send_404()
    }

    /// Answers a `CONNECT`.
    fn connect(&self, req: &Request, res: &mut Response)
        ensures
            final(res).writer@ == old(res).writer@ + final(res).spec_wire(),
            *final(final(res).writer) == *final(old(res).writer),
        default_ensures
            is_fallback(final(res).status, body_text(final(res).body)),
    {
        res.send_404()
    }

    /// Answers a `OPTIONS`.
    fn options(&self, req: &Request, res: &mut Response)
        ensures
            final(res).writer@ == old(res).writer@ + final(res).spec_wire(),
            *final(final(res).writer) == *final(old(res).writer),
        default_ensures
            is_fallback(final(res).status, body_text(final(res).body)),
    {
        res.send_404()
    }

    /// Answers a `TRACE`.
    fn trace(&self, req: &Request, res: &mut Response)
        ensures
            final(res).writer@ == old(res).writer@ + final(res).spec_wire(),
            *final(final(res).writer) == *final(old(res).writer),
        default_ensures
            is_fallback(final(res).status, body_text(final(res).body)),
    {
        res.send_404()
    }

    /// Answers a `PATCH`.
    fn patch(&self, req: &Request, res: &mut Response)
        ensures
            final(res).writer@ == old(res).writer@ + final(res).spec_wire(),
            *final(final(res).writer) == *final(old(res).writer),
        default_ensures
            is_fallback(final(res).status, body_text(final(res).body)),
    {
        res.send_404()
    }
}

} // verus!
