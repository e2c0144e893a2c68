//! The HTTP response that carries a response of the control protocol.

use crate::reply::{AmcpResponse, ResponseView};
use crate::status::DEFAULT_STATUS;
use vstd::prelude::*;
use vstd::string::StringExecFns;

verus! {

/// What goes back over HTTP: a status, a content type and a body.
#[derive(Clone, Debug, PartialEq, Eq)]
pub struct HttpReply {
    pub status: u16,
    pub content_type: String,
    pub body: String,
}

/// An [`HttpReply`] as a mathematical value.
pub struct HttpReplyView {
    pub status: u16,
    pub content_type: Seq<char>,
    pub body: Seq<char>,
}

impl View for HttpReply {
    type V = HttpReplyView;

    open spec fn view(&self) -> HttpReplyView {
        HttpReplyView { status: self.status, content_type: self.content_type@, body: self.body@ }
    }
}

/// Whether `code` can be the status of an HTTP response: a number of three
/// digits.
pub open spec fn is_http_status(code: u16) -> bool {
    100 <= code < 1000
}

/// The HTTP status that answers a reply with status `code`: the code itself
/// where HTTP can carry it. A code that HTTP cannot carry is answered like a
/// reply without a status, with [`DEFAULT_STATUS`].
pub open spec fn http_status_of(code: u16) -> u16 {
    if is_http_status(code) {
        code
    } else {
        DEFAULT_STATUS
    }
}

/// The HTTP response that carries `response`: its status as far as HTTP can
/// carry it, and its payload as plain text.
pub open spec fn http_reply_of(response: ResponseView) -> HttpReplyView {
    HttpReplyView {
        status: http_status_of(response.status_code),
        content_type: "text/plain"@,
        body: response.payload,
    }
}

/// Asks `actix_web::http::StatusCode::from_u16` whether it takes `code`.
///
/// Trusted: it takes the codes from 100 to 999 and refuses all others.
#[verifier::external_body]
fn is_status_code(code: u16) -> (ok: bool)
    ensures
        ok == is_http_status(code),
{
    actix_web::http::StatusCode::from_u16(code).is_ok()
}

/// The HTTP status that answers a reply with status `code`.
pub fn http_status(code: u16) -> (status: u16)
    ensures
        status == http_status_of(code),
        is_http_status(status),
{
    if is_status_code(code) {
        code
    } else {
        DEFAULT_STATUS
    }
}

impl AmcpResponse {
    /// The status of the HTTP response that carries this response.
    pub fn http_status(&self) -> (status: u16)
        ensures
            status == http_status_of(self@.status_code),
            is_http_status(status),
    {
        http_status(self.status_code)
    }

    /// The HTTP response that carries this response.
    pub fn into_http(self) -> (reply: HttpReply)
        ensures
            reply@ == http_reply_of(self@),
            is_http_status(reply.status),
    {
        HttpReply {
            status: http_status(self.status_code),
            content_type: String::from_str("text/plain"),
            body: self.payload,
        }
    }
}

} // verus!
