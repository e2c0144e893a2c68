//! From a framed reply to the response handed back to the caller.

use crate::status::{
    leading_token, line_status, parsed_status, status_of, status_of_line, DEFAULT_STATUS,
    GATEWAY_FAILURE_STATUS,
};
use crate::text::{
    after_first_line, chars_of, find_terminator, first_line, has_terminator, join_lines,
    lemma_first_terminator, lemma_lines_unfold, lemma_unterminated_text, lines,
};
use vstd::prelude::*;
use vstd::string::{StrSliceExecFns, StringExecFns};

verus! {

/// The outcome of one request: a status code and a payload.
#[derive(Clone, Debug, PartialEq, Eq)]
pub struct AmcpResponse {
    pub status_code: u16,
    pub payload: String,
}

/// An [`AmcpResponse`] as a mathematical value.
pub struct ResponseView {
    pub status_code: u16,
    pub payload: Seq<char>,
}

impl View for AmcpResponse {
    type V = ResponseView;

    open spec fn view(&self) -> ResponseView {
        ResponseView { status_code: self.status_code, payload: self.payload@ }
    }
}

/// The payload of a reply: the lines behind the status line, joined by
/// `'\n'`; the status line itself where nothing follows it; empty for the
/// empty reply.
pub open spec fn payload_of(text: Seq<char>) -> Seq<char> {
    let ls = lines(text);
    if ls.len() == 0 {
        Seq::empty()
    } else if ls.len() == 1 {
        ls[0]
    } else {
        join_lines(ls.drop_first())
    }
}

/// What a framed reply says: its status and its payload.
pub open spec fn extracted(text: Seq<char>) -> ResponseView {
    ResponseView { status_code: status_of(text), payload: payload_of(text) }
}

/// The response to a request whose connection could not be opened.
pub open spec fn connection_failed_view() -> ResponseView {
    ResponseView { status_code: GATEWAY_FAILURE_STATUS, payload: "connection failed"@ }
}

/// The response to a request whose command could not be written.
pub open spec fn send_failed_view() -> ResponseView {
    ResponseView { status_code: GATEWAY_FAILURE_STATUS, payload: "send failed"@ }
}

/// The empty reply has the default status and an empty payload.
pub proof fn lemma_empty_reply()
    ensures
        extracted(Seq::empty()) == (ResponseView {
            status_code: DEFAULT_STATUS,
            payload: Seq::empty(),
        }),
{
    let empty = Seq::<char>::empty();
    assert(first_line(empty) =~= empty);
    assert(leading_token(empty) =~= empty);
}

/// A reply that was cut off before any terminator is one line: its status is
/// that of the line, and the line is its payload.
pub proof fn lemma_unterminated_reply(text: Seq<char>)
    requires
        !has_terminator(text),
    ensures
        extracted(text) == (ResponseView { status_code: status_of_line(text), payload: text }),
{
    lemma_unterminated_text(text);
    if text.len() == 0 {
        assert(payload_of(text) =~= text);
    }
}

/// A reply whose status line opens with something that is no number has the
/// default status. Its payload is the lines behind the status line, or the
/// status line itself where none follows.
pub proof fn lemma_malformed_status(text: Seq<char>)
    requires
        parsed_status(leading_token(first_line(text))) is None,
    ensures
        extracted(text).status_code == DEFAULT_STATUS,
        after_first_line(text).len() == 0 ==> extracted(text).payload == first_line(text),
        after_first_line(text).len() > 0 ==> extracted(text).payload == join_lines(
            lines(after_first_line(text)),
        ),
{
    if text.len() > 0 {
        lemma_lines_unfold(text);
    } else {
        assert(first_line(text) =~= text);
    }
}

impl AmcpResponse {
    /// The response to a request whose connection could not be opened.
    pub fn connection_failed() -> (r: AmcpResponse)
        ensures
            r@ == connection_failed_view(),
    {
        AmcpResponse {
            status_code: GATEWAY_FAILURE_STATUS,
            payload: String::from_str("connection failed"),
        }
    }

    /// The response to a request whose command could not be written.
    pub fn send_failed() -> (r: AmcpResponse)
        ensures
            r@ == send_failed_view(),
    {
        AmcpResponse {
            status_code: GATEWAY_FAILURE_STATUS,
            payload: String::from_str("send failed"),
        }
    }
}

/// Reads status and payload out of a framed reply.
///
/// The status is that of the first line. The payload is every later line,
/// joined by `'\n'`, or the first line where no other follows.
pub fn extract(reply: &str) -> (r: AmcpResponse)
    ensures
        r@ == extracted(reply@),
{
    let chars = chars_of(reply);
    let n = chars.len();
    let head = find_terminator(chars.as_slice());
    let status_code = line_status(&chars.as_slice()[0..head]);
    proof {
        lemma_first_terminator(reply@);
        if n > 0 {
            lemma_lines_unfold(reply@);
        }
    }
    if n - head <= 2 {
        let payload = String::from_str(reply.substring_char(0, head));
        assert(after_first_line(reply@).len() == 0);
        assert(payload@ =~= payload_of(reply@));
        return AmcpResponse { status_code, payload };
    }
    let mut payload = String::new();
    let mut pos: usize = head + 2;
    loop
        invariant_except_break
            pos < n,
            payload_of(reply@) == payload@ + join_lines(lines(reply@.skip(pos as int))),
        invariant
            n == reply@.len(),
            chars@ == reply@,
        ensures
            payload@ == payload_of(reply@),
        decreases n - pos,
    {
        let ghost rest = reply@.skip(pos as int);
        let end = pos + find_terminator(&chars.as_slice()[pos..n]);
        proof {
            lemma_first_terminator(rest);
            lemma_lines_unfold(rest);
            assert(first_line(rest) =~= reply@.subrange(pos as int, end as int));
            if n - end > 2 {
                assert(after_first_line(rest) =~= reply@.skip(end + 2));
            }
        }
        payload.append(reply.substring_char(pos, end));
        if n - end <= 2 {
            break ;
        }
        proof {
            reveal_strlit("\n");
            assert("\n"@ =~= seq!['\n']);
        }
        payload.append("\n");
        pos = end + 2;
    }
    AmcpResponse { status_code, payload }
}

} // verus!
