//! One request, from the command to the response.
//!
//! The bridge itself touches no socket. It says what to do next, takes in
//! what came of it, and ends with the response: connect, write the command,
//! read until the reply is framed, answer.

use crate::decode::{lemma_lossy_text_of_encoding, lossy_text};
use crate::framer::{
    is_complete_reply, lemma_after_event_consistent, lemma_after_texts_when_done,
    lemma_single_line_reply, lemma_status_of_reads, lemma_two_block_reply, FramerView, ReadEvent,
    ReadEventView, ReplyFramer,
};
use crate::reply::{
    connection_failed_view, extracted, lemma_empty_reply, send_failed_view, AmcpResponse,
    ResponseView,
};
use crate::status::{
    decimal_value, digits_of, leading_token, lemma_run_length_is, status_of, status_of_line,
    DEFAULT_STATUS, GATEWAY_FAILURE_STATUS, MULTI_BLOCK_STATUS,
};
use crate::text::{has_terminator, lemma_first_terminator_is, terminator};
use vstd::prelude::*;
use vstd::string::StrSliceExecFns;
use vstd::utf8::encode_utf8;

verus! {

/// The bytes that carry `command` over the wire: its UTF-8 encoding, then the
/// terminator.
pub open spec fn wire_bytes(command: Seq<char>) -> Seq<u8> {
    encode_utf8(command) + seq![0x0Du8, 0x0Au8]
}

/// Encodes `command` for the wire. Nothing of the command is changed or
/// checked; the terminator is added behind it, whatever it holds.
pub fn wire_command(command: &str) -> (bytes: Vec<u8>)
    ensures
        bytes@ == wire_bytes(command@),
{
    let mut bytes = command.as_bytes_vec();
    bytes.push(0x0D);
    bytes.push(0x0A);
    assert(bytes@ =~= wire_bytes(command@));
    bytes
}

/// What the transport reports back to the bridge.
#[derive(Clone, Debug, PartialEq, Eq)]
pub enum BridgeEvent {
    /// The connection is open.
    Connected,
    /// The connection could not be opened.
    ConnectFailed,
    /// The command was written in full.
    Sent,
    /// The command could not be written.
    SendFailed,
    /// A read returned.
    Read(ReadEvent),
}

/// A [`BridgeEvent`] as a mathematical value.
pub enum BridgeEventView {
    Connected,
    ConnectFailed,
    Sent,
    SendFailed,
    Read(ReadEventView),
}

impl View for BridgeEvent {
    type V = BridgeEventView;

    open spec fn view(&self) -> BridgeEventView {
        match self {
            BridgeEvent::Connected => BridgeEventView::Connected,
            BridgeEvent::ConnectFailed => BridgeEventView::ConnectFailed,
            BridgeEvent::Sent => BridgeEventView::Sent,
            BridgeEvent::SendFailed => BridgeEventView::SendFailed,
            BridgeEvent::Read(event) => BridgeEventView::Read(event@),
        }
    }
}

/// What the bridge asks of the transport next.
#[derive(Clone, Debug, PartialEq, Eq)]
pub enum Action {
    /// Open a connection to `host` and `port`.
    Connect { host: String, port: u16 },
    /// Write `bytes` to the connection.
    Send { bytes: Vec<u8> },
    /// Read from the connection.
    Read,
    /// Close the connection and hand `response` to the caller.
    Reply { response: AmcpResponse },
}

/// An [`Action`] as a mathematical value.
pub enum ActionView {
    Connect { host: Seq<char>, port: u16 },
    Send { bytes: Seq<u8> },
    Read,
    Reply { response: ResponseView },
}

impl View for Action {
    type V = ActionView;

    open spec fn view(&self) -> ActionView {
        match self {
            Action::Connect { host, port } => ActionView::Connect { host: host@, port: *port },
            Action::Send { bytes } => ActionView::Send { bytes: bytes@ },
            Action::Read => ActionView::Read,
            Action::Reply { response } => ActionView::Reply { response: response@ },
        }
    }
}

/// The state of one request.
pub enum Bridge {
    /// Nothing is open yet.
    Connecting { host: String, port: u16, command: String },
    /// The connection is open and the command is to be written.
    Sending { command: String },
    /// The command is out and the reply is being read.
    Receiving { framer: ReplyFramer },
    /// The request has its response.
    Done { response: AmcpResponse },
}

/// A [`Bridge`] as a mathematical value.
pub enum BridgeView {
    Connecting { host: Seq<char>, port: u16, command: Seq<char> },
    Sending { command: Seq<char> },
    Receiving { framer: FramerView },
    Done { response: ResponseView },
}

impl View for Bridge {
    type V = BridgeView;

    open spec fn view(&self) -> BridgeView {
        match self {
            Bridge::Connecting { host, port, command } => BridgeView::Connecting {
                host: host@,
                port: *port,
                command: command@,
            },
            Bridge::Sending { command } => BridgeView::Sending { command: command@ },
            Bridge::Receiving { framer } => BridgeView::Receiving { framer: framer@ },
            Bridge::Done { response } => BridgeView::Done { response: response@ },
        }
    }
}

impl BridgeView {
    /// The request before anything was done for it.
    pub open spec fn initial(command: Seq<char>, host: Seq<char>, port: u16) -> BridgeView {
        BridgeView::Connecting { host, port, command }
    }

    /// What holds of every request: while it reads, its framer is consistent
    /// and has not stopped.
    pub open spec fn consistent(self) -> bool {
        self matches BridgeView::Receiving { framer } ==> framer.consistent() && !framer.is_done()
    }

    /// What the transport is to do in this state.
    pub open spec fn action(self) -> ActionView {
        match self {
            BridgeView::Connecting { host, port, command } => ActionView::Connect { host, port },
            BridgeView::Sending { command } => ActionView::Send { bytes: wire_bytes(command) },
            BridgeView::Receiving { framer } => ActionView::Read,
            BridgeView::Done { response } => ActionView::Reply { response },
        }
    }

    /// The state after the transport reported `event`. A failure to connect
    /// or to write ends the request at once; a read goes to the framer, and
    /// the request ends when the framer stops. A report that does not answer
    /// the action of this state changes nothing.
    pub open spec fn after(self, event: BridgeEventView) -> BridgeView {
        match (self, event) {
            (BridgeView::Connecting { host, port, command }, BridgeEventView::Connected) => {
                BridgeView::Sending { command }
            },
            (BridgeView::Connecting { host, port, command }, BridgeEventView::ConnectFailed) => {
                BridgeView::Done { response: connection_failed_view() }
            },
            (BridgeView::Sending { command }, BridgeEventView::Sent) => BridgeView::Receiving {
                framer: FramerView::initial(),
            },
            (BridgeView::Sending { command }, BridgeEventView::SendFailed) => BridgeView::Done {
                response: send_failed_view(),
            },
            (BridgeView::Receiving { framer }, BridgeEventView::Read(read)) => {
                let next = framer.after_event(read);
                if next.is_done() {
                    BridgeView::Done { response: extracted(next.text) }
                } else {
                    BridgeView::Receiving { framer: next }
                }
            },
            _ => self,
        }
    }

    /// The state after the transport reported `events`, one after another.
    pub open spec fn run(self, events: Seq<BridgeEventView>) -> BridgeView
        decreases events.len(),
    {
        if events.len() == 0 {
            self
        } else {
            self.after(events[0]).run(events.drop_first())
        }
    }
}

/// The reports of reads that brought the pieces `chunks`, in their order.
pub open spec fn data_reads(chunks: Seq<Seq<u8>>) -> Seq<BridgeEventView> {
    Seq::new(chunks.len(), |i: int| BridgeEventView::Read(ReadEventView::Data(chunks[i])))
}

/// The texts that the pieces `chunks` decode to, in their order.
pub open spec fn decoded(chunks: Seq<Seq<u8>>) -> Seq<Seq<char>> {
    Seq::new(chunks.len(), |i: int| lossy_text(chunks[i]))
}

impl Bridge {
    /// A request to send `command` to `host` and `port`.
    pub fn new(command: String, host: String, port: u16) -> (bridge: Bridge)
        ensures
            bridge@ == BridgeView::initial(command@, host@, port),
            bridge@.consistent(),
    {
        Bridge::Connecting { host, port, command }
    }

    /// What the transport is to do next.
    pub fn action(&self) -> (action: Action)
        ensures
            action@ == self@.action(),
    {
        match self {
            Bridge::Connecting { host, port, command } => Action::Connect {
                host: host.clone(),
                port: *port,
            },
            Bridge::Sending { command } => Action::Send { bytes: wire_command(command.as_str()) },
            Bridge::Receiving { framer } => Action::Read,
            Bridge::Done { response } => Action::Reply {
                response: AmcpResponse {
                    status_code: response.status_code,
                    payload: response.payload.clone(),
                },
            },
        }
    }

    /// Takes in what the transport reported and moves on.
    pub fn step(self, event: BridgeEvent) -> (next: Bridge)
        ensures
            next@ == self@.after(event@),
            self@.consistent() ==> next@.consistent(),
    {
        proof {
            if self@.consistent() {
                lemma_after_consistent(self@, event@);
            }
        }
        match self {
            Bridge::Connecting { host, port, command } => match event {
                BridgeEvent::Connected => Bridge::Sending { command },
                BridgeEvent::ConnectFailed => Bridge::Done {
                    response: AmcpResponse::connection_failed(),
                },
                _ => Bridge::Connecting { host, port, command },
            },
            Bridge::Sending { command } => match event {
                BridgeEvent::Sent => Bridge::Receiving { framer: ReplyFramer::new() },
                BridgeEvent::SendFailed => Bridge::Done { response: AmcpResponse::send_failed() },
                _ => Bridge::Sending { command },
            },
            Bridge::Receiving { framer } => match event {
                BridgeEvent::Read(read) => {
                    let mut framer = framer;
                    framer.on_event(&read);
                    if framer.is_done() {
                        Bridge::Done { response: framer.response() }
                    } else {
                        Bridge::Receiving { framer }
                    }
                },
                _ => Bridge::Receiving { framer },
            },
            Bridge::Done { response } => Bridge::Done { response },
        }
    }

    /// The response, once the request has one.
    pub fn response(&self) -> (response: Option<&AmcpResponse>)
        ensures
            match self@ {
                BridgeView::Done { response: r } => response matches Some(found) && found@ == r,
                _ => response is None,
            },
    {
        match self {
            Bridge::Done { response } => Some(response),
            _ => None,
        }
    }
}

/// Whatever the transport reports, the request stays consistent.
pub proof fn lemma_after_consistent(state: BridgeView, event: BridgeEventView)
    requires
        state.consistent(),
    ensures
        state.after(event).consistent(),
{
    match (state, event) {
        (BridgeView::Receiving { framer }, BridgeEventView::Read(read)) => {
            lemma_after_event_consistent(framer, read);
        },
        _ => {},
    }
}

/// A request asks for a read only while its reply is incomplete.
pub proof fn lemma_reads_while_incomplete(state: BridgeView)
    requires
        state.consistent(),
        state.action() is Read,
    ensures
        state matches BridgeView::Receiving { framer } && !is_complete_reply(framer.text),
{
}

/// Where the connection cannot be opened, the request ends with status 502
/// and the payload `connection failed`, whatever the command.
pub proof fn lemma_connect_failure(command: Seq<char>, host: Seq<char>, port: u16)
    ensures
        BridgeView::initial(command, host, port).after(BridgeEventView::ConnectFailed) == (
        BridgeView::Done {
            response: ResponseView {
                status_code: GATEWAY_FAILURE_STATUS,
                payload: "connection failed"@,
            },
        }),
{
}

/// Where the command cannot be written, the request ends with status 502 and
/// the payload `send failed`, whatever the command.
pub proof fn lemma_send_failure(command: Seq<char>, host: Seq<char>, port: u16)
    ensures
        BridgeView::initial(command, host, port).after(BridgeEventView::Connected).after(
            BridgeEventView::SendFailed,
        ) == (BridgeView::Done {
            response: ResponseView { status_code: GATEWAY_FAILURE_STATUS, payload: "send failed"@ },
        }),
{
}

/// A request has one response: once it is there, no report changes it.
pub proof fn lemma_response_is_final(state: BridgeView, event: BridgeEventView)
    requires
        state is Done,
    ensures
        state.after(event) == state,
{
}

/// Every command goes out whole, with the terminator behind it; the empty
/// command goes out as the terminator alone.
pub proof fn lemma_command_is_forwarded(command: Seq<char>, host: Seq<char>, port: u16)
    ensures
        BridgeView::initial(command, host, port).after(BridgeEventView::Connected).action() == (
        ActionView::Send { bytes: encode_utf8(command) + seq![0x0Du8, 0x0Au8] }),
        wire_bytes(Seq::empty()) == seq![0x0Du8, 0x0Au8],
{
    assert(encode_utf8(Seq::empty()) =~= Seq::<u8>::empty());
    assert(wire_bytes(Seq::empty()) =~= seq![0x0Du8, 0x0Au8]);
}

/// A request that has its response keeps it through any reports.
pub proof fn lemma_run_when_done(state: BridgeView, events: Seq<BridgeEventView>)
    requires
        state is Done,
    ensures
        state.run(events) == state,
    decreases events.len(),
{
    if events.len() > 0 {
        lemma_run_when_done(state, events.drop_first());
    }
}

/// A time-out while the reply is read ends the request: it has a response
/// then, made of what was read.
pub proof fn lemma_time_out_ends_request(framer: FramerView)
    ensures
        (BridgeView::Receiving { framer }).after(BridgeEventView::Read(ReadEventView::TimedOut))
            == (BridgeView::Done { response: extracted(framer.text) }),
{
}

/// Reads that bring data and then a time-out end the request with the
/// response that the framer draws from the decoded pieces.
pub proof fn lemma_reads_until_time_out(framer: FramerView, chunks: Seq<Seq<u8>>)
    requires
        !framer.is_done(),
    ensures
        (BridgeView::Receiving { framer }).run(
            data_reads(chunks).push(BridgeEventView::Read(ReadEventView::TimedOut)),
        ) == (BridgeView::Done {
            response: extracted(framer.after_texts(decoded(chunks)).text),
        }),
    decreases chunks.len(),
{
    let state = BridgeView::Receiving { framer };
    let time_out = BridgeEventView::Read(ReadEventView::TimedOut);
    let events = data_reads(chunks).push(time_out);
    if chunks.len() == 0 {
        assert(events.drop_first() =~= Seq::<BridgeEventView>::empty());
        assert(state.run(events) == state.after(time_out).run(events.drop_first()));
    } else {
        let rest = chunks.drop_first();
        let next = framer.after_text(lossy_text(chunks[0]));
        assert(events[0] == BridgeEventView::Read(ReadEventView::Data(chunks[0])));
        assert(events.drop_first() =~= data_reads(rest).push(time_out));
        assert(decoded(chunks)[0] == lossy_text(chunks[0]));
        assert(decoded(chunks).drop_first() =~= decoded(rest));
        if next.is_done() {
            lemma_run_when_done(state.after(events[0]), events.drop_first());
            lemma_after_texts_when_done(next, decoded(rest));
        } else {
            lemma_reads_until_time_out(next, rest);
        }
    }
}

/// The status of the response depends on the text of the reply alone, not on
/// the reads that brought it: where two runs of reads decode to one text, the
/// two responses have one status, that of the text.
pub proof fn lemma_status_independent_of_reads(a: Seq<Seq<u8>>, b: Seq<Seq<u8>>)
    requires
        decoded(a).flatten() == decoded(b).flatten(),
    ensures
        ({
            let start = BridgeView::Receiving { framer: FramerView::initial() };
            let time_out = BridgeEventView::Read(ReadEventView::TimedOut);
            let end_a = start.run(data_reads(a).push(time_out));
            let end_b = start.run(data_reads(b).push(time_out));
            &&& end_a matches BridgeView::Done { response: response_a }
            &&& end_b matches BridgeView::Done { response: response_b }
            &&& response_a.status_code == response_b.status_code
            &&& response_a.status_code == status_of(decoded(a).flatten())
        }),
{
    let start = FramerView::initial();
    lemma_reads_until_time_out(start, a);
    lemma_reads_until_time_out(start, b);
    lemma_status_of_reads(decoded(a), decoded(b));
}

/// A reply of two blocks that comes block by block: the request is still
/// reading after the status line `head`, and after `block` it has its
/// response, with the block as the payload.
pub proof fn lemma_two_block_request(head: Seq<char>, block: Seq<char>)
    requires
        !has_terminator(head),
        !has_terminator(block),
        status_of_line(head) == MULTI_BLOCK_STATUS,
    ensures
        ({
            let start = BridgeView::Receiving { framer: FramerView::initial() };
            let first = BridgeEventView::Read(
                ReadEventView::Data(encode_utf8(head + terminator())),
            );
            let second = BridgeEventView::Read(
                ReadEventView::Data(encode_utf8(block + terminator())),
            );
            &&& start.after(first) is Receiving
            &&& start.after(first).after(second) == (BridgeView::Done {
                response: ResponseView { status_code: MULTI_BLOCK_STATUS, payload: block },
            })
        }),
{
    lemma_lossy_text_of_encoding(head + terminator());
    lemma_lossy_text_of_encoding(block + terminator());
    lemma_two_block_reply(head, block);
}

/// The status of the line `200 OK` is 200.
proof fn lemma_status_of_ok_line()
    ensures
        !has_terminator("200 OK"@),
        status_of_line("200 OK"@) == 200,
{
    reveal_strlit("200 OK");
    let line = "200 OK"@;
    lemma_first_terminator_is(line, 6);
    lemma_run_length_is(line, true, 0);
    assert(line.skip(0) =~= line);
    lemma_run_length_is(line, false, 3);
    let token = leading_token(line);
    assert(token =~= seq!['2', '0', '0']);
    assert(digits_of(token) == token);
    reveal_with_fuel(decimal_value, 4);
    assert(token.drop_last() =~= seq!['2', '0']);
    assert(token.drop_last().drop_last() =~= seq!['2']);
    assert(token.drop_last().drop_last().drop_last() =~= Seq::<char>::empty());
    assert(decimal_value(token) == 200);
}

/// Where the connection opens, the command goes out and the reply is the one
/// line `200 OK`, the response has status 200 and the payload `200 OK`,
/// whatever the command.
pub proof fn lemma_ok_reply(command: Seq<char>, host: Seq<char>, port: u16)
    ensures
        BridgeView::initial(command, host, port).after(BridgeEventView::Connected).after(
            BridgeEventView::Sent,
        ).after(BridgeEventView::Read(ReadEventView::Data(encode_utf8("200 OK\r\n"@)))) == (
        BridgeView::Done { response: ResponseView { status_code: 200, payload: "200 OK"@ } }),
{
    reveal_strlit("200 OK");
    reveal_strlit("200 OK\r\n");
    let line = "200 OK"@;
    let reply = "200 OK\r\n"@;
    assert(reply =~= line + terminator());
    lemma_status_of_ok_line();
    lemma_single_line_reply(line);
    lemma_lossy_text_of_encoding(reply);
}

/// Where the connection closes or times out before anything was read, the
/// response has the default status and an empty payload.
pub proof fn lemma_silent_reply(command: Seq<char>, host: Seq<char>, port: u16)
    ensures
        BridgeView::initial(command, host, port).after(BridgeEventView::Connected).after(
            BridgeEventView::Sent,
        ).after(BridgeEventView::Read(ReadEventView::TimedOut)) == (BridgeView::Done {
            response: ResponseView { status_code: DEFAULT_STATUS, payload: Seq::empty() },
        }),
{
    lemma_empty_reply();
}

} // verus!
