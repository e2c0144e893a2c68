//! Deciding when a reply is complete.
//!
//! Replies carry no length. Most are one terminated line; a reply with
//! status [`MULTI_BLOCK_STATUS`] is a status line followed by a second block
//! that ends with a terminator too. The framer gathers what is read and says,
//! after each read, whether to read on.
//!
//! The decision looks at the status of the first line. That line is fixed
//! once its terminator is in ([`lemma_first_line_stable`]), so the status
//! that was read when the text first ended with a terminator is the status
//! of the text ever after, and the framer need not remember it.

use crate::decode::{decode_lossy, lossy_text};
use crate::reply::{extract, extracted, payload_of, AmcpResponse, ResponseView};
use crate::status::{line_status, status_of, status_of_line, MULTI_BLOCK_STATUS};
use crate::text::{
    after_first_line, chars_of, count_terminators, ends_with_line_end, ends_with_terminator,
    find_terminator, first_line, first_terminator, has_terminator, join_lines,
    lemma_ends_with_terminator,
    lemma_first_line_stable, lemma_first_terminator, lemma_lines_of_terminated_line,
    lemma_lines_unfold, lemma_single_terminator, lemma_terminated_line, lines, terminator, terminator_at,
    terminator_count,
};
use vstd::prelude::*;
use vstd::string::StringExecFns;

verus! {

/// Where the reading of one reply stands.
#[derive(Clone, Copy, Debug, PartialEq, Eq, Structural)]
pub enum FramerState {
    /// No complete reply yet.
    Reading,
    /// The status line of a two-block reply is in; its second block is not.
    AwaitingSecondBlock,
    /// The reply is complete.
    Complete,
    /// The connection closed or timed out first; what was gathered is final.
    TimedOut,
}

/// What one read brought.
#[derive(Clone, Debug, PartialEq, Eq)]
pub enum ReadEvent {
    /// Bytes of the reply.
    Data(Vec<u8>),
    /// The connection closed, failed or timed out.
    TimedOut,
    /// Nothing that belongs to the reply.
    Idle,
}

/// A [`ReadEvent`] as a mathematical value.
pub enum ReadEventView {
    Data(Seq<u8>),
    TimedOut,
    Idle,
}

impl View for ReadEvent {
    type V = ReadEventView;

    open spec fn view(&self) -> ReadEventView {
        match self {
            ReadEvent::Data(bytes) => ReadEventView::Data(bytes@),
            ReadEvent::TimedOut => ReadEventView::TimedOut,
            ReadEvent::Idle => ReadEventView::Idle,
        }
    }
}

/// Whether `text` is the status line of a two-block reply and no more: its
/// status is [`MULTI_BLOCK_STATUS`] and it holds a single terminator.
pub open spec fn awaits_second_block(text: Seq<char>) -> bool {
    status_of(text) == MULTI_BLOCK_STATUS && terminator_count(text) == 1
}

/// Whether `text` is a complete reply: it ends with a terminator and is not
/// the status line alone of a two-block reply.
pub open spec fn is_complete_reply(text: Seq<char>) -> bool {
    ends_with_terminator(text) && !awaits_second_block(text)
}

/// A [`ReplyFramer`] as a mathematical value.
pub struct FramerView {
    pub state: FramerState,
    pub text: Seq<char>,
}

impl FramerView {
    /// The framer before anything was read.
    pub open spec fn initial() -> FramerView {
        FramerView { state: FramerState::Reading, text: Seq::empty() }
    }

    /// Whether reading has stopped.
    pub open spec fn is_done(self) -> bool {
        self.state == FramerState::Complete || self.state == FramerState::TimedOut
    }

    /// What holds of every framer. It calls the reply complete exactly when
    /// the text is a complete reply. While it reads on without waiting for a
    /// second block, the text does not end with a terminator. While it waits
    /// for a second block, the text holds the status line that calls for it.
    pub open spec fn consistent(self) -> bool {
        &&& self.state == FramerState::Complete <==> is_complete_reply(self.text)
        &&& self.state == FramerState::Reading ==> !ends_with_terminator(self.text)
        &&& self.state == FramerState::AwaitingSecondBlock ==> has_terminator(self.text)
            && status_of(self.text) == MULTI_BLOCK_STATUS
    }

    /// The framer after `chunk` was read. Text that does not end with a
    /// terminator leaves the state as it is; text that does is either the
    /// status line of a two-block reply, alone, or a complete reply. Once
    /// reading has stopped, nothing changes.
    pub open spec fn after_text(self, chunk: Seq<char>) -> FramerView {
        if self.is_done() {
            self
        } else {
            let text = self.text + chunk;
            let state = if !ends_with_terminator(text) {
                self.state
            } else if awaits_second_block(text) {
                FramerState::AwaitingSecondBlock
            } else {
                FramerState::Complete
            };
            FramerView { state, text }
        }
    }

    /// The framer after the bytes `data` were read: they are decoded
    /// permissively, by themselves, and taken in as text.
    pub open spec fn after_bytes(self, data: Seq<u8>) -> FramerView {
        self.after_text(lossy_text(data))
    }

    /// The framer after the connection closed or timed out: reading stops,
    /// and the text stays.
    pub open spec fn after_timeout(self) -> FramerView {
        if self.is_done() {
            self
        } else {
            FramerView { state: FramerState::TimedOut, text: self.text }
        }
    }

    /// The framer after one read.
    pub open spec fn after_event(self, event: ReadEventView) -> FramerView {
        match event {
            ReadEventView::Data(data) => self.after_bytes(data),
            ReadEventView::TimedOut => self.after_timeout(),
            ReadEventView::Idle => self,
        }
    }

    /// The framer after the pieces `chunks` were read, one after another.
    pub open spec fn after_texts(self, chunks: Seq<Seq<char>>) -> FramerView
        decreases chunks.len(),
    {
        if chunks.len() == 0 {
            self
        } else {
            self.after_text(chunks[0]).after_texts(chunks.drop_first())
        }
    }
}

/// The framer after the pieces `chunks` were read and, where `timed_out`
/// says so, the connection closed or timed out behind them.
pub open spec fn reached(chunks: Seq<Seq<char>>, timed_out: bool) -> FramerView {
    let read = FramerView::initial().after_texts(chunks);
    if timed_out {
        read.after_timeout()
    } else {
        read
    }
}

/// Gathers the text of one reply and decides when it is complete.
#[derive(Debug)]
pub struct ReplyFramer {
    state: FramerState,
    text: String,
}

impl View for ReplyFramer {
    type V = FramerView;

    closed spec fn view(&self) -> FramerView {
        FramerView { state: self.state, text: self.text@ }
    }
}

impl ReplyFramer {
    /// A framer that has read nothing.
    pub fn new() -> (framer: ReplyFramer)
        ensures
            framer@ == FramerView::initial(),
            framer@.consistent(),
    {
        ReplyFramer { state: FramerState::Reading, text: String::new() }
    }

    /// Where the reading stands.
    pub fn state(&self) -> (state: FramerState)
        ensures
            state == self@.state,
    {
        self.state
    }

    /// Whether reading has stopped.
    pub fn is_done(&self) -> (done: bool)
        ensures
            done == self@.is_done(),
    {
        match self.state {
            FramerState::Complete | FramerState::TimedOut => true,
            _ => false,
        }
    }

    /// The text gathered so far; once reading has stopped, the framed reply.
    pub fn text(&self) -> (text: &str)
        ensures
            text@ == self@.text,
    {
        self.text.as_str()
    }

    /// Takes in one more piece of text and decides anew.
    pub fn push_text(&mut self, chunk: &str)
        ensures
            final(self)@ == old(self)@.after_text(chunk@),
            old(self)@.consistent() ==> final(self)@.consistent(),
    {
        proof {
            if self@.consistent() {
                lemma_after_text_consistent(self@, chunk@);
            }
        }
        if self.is_done() {
            return ;
        }
        self.text.append(chunk);
        let chars = chars_of(self.text.as_str());
        if ends_with_line_end(chars.as_slice()) {
            let head = find_terminator(chars.as_slice());
            let status = line_status(&chars.as_slice()[0..head]);
            if status == MULTI_BLOCK_STATUS && count_terminators(chars.as_slice()) == 1 {
                self.state = FramerState::AwaitingSecondBlock;
            } else {
                self.state = FramerState::Complete;
            }
        }
    }

    /// Takes in bytes as they were read, decoded permissively.
    pub fn push_bytes(&mut self, data: &[u8])
        ensures
            final(self)@ == old(self)@.after_bytes(data@),
            old(self)@.consistent() ==> final(self)@.consistent(),
    {
        let chunk = decode_lossy(data);
        self.push_text(chunk.as_str());
    }

    /// Takes note that the connection closed or timed out.
    pub fn time_out(&mut self)
        ensures
            final(self)@ == old(self)@.after_timeout(),
            old(self)@.consistent() ==> final(self)@.consistent(),
    {
        if !self.is_done() {
            self.state = FramerState::TimedOut;
        }
    }

    /// Takes in what one read brought.
    pub fn on_event(&mut self, event: &ReadEvent)
        ensures
            final(self)@ == old(self)@.after_event(event@),
            old(self)@.consistent() ==> final(self)@.consistent(),
    {
        match event {
            ReadEvent::Data(data) => self.push_bytes(data.as_slice()),
            ReadEvent::TimedOut => self.time_out(),
            ReadEvent::Idle => {},
        }
    }

    /// Status and payload of the text gathered.
    pub fn response(&self) -> (r: AmcpResponse)
        ensures
            r@ == extracted(self@.text),
    {
        extract(self.text.as_str())
    }
}

/// A framer that has read nothing is consistent.
pub proof fn lemma_initial_consistent()
    ensures
        FramerView::initial().consistent(),
{
}

/// Reading text keeps a framer consistent.
pub proof fn lemma_after_text_consistent(v: FramerView, chunk: Seq<char>)
    requires
        v.consistent(),
    ensures
        v.after_text(chunk).consistent(),
{
    if !v.is_done() {
        let text = v.text + chunk;
        if v.state == FramerState::AwaitingSecondBlock {
            lemma_first_line_stable(v.text, chunk);
        }
        if ends_with_terminator(text) {
            lemma_ends_with_terminator(text);
        }
    }
}

/// Whatever a read brings, the framer stays consistent.
pub proof fn lemma_after_event_consistent(v: FramerView, event: ReadEventView)
    requires
        v.consistent(),
    ensures
        v.after_event(event).consistent(),
{
    match event {
        ReadEventView::Data(data) => lemma_after_text_consistent(v, lossy_text(data)),
        _ => {},
    }
}

/// Reading pieces of text keeps a framer consistent.
pub proof fn lemma_after_texts_consistent(v: FramerView, chunks: Seq<Seq<char>>)
    requires
        v.consistent(),
    ensures
        v.after_texts(chunks).consistent(),
    decreases chunks.len(),
{
    if chunks.len() > 0 {
        lemma_after_text_consistent(v, chunks[0]);
        lemma_after_texts_consistent(v.after_text(chunks[0]), chunks.drop_first());
    }
}

/// Whatever was read, with or without a time-out behind it, the framer is
/// consistent.
pub proof fn lemma_reached_is_consistent(chunks: Seq<Seq<char>>, timed_out: bool)
    ensures
        reached(chunks, timed_out).consistent(),
{
    lemma_after_texts_consistent(FramerView::initial(), chunks);
}

/// Reading one piece, and reading two.
proof fn lemma_after_few_texts(v: FramerView, a: Seq<char>, b: Seq<char>)
    ensures
        v.after_texts(seq![a]) == v.after_text(a),
        v.after_texts(seq![a, b]) == v.after_text(a).after_text(b),
{
    let one = seq![a];
    let two = seq![a, b];
    assert(one.drop_first() =~= Seq::<Seq<char>>::empty());
    assert(two.drop_first() =~= seq![b]);
    assert(seq![b].drop_first() =~= Seq::<Seq<char>>::empty());
    assert(v.after_texts(one) == v.after_text(a).after_texts(one.drop_first()));
    assert(v.after_text(a).after_texts(seq![b]) == v.after_text(a).after_text(b).after_texts(
        seq![b].drop_first(),
    ));
}

/// Consistency is all that holds of every framer: each consistent state is
/// what some reads, with or without a time-out behind them, lead to.
pub proof fn lemma_consistent_is_reached(v: FramerView)
    requires
        v.consistent(),
    ensures
        exists|chunks: Seq<Seq<char>>, timed_out: bool|
            v == #[trigger] reached(chunks, timed_out),
{
    let empty = Seq::<char>::empty();
    let start = FramerView::initial();
    let timed_out = v.state == FramerState::TimedOut;
    let waits = v.state == FramerState::AwaitingSecondBlock || (timed_out && ends_with_terminator(
        v.text,
    ));
    assert(empty + v.text =~= v.text);
    if waits {
        // The status line first, and what follows it as a second piece.
        if ends_with_terminator(v.text) {
            lemma_ends_with_terminator(v.text);
        }
        lemma_first_terminator(v.text);
        let line = first_line(v.text);
        let head = line + terminator();
        let rest = after_first_line(v.text);
        assert(head + rest =~= v.text);
        assert(empty + head =~= head);
        assert(head =~= line + terminator() + empty);
        lemma_first_terminator(line);
        if has_terminator(line) {
            assert(terminator_at(v.text, first_terminator(line)));
        }
        lemma_terminated_line(line, empty);
        lemma_single_terminator(head);
        lemma_after_few_texts(start, head, rest);
        assert(start.after_text(head).after_text(rest).text =~= v.text);
        assert(v == reached(seq![head, rest], timed_out));
    } else {
        lemma_after_few_texts(start, v.text, empty);
        assert(v == reached(seq![v.text], timed_out));
    }
}

/// Once reading has stopped, nothing that is read changes the framer.
pub proof fn lemma_done_is_final(v: FramerView, event: ReadEventView)
    requires
        v.is_done(),
    ensures
        v.after_event(event) == v,
{
}

/// Once reading has stopped, no text that is read changes the framer.
pub proof fn lemma_after_texts_when_done(v: FramerView, chunks: Seq<Seq<char>>)
    requires
        v.is_done(),
    ensures
        v.after_texts(chunks) == v,
    decreases chunks.len(),
{
    if chunks.len() > 0 {
        lemma_after_texts_when_done(v, chunks.drop_first());
    }
}

/// A reply of one terminated line whose status is not the two-block status is
/// complete as soon as it is read, and that line is its payload.
pub proof fn lemma_single_line_reply(line: Seq<char>)
    requires
        !has_terminator(line),
        status_of_line(line) != MULTI_BLOCK_STATUS,
    ensures
        FramerView::initial().after_text(line + terminator()) == (FramerView {
            state: FramerState::Complete,
            text: line + terminator(),
        }),
        extracted(line + terminator()) == (ResponseView {
            status_code: status_of_line(line),
            payload: line,
        }),
{
    let empty = Seq::<char>::empty();
    let reply = line + terminator();
    assert(empty + reply =~= reply);
    assert(reply =~= line + terminator() + empty);
    lemma_terminated_line(line, empty);
    lemma_lines_of_terminated_line(line, empty);
    assert(lines(reply) =~= seq![line]);
}

/// A two-block reply read block by block: after the status line `head` the
/// framer waits, after the block it is complete, and the payload is the
/// block. Read in one piece the reply is complete at once.
pub proof fn lemma_two_block_reply(head: Seq<char>, block: Seq<char>)
    requires
        !has_terminator(head),
        !has_terminator(block),
        status_of_line(head) == MULTI_BLOCK_STATUS,
    ensures
        FramerView::initial().after_text(head + terminator()) == (FramerView {
            state: FramerState::AwaitingSecondBlock,
            text: head + terminator(),
        }),
        FramerView::initial().after_text(head + terminator()).after_text(block + terminator())
            == (FramerView {
            state: FramerState::Complete,
            text: head + terminator() + block + terminator(),
        }),
        FramerView::initial().after_text(head + terminator() + block + terminator()) == (
        FramerView {
            state: FramerState::Complete,
            text: head + terminator() + block + terminator(),
        }),
        extracted(head + terminator() + block + terminator()) == (ResponseView {
            status_code: MULTI_BLOCK_STATUS,
            payload: block,
        }),
{
    let empty = Seq::<char>::empty();
    let first = head + terminator();
    let second = block + terminator();
    let both = head + terminator() + block + terminator();
    assert(empty + first =~= first);
    assert(empty + both =~= both);
    assert(first + second =~= both);
    assert(first =~= head + terminator() + empty);
    assert(second =~= block + terminator() + empty);
    assert(both =~= head + terminator() + second);
    // The status is that of `head`, with one terminator or with two.
    lemma_terminated_line(head, empty);
    lemma_terminated_line(head, second);
    lemma_single_terminator(first);
    lemma_single_terminator(both);
    // The lines are `head` and `block`.
    lemma_lines_of_terminated_line(head, second);
    lemma_lines_of_terminated_line(block, empty);
    assert(lines(both) =~= seq![head, block]);
    assert(lines(both).drop_first() =~= seq![block]);
}

/// A reply with the two-block status is never complete with its status line
/// alone: a framer that calls it complete holds a second terminator, and with
/// it the second block, which is where the payload starts.
pub proof fn lemma_complete_holds_second_block(v: FramerView)
    requires
        v.consistent(),
        v.state == FramerState::Complete,
        status_of(v.text) == MULTI_BLOCK_STATUS,
    ensures
        terminator_count(v.text) >= 2,
        after_first_line(v.text).len() > 0,
        lines(v.text).len() >= 2,
        payload_of(v.text) == join_lines(lines(after_first_line(v.text))),
{
    lemma_single_terminator(v.text);
    lemma_first_terminator(v.text);
    lemma_lines_unfold(v.text);
}

/// The status of what a framer has gathered is the status of everything that
/// was read, whatever the pieces it came in.
pub proof fn lemma_status_of_gathered_text(v: FramerView, chunks: Seq<Seq<char>>)
    requires
        v.consistent(),
        v.state != FramerState::TimedOut,
    ensures
        status_of(v.after_texts(chunks).text) == status_of(v.text + chunks.flatten()),
    decreases chunks.len(),
{
    if chunks.len() == 0 {
        assert(v.text + chunks.flatten() =~= v.text);
    } else {
        let next = v.after_text(chunks[0]);
        let rest = chunks.drop_first();
        lemma_after_text_consistent(v, chunks[0]);
        lemma_status_of_gathered_text(next, rest);
        if v.state == FramerState::Complete {
            lemma_ends_with_terminator(v.text);
            lemma_first_line_stable(v.text, rest.flatten());
            lemma_first_line_stable(v.text, chunks.flatten());
        } else {
            assert(v.text + chunks[0] + rest.flatten() =~= v.text + chunks.flatten());
        }
    }
}

/// The same text yields the same status however the reads split it: two
/// sequences of pieces that make up one text leave framers whose texts have
/// one status, that of the whole text.
pub proof fn lemma_status_of_reads(a: Seq<Seq<char>>, b: Seq<Seq<char>>)
    requires
        a.flatten() == b.flatten(),
    ensures
        status_of(FramerView::initial().after_texts(a).text) == status_of(a.flatten()),
        status_of(FramerView::initial().after_texts(b).text) == status_of(a.flatten()),
{
    let start = FramerView::initial();
    lemma_status_of_gathered_text(start, a);
    lemma_status_of_gathered_text(start, b);
    assert(start.text + a.flatten() =~= a.flatten());
    assert(start.text + b.flatten() =~= b.flatten());
}

} // verus!
