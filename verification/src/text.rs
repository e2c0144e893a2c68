//! Line structure of reply text.
//!
//! The control protocol ends every line with the two characters `"\r\n"`.
//! This module says, over sequences of characters, where terminators stand
//! and which lines they delimit, and offers the scans that find them.

use vstd::prelude::*;

verus! {

/// The terminator as text.
pub open spec fn terminator() -> Seq<char> {
    seq!['\r', '\n']
}

/// Whether a terminator starts at position `i` of `s`.
pub open spec fn terminator_at(s: Seq<char>, i: int) -> bool {
    0 <= i && i + 1 < s.len() && s[i] == '\r' && s[i + 1] == '\n'
}

/// Whether the last two characters of `s` are a terminator.
pub open spec fn ends_with_terminator(s: Seq<char>) -> bool {
    terminator_at(s, s.len() - 2)
}

/// Number of terminators in `s`.
pub open spec fn terminator_count(s: Seq<char>) -> nat
    decreases s.len(),
{
    if s.len() == 0 {
        0
    } else {
        terminator_count(s.drop_last()) + if ends_with_terminator(s) {
            1nat
        } else {
            0nat
        }
    }
}

/// Position of the first terminator of `s`, or `s.len()` where `s` has none.
pub open spec fn first_terminator(s: Seq<char>) -> int
    decreases s.len(),
{
    if s.len() == 0 || terminator_at(s, 0) {
        0
    } else {
        1 + first_terminator(s.drop_first())
    }
}

/// Whether `s` holds at least one terminator.
pub open spec fn has_terminator(s: Seq<char>) -> bool {
    first_terminator(s) < s.len()
}

/// The text before the first terminator; all of `s` where it has none.
pub open spec fn first_line(s: Seq<char>) -> Seq<char> {
    s.take(first_terminator(s))
}

/// The text behind the first terminator; empty where `s` has none.
pub open spec fn after_first_line(s: Seq<char>) -> Seq<char> {
    let i = first_terminator(s);
    if 0 <= i && i + 2 <= s.len() {
        s.skip(i + 2)
    } else {
        Seq::empty()
    }
}

/// The lines of `s`: the pieces between terminators. A terminator at the very
/// end closes the last line and opens no further one, so the empty text has
/// no line at all. A lone `'\r'` or `'\n'` is part of its line.
pub open spec fn lines(s: Seq<char>) -> Seq<Seq<char>>
    decreases s.len(),
{
    if s.len() == 0 {
        Seq::empty()
    } else {
        seq![first_line(s)] + lines(after_first_line(s))
    }
}

/// The lines `ls` written one after another with a single `'\n'` between
/// neighbours.
pub open spec fn join_lines(ls: Seq<Seq<char>>) -> Seq<char>
    decreases ls.len(),
{
    if ls.len() == 0 {
        Seq::empty()
    } else if ls.len() == 1 {
        ls[0]
    } else {
        ls[0] + seq!['\n'] + join_lines(ls.drop_first())
    }
}

/// `first_terminator` is in range, points at a terminator unless it is
/// `s.len()`, and no terminator stands before it.
pub proof fn lemma_first_terminator(s: Seq<char>)
    ensures
        0 <= first_terminator(s) <= s.len(),
        has_terminator(s) ==> terminator_at(s, first_terminator(s)),
        has_terminator(s) ==> first_terminator(s) + 2 <= s.len(),
        forall|j: int| j < first_terminator(s) ==> !terminator_at(s, j),
    decreases s.len(),
{
    if s.len() == 0 || terminator_at(s, 0) {
    } else {
        let t = s.drop_first();
        lemma_first_terminator(t);
        assert forall|j: int| j < first_terminator(s) implies !terminator_at(s, j) by {
            if 0 < j {
                assert(terminator_at(t, j - 1) == terminator_at(s, j));
            }
        }
        if has_terminator(s) {
            assert(terminator_at(t, first_terminator(t)) == terminator_at(
                s,
                first_terminator(t) + 1,
            ));
        }
    }
}

/// A position that is free of terminators before it, and is itself a
/// terminator or the end of `s`, is the first terminator.
pub proof fn lemma_first_terminator_is(s: Seq<char>, i: int)
    requires
        0 <= i <= s.len(),
        forall|j: int| 0 <= j < i ==> !terminator_at(s, j),
        i < s.len() ==> terminator_at(s, i),
    ensures
        first_terminator(s) == i,
{
    lemma_first_terminator(s);
    let f = first_terminator(s);
    if f < i {
        assert(terminator_at(s, f));
    } else if i < f {
        assert(terminator_at(s, i));
    }
}

/// Text appended behind a terminator leaves the first line as it is.
pub proof fn lemma_first_line_stable(s: Seq<char>, t: Seq<char>)
    requires
        has_terminator(s),
    ensures
        first_terminator(s + t) == first_terminator(s),
        has_terminator(s + t),
        first_line(s + t) == first_line(s),
{
    lemma_first_terminator(s);
    let i = first_terminator(s);
    let u = s + t;
    assert forall|j: int| 0 <= j < i implies !terminator_at(u, j) by {
        assert(terminator_at(u, j) == terminator_at(s, j));
    }
    assert(terminator_at(u, i));
    lemma_first_terminator_is(u, i);
    assert(u.take(i) =~= s.take(i));
}

/// A text has no terminator exactly when its count of terminators is zero.
pub proof fn lemma_terminator_count_zero(s: Seq<char>)
    ensures
        terminator_count(s) == 0 <==> !has_terminator(s),
    decreases s.len(),
{
    lemma_first_terminator(s);
    if s.len() > 0 {
        let d = s.drop_last();
        lemma_terminator_count_zero(d);
        lemma_first_terminator(d);
        if has_terminator(d) {
            assert(terminator_at(s, first_terminator(d)));
        }
        if has_terminator(s) && !ends_with_terminator(s) {
            let i = first_terminator(s);
            assert(terminator_at(d, i));
            assert forall|j: int| 0 <= j < i implies !terminator_at(d, j) by {
                assert(terminator_at(d, j) ==> terminator_at(s, j));
            }
            lemma_first_terminator_is(d, i);
        }
    }
}

/// A text that ends with a terminator holds exactly one terminator if and only
/// if that last one is also its first.
pub proof fn lemma_single_terminator(s: Seq<char>)
    requires
        ends_with_terminator(s),
    ensures
        terminator_count(s) >= 1,
        terminator_count(s) == 1 <==> first_terminator(s) == s.len() - 2,
{
    let d = s.drop_last();
    lemma_terminator_count_zero(d);
    lemma_first_terminator(d);
    lemma_first_terminator(s);
    let n = s.len() as int;
    if has_terminator(d) {
        let i = first_terminator(d);
        assert(terminator_at(s, i));
        assert(i < n - 2);
    } else {
        assert forall|j: int| 0 <= j < n - 2 implies !terminator_at(s, j) by {
            assert(terminator_at(s, j) ==> terminator_at(d, j));
        }
        lemma_first_terminator_is(s, n - 2);
    }
}

/// A text that ends with a terminator holds one.
pub proof fn lemma_ends_with_terminator(s: Seq<char>)
    requires
        ends_with_terminator(s),
    ensures
        has_terminator(s),
        first_terminator(s) <= s.len() - 2,
{
    lemma_first_terminator(s);
}

/// A line without a terminator in it, closed by one, is the first line of
/// whatever text it opens, and the text behind that terminator is the rest.
pub proof fn lemma_terminated_line(head: Seq<char>, rest: Seq<char>)
    requires
        !has_terminator(head),
    ensures
        first_terminator(head + terminator() + rest) == head.len(),
        has_terminator(head + terminator() + rest),
        first_line(head + terminator() + rest) == head,
        after_first_line(head + terminator() + rest) == rest,
{
    let text = head + terminator() + rest;
    let n = head.len() as int;
    lemma_first_terminator(head);
    assert forall|j: int| 0 <= j < n implies !terminator_at(text, j) by {
        if j + 1 < n {
            assert(terminator_at(text, j) == terminator_at(head, j));
        }
    }
    assert(terminator_at(text, n));
    lemma_first_terminator_is(text, n);
    assert(text.take(n) =~= head);
    assert(text.skip(n + 2) =~= rest);
}

/// A text without a terminator is its own single line, unless it is empty.
pub proof fn lemma_unterminated_text(s: Seq<char>)
    requires
        !has_terminator(s),
    ensures
        first_line(s) == s,
        after_first_line(s).len() == 0,
        s.len() > 0 ==> lines(s) == seq![s],
{
    lemma_first_terminator(s);
    assert(s.take(s.len() as int) =~= s);
    if s.len() > 0 {
        assert(lines(after_first_line(s)) =~= Seq::<Seq<char>>::empty());
        assert(lines(s) =~= seq![s]);
    }
}

/// The lines of a text that opens with a terminated line: that line, then the
/// lines of the rest.
pub proof fn lemma_lines_of_terminated_line(head: Seq<char>, rest: Seq<char>)
    requires
        !has_terminator(head),
    ensures
        lines(head + terminator() + rest) == seq![head] + lines(rest),
{
    lemma_terminated_line(head, rest);
}

/// The joined lines of a text that is not empty start with its first line;
/// what follows the first terminator, if anything, comes behind one `'\n'`.
pub proof fn lemma_lines_unfold(s: Seq<char>)
    requires
        s.len() > 0,
    ensures
        lines(s).len() >= 1,
        lines(s)[0] == first_line(s),
        lines(s).drop_first() == lines(after_first_line(s)),
        after_first_line(s).len() == 0 ==> lines(s).len() == 1 && join_lines(lines(s))
            == first_line(s),
        after_first_line(s).len() > 0 ==> lines(s).len() >= 2 && join_lines(lines(s)) == first_line(
            s,
        ) + seq!['\n'] + join_lines(lines(after_first_line(s))),
{
    let rest = after_first_line(s);
    assert(lines(s).drop_first() =~= lines(rest));
    if rest.len() > 0 {
        assert(lines(rest).len() >= 1);
    }
}

/// The characters of `s`, one by one.
pub fn chars_of(s: &str) -> (v: Vec<char>)
    ensures
        v@ == s@,
{
    let mut v: Vec<char> = Vec::new();
    for c in it: s.chars()
        invariant
            v@ == s@.take(it.index() as int),
            it.seq() == s@,
    {
        v.push(c);
    }
    v
}

/// Whether `text` ends with a terminator.
pub fn ends_with_line_end(text: &[char]) -> (r: bool)
    ensures
        r == ends_with_terminator(text@),
{
    let n = text.len();
    n >= 2 && text[n - 2] == '\r' && text[n - 1] == '\n'
}

/// The position of the first terminator in `text`, or the length of `text`
/// where it has none.
pub fn find_terminator(text: &[char]) -> (i: usize)
    ensures
        i == first_terminator(text@),
        i <= text@.len(),
{
    let n = text.len();
    let mut i: usize = 0;
    while i < n && !(i + 1 < n && text[i] == '\r' && text[i + 1] == '\n')
        invariant
            n == text@.len(),
            i <= n,
            forall|j: int| 0 <= j < i ==> !terminator_at(text@, j),
        decreases n - i,
    {
        i += 1;
    }
    proof {
        lemma_first_terminator_is(text@, i as int);
    }
    i
}

/// The number of terminators in `text`.
pub fn count_terminators(text: &[char]) -> (count: usize)
    ensures
        count == terminator_count(text@),
{
    let n = text.len();
    let mut count: usize = 0;
    let mut i: usize = 0;
    while i < n
        invariant
            n == text@.len(),
            i <= n,
            count <= i,
            count == terminator_count(text@.take(i as int)),
        decreases n - i,
    {
        let ghost before = text@.take(i as int);
        let ghost now = text@.take(i + 1);
        assert(now.drop_last() =~= before);
        if i >= 1 && text[i - 1] == '\r' && text[i] == '\n' {
            count += 1;
        }
        i += 1;
    }
    assert(text@.take(n as int) =~= text@);
    count
}

} // verus!
