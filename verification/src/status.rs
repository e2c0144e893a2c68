//! Status codes of reply lines.
//!
//! A reply opens with a status line. Its first token, delimited by white
//! space, is read as a decimal number; a line without such a number stands
//! for [`DEFAULT_STATUS`].

use crate::text::first_line;
use vstd::prelude::*;

verus! {

/// Status of a reply whose status line holds no number.
pub const DEFAULT_STATUS: u16 = 500;

/// Status that announces a reply of two blocks.
pub const MULTI_BLOCK_STATUS: u16 = 201;

/// Status of a cycle that failed before any reply was read.
pub const GATEWAY_FAILURE_STATUS: u16 = 502;

/// White space: the characters that Unicode marks as `White_Space`.
pub open spec fn is_space(c: char) -> bool {
    let u = c as u32;
    ||| 0x09 <= u <= 0x0D
    ||| u == 0x20
    ||| u == 0x85
    ||| u == 0xA0
    ||| u == 0x1680
    ||| 0x2000 <= u <= 0x200A
    ||| u == 0x2028
    ||| u == 0x2029
    ||| u == 0x202F
    ||| u == 0x205F
    ||| u == 0x3000
}

/// Length of the longest prefix of `s` whose characters all are white space
/// (`spaces` true) or all are not (`spaces` false).
pub open spec fn run_length(s: Seq<char>, spaces: bool) -> int
    decreases s.len(),
{
    if s.len() > 0 && is_space(s[0]) == spaces {
        1 + run_length(s.drop_first(), spaces)
    } else {
        0
    }
}

/// The first token of `line`: what stands between its leading white space and
/// the next white space or the end. Empty where the line is blank.
pub open spec fn leading_token(line: Seq<char>) -> Seq<char> {
    let rest = line.skip(run_length(line, true));
    rest.take(run_length(rest, false))
}

/// Whether `c` is one of the digits `0` to `9`.
pub open spec fn is_digit(c: char) -> bool {
    '0' <= c <= '9'
}

/// The value of the digit `c`.
pub open spec fn digit_value(c: char) -> int {
    c as u32 - '0' as u32
}

/// The number that the digits `s` write in base ten.
pub open spec fn decimal_value(s: Seq<char>) -> int
    decreases s.len(),
{
    if s.len() == 0 {
        0
    } else {
        10 * decimal_value(s.drop_last()) + digit_value(s.last())
    }
}

/// The digits of `token`: the token without one leading `+`.
pub open spec fn digits_of(token: Seq<char>) -> Seq<char> {
    if token.len() > 0 && token[0] == '+' {
        token.drop_first()
    } else {
        token
    }
}

/// Whether `token` is written like a number: an optional `+`, then one or
/// more digits and nothing else.
pub open spec fn is_number(token: Seq<char>) -> bool {
    let digits = digits_of(token);
    digits.len() > 0 && forall|i: int| 0 <= i < digits.len() ==> is_digit(#[trigger] digits[i])
}

/// The status that `token` writes, if it is a number that fits 16 bits.
pub open spec fn parsed_status(token: Seq<char>) -> Option<u16> {
    if is_number(token) && decimal_value(digits_of(token)) <= u16::MAX {
        Some(decimal_value(digits_of(token)) as u16)
    } else {
        None
    }
}

/// The status of a status line: the number of its first token, or
/// [`DEFAULT_STATUS`] where there is no token or it is no number.
pub open spec fn status_of_line(line: Seq<char>) -> u16 {
    match parsed_status(leading_token(line)) {
        Some(code) => code,
        None => DEFAULT_STATUS,
    }
}

/// The status of a reply: that of its first line.
pub open spec fn status_of(text: Seq<char>) -> u16 {
    status_of_line(first_line(text))
}

/// `run_length` is in range and stops at the first character of the other
/// kind.
pub proof fn lemma_run_length(s: Seq<char>, spaces: bool)
    ensures
        0 <= run_length(s, spaces) <= s.len(),
        forall|j: int| 0 <= j < run_length(s, spaces) ==> is_space(#[trigger] s[j]) == spaces,
        run_length(s, spaces) < s.len() ==> is_space(s[run_length(s, spaces)]) != spaces,
    decreases s.len(),
{
    if s.len() > 0 && is_space(s[0]) == spaces {
        let t = s.drop_first();
        lemma_run_length(t, spaces);
        assert forall|j: int| 0 <= j < run_length(s, spaces) implies is_space(#[trigger] s[j])
            == spaces by {
            if 0 < j {
                assert(s[j] == t[j - 1]);
            }
        }
    }
}

/// A prefix of one kind that ends at a character of the other kind, or at the
/// end of `s`, is the longest one.
pub proof fn lemma_run_length_is(s: Seq<char>, spaces: bool, n: int)
    requires
        0 <= n <= s.len(),
        forall|j: int| 0 <= j < n ==> is_space(#[trigger] s[j]) == spaces,
        n < s.len() ==> is_space(s[n]) != spaces,
    ensures
        run_length(s, spaces) == n,
{
    lemma_run_length(s, spaces);
}

/// The digits read so far never write more than all of them do.
pub proof fn lemma_decimal_value_grows(s: Seq<char>, k: int)
    requires
        0 <= k <= s.len(),
        forall|i: int| 0 <= i < s.len() ==> is_digit(#[trigger] s[i]),
    ensures
        0 <= decimal_value(s.take(k)) <= decimal_value(s),
    decreases s.len() - k,
{
    if k == s.len() {
        assert(s.take(k) =~= s);
        lemma_decimal_value_nonnegative(s);
    } else {
        lemma_decimal_value_grows(s, k + 1);
        let longer = s.take(k + 1);
        assert(longer.drop_last() =~= s.take(k));
        assert(is_digit(s[k]));
        lemma_decimal_value_nonnegative(s.take(k));
    }
}

/// Digits write no negative number.
pub proof fn lemma_decimal_value_nonnegative(s: Seq<char>)
    requires
        forall|i: int| 0 <= i < s.len() ==> is_digit(#[trigger] s[i]),
    ensures
        0 <= decimal_value(s),
    decreases s.len(),
{
    if s.len() > 0 {
        lemma_decimal_value_nonnegative(s.drop_last());
        assert(is_digit(s[s.len() - 1]));
    }
}

/// Whether `c` is white space.
pub fn is_white_space(c: char) -> (r: bool)
    ensures
        r == is_space(c),
{
    let u = c as u32;
    (0x09 <= u && u <= 0x0D) || u == 0x20 || u == 0x85 || u == 0xA0 || u == 0x1680 || (0x2000 <= u
        && u <= 0x200A) || u == 0x2028 || u == 0x2029 || u == 0x202F || u == 0x205F || u == 0x3000
}

/// The first token of `line`.
pub fn first_token(line: &[char]) -> (token: &[char])
    ensures
        token@ == leading_token(line@),
{
    let n = line.len();
    let mut start: usize = 0;
    while start < n && is_white_space(line[start])
        invariant
            n == line@.len(),
            start <= n,
            forall|j: int| 0 <= j < start ==> is_space(#[trigger] line@[j]),
        decreases n - start,
    {
        start += 1;
    }
    let mut end: usize = start;
    while end < n && !is_white_space(line[end])
        invariant
            n == line@.len(),
            start <= end <= n,
            forall|j: int| start <= j < end ==> !is_space(#[trigger] line@[j]),
        decreases n - end,
    {
        end += 1;
    }
    proof {
        lemma_run_length_is(line@, true, start as int);
        let rest = line@.skip(start as int);
        assert forall|j: int| 0 <= j < end - start implies !is_space(#[trigger] rest[j]) by {
            assert(rest[j] == line@[start + j]);
        }
        lemma_run_length_is(rest, false, end - start);
        assert(rest.take(end - start) =~= line@.subrange(start as int, end as int));
    }
    &line[start..end]
}

/// Reads `token` as a status: an optional `+`, then decimal digits that write
/// a number of at most 65535. Anything else is no status.
pub fn parse_status(token: &[char]) -> (status: Option<u16>)
    ensures
        status == parsed_status(token@),
{
    let n = token.len();
    let start: usize = if n > 0 && token[0] == '+' {
        1
    } else {
        0
    };
    let ghost digits = digits_of(token@);
    assert(digits =~= token@.skip(start as int));
    if start == n {
        return None;
    }
    let mut value: u32 = 0;
    let mut i: usize = start;
    while i < n
        invariant
            n == token@.len(),
            start <= i <= n,
            digits == digits_of(token@),
            digits == token@.skip(start as int),
            forall|j: int| 0 <= j < i - start ==> is_digit(#[trigger] digits[j]),
            value == decimal_value(digits.take(i - start)),
            value <= u16::MAX,
        decreases n - i,
    {
        let c = token[i];
        if !('0' <= c && c <= '9') {
            assert(!is_digit(digits[i - start]));
            return None;
        }
        let ghost longer = digits.take(i - start + 1);
        assert(longer.drop_last() =~= digits.take(i - start));
        assert(longer.last() == c);
        value = value * 10 + (c as u32 - '0' as u32);
        if value > 0xFFFF {
            proof {
                if is_number(token@) {
                    lemma_decimal_value_grows(digits, i - start + 1);
                }
            }
            return None;
        }
        i += 1;
    }
    assert(digits.take(n - start) =~= digits);
    Some(value as u16)
}

/// The status of the status line `line`.
pub fn line_status(line: &[char]) -> (code: u16)
    ensures
        code == status_of_line(line@),
{
    match parse_status(first_token(line)) {
        Some(code) => code,
        None => DEFAULT_STATUS,
    }
}

} // verus!
