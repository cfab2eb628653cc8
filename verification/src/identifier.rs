//! The identifier that the remote host reports for what it has created.

use crate::error::Error;
use crate::text::chars_of;
use vstd::prelude::*;

verus! {

/// Whether `c` is one of the ten decimal digits.
pub open spec fn numeral(c: char) -> bool {
    '0' <= c <= '9'
}

/// How many digits stand in `s` from `from` on without a break.
pub open spec fn run(s: Seq<char>, from: int) -> int
    decreases s.len() - from,
{
    if 0 <= from < s.len() && numeral(s[from]) {
        1 + run(s, from + 1)
    } else {
        0
    }
}

/// The number that a text of digits writes.
pub open spec fn value(digits: Seq<char>) -> nat
    decreases digits.len(),
{
    if digits.len() == 0 {
        0
    } else {
        value(digits.drop_last()) * 10 + (digits.last() as u32 - '0' as u32) as nat
    }
}

/// The place of the first digit of `s` at or after `from`; the length of
/// `s` where there is none.
pub open spec fn first_numeral(s: Seq<char>, from: int) -> int
    decreases s.len() - from,
{
    if 0 <= from < s.len() && !numeral(s[from]) {
        first_numeral(s, from + 1)
    } else if from < s.len() {
        from
    } else {
        s.len() as int
    }
}

/// The number written by the first run of digits in `s`.
pub open spec fn first_number(s: Seq<char>) -> Option<nat> {
    let at = first_numeral(s, 0);
    if at < s.len() {
        Some(value(s.subrange(at, at + run(s, at))))
    } else {
        None
    }
}

/// Whether `=`, one digit or more and `#` stand in `s` at `at`.
pub open spec fn marked_at(s: Seq<char>, at: int) -> bool {
    &&& 0 <= at < s.len()
    &&& s[at] == '='
    &&& run(s, at + 1) >= 1
    &&& at + 1 + run(s, at + 1) < s.len()
    &&& s[at + 1 + run(s, at + 1)] == '#'
}

/// The first place at or after `from` where `=`, digits and `#` stand; the
/// length of `s` where there is none.
pub open spec fn first_mark(s: Seq<char>, from: int) -> int
    decreases s.len() - from,
{
    if 0 <= from < s.len() && !marked_at(s, from) {
        first_mark(s, from + 1)
    } else if from < s.len() {
        from
    } else {
        s.len() as int
    }
}

/// The number written between the first `=` and `#` that enclose digits
/// and nothing else.
pub open spec fn marked_number(s: Seq<char>) -> Option<nat> {
    let at = first_mark(s, 0);
    if at < s.len() {
        Some(value(s.subrange(at + 1, at + 1 + run(s, at + 1))))
    } else {
        None
    }
}

/// What is reported for a number found or not found: the number where it
/// fits an identifier, else the reason why there is none.
pub open spec fn identified(found: Option<nat>, r: Result<i32, Error>) -> bool {
    match found {
        Some(n) => if n <= i32::MAX {
            r == Ok::<i32, Error>(n as i32)
        } else {
            r matches Err(Error::ParseInt(cause)) && cause@
                == "number too large to fit in target type"@
        },
        None => r matches Err(Error::ParseInt(cause)) && cause@ == "no identifier found"@,
    }
}

fn is_numeral(c: char) -> (b: bool)
    ensures
        b == numeral(c),
{
    '0' <= c && c <= '9'
}

/// A number grows with every digit written after it.
proof fn lemma_value_grows(digits: Seq<char>, n: int)
    requires
        0 <= n <= digits.len(),
    ensures
        value(digits.take(n)) <= value(digits),
    decreases digits.len() - n,
{
    if n < digits.len() {
        lemma_value_grows(digits, n + 1);
        assert(digits.take(n + 1).drop_last() == digits.take(n));
    } else {
        assert(digits.take(n) == digits);
    }
}

/// The end of the run of digits that starts at `from`.
fn run_end(chars: &Vec<char>, from: usize) -> (end: usize)
    requires
        from <= chars.len(),
    ensures
        end == from + run(chars@, from as int),
        from <= end <= chars.len(),
{
    let mut end = from;
    while end < chars.len() && is_numeral(chars[end])
        invariant
            from <= end <= chars.len(),
            run(chars@, from as int) == (end - from) + run(chars@, end as int),
        decreases chars.len() - end,
    {
        end = end + 1;
    }
    end
}

/// Reads the digits from `from` up to `to` as an identifier.
fn read_number(chars: &Vec<char>, from: usize, to: usize) -> (r: Result<i32, Error>)
    requires
        from <= to <= chars.len(),
        forall|i: int| from <= i < to ==> numeral(chars@[i]),
    ensures
        identified(Some(value(chars@.subrange(from as int, to as int))), r),
{
    let ghost digits = chars@.subrange(from as int, to as int);
    let mut total: u64 = 0;
    let mut i = from;
    assert(digits.take(0) == Seq::<char>::empty());
    while i < to
        invariant
            from <= i <= to <= chars.len(),
            digits == chars@.subrange(from as int, to as int),
            forall|k: int| from <= k < to ==> numeral(chars@[k]),
            total == value(digits.take(i - from)),
            total <= i32::MAX,
        decreases to - i,
    {
        let c = chars[i];
        assert(digits.take(i - from + 1).drop_last() == digits.take(i - from));
        assert(digits.take(i - from + 1).last() == c);
        total = total * 10 + (c as u32 - '0' as u32) as u64;
        if total > i32::MAX as u64 {
            proof {
                lemma_value_grows(digits, i - from + 1);
            }
            return Err(Error::ParseInt("number too large to fit in target type".to_owned()));
        }
        i = i + 1;
    }
    assert(digits.take(to - from) == digits);
    Ok(total as i32)
}

/// The identifier of a dispatch that was just added: the number written by
/// the first run of digits in the remote host's answer.
pub fn dispatch_id(text: &str) -> (r: Result<i32, Error>)
    ensures
        identified(first_number(text@), r),
{
    let chars = chars_of(text);
    let mut at: usize = 0;
    while at < chars.len() && !is_numeral(chars[at])
        invariant
            at <= chars.len(),
            first_numeral(chars@, 0) == first_numeral(chars@, at as int),
        decreases chars.len() - at,
    {
        at = at + 1;
    }
    if at >= chars.len() {
        return Err(Error::ParseInt("no identifier found".to_owned()));
    }
    let end = run_end(&chars, at);
    proof {
        lemma_run_is_numerals(chars@, at as int);
    }
    read_number(&chars, at, end)
}

/// A run holds digits only.
proof fn lemma_run_is_numerals(s: Seq<char>, from: int)
    requires
        0 <= from <= s.len(),
    ensures
        forall|i: int| from <= i < from + run(s, from) ==> numeral(s[i]),
        from + run(s, from) <= s.len(),
    decreases s.len() - from,
{
    if from < s.len() && numeral(s[from]) {
        lemma_run_is_numerals(s, from + 1);
    }
}

/// The identifier of a post that was just made: the number that the remote
/// host's answer writes between `=` and `#`.
pub fn rmbpost_id(text: &str) -> (r: Result<i32, Error>)
    ensures
        identified(marked_number(text@), r),
{
    let chars = chars_of(text);
    let mut at: usize = 0;
    while at < chars.len()
        invariant
            at <= chars.len(),
            chars@ == text@,
            first_mark(chars@, 0) == first_mark(chars@, at as int),
        decreases chars.len() - at,
    {
        if chars[at] == '=' {
            let end = run_end(&chars, at + 1);
            if end > at + 1 && end < chars.len() && chars[end] == '#' {
                proof {
                    lemma_run_is_numerals(chars@, at + 1);
                    assert(marked_at(chars@, at as int));
                    assert(first_mark(chars@, at as int) == at);
                }
                return read_number(&chars, at + 1, end);
            }
        }
        at = at + 1;
    }
    Err(Error::ParseInt("no identifier found".to_owned()))
}

} // verus!
