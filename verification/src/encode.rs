//! Text as the remote host takes it: plain ASCII, with every other
//! character written as its decimal character reference.

use crate::text::{chars_of, digits, push_all};
use vstd::prelude::*;

verus! {

/// Whether a character belongs to ASCII.
pub open spec fn ascii(c: char) -> bool {
    (c as u32) < 128
}

/// The decimal character reference of `c`: `&#`, its code point in
/// decimal, `;`.
pub open spec fn reference(c: char) -> Seq<char> {
    seq!['&', '#'] + digits(c as nat) + seq![';']
}

/// How one character goes out.
pub open spec fn encoded_char(c: char) -> Seq<char> {
    if ascii(c) {
        seq![c]
    } else {
        reference(c)
    }
}

/// How a text goes out: character by character.
pub open spec fn encoded(s: Seq<char>) -> Seq<char>
    decreases s.len(),
{
    if s.len() == 0 {
        Seq::empty()
    } else {
        encoded(s.drop_last()) + encoded_char(s.last())
    }
}

/// `htmlentity::entity::encode_char` with `EncodeType::Decimal`, written out
/// as text: for that encoding the crate gives, for every character, `&#`
/// followed by the code point in decimal and `;`.
#[verifier::external_body]
fn entity(c: char) -> (out: String)
    ensures
        out@ == reference(c),
{
    htmlentity::entity::encode_char(&c, &htmlentity::entity::EncodeType::Decimal)
        .map(|entity| entity.to_string())
        .unwrap_or_default()
}

/// Replaces every character outside ASCII by its decimal character
/// reference and leaves the others as they are.
pub fn encode(input: &str) -> (out: String)
    ensures
        out@ == encoded(input@),
{
    let chars = chars_of(input);
    let mut out = String::new();
    let mut i: usize = 0;
    assert(chars@.take(0) == Seq::<char>::empty());
    while i < chars.len()
        invariant
            i <= chars.len(),
            out@ == encoded(chars@.take(i as int)),
        decreases chars.len() - i,
    {
        let c = chars[i];
        assert(chars@.take(i + 1).drop_last() == chars@.take(i as int));
        if (c as u32) < 128 {
            out.push(c);
            assert(out@ == encoded(chars@.take(i as int)) + seq![c]);
        } else {
            let written = entity(c);
            let tail = chars_of(written.as_str());
            push_all(&mut out, &tail);
        }
        i = i + 1;
    }
    assert(chars@.take(i as int) == chars@);
    out
}

/// Every digit is an ASCII character.
proof fn lemma_digits_are_ascii(n: nat)
    ensures
        forall|i: int| 0 <= i < digits(n).len() ==> ascii(#[trigger] digits(n)[i]),
    decreases n,
{
    let last = crate::text::digit((n % 10) as int);
    assert(last as u32 == 48 + n % 10);
    if n >= 10 {
        lemma_digits_are_ascii(n / 10);
        let head = digits(n / 10);
        assert forall|i: int| 0 <= i < digits(n).len() implies ascii(#[trigger] digits(n)[i]) by {
            if i < head.len() {
                assert(digits(n)[i] == head[i]);
            } else {
                assert(digits(n)[i] == last);
            }
        }
    } else {
        assert(digits(n)[0] == last);
    }
}

/// What goes out is ASCII throughout.
pub proof fn lemma_encoded_is_ascii(s: Seq<char>)
    ensures
        forall|i: int| 0 <= i < encoded(s).len() ==> ascii(#[trigger] encoded(s)[i]),
    decreases s.len(),
{
    if s.len() > 0 {
        lemma_encoded_is_ascii(s.drop_last());
        lemma_digits_are_ascii(s.last() as nat);
        assert(ascii('&') && ascii('#') && ascii(';'));
        let head = encoded(s.drop_last());
        let tail = encoded_char(s.last());
        assert forall|i: int| 0 <= i < tail.len() implies ascii(#[trigger] tail[i]) by {
            if !ascii(s.last()) {
                let inner = digits(s.last() as nat);
                if 2 <= i < 2 + inner.len() {
                    assert(tail[i] == inner[i - 2]);
                }
            }
        }
        assert forall|i: int| 0 <= i < encoded(s).len() implies ascii(
            #[trigger] encoded(s)[i],
        ) by {
            if i >= head.len() {
                assert(encoded(s)[i] == tail[i - head.len()]);
            } else {
                assert(encoded(s)[i] == head[i]);
            }
        }
    }
}

/// A text that is ASCII throughout goes out unchanged.
pub proof fn lemma_ascii_is_unchanged(s: Seq<char>)
    requires
        forall|i: int| 0 <= i < s.len() ==> ascii(#[trigger] s[i]),
    ensures
        encoded(s) == s,
    decreases s.len(),
{
    if s.len() > 0 {
        lemma_ascii_is_unchanged(s.drop_last());
        assert(s.drop_last().push(s.last()) == s);
    }
}

} // verus!
