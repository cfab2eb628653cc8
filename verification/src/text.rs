//! Text as sequences of characters: cutting, trimming and putting together.

use vstd::prelude::*;

verus! {

/// `String::push` appends one character.
pub assume_specification[ String::push ](s: &mut String, c: char)
    ensures
        final(s)@ == old(s)@.push(c),
;

/// The characters of a text.
pub fn chars_of(s: &str) -> (out: Vec<char>)
    ensures
        out@ == s@,
{
    let mut out: Vec<char> = Vec::new();
    for c in it: s.chars()
        invariant
            out@ == s@.subrange(0, it.index() as int),
            it.seq() == s@,
    {
        out.push(c);
    }
    assert(s@.subrange(0, s@.len() as int) == s@);
    out
}

/// The text made of the characters from `from` up to `to`.
pub fn string_of(chars: &Vec<char>, from: usize, to: usize) -> (out: String)
    requires
        from <= to <= chars.len(),
    ensures
        out@ == chars@.subrange(from as int, to as int),
{
    let mut out = String::new();
    let mut i = from;
    while i < to
        invariant
            from <= i <= to <= chars.len(),
            out@ == chars@.subrange(from as int, i as int),
        decreases to - i,
    {
        out.push(chars[i]);
        assert(chars@.subrange(from as int, i + 1) == chars@.subrange(from as int, i as int).push(
            chars@[i as int],
        ));
        i = i + 1;
    }
    out
}

/// Appends the characters of `tail` to `out`.
pub fn push_all(out: &mut String, tail: &Vec<char>)
    ensures
        final(out)@ == old(out)@ + tail@,
{
    let mut i: usize = 0;
    assert(tail@.take(0) == Seq::<char>::empty());
    while i < tail.len()
        invariant
            i <= tail.len(),
            out@ == old(out)@ + tail@.take(i as int),
        decreases tail.len() - i,
    {
        out.push(tail[i]);
        assert(tail@.take(i + 1) == tail@.take(i as int).push(tail@[i as int]));
        i = i + 1;
    }
    assert(tail@.take(i as int) == tail@);
}

/// Where `c` stands first in `s`; the length of `s` where it does not occur.
pub open spec fn index_of(s: Seq<char>, c: char) -> int
    decreases s.len(),
{
    if s.len() == 0 {
        0
    } else if s[0] == c {
        0
    } else {
        1 + index_of(s.skip(1), c)
    }
}

/// `index_of` is the first place of `c`, and nothing before it is `c`.
pub proof fn lemma_index_of(s: Seq<char>, c: char)
    ensures
        0 <= index_of(s, c) <= s.len(),
        index_of(s, c) < s.len() ==> s[index_of(s, c)] == c,
        forall|j: int| 0 <= j < index_of(s, c) ==> s[j] != c,
    decreases s.len(),
{
    if s.len() > 0 && s[0] != c {
        lemma_index_of(s.skip(1), c);
        assert forall|j: int| 0 <= j < index_of(s, c) implies s[j] != c by {
            if j > 0 {
                assert(s.skip(1)[j - 1] == s[j]);
            }
        }
    }
}

/// The place found by looking for the first `c` is `index_of`.
pub proof fn lemma_index_of_is(s: Seq<char>, c: char, i: int)
    requires
        0 <= i <= s.len(),
        i < s.len() ==> s[i] == c,
        forall|j: int| 0 <= j < i ==> s[j] != c,
    ensures
        index_of(s, c) == i,
{
    lemma_index_of(s, c);
    let k = index_of(s, c);
    if k < i {
        assert(s[k] != c);
    }
}

/// First place of `c` in `chars` at or after `from`, counted from `from`.
pub fn find(chars: &Vec<char>, c: char, from: usize) -> (at: usize)
    requires
        from <= chars.len(),
    ensures
        at == from + index_of(chars@.skip(from as int), c),
        from <= at <= chars.len(),
{
    let mut i = from;
    while i < chars.len() && chars[i] != c
        invariant
            from <= i <= chars.len(),
            forall|j: int| from <= j < i ==> chars@[j] != c,
        decreases chars.len() - i,
    {
        i = i + 1;
    }
    proof {
        lemma_index_of_is(chars@.skip(from as int), c, i - from);
    }
    i
}

/// The pieces of `s` between occurrences of `sep`: one more piece than
/// there are separators, each free of `sep`, in their order.
pub open spec fn split(s: Seq<char>, sep: char) -> Seq<Seq<char>>
    decreases s.len(),
{
    let i = index_of(s, sep);
    if i < 0 || i >= s.len() {
        seq![s]
    } else {
        seq![s.take(i)] + split(s.skip(i + 1), sep)
    }
}

/// The texts that a list of character vectors holds.
pub open spec fn texts(pieces: Seq<Vec<char>>) -> Seq<Seq<char>> {
    pieces.map_values(|piece: Vec<char>| piece@)
}

/// The pieces of `chars` from `from` on, cut at every `sep`.
pub fn split_from(chars: &Vec<char>, sep: char, from: usize) -> (out: Vec<Vec<char>>)
    requires
        from <= chars.len(),
    ensures
        texts(out@) == split(chars@.skip(from as int), sep),
    decreases chars.len() - from,
{
    let at = find(chars, sep, from);
    let piece = slice_of(chars, from, at);
    proof {
        lemma_index_of(chars@.skip(from as int), sep);
    }
    let mut out: Vec<Vec<char>> = Vec::new();
    out.push(piece);
    assert(texts(out@) =~= seq![piece@]);
    if at >= chars.len() {
        assert(chars@.skip(from as int) == chars@.subrange(from as int, at as int));
        out
    } else {
        let mut rest = split_from(chars, sep, at + 1);
        let ghost tail = rest@;
        out.append(&mut rest);
        assert(texts(out@) =~= seq![piece@] + texts(tail));
        assert(chars@.skip(from as int).take(at - from) == piece@);
        assert(chars@.skip(from as int).skip(at - from + 1) == chars@.skip(at + 1));
        out
    }
}

/// A copy of the characters from `from` up to `to`.
pub fn slice_of(chars: &Vec<char>, from: usize, to: usize) -> (out: Vec<char>)
    requires
        from <= to <= chars.len(),
    ensures
        out@ == chars@.subrange(from as int, to as int),
{
    let mut out: Vec<char> = Vec::new();
    let mut i = from;
    while i < to
        invariant
            from <= i <= to <= chars.len(),
            out@ == chars@.subrange(from as int, i as int),
        decreases to - i,
    {
        out.push(chars[i]);
        assert(chars@.subrange(from as int, i + 1) == chars@.subrange(from as int, i as int).push(
            chars@[i as int],
        ));
        i = i + 1;
    }
    out
}


/// White space as the Unicode standard lists it.
pub open spec fn whitespace(c: char) -> bool {
    let n = c as u32;
    ||| 0x09 <= n <= 0x0D
    ||| n == 0x20
    ||| n == 0x85
    ||| n == 0xA0
    ||| n == 0x1680
    ||| 0x2000 <= n <= 0x200A
    ||| n == 0x2028
    ||| n == 0x2029
    ||| n == 0x202F
    ||| n == 0x205F
    ||| n == 0x3000
}

pub fn is_whitespace(c: char) -> (b: bool)
    ensures
        b == whitespace(c),
{
    let n = c as u32;
    (0x09 <= n && n <= 0x0D) || n == 0x20 || n == 0x85 || n == 0xA0 || n == 0x1680 || (0x2000 <= n
        && n <= 0x200A) || n == 0x2028 || n == 0x2029 || n == 0x202F || n == 0x205F || n == 0x3000
}

/// How many characters of white space `s` begins with.
pub open spec fn leading_space(s: Seq<char>) -> int
    decreases s.len(),
{
    if s.len() > 0 && whitespace(s[0]) {
        1 + leading_space(s.skip(1))
    } else {
        0
    }
}

/// How many characters of white space `s` ends with.
pub open spec fn trailing_space(s: Seq<char>) -> int
    decreases s.len(),
{
    if s.len() > 0 && whitespace(s.last()) {
        1 + trailing_space(s.drop_last())
    } else {
        0
    }
}

/// `s` without the white space at its two ends.
pub open spec fn trimmed(s: Seq<char>) -> Seq<char> {
    if leading_space(s) >= s.len() {
        Seq::empty()
    } else {
        s.subrange(leading_space(s), s.len() - trailing_space(s))
    }
}

proof fn lemma_leading_space_is(s: Seq<char>, i: int)
    requires
        0 <= i <= s.len(),
        forall|j: int| 0 <= j < i ==> whitespace(s[j]),
        i < s.len() ==> !whitespace(s[i]),
    ensures
        leading_space(s) == i,
    decreases i,
{
    if i > 0 {
        assert forall|j: int| 0 <= j < i - 1 implies whitespace(s.skip(1)[j]) by {
            assert(s.skip(1)[j] == s[j + 1]);
        }
        lemma_leading_space_is(s.skip(1), i - 1);
    }
}

proof fn lemma_trailing_space_is(s: Seq<char>, i: int)
    requires
        0 <= i <= s.len(),
        forall|j: int| s.len() - i <= j < s.len() ==> whitespace(s[j]),
        i < s.len() ==> !whitespace(s[s.len() - i - 1]),
    ensures
        trailing_space(s) == i,
    decreases i,
{
    if i > 0 {
        lemma_trailing_space_is(s.drop_last(), i - 1);
    }
}

/// A copy of `chars` without the white space at its two ends.
pub fn trim(chars: &Vec<char>) -> (out: Vec<char>)
    ensures
        out@ == trimmed(chars@),
{
    let mut from: usize = 0;
    while from < chars.len() && is_whitespace(chars[from])
        invariant
            from <= chars.len(),
            forall|j: int| 0 <= j < from ==> whitespace(chars@[j]),
        decreases chars.len() - from,
    {
        from = from + 1;
    }
    proof {
        lemma_leading_space_is(chars@, from as int);
    }
    if from >= chars.len() {
        return Vec::new();
    }
    let mut to: usize = chars.len();
    while to > from + 1 && is_whitespace(chars[to - 1])
        invariant
            from < to <= chars.len(),
            !whitespace(chars@[from as int]),
            forall|j: int| to <= j < chars.len() ==> whitespace(chars@[j]),
        decreases to,
    {
        to = to - 1;
    }
    proof {
        lemma_trailing_space_is(chars@, chars.len() - to);
    }
    slice_of(chars, from, to)
}


/// The character for one decimal digit.
pub open spec fn digit(d: int) -> char {
    (48 + d) as u8 as char
}

/// A natural number written in decimal, without leading zeros.
pub open spec fn digits(n: nat) -> Seq<char>
    decreases n,
{
    if n < 10 {
        seq![digit(n as int)]
    } else {
        digits(n / 10).push(digit((n % 10) as int))
    }
}

/// An integer written in decimal, with a minus sign where it is negative.
pub open spec fn decimal(n: int) -> Seq<char> {
    if n < 0 {
        seq!['-'] + digits((-n) as nat)
    } else {
        digits(n as nat)
    }
}

/// The decimal digits of `n`.
pub fn digits_of(n: u64) -> (out: Vec<char>)
    ensures
        out@ == digits(n as nat),
    decreases n,
{
    if n < 10 {
        let mut out: Vec<char> = Vec::new();
        out.push((48 + n as u8) as char);
        out
    } else {
        let mut out = digits_of(n / 10);
        out.push((48 + (n % 10) as u8) as char);
        out
    }
}

/// `n` written in decimal.
pub fn decimal_text(n: i64) -> (out: String)
    ensures
        out@ == decimal(n as int),
{
    let mut out = String::new();
    let size: u64 = if n < 0 {
        out.push('-');
        if n == i64::MIN {
            9223372036854775808u64
        } else {
            (-n) as u64
        }
    } else {
        n as u64
    };
    let tail = digits_of(size);
    push_all(&mut out, &tail);
    assert(Seq::<char>::empty() + tail@ == tail@);
    out
}


/// A text in lower case, as `str::to_lowercase` gives it.
pub uninterp spec fn lowercased(s: Seq<char>) -> Seq<char>;

/// `str::to_lowercase`: the text with each character replaced by its
/// lower-case form after the Unicode tables; a function of the text alone.
#[verifier::external_body]
pub(crate) fn to_lowercase(s: &str) -> (out: String)
    ensures
        out@ == lowercased(s@),
{
    s.to_lowercase()
}

/// `s` with every `from` replaced by `to`.
pub open spec fn replaced(s: Seq<char>, from: char, to: char) -> Seq<char> {
    s.map_values(|c: char| if c == from { to } else { c })
}

/// A copy of `s` with every `from` replaced by `to`.
pub fn replace(s: &str, from: char, to: char) -> (out: String)
    ensures
        out@ == replaced(s@, from, to),
{
    let chars = chars_of(s);
    let mut out = String::new();
    let mut i: usize = 0;
    while i < chars.len()
        invariant
            i <= chars.len(),
            out@ == replaced(chars@.take(i as int), from, to),
        decreases chars.len() - i,
    {
        let c = chars[i];
        out.push(if c == from { to } else { c });
        assert(replaced(chars@.take(i + 1), from, to) =~= replaced(chars@.take(i as int), from, to).push(
            if c == from { to } else { c },
        ));
        i = i + 1;
    }
    assert(chars@.take(i as int) == chars@);
    out
}


/// The texts of `parts` one after the other, with `sep` between them.
pub open spec fn joined(parts: Seq<Seq<char>>, sep: char) -> Seq<char>
    decreases parts.len(),
{
    if parts.len() == 0 {
        Seq::empty()
    } else if parts.len() == 1 {
        parts[0]
    } else {
        joined(parts.drop_last(), sep).push(sep) + parts.last()
    }
}

/// The texts that a list of strings holds.
pub open spec fn string_texts(parts: Seq<String>) -> Seq<Seq<char>> {
    parts.map_values(|part: String| part@)
}

/// The texts of `parts` one after the other, with `sep` between them.
pub fn join(parts: &Vec<String>, sep: char) -> (out: String)
    ensures
        out@ == joined(string_texts(parts@), sep),
{
    let mut out = String::new();
    let mut i: usize = 0;
    let ghost all = string_texts(parts@);
    assert(all.take(0) == Seq::<Seq<char>>::empty());
    while i < parts.len()
        invariant
            i <= parts.len(),
            all == string_texts(parts@),
            out@ == joined(all.take(i as int), sep),
        decreases parts.len() - i,
    {
        if i > 0 {
            out.push(sep);
        }
        let part = chars_of(parts[i].as_str());
        push_all(&mut out, &part);
        assert(all.take(i + 1).drop_last() == all.take(i as int));
        assert(all.take(i + 1).last() == part@);
        assert(Seq::<char>::empty() + part@ == part@);
        i = i + 1;
    }
    assert(all.take(i as int) == all);
    out
}

} // verus!
