//! Form bodies: ordered lists of named values, and their
//! `application/x-www-form-urlencoded` text.

use crate::error::Error;
use vstd::prelude::*;

verus! {

/// A list of named values as plain texts.
pub open spec fn pair_texts(pairs: Seq<(String, String)>) -> Seq<(Seq<char>, Seq<char>)> {
    pairs.map_values(|pair: (String, String)| (pair.0@, pair.1@))
}

/// What a value that may be absent adds to a form: one pair, or nothing.
pub open spec fn entry(key: Seq<char>, value: Option<Seq<char>>) -> Seq<(Seq<char>, Seq<char>)> {
    match value {
        Some(value) => seq![(key, value)],
        None => Seq::empty(),
    }
}

/// Appends one named value.
pub fn put(form: &mut Vec<(String, String)>, key: &str, value: String)
    ensures
        pair_texts(final(form)@) == pair_texts(old(form)@) + seq![(key@, value@)],
{
    form.push((key.to_owned(), value));
    assert(pair_texts(form@) =~= pair_texts(old(form)@) + seq![(key@, value@)]);
}

/// The `application/x-www-form-urlencoded` text of a list of pairs, where
/// the serializer gives one.
pub uninterp spec fn form_urlencoded(pairs: Seq<(Seq<char>, Seq<char>)>) -> Option<Seq<char>>;

/// `serde_urlencoded::to_string` on a sequence of pairs of texts: the
/// serialized form, or the text of the serializer's error as its `Display`
/// writes it. Whether it succeeds, and the form it gives, depend on the
/// pairs alone.
#[verifier::external_body]
fn urlencode(pairs: &Vec<(String, String)>) -> (r: Result<String, String>)
    ensures
        match r {
            Ok(body) => form_urlencoded(pair_texts(pairs@)) == Some(body@),
            Err(_) => form_urlencoded(pair_texts(pairs@)) is None,
        },
{
    serde_urlencoded::to_string(pairs).map_err(|e| e.to_string())
}

/// The body that carries `pairs`.
pub fn to_body(pairs: &Vec<(String, String)>) -> (r: Result<String, Error>)
    ensures
        match r {
            Ok(body) => form_urlencoded(pair_texts(pairs@)) == Some(body@),
            Err(e) => form_urlencoded(pair_texts(pairs@)) is None && e is URLEncode,
        },
{
    match urlencode(pairs) {
        Ok(body) => Ok(body),
        Err(cause) => Err(Error::URLEncode(cause)),
    }
}

} // verus!
