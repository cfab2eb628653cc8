//! The envelope in which the remote host answers: one root element that
//! holds a `SUCCESS` or an `ERROR` element.

use crate::dispatch::text_of;
use crate::error::Error;
use crate::form::pair_texts;
use vstd::prelude::*;

verus! {

/// What an answer of the remote host holds.
#[derive(Clone, Debug, PartialEq, Eq)]
pub struct Envelope {
    pub success: Option<String>,
    pub error: Option<String>,
}

impl Envelope {
    /// Whether the remote host reported success.
    pub fn is_ok(&self) -> (ok: bool)
        ensures
            ok == self.success is Some,
    {
        self.success.is_some()
    }
}

/// The child elements of a document's root, each with its name and its
/// text, in the order of their names; `None` where the document cannot be
/// read that way.
pub uninterp spec fn xml_children(text: Seq<char>) -> Option<Seq<(Seq<char>, Seq<char>)>>;

/// `quick_xml::DeError`, the deserializer's error; nothing is known of
/// what it holds.
#[verifier::external_type_specification]
#[verifier::external_body]
pub struct ExDeError(quick_xml::DeError);

/// `quick_xml::de::from_str` into a `BTreeMap<String, String>`, handed out
/// as the list of its entries: the children of the root element by name, or
/// the deserializer's error. The outcome depends on the text alone.
#[verifier::external_body]
fn read_children(text: &str) -> (r: Result<Vec<(String, String)>, quick_xml::DeError>)
    ensures
        match r {
            Ok(children) => xml_children(text@) == Some(pair_texts(children@)),
            Err(_) => xml_children(text@) is None,
        },
{
    quick_xml::de::from_str::<std::collections::BTreeMap<String, String>>(text).map(
        |children| children.into_iter().collect(),
    )
}

/// The text of a `quick_xml::DeError`, as its `Display` writes it.
#[verifier::external_body]
fn error_text(e: &quick_xml::DeError) -> String {
    e.to_string()
}

/// The value that stands first under `key`.
pub open spec fn lookup(fields: Seq<(Seq<char>, Seq<char>)>, key: Seq<char>) -> Option<Seq<char>>
    decreases fields.len(),
{
    if fields.len() == 0 {
        None
    } else if fields[0].0 == key {
        Some(fields[0].1)
    } else {
        lookup(fields.skip(1), key)
    }
}

/// The value that stands first under `key` in `fields`.
pub fn find_field(fields: &Vec<(String, String)>, key: &str) -> (value: Option<String>)
    ensures
        text_of(value) == lookup(pair_texts(fields@), key@),
{
    let wanted = key.to_owned();
    let ghost all = pair_texts(fields@);
    let mut i: usize = 0;
    assert(all.skip(0) == all);
    while i < fields.len()
        invariant
            i <= fields.len(),
            all == pair_texts(fields@),
            wanted@ == key@,
            lookup(all, key@) == lookup(all.skip(i as int), key@),
        decreases fields.len() - i,
    {
        assert(all.skip(i as int)[0] == all[i as int]);
        assert(all.skip(i as int).skip(1) == all.skip(i + 1));
        if fields[i].0 == wanted {
            return Some(fields[i].1.clone());
        }
        i = i + 1;
    }
    None
}

/// The envelope that the children of a root element make up.
pub fn envelope_of(children: &Vec<(String, String)>) -> (envelope: Envelope)
    ensures
        text_of(envelope.success) == lookup(pair_texts(children@), "SUCCESS"@),
        text_of(envelope.error) == lookup(pair_texts(children@), "ERROR"@),
{
    Envelope { success: find_field(children, "SUCCESS"), error: find_field(children, "ERROR") }
}

/// Reads an answer of the remote host. It is read exactly when it is a
/// document whose root holds named texts; what stands under `SUCCESS` and
/// under `ERROR` is handed out.
pub fn parse(text: &str) -> (r: Result<Envelope, Error>)
    ensures
        match r {
            Ok(envelope) => {
                &&& xml_children(text@) matches Some(children)
                &&& text_of(envelope.success) == lookup(children, "SUCCESS"@)
                &&& text_of(envelope.error) == lookup(children, "ERROR"@)
            },
            Err(e) => xml_children(text@) is None && e is Deserialize,
        },
{
    match read_children(text) {
        Ok(children) => Ok(envelope_of(&children)),
        Err(e) => Err(Error::Deserialize(error_text(&e))),
    }
}

} // verus!
