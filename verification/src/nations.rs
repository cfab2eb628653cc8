//! The credential cache: for each known nation its static password and the
//! session PIN that the remote host handed out last.

use crate::dispatch::text_of;
use crate::error::{ConfigError, Error};
use crate::text::{chars_of, find, index_of, slice_of, split, split_from, string_of, texts, trim, trimmed};
use vstd::hash_map::StringHashMap;
use vstd::prelude::*;

verus! {

/// What the cache knows of one nation, as plain values.
pub struct Credentials {
    pub password: Seq<char>,
    pub pin: Option<Seq<char>>,
}

pub struct Nation {
    pub name: String,
    pub password: String,
    pub pin: Option<String>,
}

impl Nation {
    pub open spec fn credentials(self) -> Credentials {
        Credentials {
            password: self.password@,
            pin: match self.pin {
                Some(pin) => Some(pin@),
                None => None,
            },
        }
    }

    /// A nation that has no PIN yet.
    pub fn new(name: &str, password: &str) -> (nation: Nation)
        ensures
            nation.name@ == name@,
            nation.password@ == password@,
            nation.pin is None,
    {
        Nation { name: name.to_owned(), password: password.to_owned(), pin: None }
    }
}

/// What one entry `name:password` of the nation list stands for: the name
/// without white space at its ends, and the password as it is written after
/// the first colon. `None` where the entry has no colon.
pub open spec fn parsed_nation(value: Seq<char>) -> Option<(Seq<char>, Seq<char>)> {
    let colon = index_of(value, ':');
    if 0 <= colon < value.len() {
        Some((trimmed(value.take(colon)), value.skip(colon + 1)))
    } else {
        None
    }
}

/// The cache that a list of entries gives when each of them can be read:
/// a later entry replaces an earlier one of the same name.
pub open spec fn collected(entries: Seq<Seq<char>>) -> Map<Seq<char>, Credentials>
    decreases entries.len(),
{
    if entries.len() == 0 {
        Map::empty()
    } else {
        let (name, password) = parsed_nation(entries.last())->0;
        collected(entries.drop_last()).insert(name, Credentials { password, pin: None })
    }
}

fn parse_entry(entry: &Vec<char>) -> (r: Option<(String, Nation)>)
    ensures
        match r {
            Some((name, nation)) => {
                &&& parsed_nation(entry@) == Some((name@, nation.password@))
                &&& nation.name@ == name@
                &&& nation.pin is None
            },
            None => parsed_nation(entry@) is None,
        },
{
    let colon = find(entry, ':', 0);
    assert(entry@.skip(0) == entry@);
    if colon >= entry.len() {
        return None;
    }
    let before = slice_of(entry, 0, colon);
    let name = trim(&before);
    let name = string_of(&name, 0, name.len());
    let password = string_of(entry, colon + 1, entry.len());
    assert(name@ == trimmed(entry@.take(colon as int)));
    let nation = Nation::new(name.as_str(), password.as_str());
    Some((name, nation))
}

/// Reads one entry `name:password`.
pub fn parse_nation(value: &str) -> (r: Result<(String, Nation), ConfigError>)
    ensures
        match r {
            Ok((name, nation)) => {
                &&& parsed_nation(value@) == Some((name@, nation.password@))
                &&& nation.name@ == name@
                &&& nation.pin is None
            },
            Err(e) => {
                &&& parsed_nation(value@) is None
                &&& e matches ConfigError::Nations(text)
                &&& text@ == value@
            },
        },
{
    let chars = chars_of(value);
    match parse_entry(&chars) {
        Some(pair) => Ok(pair),
        None => Err(ConfigError::Nations(value.to_owned())),
    }
}

/// The nations known to this process, by name.
pub struct NationList {
    nations: StringHashMap<Nation>,
    names: Vec<String>,
}

impl View for NationList {
    type V = Map<Seq<char>, Credentials>;

    closed spec fn view(&self) -> Map<Seq<char>, Credentials> {
        Map::new(
            |name: Seq<char>| self.nations@.contains_key(name),
            |name: Seq<char>| self.nations@[name].credentials(),
        )
    }
}

impl NationList {
    /// The list of names holds each known nation once and nothing else.
    pub closed spec fn wf(&self) -> bool {
        &&& forall|name: Seq<char>|
            self.nations@.contains_key(name) <==> exists|i: int|
                0 <= i < self.names.len() && (#[trigger] self.names[i])@ == name
        &&& forall|i: int, j: int|
            0 <= i < j < self.names.len() ==> (#[trigger] self.names[i])@ != (
            #[trigger] self.names[j])@
    }

    /// A cache that knows no nation.
    pub fn new() -> (list: NationList)
        ensures
            list.wf(),
            list@ == Map::<Seq<char>, Credentials>::empty(),
    {
        let list = NationList { nations: StringHashMap::new(), names: Vec::new() };
        assert(list@ =~= Map::<Seq<char>, Credentials>::empty());
        list
    }

    /// Makes `nation` known under `name`, in place of what was known of it.
    pub fn insert(&mut self, name: String, nation: Nation)
        requires
            old(self).wf(),
        ensures
            final(self).wf(),
            final(self)@ == old(self)@.insert(name@, nation.credentials()),
    {
        if !self.nations.contains_key(name.as_str()) {
            let copy = name.clone();
            self.names.push(copy);
            assert(forall|i: int|
                0 <= i < old(self).names.len() ==> self.names[i] == old(self).names[i]);
        }
        let ghost key = name@;
        self.nations.insert(name, nation);
        assert(self@ =~= old(self)@.insert(key, nation.credentials()));
        assert forall|other: Seq<char>| self.nations@.contains_key(other) implies exists|i: int|
            0 <= i < self.names.len() && (#[trigger] self.names[i])@ == other by {
            if other == key {
                if old(self).nations@.contains_key(key) {
                    let i = choose|i: int|
                        0 <= i < old(self).names.len() && (#[trigger] old(self).names[i])@ == key;
                    assert(self.names[i]@ == key);
                } else {
                    assert(self.names[self.names.len() - 1]@ == key);
                }
            } else {
                let i = choose|i: int|
                    0 <= i < old(self).names.len() && (#[trigger] old(self).names[i])@ == other;
                assert(self.names[i]@ == other);
            }
        }
    }

    pub fn contains_nation(&self, name: &str) -> (known: bool)
        ensures
            known == self@.contains_key(name@),
    {
        self.nations.contains_key(name)
    }

    /// The password of a known nation.
    pub fn get_password(&self, name: &str) -> (r: Result<String, Error>)
        ensures
            match r {
                Ok(password) => self@.contains_key(name@) && password@ == self@[name@].password,
                Err(e) => !self@.contains_key(name@) && e == Error::InvalidNation,
            },
    {
        match self.nations.get(name) {
            Some(nation) => Ok(nation.password.clone()),
            None => Err(Error::InvalidNation),
        }
    }

    /// The PIN of a known nation; the empty text where none was set.
    pub fn get_pin(&self, name: &str) -> (r: Result<String, Error>)
        ensures
            match r {
                Ok(pin) => self@.contains_key(name@) && pin@ == match self@[name@].pin {
                    Some(held) => held,
                    None => Seq::empty(),
                },
                Err(e) => !self@.contains_key(name@) && e == Error::InvalidNation,
            },
    {
        match self.nations.get(name) {
            Some(nation) => match &nation.pin {
                Some(pin) => Ok(pin.clone()),
                None => Ok(String::new()),
            },
            None => Err(Error::InvalidNation),
        }
    }

    /// Replaces the PIN of a known nation; its password stays.
    pub fn set_pin(&mut self, name: &str, pin: &str) -> (r: Result<(), Error>)
        requires
            old(self).wf(),
        ensures
            final(self).wf(),
            match r {
                Ok(_) => {
                    &&& old(self)@.contains_key(name@)
                    &&& final(self)@ == old(self)@.insert(
                        name@,
                        Credentials { password: old(self)@[name@].password, pin: Some(pin@) },
                    )
                },
                Err(e) => {
                    &&& !old(self)@.contains_key(name@)
                    &&& e == Error::InvalidNation
                    &&& final(self)@ == old(self)@
                },
            },
    {
        let password = match self.nations.get(name) {
            Some(nation) => nation.password.clone(),
            None => {
                return Err(Error::InvalidNation);
            },
        };
        let nation = Nation { name: name.to_owned(), password, pin: Some(pin.to_owned()) };
        self.insert(name.to_owned(), nation);
        Ok(())
    }

    /// Takes over the PIN that a response of the remote host carried for
    /// `name`, where it carried one.
    pub fn refresh_pin(&mut self, name: &str, carried: Option<&str>) -> (r: Result<(), Error>)
        requires
            old(self).wf(),
        ensures
            final(self).wf(),
            match carried {
                Some(pin) => match r {
                    Ok(_) => {
                        &&& old(self)@.contains_key(name@)
                        &&& final(self)@ == old(self)@.insert(
                            name@,
                            Credentials { password: old(self)@[name@].password, pin: Some(pin@) },
                        )
                    },
                    Err(e) => {
                        &&& !old(self)@.contains_key(name@)
                        &&& e == Error::InvalidNation
                        &&& final(self)@ == old(self)@
                    },
                },
                None => r is Ok && final(self)@ == old(self)@,
            },
    {
        match carried {
            Some(pin) => self.set_pin(name, pin),
            None => Ok(()),
        }
    }

    /// The names of the known nations, each once.
    pub fn list_nations(&self) -> (names: Vec<String>)
        requires
            self.wf(),
        ensures
            forall|name: Seq<char>|
                self@.contains_key(name) <==> exists|i: int|
                    0 <= i < names.len() && (#[trigger] names[i])@ == name,
            forall|i: int, j: int|
                0 <= i < j < names.len() ==> (#[trigger] names[i])@ != (#[trigger] names[j])@,
    {
        let mut names: Vec<String> = Vec::new();
        let mut i: usize = 0;
        while i < self.names.len()
            invariant
                i <= self.names.len(),
                names.len() == i,
                forall|j: int| 0 <= j < i ==> (#[trigger] names[j])@ == self.names[j]@,
            decreases self.names.len() - i,
        {
            names.push(self.names[i].clone());
            i = i + 1;
        }
        assert forall|name: Seq<char>| self@.contains_key(name) implies exists|i: int|
            0 <= i < names.len() && (#[trigger] names[i])@ == name by {
            let i = choose|i: int| 0 <= i < self.names.len() && (#[trigger] self.names[i])@ == name;
            assert(names[i]@ == name);
        }
        assert forall|name: Seq<char>|
            (exists|i: int| 0 <= i < names.len() && (#[trigger] names[i])@ == name)
                implies self@.contains_key(name) by {
            let i = choose|i: int| 0 <= i < names.len() && (#[trigger] names[i])@ == name;
            assert(self.names[i]@ == name);
        }
        names
    }
}

/// Reads the nation list `name:password,name:password,…`. Every entry has
/// to be readable; of two entries with one name the later one counts. On
/// failure the error carries the first entry that could not be read.
pub fn parse_nations(nations: &str) -> (r: Result<NationList, ConfigError>)
    ensures
        match r {
            Ok(list) => {
                let entries = split(nations@, ',');
                &&& list.wf()
                &&& forall|i: int| 0 <= i < entries.len() ==> parsed_nation(#[trigger] entries[i]) is Some
                &&& list@ == collected(entries)
            },
            Err(e) => {
                let entries = split(nations@, ',');
                &&& e matches ConfigError::Nations(text)
                &&& exists|i: int|
                    {
                        &&& 0 <= i < entries.len()
                        &&& #[trigger] entries[i] == text@
                        &&& parsed_nation(entries[i]) is None
                        &&& forall|j: int| 0 <= j < i ==> parsed_nation(#[trigger] entries[j]) is Some
                    }
            },
        },
{
    let chars = chars_of(nations);
    let entries = split_from(&chars, ',', 0);
    assert(chars@.skip(0) == chars@);
    let ghost all = split(nations@, ',');
    let mut list = NationList::new();
    let mut i: usize = 0;
    assert(all.take(0) == Seq::<Seq<char>>::empty());
    while i < entries.len()
        invariant
            i <= entries.len(),
            texts(entries@) == all,
            all == split(nations@, ','),
            list.wf(),
            forall|j: int| 0 <= j < i ==> parsed_nation(#[trigger] all[j]) is Some,
            list@ == collected(all.take(i as int)),
        decreases entries.len() - i,
    {
        assert(all[i as int] == entries@[i as int]@);
        match parse_entry(&entries[i]) {
            Some((name, nation)) => {
                list.insert(name, nation);
                assert(all.take(i + 1).drop_last() == all.take(i as int));
            },
            None => {
                let text = string_of(&entries[i], 0, entries[i].len());
                assert(text@ == all[i as int]);
                return Err(ConfigError::Nations(text));
            },
        }
        i = i + 1;
    }
    assert(all.take(i as int) == all);
    Ok(list)
}


/// What one entry `name:password` stands for when it is taken as it is
/// written: the name up to the first colon, the password from there up to
/// the next colon or the end.
pub open spec fn plain_nation(value: Seq<char>) -> (Seq<char>, Seq<char>) {
    let colon = index_of(value, ':');
    let rest = value.skip(colon + 1);
    (value.take(colon), rest.take(index_of(rest, ':')))
}

/// The cache that a list of entries gives when each is taken as it is
/// written: a later entry replaces an earlier one of the same name.
pub open spec fn collected_plain(entries: Seq<Seq<char>>) -> Map<Seq<char>, Credentials>
    decreases entries.len(),
{
    if entries.len() == 0 {
        Map::empty()
    } else {
        let (name, password) = plain_nation(entries.last());
        collected_plain(entries.drop_last()).insert(name, Credentials { password, pin: None })
    }
}

/// Reads a nation list in which every entry is known to hold a colon.
pub fn create_nations_map(nations: &str) -> (list: NationList)
    requires
        forall|i: int|
            0 <= i < split(nations@, ',').len() ==> index_of(
                #[trigger] split(nations@, ',')[i],
                ':',
            ) < split(nations@, ',')[i].len(),
    ensures
        list.wf(),
        list@ == collected_plain(split(nations@, ',')),
{
    let chars = chars_of(nations);
    let entries = split_from(&chars, ',', 0);
    assert(chars@.skip(0) == chars@);
    let ghost all = split(nations@, ',');
    let mut list = NationList::new();
    let mut i: usize = 0;
    assert(all.take(0) == Seq::<Seq<char>>::empty());
    while i < entries.len()
        invariant
            i <= entries.len(),
            texts(entries@) == all,
            forall|j: int| 0 <= j < all.len() ==> index_of(#[trigger] all[j], ':') < all[j].len(),
            list.wf(),
            list@ == collected_plain(all.take(i as int)),
        decreases entries.len() - i,
    {
        let entry = &entries[i];
        assert(all[i as int] == entry@);
        assert(entry@.skip(0) == entry@);
        let colon = find(entry, ':', 0);
        let end = find(entry, ':', colon + 1);
        let name = string_of(entry, 0, colon);
        let password = string_of(entry, colon + 1, end);
        assert(entry@.skip(colon + 1).take(end - colon - 1) == entry@.subrange(
            colon + 1,
            end as int,
        ));
        let nation = Nation::new(name.as_str(), password.as_str());
        list.insert(name, nation);
        assert(all.take(i + 1).drop_last() == all.take(i as int));
        i = i + 1;
    }
    assert(all.take(i as int) == all);
    list
}

/// Something asked of the cache.
#[derive(Clone, Debug, PartialEq, Eq)]
pub enum Action {
    ListNations,
    GetPassword { nation: String },
    GetPin { nation: String },
    SetPin { nation: String, pin: String },
}

/// The answer to an `Action`.
#[derive(Debug, PartialEq, Eq)]
pub enum Response {
    Done,
    List { nations: Vec<String> },
    Password { password: Option<String> },
    Pin { pin: Option<String> },
}

impl NationList {
    /// Answers one request. A password or a PIN is handed out where the
    /// nation is known and has one; a PIN is taken over where the nation is
    /// known, and the request is answered all the same where it is not.
    pub fn process(&mut self, action: Action) -> (response: Response)
        requires
            old(self).wf(),
        ensures
            final(self).wf(),
            match action {
                Action::ListNations => {
                    &&& final(self)@ == old(self)@
                    &&& response matches Response::List { nations }
                    &&& forall|name: Seq<char>|
                        old(self)@.contains_key(name) <==> exists|i: int|
                            0 <= i < nations@.len() && (#[trigger] nations@[i])@ == name
                },
                Action::GetPassword { nation } => {
                    &&& final(self)@ == old(self)@
                    &&& response matches Response::Password { password }
                    &&& text_of(password) == if old(self)@.contains_key(nation@) {
                        Some(old(self)@[nation@].password)
                    } else {
                        None
                    }
                },
                Action::GetPin { nation } => {
                    &&& final(self)@ == old(self)@
                    &&& response matches Response::Pin { pin }
                    &&& text_of(pin) == if old(self)@.contains_key(nation@) {
                        old(self)@[nation@].pin
                    } else {
                        None
                    }
                },
                Action::SetPin { nation, pin } => {
                    &&& response == Response::Done
                    &&& final(self)@ == if old(self)@.contains_key(nation@) {
                        old(self)@.insert(
                            nation@,
                            Credentials { password: old(self)@[nation@].password, pin: Some(pin@) },
                        )
                    } else {
                        old(self)@
                    }
                },
            },
    {
        match action {
            Action::ListNations => {
                let nations = self.list_nations();
                let ghost listed = nations@;
                assert forall|name: Seq<char>| self@.contains_key(name) implies exists|i: int|
                    0 <= i < listed.len() && (#[trigger] listed[i])@ == name by {
                    let i = choose|i: int| 0 <= i < nations.len() && (#[trigger] nations[i])@ == name;
                    assert(listed[i]@ == name);
                }
                assert forall|name: Seq<char>|
                    (exists|i: int| 0 <= i < listed.len() && (#[trigger] listed[i])@ == name)
                        implies self@.contains_key(name) by {
                    let i = choose|i: int| 0 <= i < listed.len() && (#[trigger] listed[i])@ == name;
                    assert(nations[i]@ == name);
                }
                let response = Response::List { nations };
                assert(response matches Response::List { nations: told } && told@ == listed);
                assert(forall|name: Seq<char>|
                    old(self)@.contains_key(name) <==> exists|i: int|
                        0 <= i < listed.len() && (#[trigger] listed[i])@ == name);
                response
            },
            Action::GetPassword { nation } => match self.nations.get(nation.as_str()) {
                Some(known) => Response::Password { password: Some(known.password.clone()) },
                None => Response::Password { password: None },
            },
            Action::GetPin { nation } => match self.nations.get(nation.as_str()) {
                Some(known) => match &known.pin {
                    Some(pin) => Response::Pin { pin: Some(pin.clone()) },
                    None => Response::Pin { pin: None },
                },
                None => Response::Pin { pin: None },
            },
            Action::SetPin { nation, pin } => {
                let set = self.set_pin(nation.as_str(), pin.as_str());
                assert(set is Ok <==> old(self)@.contains_key(nation@));
                assert(self@ == if old(self)@.contains_key(nation@) {
                    old(self)@.insert(
                        nation@,
                        Credentials { password: old(self)@[nation@].password, pin: Some(pin@) },
                    )
                } else {
                    old(self)@
                });
                Response::Done
            },
        }
    }
}

/// After a response carried a PIN for a known nation, the PIN that the
/// cache hands out for that nation is the one carried; passwords and the
/// other nations' PINs stay.
pub proof fn lemma_carried_pin_is_kept(
    before: Map<Seq<char>, Credentials>,
    name: Seq<char>,
    pin: Seq<char>,
)
    requires
        before.contains_key(name),
    ensures
        ({
            let after = before.insert(
                name,
                Credentials { password: before[name].password, pin: Some(pin) },
            );
            &&& after[name].pin == Some(pin)
            &&& after.dom() == before.dom()
            &&& forall|other: Seq<char>|
                before.contains_key(other) ==> (#[trigger] after[other]).password
                    == before[other].password
            &&& forall|other: Seq<char>|
                before.contains_key(other) && other != name ==> #[trigger] after[other]
                    == before[other]
        }),
{
    let after = before.insert(name, Credentials { password: before[name].password, pin: Some(pin) });
    assert(after.dom() =~= before.dom());
}

} // verus!
