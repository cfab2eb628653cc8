//! Telegrams: private messages sent by query string, in two kinds with
//! cooldowns of their own.

use crate::form::{pair_texts, put};
use crate::ratelimiter::Target;
use crate::text::{lowercased, replace, replaced, to_lowercase};
use vstd::prelude::*;
use vstd::string::StringExecFns;

verus! {

#[derive(Clone, Copy, Debug, PartialEq, Eq, Structural)]
pub enum TgType {
    Recruitment,
    Standard,
}

impl TgType {
    pub open spec fn text(self) -> Seq<char> {
        match self {
            TgType::Recruitment => "recruitment"@,
            TgType::Standard => "standard"@,
        }
    }

    /// The word that stands for the kind.
    pub fn serialize(&self) -> (word: String)
        ensures
            word@ == self.text(),
    {
        match self {
            TgType::Recruitment => "recruitment".to_owned(),
            TgType::Standard => "standard".to_owned(),
        }
    }

    /// Reads the word that stands for a kind; any other word is refused.
    pub fn deserialize(word: &str) -> (r: Result<TgType, String>)
        ensures
            match r {
                Ok(kind) => word@ == kind.text(),
                Err(e) => {
                    &&& word@ != "recruitment"@
                    &&& word@ != "standard"@
                    &&& e@ == "invalid telegram type"@
                },
            },
    {
        let word = word.to_owned();
        if word == "recruitment".to_owned() {
            Ok(TgType::Recruitment)
        } else if word == "standard".to_owned() {
            Ok(TgType::Standard)
        } else {
            Err("invalid telegram type".to_owned())
        }
    }
}

/// A client's request for a telegram.
#[derive(Clone, Debug, PartialEq, Eq)]
pub struct Params {
    pub sender: String,
    pub id: String,
    pub recipient: String,
    pub secret_key: String,
    pub tg_type: TgType,
}

/// What tells one queued telegram from another.
#[derive(Clone, Debug)]
pub struct Header {
    pub recipient: String,
    pub telegram_id: String,
}

impl Header {
    /// Whether two headers name the same telegram.
    pub open spec fn same(self, other: Header) -> bool {
        self.recipient@ == other.recipient@ && self.telegram_id@ == other.telegram_id@
    }

    pub fn eq(&self, other: &Header) -> (equal: bool)
        ensures
            equal == self.same(*other),
    {
        self.recipient == other.recipient && self.telegram_id == other.telegram_id
    }
}

/// The name under which the remote host knows a recipient: in lower case,
/// with an underscore for every space.
pub open spec fn normalized(recipient: Seq<char>) -> Seq<char> {
    replaced(lowercased(recipient), ' ', '_')
}

pub fn normalize(recipient: &str) -> (out: String)
    ensures
        out@ == normalized(recipient@),
{
    let lower = to_lowercase(recipient);
    replace(lower.as_str(), ' ', '_')
}

/// A telegram as it waits in a queue and as it is sent.
#[derive(Clone, Debug, PartialEq, Eq)]
pub struct Telegram {
    pub sender: String,
    pub action: String,
    pub client_key: String,
    pub telegram_id: String,
    pub secret_key: String,
    pub recipient: String,
    pub tg_type: TgType,
}

impl Telegram {
    pub fn header(&self) -> (header: Header)
        ensures
            header.recipient@ == self.recipient@,
            header.telegram_id@ == self.telegram_id@,
    {
        Header { recipient: self.recipient.clone(), telegram_id: self.telegram_id.clone() }
    }

    /// The telegram that a request stands for, sent under `client_key`.
    pub fn from_params(client_key: &str, params: Params) -> (telegram: Self)
        ensures
            telegram.made_from(client_key@, params),
    {
        Telegram {
            sender: params.sender,
            action: "sendTG".to_owned(),
            client_key: client_key.to_owned(),
            telegram_id: params.id,
            secret_key: params.secret_key,
            recipient: params.recipient,
            tg_type: params.tg_type,
        }
    }

    /// The budgets that sending the telegram counts against.
    pub open spec fn budget(self) -> Target {
        match self.tg_type {
            TgType::Recruitment => Target::RecruitmentTelegram { sender: self.sender },
            TgType::Standard => Target::Telegram { sender: self.sender },
        }
    }

    /// Whether `header` names this telegram.
    pub open spec fn named_by(self, header: Header) -> bool {
        self.recipient@ == header.recipient@ && self.telegram_id@ == header.telegram_id@
    }

    /// Whether this is the telegram that `params` asks for, sent under
    /// `client_key`.
    pub open spec fn made_from(self, client_key: Seq<char>, params: Params) -> bool {
        &&& self.sender == params.sender
        &&& self.action@ == "sendTG"@
        &&& self.client_key@ == client_key
        &&& self.telegram_id == params.id
        &&& self.secret_key == params.secret_key
        &&& self.recipient == params.recipient
        &&& self.tg_type == params.tg_type
    }

    pub fn target(&self) -> (target: Target)
        ensures
            target.alike(self.budget()),
    {
        match self.tg_type {
            TgType::Recruitment => Target::recruitment(self.sender.as_str()),
            TgType::Standard => Target::telegram(self.sender.as_str()),
        }
    }

    /// A copy of the telegram.
    pub fn duplicate(&self) -> (copy: Telegram)
        ensures
            copy == *self,
    {
        Telegram {
            sender: self.sender.clone(),
            action: self.action.clone(),
            client_key: self.client_key.clone(),
            telegram_id: self.telegram_id.clone(),
            secret_key: self.secret_key.clone(),
            recipient: self.recipient.clone(),
            tg_type: self.tg_type,
        }
    }

    /// The telegram in a few words: its identifier, a colon, its recipient.
    pub fn label(&self) -> (out: String)
        ensures
            out@ == self.telegram_id@ + ":"@ + self.recipient@,
    {
        self.telegram_id.clone().concat(":").concat(self.recipient.as_str())
    }

    /// The query that sends the telegram; the sender and the kind stay
    /// behind, and the recipient goes out under its normalized name.
    pub open spec fn form(self) -> Seq<(Seq<char>, Seq<char>)> {
        seq![
            ("a"@, self.action@),
            ("client"@, self.client_key@),
            ("tgid"@, self.telegram_id@),
            ("key"@, self.secret_key@),
            ("to"@, normalized(self.recipient@)),
        ]
    }

    pub fn fields(&self) -> (form: Vec<(String, String)>)
        ensures
            pair_texts(form@) == self.form(),
    {
        let mut form: Vec<(String, String)> = Vec::new();
        assert(pair_texts(form@) =~= Seq::empty());
        put(&mut form, "a", self.action.clone());
        put(&mut form, "client", self.client_key.clone());
        put(&mut form, "tgid", self.telegram_id.clone());
        put(&mut form, "key", self.secret_key.clone());
        put(&mut form, "to", normalize(self.recipient.as_str()));
        assert(pair_texts(form@) =~= self.form());
        form
    }
}

} // verus!
