//! What the gateway answers with.

use vstd::prelude::*;

verus! {

/// A queued telegram as a listing shows it.
#[derive(Clone, Debug, PartialEq, Eq)]
pub struct Telegram {
    pub recipient: String,
    pub id: String,
}

impl Telegram {
    pub fn new(recipient: &str, telegram_id: &str) -> (telegram: Self)
        ensures
            telegram.recipient@ == recipient@,
            telegram.id@ == telegram_id@,
    {
        Telegram { recipient: recipient.to_owned(), id: telegram_id.to_owned() }
    }
}

/// The answer to a successful login.
#[derive(Clone, Debug, PartialEq, Eq)]
pub struct Login {
    pub username: String,
    pub token: String,
}

impl Login {
    pub fn new(username: &str, token: &str) -> (login: Self)
        ensures
            login.username@ == username@,
            login.token@ == token@,
    {
        Login { username: username.to_owned(), token: token.to_owned() }
    }
}

} // verus!
