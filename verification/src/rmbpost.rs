//! Posts on a regional message board.

use crate::dispatch::{text_of, Mode};
use crate::form::{entry, pair_texts, put};
use crate::ratelimiter::Target;
use vstd::prelude::*;

verus! {

/// A client's request for a post.
#[derive(Clone, Debug, PartialEq, Eq)]
pub struct NewRmbPost {
    pub nation: String,
    pub region: String,
    pub text: String,
}

/// A post job as its worker keeps it.
#[derive(Clone, Debug, PartialEq, Eq)]
pub struct IntermediateRmbPost {
    pub job_id: i32,
    pub nation: String,
    pub region: String,
    pub text: String,
}

impl IntermediateRmbPost {
    pub fn new(job_id: i32, nation: String, region: String, text: String) -> (post: Self)
        ensures
            post == (IntermediateRmbPost { job_id, nation, region, text }),
    {
        IntermediateRmbPost { job_id, nation, region, text }
    }

    /// The budgets that the job's first request counts against: a post
    /// is a restricted action of its nation.
    pub open spec fn budget(self) -> Target {
        Target::Restricted { sender: self.nation }
    }

    pub fn target(&self) -> (target: Target)
        ensures
            target.alike(self.budget()),
    {
        Target::restricted(self.nation.as_str())
    }
}

/// A post request as the remote host reads it. It is made for the prepare
/// phase without a token and enters the execute phase with one.
#[derive(Clone, Debug, PartialEq, Eq)]
pub struct RmbPost {
    pub command: String,
    pub nation: String,
    pub region: String,
    pub text: String,
    pub mode: Mode,
    pub token: Option<String>,
}

impl RmbPost {
    /// Whether the request is in one of its two phases: preparing without a
    /// token, or executing with the token it was given.
    pub open spec fn wf(self) -> bool {
        &&& self.command@ == "rmbpost"@
        &&& self.mode == Mode::Prepare <==> self.token is None
    }

    /// A request of the prepare phase.
    pub fn new(nation: String, region: String, text: String) -> (post: Self)
        ensures
            post.wf(),
            post.nation == nation,
            post.region == region,
            post.text == text,
            post.mode == Mode::Prepare,
    {
        RmbPost {
            command: "rmbpost".to_owned(),
            nation,
            region,
            text,
            mode: Mode::Prepare,
            token: None,
        }
    }

    pub fn nation(&self) -> (nation: &str)
        ensures
            nation@ == self.nation@,
    {
        self.nation.as_str()
    }

    /// The same request for the execute phase, with the token that the
    /// prepare phase gave.
    pub fn prepare(self, token: String) -> (post: Self)
        ensures
            post == (RmbPost { mode: Mode::Execute, token: Some(token), ..self }),
            self.wf() ==> post.wf(),
    {
        RmbPost {
            command: self.command,
            nation: self.nation,
            region: self.region,
            text: self.text,
            mode: Mode::Execute,
            token: Some(token),
        }
    }

    /// The prepare request of a job.
    pub fn from(intermediate: IntermediateRmbPost) -> (post: Self)
        ensures
            post.wf(),
            post.nation == intermediate.nation,
            post.region == intermediate.region,
            post.text == intermediate.text,
            post.mode == Mode::Prepare,
    {
        RmbPost::new(intermediate.nation, intermediate.region, intermediate.text)
    }

    /// The named values of the request in the order in which they are
    /// written; the token is left out while there is none.
    pub open spec fn form(self) -> Seq<(Seq<char>, Seq<char>)> {
        seq![
            ("c"@, self.command@),
            ("nation"@, self.nation@),
            ("region"@, self.region@),
            ("text"@, self.text@),
            ("mode"@, self.mode.text()),
        ] + entry("token"@, text_of(self.token))
    }

    pub fn fields(&self) -> (form: Vec<(String, String)>)
        ensures
            pair_texts(form@) == self.form(),
    {
        let mut form: Vec<(String, String)> = Vec::new();
        assert(pair_texts(form@) =~= Seq::empty());
        put(&mut form, "c", self.command.clone());
        put(&mut form, "nation", self.nation.clone());
        put(&mut form, "region", self.region.clone());
        put(&mut form, "text", self.text.clone());
        put(&mut form, "mode", self.mode.serialize());
        let ghost head = seq![
            ("c"@, self.command@),
            ("nation"@, self.nation@),
            ("region"@, self.region@),
            ("text"@, self.text@),
            ("mode"@, self.mode.text()),
        ];
        assert(pair_texts(form@) =~= head);
        if let Some(token) = &self.token {
            put(&mut form, "token", token.clone());
        }
        assert(pair_texts(form@) =~= head + entry("token"@, text_of(self.token)));
        form
    }
}

} // verus!
