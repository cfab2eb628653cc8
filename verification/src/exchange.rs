//! The two-phase exchange with the remote host: a request is prepared, the
//! token that comes back is echoed, and the request is executed.

use crate::dispatch::{Action, Dispatch, IntermediateDispatch, Mode};
use crate::encode::{encode, encoded};
use crate::envelope::{lookup, parse, xml_children, Envelope};
use crate::error::Error;
use crate::form::{form_urlencoded, to_body};
use crate::identifier::{dispatch_id, first_number, identified, marked_number, rmbpost_id};
use crate::ratelimiter::Target;
use crate::rmbpost::{IntermediateRmbPost, RmbPost};
use vstd::prelude::*;

verus! {

/// A request in its wire form.
#[derive(Clone, Debug, PartialEq, Eq)]
pub enum Wire {
    Dispatch(Dispatch),
    RmbPost(RmbPost),
}

impl Wire {
    pub open spec fn mode(self) -> Mode {
        match self {
            Wire::Dispatch(dispatch) => dispatch.mode,
            Wire::RmbPost(post) => post.mode,
        }
    }

    pub open spec fn nation(self) -> Seq<char> {
        match self {
            Wire::Dispatch(dispatch) => dispatch.nation@,
            Wire::RmbPost(post) => post.nation@,
        }
    }

    pub open spec fn form(self) -> Seq<(Seq<char>, Seq<char>)> {
        match self {
            Wire::Dispatch(dispatch) => dispatch.form(),
            Wire::RmbPost(post) => post.form(),
        }
    }

    /// The same request in the execute phase, with `token`.
    pub open spec fn prepared(self, token: String) -> Wire {
        match self {
            Wire::Dispatch(dispatch) => Wire::Dispatch(
                Dispatch { mode: Mode::Execute, token: Some(token), ..dispatch },
            ),
            Wire::RmbPost(post) => Wire::RmbPost(
                RmbPost { mode: Mode::Execute, token: Some(token), ..post },
            ),
        }
    }

    /// Whether the request is in one of its two phases.
    pub open spec fn wf(self) -> bool {
        match self {
            Wire::Dispatch(dispatch) => dispatch.wf(),
            Wire::RmbPost(post) => post.wf(),
        }
    }

    /// The number that a successful answer reports for this kind of request.
    pub open spec fn reported(self, answer: Seq<char>) -> Option<nat> {
        match self {
            Wire::Dispatch(_) => first_number(answer),
            Wire::RmbPost(_) => marked_number(answer),
        }
    }
}

/// One job on its way through the two phases.
#[derive(Clone, Debug, PartialEq, Eq)]
pub struct Exchange {
    /// The dispatch that the job is about, where it existed before.
    pub known_id: Option<i32>,
    pub wire: Wire,
}

/// What follows an answer of the remote host.
#[derive(Debug, PartialEq, Eq)]
pub enum Progress {
    /// The request was prepared: the budgets of the target that is handed
    /// out are to be acquired, then the exchange is to be sent.
    Execute(Exchange, Target),
    /// The job has ended, with the identifier of what it made or changed,
    /// or with the reason why it failed.
    Done(Result<i32, Error>),
}

impl Exchange {
    /// Starts the exchange for a dispatch job. The text goes out encoded;
    /// the budgets to acquire before the prepare request are the job's.
    pub fn dispatch(job: IntermediateDispatch) -> (r: (Exchange, Target))
        ensures
            r.0.wire.wf(),
            r.0.known_id == job.known_id(),
            r.0.wire matches Wire::Dispatch(dispatch) && dispatch.requests(
                job,
                match job.text() {
                    Some(text) => Some(encoded(text)),
                    None => None,
                },
            ),
            r.1.alike(job.budget()),
    {
        let target = job.target();
        let known_id = job.dispatch_id();
        let IntermediateDispatch { job_id, author, nation, action } = job;
        let action = match action {
            Action::Add { title, text, category } => Action::Add {
                title,
                text: encode(text.as_str()),
                category,
            },
            Action::Edit { id, title, text, category } => Action::Edit {
                id,
                title,
                text: encode(text.as_str()),
                category,
            },
            Action::Remove { id } => Action::Remove { id },
        };
        let sent = IntermediateDispatch { job_id, author, nation, action };
        (Exchange { known_id, wire: Wire::Dispatch(Dispatch::from(sent)) }, target)
    }

    /// Starts the exchange for a post job. The text goes out encoded; the
    /// post is a restricted action of its nation.
    pub fn rmbpost(job: IntermediateRmbPost) -> (r: (Exchange, Target))
        ensures
            r.0.known_id is None,
            r.0.wire matches Wire::RmbPost(post) && {
                &&& post.wf()
                &&& post.mode == Mode::Prepare
                &&& post.nation@ == job.nation@
                &&& post.region@ == job.region@
                &&& post.text@ == encoded(job.text@)
            },
            r.1.alike(job.budget()),
    {
        let target = job.target();
        let text = encode(job.text.as_str());
        let post = RmbPost::new(job.nation, job.region, text);
        (Exchange { known_id: None, wire: Wire::RmbPost(post) }, target)
    }

    /// The nation on whose behalf the exchange runs.
    pub fn nation(&self) -> (nation: &str)
        ensures
            nation@ == self.wire.nation(),
    {
        match &self.wire {
            Wire::Dispatch(dispatch) => dispatch.nation.as_str(),
            Wire::RmbPost(post) => post.nation(),
        }
    }

    /// The body of the request that is due.
    pub fn body(&self) -> (r: Result<String, Error>)
        ensures
            match r {
                Ok(body) => form_urlencoded(self.wire.form()) == Some(body@),
                Err(e) => form_urlencoded(self.wire.form()) is None && e is URLEncode,
            },
    {
        let fields = match &self.wire {
            Wire::Dispatch(dispatch) => dispatch.fields(),
            Wire::RmbPost(post) => post.fields(),
        };
        to_body(&fields)
    }

    /// What follows the answer `envelope` to the request that was sent.
    ///
    /// An answer without `SUCCESS` ends the job: with the remote host's
    /// message where there is one. A `SUCCESS` to the prepare request holds
    /// the token, and the request moves on to the execute phase with it,
    /// for which a standard request is to be acquired once more. A
    /// `SUCCESS` to the execute request ends the job with the identifier:
    /// the one known before, else the one that the answer reports.
    pub fn advance_with(self, envelope: Envelope) -> (p: Progress)
        ensures
            match envelope.success {
                None => match envelope.error {
                    Some(message) => p == Progress::Done(Err(Error::NationStates(message))),
                    None => p matches Progress::Done(Err(Error::Deserialize(cause))) && cause@
                        == "neither SUCCESS nor ERROR"@,
                },
                Some(answer) => match self.wire.mode() {
                    Mode::Prepare => p == Progress::Execute(
                        Exchange { known_id: self.known_id, wire: self.wire.prepared(answer) },
                        Target::Standard,
                    ),
                    Mode::Execute => p matches Progress::Done(r) && match self.known_id {
                        Some(id) => r == Ok::<i32, Error>(id),
                        None => identified(self.wire.reported(answer@), r),
                    },
                },
            },
    {
        let answer = match envelope.success {
            Some(answer) => answer,
            None => {
                return match envelope.error {
                    Some(message) => Progress::Done(Err(Error::NationStates(message))),
                    None => Progress::Done(
                        Err(Error::Deserialize("neither SUCCESS nor ERROR".to_owned())),
                    ),
                };
            },
        };
        match self.wire {
            Wire::Dispatch(mut dispatch) => match dispatch.mode {
                Mode::Prepare => {
                    dispatch.set_mode(Mode::Execute);
                    dispatch.set_token(answer);
                    Progress::Execute(
                        Exchange { known_id: self.known_id, wire: Wire::Dispatch(dispatch) },
                        Target::Standard,
                    )
                },
                Mode::Execute => match self.known_id {
                    Some(id) => Progress::Done(Ok(id)),
                    None => Progress::Done(dispatch_id(answer.as_str())),
                },
            },
            Wire::RmbPost(post) => match post.mode {
                Mode::Prepare => Progress::Execute(
                    Exchange { known_id: self.known_id, wire: Wire::RmbPost(post.prepare(answer)) },
                    Target::Standard,
                ),
                Mode::Execute => match self.known_id {
                    Some(id) => Progress::Done(Ok(id)),
                    None => Progress::Done(rmbpost_id(answer.as_str())),
                },
            },
        }
    }

    /// What follows the answer `reply`, the body of a response that the
    /// remote host sent with a status of success.
    pub fn advance(self, reply: &str) -> (p: Progress)
        ensures
            match xml_children(reply@) {
                None => p matches Progress::Done(Err(Error::Deserialize(_))),
                Some(children) => match lookup(children, "SUCCESS"@) {
                    None => match lookup(children, "ERROR"@) {
                        Some(message) => p matches Progress::Done(Err(Error::NationStates(text)))
                            && text@ == message,
                        None => p matches Progress::Done(Err(Error::Deserialize(_))),
                    },
                    Some(answer) => match self.wire.mode() {
                        Mode::Prepare => {
                            &&& p matches Progress::Execute(next, target)
                            &&& target == Target::Standard
                            &&& exists|token: String|
                                token@ == answer && next == (Exchange {
                                    known_id: self.known_id,
                                    wire: #[trigger] self.wire.prepared(token),
                                })
                        },
                        Mode::Execute => p matches Progress::Done(r) && match self.known_id {
                            Some(id) => r == Ok::<i32, Error>(id),
                            None => identified(self.wire.reported(answer), r),
                        },
                    },
                },
            },
    {
        match parse(reply) {
            Ok(envelope) => self.advance_with(envelope),
            Err(e) => Progress::Done(Err(e)),
        }
    }

    /// What follows a request that did not come back with a status of
    /// success: the job ends with the failure.
    pub fn fail(self, cause: String) -> (p: Progress)
        ensures
            p == Progress::Done(Err(Error::HTTPClient(cause))),
    {
        Progress::Done(Err(Error::HTTPClient(cause)))
    }
}


/// The order of the two phases. A request that is prepared and then given
/// `token` is in the execute phase, and what it sends is what it sent
/// before, with the mode changed and the token echoed at the end.
pub proof fn lemma_token_is_echoed(wire: Wire, token: String)
    requires
        wire.wf(),
        wire.mode() == Mode::Prepare,
    ensures
        wire.prepared(token).wf(),
        wire.prepared(token).mode() == Mode::Execute,
        wire.form().len() > 0,
        wire.form().last() == ("mode"@, Mode::Prepare.text()),
        wire.prepared(token).form() == wire.form().drop_last() + seq![
            ("mode"@, Mode::Execute.text()),
            ("token"@, token@),
        ],
{
    match wire {
        Wire::Dispatch(dispatch) => {
            let head = dispatch.form().drop_last();
            assert(dispatch.form() =~= head + seq![("mode"@, Mode::Prepare.text())]);
            let sent = Dispatch { mode: Mode::Execute, token: Some(token), ..dispatch };
            assert(sent.form() =~= head + seq![
                ("mode"@, Mode::Execute.text()),
                ("token"@, token@),
            ]);
        },
        Wire::RmbPost(post) => {
            let head = post.form().drop_last();
            let sent = RmbPost { mode: Mode::Execute, token: Some(token), ..post };
            assert(sent.form() =~= head + seq![
                ("mode"@, Mode::Execute.text()),
                ("token"@, token@),
            ]);
        },
    }
}

} // verus!
