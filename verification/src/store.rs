//! What a worker has the job store write when a job has ended, and what
//! those writes do to the rows.

use crate::dispatch::{text_of, Action, IntermediateDispatch};
use crate::encode::{encode, encoded};
use crate::error::Error;
use crate::text::{decimal, decimal_text};
use vstd::string::StringExecFns;
use vstd::prelude::*;

verus! {

/// The state of a job row.
#[derive(Clone, Copy, Debug, PartialEq, Eq, Structural)]
pub enum Status {
    Queued,
    Success,
    Failure,
}

/// The kind of job; the two kinds name a failure differently.
#[derive(Clone, Copy, Debug, PartialEq, Eq, Structural)]
pub enum JobClass {
    Dispatch,
    RmbPost,
}

impl Status {
    /// The word that a row of the given class holds for the state.
    pub open spec fn text(self, class: JobClass) -> Seq<char> {
        match self {
            Status::Queued => "queued"@,
            Status::Success => "success"@,
            Status::Failure => match class {
                JobClass::Dispatch => "failure"@,
                JobClass::RmbPost => "error"@,
            },
        }
    }

    pub fn word(&self, class: JobClass) -> (word: String)
        ensures
            word@ == self.text(class),
    {
        match self {
            Status::Queued => "queued".to_owned(),
            Status::Success => "success".to_owned(),
            Status::Failure => match class {
                JobClass::Dispatch => "failure".to_owned(),
                JobClass::RmbPost => "error".to_owned(),
            },
        }
    }

    /// A job that has ended stays as it is.
    pub open spec fn terminal(self) -> bool {
        self != Status::Queued
    }
}

impl JobClass {
    /// The path under which the rows of the class are polled.
    pub open spec fn path(self) -> Seq<char> {
        match self {
            JobClass::Dispatch => "/queue/dispatches/"@,
            JobClass::RmbPost => "/queue/rmbposts/"@,
        }
    }

    /// Where a client polls for the end of the job `id`.
    pub fn location(&self, id: i32) -> (path: String)
        ensures
            path@ == self.path() + decimal(id as int),
    {
        let number = decimal_text(id as i64);
        match self {
            JobClass::Dispatch => "/queue/dispatches/".to_owned().concat(number.as_str()),
            JobClass::RmbPost => "/queue/rmbposts/".to_owned().concat(number.as_str()),
        }
    }
}

/// What is written to a job row when the job has ended.
#[derive(Clone, Debug, PartialEq, Eq)]
pub struct JobUpdate {
    pub job_id: i32,
    pub status: Status,
    pub result_id: Option<i32>,
    pub error: Option<String>,
}

/// The write that records how a job ended: success with the identifier
/// that the remote host gave, or failure with the error written out. A post
/// that succeeded is recorded with an empty error text, a dispatch that
/// succeeded with none.
pub fn update_job(job_id: i32, class: JobClass, result: &Result<i32, Error>) -> (update: JobUpdate)
    ensures
        update.job_id == job_id,
        update.status.terminal(),
        match *result {
            Ok(id) => {
                &&& update.status == Status::Success
                &&& update.result_id == Some(id)
                &&& text_of(update.error) == match class {
                    JobClass::Dispatch => None,
                    JobClass::RmbPost => Some(Seq::<char>::empty()),
                }
            },
            Err(e) => {
                &&& update.status == Status::Failure
                &&& update.result_id is None
                &&& text_of(update.error) == Some(e.text())
            },
        },
{
    match result {
        Ok(id) => JobUpdate {
            job_id,
            status: Status::Success,
            result_id: Some(*id),
            error: match class {
                JobClass::Dispatch => None,
                JobClass::RmbPost => Some(String::new()),
            },
        },
        Err(e) => JobUpdate {
            job_id,
            status: Status::Failure,
            result_id: None,
            error: Some(e.message()),
        },
    }
}

/// A job row.
#[derive(Clone, Debug, PartialEq, Eq)]
pub struct Job {
    pub id: i32,
    pub status: Status,
    pub result_id: Option<i32>,
    pub error: Option<String>,
}

impl Job {
    /// The row of a job that was just accepted.
    pub fn queued(id: i32) -> (job: Job)
        ensures
            job == (Job { id, status: Status::Queued, result_id: None, error: None }),
    {
        Job { id, status: Status::Queued, result_id: None, error: None }
    }

    /// The row after `update` was written: a queued row of that job takes
    /// the outcome, every other row stays as it is.
    pub open spec fn recorded(self, update: JobUpdate) -> Job {
        if self.status == Status::Queued && update.job_id == self.id && update.status.terminal() {
            Job {
                id: self.id,
                status: update.status,
                result_id: update.result_id,
                error: update.error,
            }
        } else {
            self
        }
    }

    /// Writes `update` to the row.
    pub fn record(&mut self, update: JobUpdate)
        ensures
            *final(self) == old(self).recorded(update),
    {
        let queued = match self.status {
            Status::Queued => true,
            _ => false,
        };
        let ends = match update.status {
            Status::Queued => false,
            _ => true,
        };
        if queued && update.job_id == self.id && ends {
            self.status = update.status;
            self.result_id = update.result_id;
            self.error = update.error;
        }
    }

    /// The row after a series of writes.
    pub open spec fn recorded_all(self, updates: Seq<JobUpdate>) -> Job
        decreases updates.len(),
    {
        if updates.len() == 0 {
            self
        } else {
            self.recorded_all(updates.drop_last()).recorded(updates.last())
        }
    }
}

/// Terminal once, for one write: a row that has ended is not changed by
/// any further write, and no write takes a row back to `Queued`.
pub proof fn lemma_terminal_is_final(job: Job, update: JobUpdate)
    ensures
        job.status.terminal() ==> job.recorded(update) == job,
        job.recorded(update).status == Status::Queued ==> job.recorded(update) == job,
        job.recorded(update).id == job.id,
{
}

/// Terminal once, for a series of writes: once a row has ended, it holds
/// the same outcome after every series of further writes.
pub proof fn lemma_terminal_once(job: Job, updates: Seq<JobUpdate>)
    requires
        job.status.terminal(),
    ensures
        job.recorded_all(updates) == job,
    decreases updates.len(),
{
    if updates.len() > 0 {
        lemma_terminal_once(job, updates.drop_last());
    }
}

/// One write to the job store.
#[derive(Clone, Debug, PartialEq, Eq)]
pub enum StoreAction {
    /// Record how the job ended.
    UpdateJob(JobUpdate),
    /// Make the dispatch known as an active dispatch of `nation`.
    InsertHeader { dispatch_id: i32, nation: String },
    /// Append a content row to the history of the dispatch.
    InsertContent {
        dispatch_id: i32,
        category: i16,
        subcategory: i16,
        title: String,
        text: String,
        created_by: String,
    },
    /// Mark the dispatch as removed.
    SetInactive { dispatch_id: i32 },
}

/// Whether `action` appends to the history of the dispatch `id` the content
/// that `job` carries, with the text as it went out and the job's author.
pub open spec fn appends_content(action: StoreAction, id: i32, job: IntermediateDispatch) -> bool {
    &&& action matches StoreAction::InsertContent {
        dispatch_id,
        category,
        subcategory,
        title,
        text,
        created_by,
    }
    &&& dispatch_id == id
    &&& job.category() matches Some(of)
    &&& (category, subcategory) == of.pair()
    &&& Some(title@) == job.title()
    &&& job.text() matches Some(written)
    &&& text@ == encoded(written)
    &&& created_by@ == job.author@
}

/// The writes that follow a dispatch job with the given end, in their
/// order. The job row is always written. After a success the content is
/// mirrored: an `add` makes the dispatch known and appends its content, an
/// `edit` appends the new content, a `remove` marks the dispatch inactive.
/// After a failure nothing else is written.
pub fn dispatch_actions(job: &IntermediateDispatch, result: &Result<i32, Error>) -> (actions: Vec<
    StoreAction,
>)
    ensures
        follows(actions@, *job, *result),
        actions.len() >= 1,
        actions[0] matches StoreAction::UpdateJob(update) && {
            &&& update.job_id == job.job_id
            &&& update.status == if *result is Ok {
                Status::Success
            } else {
                Status::Failure
            }
            &&& update.result_id == match *result {
                Ok(id) => Some(id),
                Err(_) => None,
            }
            &&& text_of(update.error) == match *result {
                Ok(_) => None,
                Err(e) => Some(e.text()),
            }
        },
        match *result {
            Err(_) => actions.len() == 1,
            Ok(made) => match job.action {
                Action::Add { .. } => {
                    &&& actions.len() == 3
                    &&& actions[1] matches StoreAction::InsertHeader { dispatch_id, nation }
                    &&& dispatch_id == made
                    &&& nation@ == job.nation@
                    &&& appends_content(actions[2], made, *job)
                },
                Action::Edit { id, .. } => {
                    &&& actions.len() == 2
                    &&& appends_content(actions[1], id, *job)
                },
                Action::Remove { id } => {
                    &&& actions.len() == 2
                    &&& actions[1] == (StoreAction::SetInactive { dispatch_id: id })
                },
            },
        },
{
    let mut actions: Vec<StoreAction> = Vec::new();
    actions.push(StoreAction::UpdateJob(update_job(job.job_id, JobClass::Dispatch, result)));
    if let Ok(made) = result {
        match &job.action {
            Action::Add { title, text, category } => {
                let (category, subcategory) = category.to_tuple();
                actions.push(
                    StoreAction::InsertHeader { dispatch_id: *made, nation: job.nation.clone() },
                );
                actions.push(
                    StoreAction::InsertContent {
                        dispatch_id: *made,
                        category,
                        subcategory,
                        title: title.clone(),
                        text: encode(text.as_str()),
                        created_by: job.author.clone(),
                    },
                );
            },
            Action::Edit { id, title, text, category } => {
                let (category, subcategory) = category.to_tuple();
                actions.push(
                    StoreAction::InsertContent {
                        dispatch_id: *id,
                        category,
                        subcategory,
                        title: title.clone(),
                        text: encode(text.as_str()),
                        created_by: job.author.clone(),
                    },
                );
            },
            Action::Remove { id } => {
                actions.push(StoreAction::SetInactive { dispatch_id: *id });
            },
        }
    }
    actions
}

/// The write that follows a post job with the given end.
pub fn rmbpost_actions(job_id: i32, result: &Result<i32, Error>) -> (actions: Vec<StoreAction>)
    ensures
        actions.len() == 1,
        actions[0] matches StoreAction::UpdateJob(update) && {
            &&& update.job_id == job_id
            &&& update.status == if *result is Ok {
                Status::Success
            } else {
                Status::Failure
            }
            &&& update.result_id == match *result {
                Ok(id) => Some(id),
                Err(_) => None,
            }
            &&& text_of(update.error) == match *result {
                Ok(_) => Some(Seq::<char>::empty()),
                Err(e) => Some(e.text()),
            }
        },
{
    let mut actions: Vec<StoreAction> = Vec::new();
    actions.push(StoreAction::UpdateJob(update_job(job_id, JobClass::RmbPost, result)));
    actions
}

/// What the store holds of one dispatch.
pub struct DispatchRow {
    pub nation: Seq<char>,
    pub is_active: bool,
}

/// The dispatch tables as plain values: the dispatches by identifier, and
/// for each content row the dispatch whose history it belongs to.
pub struct Tables {
    pub dispatches: Map<i32, DispatchRow>,
    pub content: Seq<i32>,
}

impl Tables {
    /// The tables after one write.
    pub open spec fn written(self, action: StoreAction) -> Tables {
        match action {
            StoreAction::UpdateJob(_) => self,
            StoreAction::InsertHeader { dispatch_id, nation } => Tables {
                dispatches: self.dispatches.insert(
                    dispatch_id,
                    DispatchRow { nation: nation@, is_active: true },
                ),
                ..self
            },
            StoreAction::InsertContent { dispatch_id, .. } => Tables {
                content: self.content.push(dispatch_id),
                ..self
            },
            StoreAction::SetInactive { dispatch_id } => if self.dispatches.contains_key(
                dispatch_id,
            ) {
                Tables {
                    dispatches: self.dispatches.insert(
                        dispatch_id,
                        DispatchRow { is_active: false, ..self.dispatches[dispatch_id] },
                    ),
                    ..self
                }
            } else {
                self
            },
        }
    }

    /// The tables after a series of writes.
    pub open spec fn written_all(self, actions: Seq<StoreAction>) -> Tables
        decreases actions.len(),
    {
        if actions.len() == 0 {
            self
        } else {
            self.written_all(actions.drop_last()).written(actions.last())
        }
    }

    /// How many content rows the history of the dispatch `id` holds.
    pub open spec fn history(self, id: i32) -> nat {
        self.content.filter(|row: i32| belongs(row, id)).len()
    }
}

/// Whether a content row of the dispatch `row` belongs to the history of `id`.
pub open spec fn belongs(row: i32, id: i32) -> bool {
    row == id
}

/// Whether the writes are those that follow `job` ending with `result`.
pub open spec fn follows(
    actions: Seq<StoreAction>,
    job: IntermediateDispatch,
    result: Result<i32, Error>,
) -> bool {
    &&& actions.len() >= 1
    &&& actions[0] is UpdateJob
    &&& match result {
        Err(_) => actions.len() == 1,
        Ok(made) => match job.action {
            Action::Add { .. } => {
                &&& actions.len() == 3
                &&& actions[1] matches StoreAction::InsertHeader { dispatch_id, .. }
                &&& dispatch_id == made
                &&& actions[2] matches StoreAction::InsertContent { dispatch_id, .. }
                &&& dispatch_id == made
            },
            Action::Edit { id, .. } => {
                &&& actions.len() == 2
                &&& actions[1] matches StoreAction::InsertContent { dispatch_id, .. }
                &&& dispatch_id == id
            },
            Action::Remove { id } => {
                &&& actions.len() == 2
                &&& actions[1] == (StoreAction::SetInactive { dispatch_id: id })
            },
        },
    }
}

/// The dispatch that a job has added to or changed, where it succeeded in
/// adding or editing.
pub open spec fn touched(job: IntermediateDispatch, result: Result<i32, Error>) -> Option<i32> {
    match result {
        Err(_) => None,
        Ok(made) => match job.action {
            Action::Add { .. } => Some(made),
            Action::Edit { id, .. } => Some(id),
            Action::Remove { .. } => None,
        },
    }
}

proof fn lemma_unfold_writes(tables: Tables, actions: Seq<StoreAction>)
    ensures
        actions.len() == 1 ==> tables.written_all(actions) == tables.written(actions[0]),
        actions.len() == 2 ==> tables.written_all(actions) == tables.written(actions[0]).written(
            actions[1],
        ),
        actions.len() == 3 ==> tables.written_all(actions) == tables.written(actions[0]).written(
            actions[1],
        ).written(actions[2]),
{
    reveal_with_fuel(Tables::written_all, 4);
    if actions.len() == 3 {
        assert(actions.drop_last().drop_last().drop_last().len() == 0);
        assert(actions.drop_last().last() == actions[1]);
        assert(actions.drop_last().drop_last().last() == actions[0]);
    } else if actions.len() == 2 {
        assert(actions.drop_last().last() == actions[0]);
    }
}

/// Active dispatch. The writes that follow a job leave a known dispatch
/// active exactly as it was, but for two cases: a successful `remove` of it
/// makes it inactive, and a successful `add` that gives its identifier
/// makes it active.
pub proof fn lemma_active_until_removed(
    tables: Tables,
    actions: Seq<StoreAction>,
    job: IntermediateDispatch,
    result: Result<i32, Error>,
    id: i32,
)
    requires
        follows(actions, job, result),
        tables.dispatches.contains_key(id),
    ensures
        tables.written_all(actions).dispatches.contains_key(id),
        tables.written_all(actions).dispatches[id].is_active == if result is Ok
            && job.action == (Action::Remove { id }) {
            false
        } else if result == Ok::<i32, Error>(id) && job.action is Add {
            true
        } else {
            tables.dispatches[id].is_active
        },
{
    lemma_unfold_writes(tables, actions);
}

/// Content history. The writes that follow a job append one row to the
/// history of the dispatch that the job has added or edited with success,
/// and none to any other history.
pub proof fn lemma_history_grows_by_success(
    tables: Tables,
    actions: Seq<StoreAction>,
    job: IntermediateDispatch,
    result: Result<i32, Error>,
    id: i32,
)
    requires
        follows(actions, job, result),
    ensures
        tables.written_all(actions).history(id) == tables.history(id) + if touched(job, result)
            == Some(id) {
            1nat
        } else {
            0nat
        },
{
    lemma_unfold_writes(tables, actions);
    let of = |row: i32| belongs(row, id);
    let after = tables.written_all(actions);
    match touched(job, result) {
        Some(changed) => {
            tables.content.lemma_filter_push(changed, of);
            assert(after.content == tables.content.push(changed));
        },
        None => {
            assert(after.content == tables.content);
        },
    }
}


/// Whether a job that ended with `result` has added to or changed the
/// dispatch `id` with success.
pub open spec fn succeeded_on(ended: (IntermediateDispatch, Result<i32, Error>), id: i32) -> bool {
    touched(ended.0, ended.1) == Some(id)
}

/// How many of the jobs that have ended were successful adds or edits of
/// the dispatch `id`.
pub open spec fn successes(ended: Seq<(IntermediateDispatch, Result<i32, Error>)>, id: i32) -> nat {
    ended.filter(|job: (IntermediateDispatch, Result<i32, Error>)| succeeded_on(job, id)).len()
}

impl Tables {
    /// The tables after the writes of a series of jobs, job after job.
    pub open spec fn written_in_turn(self, writes: Seq<Seq<StoreAction>>) -> Tables
        decreases writes.len(),
    {
        if writes.len() == 0 {
            self
        } else {
            self.written_in_turn(writes.drop_last()).written_all(writes.last())
        }
    }
}

/// Content history, over a series of jobs. After the writes that follow
/// each of the jobs in turn, the history of a dispatch has grown by the
/// number of successful adds and edits of that dispatch among them.
pub proof fn lemma_history_counts_successes(
    tables: Tables,
    ended: Seq<(IntermediateDispatch, Result<i32, Error>)>,
    writes: Seq<Seq<StoreAction>>,
    id: i32,
)
    requires
        ended.len() == writes.len(),
        forall|i: int| 0 <= i < ended.len() ==> follows(#[trigger] writes[i], ended[i].0, ended[i].1),
    ensures
        tables.written_in_turn(writes).history(id) == tables.history(id) + successes(ended, id),
    decreases ended.len(),
{
    let counted = |job: (IntermediateDispatch, Result<i32, Error>)| succeeded_on(job, id);
    reveal(Seq::filter);
    if ended.len() > 0 {
        let before = ended.drop_last();
        assert forall|i: int| 0 <= i < before.len() implies follows(
            #[trigger] writes.drop_last()[i],
            before[i].0,
            before[i].1,
        ) by {
            assert(writes.drop_last()[i] == writes[i]);
        }
        lemma_history_counts_successes(tables, before, writes.drop_last(), id);
        let last = ended.last();
        assert(follows(writes[writes.len() - 1], last.0, last.1));
        lemma_history_grows_by_success(
            tables.written_in_turn(writes.drop_last()),
            writes.last(),
            last.0,
            last.1,
            id,
        );
        assert(ended == before.push(last));
        before.lemma_filter_push(last, counted);
    }
}

} // verus!
