//! The queues of the three workers and the rule by which each tick picks
//! at most one entry: the first one, in the order of arrival, whose budgets
//! are free within one tick.

use crate::dispatch::IntermediateDispatch;
use crate::ratelimiter::{lemma_alike_wait_alike, Budgets, Receiver, Target};
use crate::response;
use crate::rmbpost::IntermediateRmbPost;
use crate::telegram::{Header, Params, Telegram, TgType};
use std::collections::VecDeque;
use vstd::hash_map::StringHashMap;
use vstd::prelude::*;

verus! {

/// The time between two ticks of a worker, in nanoseconds.
pub const PERIOD: u64 = 250_000_000;

/// A wait in whole seconds and the nanoseconds beyond them; a wait of more
/// seconds than fit is held at the largest number of seconds.
pub fn wait_parts(wait: u128) -> (parts: (u64, u32))
    ensures
        parts.1 < 1_000_000_000,
        wait / 1_000_000_000 <= u64::MAX ==> parts.0 * 1_000_000_000 + parts.1 == wait,
        wait / 1_000_000_000 > u64::MAX ==> parts == (u64::MAX, 999_999_999u32),
{
    let seconds = wait / 1_000_000_000;
    if seconds > u64::MAX as u128 {
        (u64::MAX, 999_999_999)
    } else {
        (seconds as u64, (wait % 1_000_000_000) as u32)
    }
}

/// Whether `target` may go out within one tick of `now`.
pub open spec fn ready(budgets: Budgets, target: Target, now: u64) -> bool {
    budgets.wait(target, now) <= PERIOD
}

/// Whether `picked` is the place of the first of `targets` that is ready,
/// or `None` where none of them is.
pub open spec fn picks(
    budgets: Budgets,
    targets: Seq<Target>,
    now: u64,
    picked: Option<int>,
) -> bool {
    match picked {
        Some(i) => {
            &&& 0 <= i < targets.len()
            &&& ready(budgets, targets[i], now)
            &&& forall|j: int| 0 <= j < i ==> !ready(budgets, #[trigger] targets[j], now)
        },
        None => forall|j: int|
            0 <= j < targets.len() ==> !ready(budgets, #[trigger] targets[j], now),
    }
}

/// The place that `first_ready` finds among targets like those of a queue
/// is the place that the rule picks in the queue.
proof fn lemma_pick_carries_over(
    budgets: Budgets,
    asked: Seq<Target>,
    queued: Seq<Target>,
    now: u64,
    picked: Option<int>,
)
    requires
        asked.len() == queued.len(),
        forall|i: int| 0 <= i < asked.len() ==> (#[trigger] asked[i]).alike(queued[i]),
        picks(budgets, asked, now, picked),
    ensures
        picks(budgets, queued, now, picked),
{
    assert forall|j: int| 0 <= j < asked.len() implies ready(budgets, #[trigger] queued[j], now)
        == ready(budgets, asked[j], now) by {
        assert(asked[j].alike(queued[j]));
        lemma_alike_wait_alike(budgets, asked[j], queued[j], now);
    }
}

/// The place of the first ready target, as the budgets find it.
fn pick(limiter: &Receiver, targets: &Vec<Target>, now: u64) -> (picked: Option<usize>)
    requires
        limiter.wf(),
    ensures
        picks(
            limiter@,
            targets@,
            now,
            match picked {
                Some(i) => Some(i as int),
                None => None,
            },
        ),
{
    limiter.first_ready(targets, PERIOD, now)
}

/// The queue of the dispatch worker.
pub struct DispatchWorker {
    queue: VecDeque<IntermediateDispatch>,
}

impl View for DispatchWorker {
    type V = Seq<IntermediateDispatch>;

    closed spec fn view(&self) -> Seq<IntermediateDispatch> {
        self.queue@
    }
}

impl DispatchWorker {
    /// The budgets of the queued jobs, in the order of the queue.
    pub open spec fn budgets(self) -> Seq<Target> {
        self@.map_values(|job: IntermediateDispatch| job.budget())
    }

    pub fn new() -> (worker: Self)
        ensures
            worker@ == Seq::<IntermediateDispatch>::empty(),
    {
        DispatchWorker { queue: VecDeque::new() }
    }

    /// Takes a job in at the end of the queue.
    pub fn process_command(&mut self, dispatch: IntermediateDispatch)
        ensures
            final(self)@ == old(self)@.push(dispatch),
    {
        self.queue.push_back(dispatch);
    }

    /// The targets of the queued jobs, in the order of the queue.
    pub fn targets(&self) -> (targets: Vec<Target>)
        ensures
            targets.len() == self@.len(),
            forall|i: int| 0 <= i < targets.len() ==> (#[trigger] targets[i]).alike(self.budgets()[i]),
    {
        let mut targets: Vec<Target> = Vec::new();
        let mut i: usize = 0;
        while i < self.queue.len()
            invariant
                i <= self.queue.len(),
                targets.len() == i,
                forall|j: int| 0 <= j < i ==> (#[trigger] targets[j]).alike(self.budgets()[j]),
            decreases self.queue.len() - i,
        {
            targets.push(self.queue[i].target());
            i = i + 1;
        }
        targets
    }

    /// Takes the job at `index` out of the queue.
    pub fn take(&mut self, index: usize) -> (job: Option<IntermediateDispatch>)
        ensures
            match job {
                Some(job) => {
                    &&& index < old(self)@.len()
                    &&& job == old(self)@[index as int]
                    &&& final(self)@ == old(self)@.remove(index as int)
                },
                None => index >= old(self)@.len() && final(self)@ == old(self)@,
            },
    {
        self.queue.remove(index)
    }

    /// Picks the job to post at this tick: the first in the queue whose
    /// budgets are free within one tick. It leaves the queue; the others
    /// keep their order.
    pub fn get_dispatch(&mut self, limiter: &Receiver, now: u64) -> (job: Option<
        IntermediateDispatch,
    >)
        requires
            limiter.wf(),
        ensures
            match job {
                Some(job) => exists|i: int|
                    {
                        &&& #[trigger] picks(limiter@, old(self).budgets(), now, Some(i))
                        &&& job == old(self)@[i]
                        &&& final(self)@ == old(self)@.remove(i)
                    },
                None => picks(limiter@, old(self).budgets(), now, None) && final(self)@ == old(
                    self,
                )@,
            },
    {
        let targets = self.targets();
        let picked = pick(limiter, &targets, now);
        proof {
            lemma_pick_carries_over(
                limiter@,
                targets@,
                self.budgets(),
                now,
                match picked {
                    Some(i) => Some(i as int),
                    None => None,
                },
            );
        }
        match picked {
            Some(index) => {
                let job = self.take(index);
                assert(picks(limiter@, old(self).budgets(), now, Some(index as int)));
                job
            },
            None => None,
        }
    }
}

/// The queue of the worker for regional message boards.
pub struct RmbPostWorker {
    queue: VecDeque<IntermediateRmbPost>,
}

impl View for RmbPostWorker {
    type V = Seq<IntermediateRmbPost>;

    closed spec fn view(&self) -> Seq<IntermediateRmbPost> {
        self.queue@
    }
}

impl RmbPostWorker {
    /// The budgets of the queued jobs, in the order of the queue.
    pub open spec fn budgets(self) -> Seq<Target> {
        self@.map_values(|job: IntermediateRmbPost| job.budget())
    }

    pub fn new() -> (worker: Self)
        ensures
            worker@ == Seq::<IntermediateRmbPost>::empty(),
    {
        RmbPostWorker { queue: VecDeque::new() }
    }

    /// Takes a job in at the end of the queue.
    pub fn queue_post(&mut self, post: IntermediateRmbPost)
        ensures
            final(self)@ == old(self)@.push(post),
    {
        self.queue.push_back(post);
    }

    /// The targets of the queued jobs, in the order of the queue.
    pub fn targets(&self) -> (targets: Vec<Target>)
        ensures
            targets.len() == self@.len(),
            forall|i: int| 0 <= i < targets.len() ==> (#[trigger] targets[i]).alike(self.budgets()[i]),
    {
        let mut targets: Vec<Target> = Vec::new();
        let mut i: usize = 0;
        while i < self.queue.len()
            invariant
                i <= self.queue.len(),
                targets.len() == i,
                forall|j: int| 0 <= j < i ==> (#[trigger] targets[j]).alike(self.budgets()[j]),
            decreases self.queue.len() - i,
        {
            targets.push(self.queue[i].target());
            i = i + 1;
        }
        targets
    }

    /// Takes the job at `index` out of the queue.
    pub fn take(&mut self, index: usize) -> (job: Option<IntermediateRmbPost>)
        ensures
            match job {
                Some(job) => {
                    &&& index < old(self)@.len()
                    &&& job == old(self)@[index as int]
                    &&& final(self)@ == old(self)@.remove(index as int)
                },
                None => index >= old(self)@.len() && final(self)@ == old(self)@,
            },
    {
        self.queue.remove(index)
    }

    /// Picks the job to post at this tick: the first in the queue whose
    /// budgets are free within one tick. It leaves the queue; the others
    /// keep their order.
    pub fn get_post(&mut self, limiter: &Receiver, now: u64) -> (job: Option<IntermediateRmbPost>)
        requires
            limiter.wf(),
        ensures
            match job {
                Some(job) => exists|i: int|
                    {
                        &&& #[trigger] picks(limiter@, old(self).budgets(), now, Some(i))
                        &&& job == old(self)@[i]
                        &&& final(self)@ == old(self)@.remove(i)
                    },
                None => picks(limiter@, old(self).budgets(), now, None) && final(self)@ == old(
                    self,
                )@,
            },
    {
        let targets = self.targets();
        let picked = pick(limiter, &targets, now);
        proof {
            lemma_pick_carries_over(
                limiter@,
                targets@,
                self.budgets(),
                now,
                match picked {
                    Some(i) => Some(i as int),
                    None => None,
                },
            );
        }
        match picked {
            Some(index) => {
                let job = self.take(index);
                assert(picks(limiter@, old(self).budgets(), now, Some(index as int)));
                job
            },
            None => None,
        }
    }
}


/// The two queues of the telegram worker as plain values.
pub struct TelegramQueues {
    pub recruitment: Seq<Telegram>,
    pub standard: Seq<Telegram>,
}

impl TelegramQueues {
    /// The queued telegrams in the order in which a tick looks at them:
    /// the recruitment telegrams first, then the standard ones.
    pub open spec fn scanned(self) -> Seq<Telegram> {
        self.recruitment + self.standard
    }

    /// The budgets of the queued telegrams, in the order of the scan.
    pub open spec fn budgets(self) -> Seq<Target> {
        self.scanned().map_values(|telegram: Telegram| telegram.budget())
    }

    /// The queues without the telegram at place `i` of the scan.
    pub open spec fn without(self, i: int) -> TelegramQueues {
        if i < self.recruitment.len() {
            TelegramQueues { recruitment: self.recruitment.remove(i), ..self }
        } else {
            TelegramQueues { standard: self.standard.remove(i - self.recruitment.len()), ..self }
        }
    }

    /// The queues without the telegrams that `header` names.
    pub open spec fn dropped(self, header: Header) -> TelegramQueues {
        TelegramQueues {
            recruitment: self.recruitment.filter(|telegram: Telegram| !telegram.named_by(header)),
            standard: self.standard.filter(|telegram: Telegram| !telegram.named_by(header)),
        }
    }
}

/// Whether `shown` lists `queue`: for each telegram its recipient and its
/// identifier, in the order of the queue.
pub open spec fn lists(shown: Seq<response::Telegram>, queue: Seq<Telegram>) -> bool {
    &&& shown.len() == queue.len()
    &&& forall|i: int|
        0 <= i < shown.len() ==> (#[trigger] shown[i]).recipient@ == queue[i].recipient@
            && shown[i].id@ == queue[i].telegram_id@
}

/// The queues of the telegram worker.
pub struct TelegramWorker {
    key: String,
    recruitment_queue: VecDeque<Telegram>,
    standard_queue: VecDeque<Telegram>,
}

impl View for TelegramWorker {
    type V = TelegramQueues;

    closed spec fn view(&self) -> TelegramQueues {
        TelegramQueues { recruitment: self.recruitment_queue@, standard: self.standard_queue@ }
    }
}

/// A copy of the telegrams of `queue` that `header` does not name.
fn without_named(queue: &VecDeque<Telegram>, header: &Header) -> (kept: VecDeque<Telegram>)
    ensures
        kept@ == queue@.filter(|telegram: Telegram| !telegram.named_by(*header)),
{
    let ghost keep = |telegram: Telegram| !telegram.named_by(*header);
    let mut kept: VecDeque<Telegram> = VecDeque::new();
    let mut i: usize = 0;
    proof {
        reveal(Seq::filter);
        assert(queue@.take(0).filter(keep) == Seq::<Telegram>::empty());
    }
    while i < queue.len()
        invariant
            i <= queue.len(),
            keep == |telegram: Telegram| !telegram.named_by(*header),
            kept@ == queue@.take(i as int).filter(keep),
        decreases queue.len() - i,
    {
        let telegram = &queue[i];
        proof {
            assert(queue@.take(i as int + 1) == queue@.take(i as int).push(*telegram));
            queue@.take(i as int).lemma_filter_push(*telegram, keep);
        }
        if !telegram.header().eq(header) {
            kept.push_back(telegram.duplicate());
        }
        i = i + 1;
    }
    assert(queue@.take(i as int) == queue@);
    kept
}

/// What a listing shows of `queue`.
fn listing(queue: &VecDeque<Telegram>) -> (shown: Vec<response::Telegram>)
    ensures
        lists(shown@, queue@),
{
    let mut shown: Vec<response::Telegram> = Vec::new();
    let mut i: usize = 0;
    while i < queue.len()
        invariant
            i <= queue.len(),
            lists(shown@, queue@.take(i as int)),
        decreases queue.len() - i,
    {
        shown.push(
            response::Telegram::new(queue[i].recipient.as_str(), queue[i].telegram_id.as_str()),
        );
        i = i + 1;
    }
    assert(queue@.take(i as int) == queue@);
    shown
}

impl TelegramWorker {
    /// The key under which the worker sends.
    pub closed spec fn client_key(&self) -> Seq<char> {
        self.key@
    }

    pub fn new(key: String) -> (worker: Self)
        ensures
            worker.client_key() == key@,
            worker@ == (TelegramQueues { recruitment: Seq::empty(), standard: Seq::empty() }),
    {
        TelegramWorker { key, recruitment_queue: VecDeque::new(), standard_queue: VecDeque::new() }
    }

    /// Takes the telegrams that `params` ask for in at the end of the
    /// queues of their kinds, in the order of the requests.
    pub fn queue(&mut self, params: Vec<Params>)
        ensures
            final(self).client_key() == old(self).client_key(),
            exists|made: Seq<Telegram>|
                {
                    &&& made.len() == params.len()
                    &&& forall|i: int|
                        0 <= i < made.len() ==> (#[trigger] made[i]).made_from(
                            old(self).client_key(),
                            params[i],
                        )
                    &&& final(self)@.recruitment == old(self)@.recruitment + made.filter(
                        |telegram: Telegram| telegram.tg_type == TgType::Recruitment,
                    )
                    &&& final(self)@.standard == old(self)@.standard + made.filter(
                        |telegram: Telegram| telegram.tg_type == TgType::Standard,
                    )
                },
    {
        let ghost recruits = |telegram: Telegram| telegram.tg_type == TgType::Recruitment;
        let ghost standard = |telegram: Telegram| telegram.tg_type == TgType::Standard;
        let ghost mut made: Seq<Telegram> = Seq::empty();
        let mut i: usize = 0;
        proof {
            reveal(Seq::filter);
            assert(made.filter(recruits) == Seq::<Telegram>::empty());
            assert(made.filter(standard) == Seq::<Telegram>::empty());
            assert(self@.recruitment == old(self)@.recruitment + made.filter(recruits));
            assert(self@.standard == old(self)@.standard + made.filter(standard));
        }
        while i < params.len()
            invariant
                i <= params.len(),
                recruits == |telegram: Telegram| telegram.tg_type == TgType::Recruitment,
                standard == |telegram: Telegram| telegram.tg_type == TgType::Standard,
                self.client_key() == old(self).client_key(),
                made.len() == i,
                forall|j: int|
                    0 <= j < i ==> (#[trigger] made[j]).made_from(old(self).client_key(), params[j]),
                self@.recruitment == old(self)@.recruitment + made.filter(recruits),
                self@.standard == old(self)@.standard + made.filter(standard),
            decreases params.len() - i,
        {
            let asked = &params[i];
            let telegram = Telegram::from_params(
                self.key.as_str(),
                Params {
                    sender: asked.sender.clone(),
                    id: asked.id.clone(),
                    recipient: asked.recipient.clone(),
                    secret_key: asked.secret_key.clone(),
                    tg_type: asked.tg_type,
                },
            );
            proof {
                made.lemma_filter_push(telegram, recruits);
                made.lemma_filter_push(telegram, standard);
                made = made.push(telegram);
            }
            match telegram.tg_type {
                TgType::Standard => self.standard_queue.push_back(telegram),
                TgType::Recruitment => self.recruitment_queue.push_back(telegram),
            }
            assert(self@.recruitment == old(self)@.recruitment + made.filter(recruits));
            assert(self@.standard == old(self)@.standard + made.filter(standard));
            i = i + 1;
        }
    }

    /// Drops from both queues the telegrams that `header` names.
    pub fn delete(&mut self, header: Header)
        ensures
            final(self).client_key() == old(self).client_key(),
            final(self)@ == old(self)@.dropped(header),
    {
        self.standard_queue = without_named(&self.standard_queue, &header);
        self.recruitment_queue = without_named(&self.recruitment_queue, &header);
    }

    /// What waits in the two queues, under the names `recruitment` and
    /// `standard`.
    pub fn list(&self) -> (shown: StringHashMap<Vec<response::Telegram>>)
        ensures
            shown@.dom() == set!["recruitment"@, "standard"@],
            lists(shown@["recruitment"@]@, self@.recruitment),
            lists(shown@["standard"@]@, self@.standard),
    {
        let mut shown: StringHashMap<Vec<response::Telegram>> = StringHashMap::new();
        shown.insert("recruitment".to_owned(), listing(&self.recruitment_queue));
        shown.insert("standard".to_owned(), listing(&self.standard_queue));
        proof {
            reveal_strlit("recruitment");
            reveal_strlit("standard");
            assert("recruitment"@ != "standard"@) by {
                assert("recruitment"@.len() != "standard"@.len());
            }
            assert(shown@.dom() =~= set!["recruitment"@, "standard"@]);
        }
        shown
    }

    /// The targets of the queued telegrams, in the order of the scan.
    pub fn targets(&self) -> (targets: Vec<Target>)
        ensures
            targets.len() == self@.scanned().len(),
            forall|i: int|
                0 <= i < targets.len() ==> (#[trigger] targets[i]).alike(self@.budgets()[i]),
    {
        let mut targets: Vec<Target> = Vec::new();
        let mut i: usize = 0;
        while i < self.recruitment_queue.len()
            invariant
                i <= self.recruitment_queue.len(),
                targets.len() == i,
                forall|j: int| 0 <= j < i ==> (#[trigger] targets[j]).alike(self@.budgets()[j]),
            decreases self.recruitment_queue.len() - i,
        {
            targets.push(self.recruitment_queue[i].target());
            i = i + 1;
        }
        let mut k: usize = 0;
        while k < self.standard_queue.len()
            invariant
                k <= self.standard_queue.len(),
                targets.len() == self.recruitment_queue.len() + k,
                forall|j: int|
                    0 <= j < targets.len() ==> (#[trigger] targets[j]).alike(self@.budgets()[j]),
            decreases self.standard_queue.len() - k,
        {
            targets.push(self.standard_queue[k].target());
            k = k + 1;
        }
        targets
    }

    /// Takes the telegram at place `index` of the scan out of its queue.
    pub fn take(&mut self, index: usize) -> (telegram: Option<Telegram>)
        ensures
            final(self).client_key() == old(self).client_key(),
            match telegram {
                Some(telegram) => {
                    &&& index < old(self)@.scanned().len()
                    &&& telegram == old(self)@.scanned()[index as int]
                    &&& final(self)@ == old(self)@.without(index as int)
                },
                None => index >= old(self)@.scanned().len() && final(self)@ == old(self)@,
            },
    {
        if index < self.recruitment_queue.len() {
            self.recruitment_queue.remove(index)
        } else {
            self.standard_queue.remove(index - self.recruitment_queue.len())
        }
    }

    /// Picks the telegram to send at this tick: the first of the scan whose
    /// budgets are free within one tick, so that a recruitment telegram
    /// that is ready goes before every standard one.
    pub fn get_telegram(&mut self, limiter: &Receiver, now: u64) -> (telegram: Option<Telegram>)
        requires
            limiter.wf(),
        ensures
            final(self).client_key() == old(self).client_key(),
            match telegram {
                Some(telegram) => exists|i: int|
                    {
                        &&& #[trigger] picks(limiter@, old(self)@.budgets(), now, Some(i))
                        &&& telegram == old(self)@.scanned()[i]
                        &&& final(self)@ == old(self)@.without(i)
                    },
                None => picks(limiter@, old(self)@.budgets(), now, None) && final(self)@ == old(
                    self,
                )@,
            },
    {
        let targets = self.targets();
        let picked = pick(limiter, &targets, now);
        proof {
            lemma_pick_carries_over(
                limiter@,
                targets@,
                self@.budgets(),
                now,
                match picked {
                    Some(i) => Some(i as int),
                    None => None,
                },
            );
        }
        match picked {
            Some(index) => {
                let telegram = self.take(index);
                assert(picks(limiter@, old(self)@.budgets(), now, Some(index as int)));
                telegram
            },
            None => None,
        }
    }
}

} // verus!
