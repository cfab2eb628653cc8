//! The four rate budgets of the remote host and the one owner that books
//! reservations in them: a global bucket of requests, a cooldown for
//! telegrams, a cooldown for recruitment telegrams, and for each nation a
//! cooldown for restricted actions.

use crate::error::Error;
use std::collections::VecDeque;
use std::time::Instant;
use vstd::hash_map::StringHashMap;
use vstd::prelude::*;

verus! {

/// Time that has passed at `now` since the reservation `t`; a reservation
/// that still lies ahead counts as made just now.
pub open spec fn elapsed(t: u128, now: u64) -> int {
    if t <= now {
        now - t
    } else {
        0
    }
}

/// Whether the reservation `t` still counts against a budget of the given
/// window at `now`.
pub open spec fn live(t: u128, window: u64, now: u64) -> bool {
    elapsed(t, now) < window
}

/// The reservations of a bucket that still count at `now`, in the order in
/// which they were made.
pub open spec fn retained(times: Seq<u128>, window: u64, now: u64) -> Seq<u128> {
    times.filter(|t: u128| live(t, window, now))
}

/// How long a caller has to wait at `now` for a slot in one bucket that
/// admits `capacity` reservations per `window`.
pub open spec fn bucket_wait(times: Seq<u128>, window: u64, capacity: int, now: u64) -> int {
    let kept = retained(times, window, now);
    if kept.len() < capacity {
        0
    } else {
        let due = window * (kept.len() as int / capacity) - elapsed(kept[0], now);
        if due > 0 {
            due
        } else {
            0
        }
    }
}

/// A wait never exceeds one window for each reservation the bucket holds.
pub proof fn lemma_wait_bound(times: Seq<u128>, window: u64, capacity: int, now: u64)
    requires
        capacity > 0,
    ensures
        0 <= bucket_wait(times, window, capacity, now) <= window * times.len(),
{
    let kept = retained(times, window, now);
    times.lemma_filter_len(|t: u128| live(t, window, now));
    if kept.len() >= capacity {
        let k = kept.len() as int;
        let n = times.len() as int;
        let w = window as int;
        assert(0 <= k / capacity <= k) by (nonlinear_arith)
            requires
                k >= 0,
                capacity > 0,
        ;
        let q = k / capacity;
        assert(w * q <= w * n) by (nonlinear_arith)
            requires
                0 <= q <= n,
                w >= 0,
        ;
    } else {
        assert(0 <= window * times.len()) by (nonlinear_arith)
            requires
                window >= 0,
                times.len() >= 0,
        ;
    }
}

fn is_live(t: u128, window: u64, now: u64) -> (b: bool)
    ensures
        b == live(t, window, now),
{
    if t <= now as u128 {
        now as u128 - t < window as u128
    } else {
        0 < window
    }
}

/// The wait that one bucket asks for at `now`.
fn bucket_peek(times: &VecDeque<u128>, window: u64, capacity: usize, now: u64) -> (wait: u128)
    requires
        capacity > 0,
    ensures
        wait == bucket_wait(times@, window, capacity as int, now),
{
    let ghost keep = |t: u128| live(t, window, now);
    let mut count: usize = 0;
    let mut first: u128 = 0;
    let mut i: usize = 0;
    proof {
        reveal(Seq::filter);
        assert(times@.take(0).filter(keep).len() == 0);
    }
    while i < times.len()
        invariant
            i <= times.len(),
            keep == |t: u128| live(t, window, now),
            count == times@.take(i as int).filter(keep).len(),
            count <= i,
            count > 0 ==> first == times@.take(i as int).filter(keep)[0],
        decreases times.len() - i,
    {
        let t = times[i];
        proof {
            assert(times@.take(i as int + 1) == times@.take(i as int).push(t));
            times@.take(i as int).lemma_filter_push(t, keep);
        }
        if is_live(t, window, now) {
            if count == 0 {
                first = t;
            }
            count = count + 1;
        }
        i = i + 1;
    }
    assert(times@.take(i as int) == times@);
    if count < capacity {
        0
    } else {
        let slots = count / capacity;
        assert(window * slots <= u64::MAX * u64::MAX) by (nonlinear_arith)
            requires
                0 <= window <= u64::MAX,
                0 <= slots <= u64::MAX,
        ;
        let due: u128 = (window as u128) * (slots as u128);
        let gone: u128 = if first <= now as u128 {
            now as u128 - first
        } else {
            0
        };
        if due > gone {
            due - gone
        } else {
            0
        }
    }
}

/// A copy of a bucket without the reservations that no longer count at `now`.
fn prune(times: &VecDeque<u128>, window: u64, now: u64) -> (kept: VecDeque<u128>)
    ensures
        kept@ == retained(times@, window, now),
{
    let ghost keep = |t: u128| live(t, window, now);
    let mut kept: VecDeque<u128> = VecDeque::new();
    let mut i: usize = 0;
    proof {
        reveal(Seq::filter);
        assert(times@.take(0).filter(keep) == Seq::<u128>::empty());
    }
    while i < times.len()
        invariant
            i <= times.len(),
            keep == |t: u128| live(t, window, now),
            kept@ == times@.take(i as int).filter(keep),
        decreases times.len() - i,
    {
        let t = times[i];
        proof {
            assert(times@.take(i as int + 1) == times@.take(i as int).push(t));
            times@.take(i as int).lemma_filter_push(t, keep);
        }
        if is_live(t, window, now) {
            kept.push_back(t);
        }
        i = i + 1;
    }
    assert(times@.take(i as int) == times@);
    kept
}


/// What a caller wants to do, and so which budgets it has to respect. Each
/// kind falls under every budget of the kinds that follow it in this list:
/// recruitment telegram, telegram, restricted action, standard request.
#[derive(Clone, Debug, PartialEq, Eq)]
pub enum Target {
    RecruitmentTelegram { sender: String },
    Telegram { sender: String },
    Restricted { sender: String },
    Standard,
}

impl Target {
    pub fn recruitment(sender: &str) -> (target: Target)
        ensures
            target matches Target::RecruitmentTelegram { sender: s } && s@ == sender@,
    {
        Target::RecruitmentTelegram { sender: sender.to_owned() }
    }

    pub fn telegram(sender: &str) -> (target: Target)
        ensures
            target matches Target::Telegram { sender: s } && s@ == sender@,
    {
        Target::Telegram { sender: sender.to_owned() }
    }

    pub fn restricted(sender: &str) -> (target: Target)
        ensures
            target matches Target::Restricted { sender: s } && s@ == sender@,
    {
        Target::Restricted { sender: sender.to_owned() }
    }

    /// The nation on whose behalf the action is taken, for every kind but
    /// the standard request.
    pub open spec fn nation(self) -> Option<Seq<char>> {
        match self {
            Target::RecruitmentTelegram { sender } => Some(sender@),
            Target::Telegram { sender } => Some(sender@),
            Target::Restricted { sender } => Some(sender@),
            Target::Standard => None,
        }
    }

    /// Whether the action counts against the recruitment cooldown.
    pub open spec fn recruits(self) -> bool {
        self is RecruitmentTelegram
    }

    /// Whether the action counts against the telegram cooldown.
    pub open spec fn telegraphs(self) -> bool {
        self is RecruitmentTelegram || self is Telegram
    }

    /// Whether two targets are of one kind and act for one nation.
    pub open spec fn alike(self, other: Target) -> bool {
        &&& self.nation() == other.nation()
        &&& self.budgets() == other.budgets()
    }

    /// How many budgets the action counts against.
    pub open spec fn budgets(self) -> nat {
        match self {
            Target::RecruitmentTelegram { .. } => 4,
            Target::Telegram { .. } => 3,
            Target::Restricted { .. } => 2,
            Target::Standard => 1,
        }
    }
}

/// The larger of two waits.
pub open spec fn longer(a: int, b: int) -> int {
    if a >= b {
        a
    } else {
        b
    }
}

/// The four budgets as plain values: the limits, and for each bucket the
/// reservation times it holds, oldest entry first.
pub struct Budgets {
    pub max_requests: nat,
    pub bucket_length: u64,
    pub telegram_cooldown: u64,
    pub recruitment_cooldown: u64,
    pub restricted_action_cooldown: u64,
    pub requests: Seq<u128>,
    pub telegrams: Seq<u128>,
    pub recruitment_telegrams: Seq<u128>,
    pub restricted_actions: Map<Seq<char>, Seq<u128>>,
}

impl Budgets {
    /// The restricted actions recorded for one nation.
    pub open spec fn actions_of(self, nation: Seq<char>) -> Seq<u128> {
        if self.restricted_actions.contains_key(nation) {
            self.restricted_actions[nation]
        } else {
            Seq::empty()
        }
    }

    pub open spec fn standard_wait(self, now: u64) -> int {
        bucket_wait(self.requests, self.bucket_length, self.max_requests as int, now)
    }

    pub open spec fn telegram_wait(self, now: u64) -> int {
        bucket_wait(self.telegrams, self.telegram_cooldown, 1, now)
    }

    pub open spec fn recruitment_wait(self, now: u64) -> int {
        bucket_wait(self.recruitment_telegrams, self.recruitment_cooldown, 1, now)
    }

    pub open spec fn restricted_wait(self, nation: Seq<char>, now: u64) -> int {
        bucket_wait(self.actions_of(nation), self.restricted_action_cooldown, 1, now)
    }

    /// The wait before `target` may go out: the longest wait among the
    /// budgets it counts against.
    pub open spec fn wait(self, target: Target, now: u64) -> int {
        match target {
            Target::RecruitmentTelegram { sender } => longer(
                longer(self.recruitment_wait(now), self.telegram_wait(now)),
                longer(self.restricted_wait(sender@, now), self.standard_wait(now)),
            ),
            Target::Telegram { sender } => longer(
                self.telegram_wait(now),
                longer(self.restricted_wait(sender@, now), self.standard_wait(now)),
            ),
            Target::Restricted { sender } => longer(
                self.restricted_wait(sender@, now),
                self.standard_wait(now),
            ),
            Target::Standard => self.standard_wait(now),
        }
    }

    /// The time for which `target` is booked when it is acquired at `now`.
    pub open spec fn slot(self, target: Target, now: u64) -> int {
        now + self.wait(target, now)
    }

    /// The budgets after `target` was acquired at `now`: every bucket that
    /// the target counts against drops what has expired and takes the new
    /// reservation at its end; the others stay as they are.
    pub open spec fn reserve(self, target: Target, now: u64) -> Budgets {
        let at = self.slot(target, now) as u128;
        Budgets {
            requests: retained(self.requests, self.bucket_length, now).push(at),
            telegrams: if target.telegraphs() {
                retained(self.telegrams, self.telegram_cooldown, now).push(at)
            } else {
                self.telegrams
            },
            recruitment_telegrams: if target.recruits() {
                retained(self.recruitment_telegrams, self.recruitment_cooldown, now).push(at)
            } else {
                self.recruitment_telegrams
            },
            restricted_actions: match target.nation() {
                Some(nation) => self.restricted_actions.insert(
                    nation,
                    retained(self.actions_of(nation), self.restricted_action_cooldown, now).push(
                        at,
                    ),
                ),
                None => self.restricted_actions,
            },
            ..self
        }
    }
}

/// Targets of one kind that act for one nation wait equally long.
pub proof fn lemma_alike_wait_alike(b: Budgets, one: Target, other: Target, now: u64)
    requires
        one.alike(other),
    ensures
        b.wait(one, now) == b.wait(other, now),
{
}

/// Something asked of the budgets.
#[derive(Clone, Debug, PartialEq, Eq)]
pub enum Action {
    Peek(Target),
    Acquire(Target),
    Update,
}

/// The answer to an `Action`; waits are in nanoseconds.
#[derive(Clone, Copy, Debug, PartialEq, Eq)]
pub enum Response {
    Done,
    Peek(u128),
    Acquire(Result<(), u128>),
}

/// Owner of the four budgets. Times are nanoseconds on a clock that never
/// runs backwards; waits and windows are nanoseconds too.
pub struct Receiver {
    origin: Instant,
    max_requests: usize,
    bucket_length: u64,
    requests: VecDeque<u128>,
    telegram_cooldown: u64,
    telegrams: VecDeque<u128>,
    recruitment_cooldown: u64,
    recruitment_telegrams: VecDeque<u128>,
    restricted_action_cooldown: u64,
    restricted_actions: StringHashMap<VecDeque<u128>>,
}

impl View for Receiver {
    type V = Budgets;

    closed spec fn view(&self) -> Budgets {
        Budgets {
            max_requests: self.max_requests as nat,
            bucket_length: self.bucket_length,
            telegram_cooldown: self.telegram_cooldown,
            recruitment_cooldown: self.recruitment_cooldown,
            restricted_action_cooldown: self.restricted_action_cooldown,
            requests: self.requests@,
            telegrams: self.telegrams@,
            recruitment_telegrams: self.recruitment_telegrams@,
            restricted_actions: Map::new(
                |k: Seq<char>| self.restricted_actions@.contains_key(k),
                |k: Seq<char>| self.restricted_actions@[k]@,
            ),
        }
    }
}

impl Receiver {
    /// Budgets are usable when the global bucket admits at least one request.
    pub open spec fn wf(&self) -> bool {
        self@.max_requests > 0
    }

    /// Fresh budgets with nothing reserved.
    pub fn new(
        max_requests: usize,
        bucket_length: u64,
        telegram_cooldown: u64,
        recruitment_cooldown: u64,
        restricted_action_cooldown: u64,
    ) -> (limiter: Receiver)
        requires
            max_requests > 0,
        ensures
            limiter.wf(),
            limiter@ == (Budgets {
                max_requests: max_requests as nat,
                bucket_length,
                telegram_cooldown,
                recruitment_cooldown,
                restricted_action_cooldown,
                requests: Seq::empty(),
                telegrams: Seq::empty(),
                recruitment_telegrams: Seq::empty(),
                restricted_actions: Map::empty(),
            }),
    {
        let limiter = Receiver {
            origin: clock_start(),
            max_requests,
            bucket_length,
            requests: VecDeque::new(),
            telegram_cooldown,
            telegrams: VecDeque::new(),
            recruitment_cooldown,
            recruitment_telegrams: VecDeque::new(),
            restricted_action_cooldown,
            restricted_actions: StringHashMap::new(),
        };
        assert(limiter@.restricted_actions =~= Map::empty());
        limiter
    }

    /// Wait asked for by the recruitment cooldown alone.
    pub fn peek_recruitment(&self, now: u64) -> (wait: u128)
        ensures
            wait == self@.recruitment_wait(now),
    {
        bucket_peek(&self.recruitment_telegrams, self.recruitment_cooldown, 1, now)
    }

    /// Wait asked for by the telegram cooldown alone.
    pub fn peek_telegram(&self, now: u64) -> (wait: u128)
        ensures
            wait == self@.telegram_wait(now),
    {
        bucket_peek(&self.telegrams, self.telegram_cooldown, 1, now)
    }

    /// Wait asked for by the restricted-action cooldown of one nation alone.
    pub fn peek_restricted(&self, sender: &str, now: u64) -> (wait: u128)
        ensures
            wait == self@.restricted_wait(sender@, now),
    {
        match self.restricted_actions.get(sender) {
            Some(bucket) => bucket_peek(bucket, self.restricted_action_cooldown, 1, now),
            None => {
                proof {
                    reveal(Seq::filter);
                }
                0
            },
        }
    }

    /// Wait asked for by the global bucket alone.
    pub fn peek_standard(&self, now: u64) -> (wait: u128)
        requires
            self.wf(),
        ensures
            wait == self@.standard_wait(now),
    {
        bucket_peek(&self.requests, self.bucket_length, self.max_requests, now)
    }

    /// Time to wait at `now` before `target` may go out. Nothing is reserved.
    pub fn peek_at(&self, target: &Target, now: u64) -> (wait: u128)
        requires
            self.wf(),
        ensures
            wait == self@.wait(*target, now),
    {
        match target {
            Target::RecruitmentTelegram { sender } => max_wait(
                max_wait(self.peek_recruitment(now), self.peek_telegram(now)),
                max_wait(self.peek_restricted(sender.as_str(), now), self.peek_standard(now)),
            ),
            Target::Telegram { sender } => max_wait(
                self.peek_telegram(now),
                max_wait(self.peek_restricted(sender.as_str(), now), self.peek_standard(now)),
            ),
            Target::Restricted { sender } => max_wait(
                self.peek_restricted(sender.as_str(), now),
                self.peek_standard(now),
            ),
            Target::Standard => self.peek_standard(now),
        }
    }

    /// The first of `targets`, in their order, that may go out within
    /// `period` of `now`; `None` where none of them may.
    pub fn first_ready(&self, targets: &Vec<Target>, period: u64, now: u64) -> (pick: Option<
        usize,
    >)
        requires
            self.wf(),
        ensures
            match pick {
                Some(i) => {
                    &&& i < targets.len()
                    &&& self@.wait(targets[i as int], now) <= period
                    &&& forall|j: int| 0 <= j < i ==> self@.wait(#[trigger] targets[j], now) > period
                },
                None => forall|j: int|
                    0 <= j < targets.len() ==> self@.wait(#[trigger] targets[j], now) > period,
            },
    {
        let mut i: usize = 0;
        while i < targets.len()
            invariant
                self.wf(),
                i <= targets.len(),
                forall|j: int| 0 <= j < i ==> self@.wait(#[trigger] targets[j], now) > period,
            decreases targets.len() - i,
        {
            if self.peek_at(&targets[i], now) <= period as u128 {
                return Some(i);
            }
            i = i + 1;
        }
        None
    }

    /// Drops what has expired at `now` from one nation's bucket and books
    /// `at` at its end.
    fn book(&mut self, sender: String, at: u128, now: u64)
        ensures
            final(self)@ == (Budgets {
                restricted_actions: old(self)@.restricted_actions.insert(
                    sender@,
                    retained(
                        old(self)@.actions_of(sender@),
                        old(self)@.restricted_action_cooldown,
                        now,
                    ).push(at),
                ),
                ..old(self)@
            }),
    {
        let mut bucket = match self.restricted_actions.get(sender.as_str()) {
            Some(times) => prune(times, self.restricted_action_cooldown, now),
            None => {
                proof {
                    reveal(Seq::filter);
                }
                VecDeque::new()
            },
        };
        bucket.push_back(at);
        self.restricted_actions.insert(sender, bucket);
        assert(self@.restricted_actions =~= old(self)@.restricted_actions.insert(
            sender@,
            retained(
                old(self)@.actions_of(sender@),
                old(self)@.restricted_action_cooldown,
                now,
            ).push(at),
        ));
    }

    /// Reserves a slot for `target` in every budget it counts against, at
    /// `now` plus the wait that `peek_at` gives. `Ok` when the slot is free
    /// at once; otherwise the wait after which the caller may go ahead, with
    /// the reservation already made.
    pub fn acquire_at(&mut self, target: Target, now: u64) -> (r: Result<(), u128>)
        requires
            old(self).wf(),
        ensures
            final(self).wf(),
            final(self)@ == old(self)@.reserve(target, now),
            r is Ok <==> old(self)@.wait(target, now) == 0,
            r matches Err(wait) ==> wait == old(self)@.wait(target, now),
    {
        let wait = self.peek_at(&target, now);
        proof {
            broadcast use vstd::std_specs::vecdeque::axiom_spec_len;

            let b = self@;
            assert(b.requests.len() == self.requests.len());
            assert(b.telegrams.len() == self.telegrams.len());
            assert(b.recruitment_telegrams.len() == self.recruitment_telegrams.len());
            lemma_wait_bound(b.requests, b.bucket_length, b.max_requests as int, now);
            lemma_wait_bound(b.telegrams, b.telegram_cooldown, 1, now);
            lemma_wait_bound(b.recruitment_telegrams, b.recruitment_cooldown, 1, now);
            if let Some(nation) = target.nation() {
                lemma_wait_bound(b.actions_of(nation), b.restricted_action_cooldown, 1, now);
                if self.restricted_actions@.contains_key(nation) {
                    assert(b.actions_of(nation).len() == self.restricted_actions@[nation].len());
                }
            }
            lemma_product_fits(b.bucket_length, b.requests.len());
            lemma_product_fits(b.telegram_cooldown, b.telegrams.len());
            lemma_product_fits(b.recruitment_cooldown, b.recruitment_telegrams.len());
            if let Some(nation) = target.nation() {
                lemma_product_fits(b.restricted_action_cooldown, b.actions_of(nation).len());
            }
        }
        let at: u128 = now as u128 + wait;
        let mut requests = prune(&self.requests, self.bucket_length, now);
        requests.push_back(at);
        self.requests = requests;
        match target {
            Target::RecruitmentTelegram { sender } => {
                let mut recruitment = prune(
                    &self.recruitment_telegrams,
                    self.recruitment_cooldown,
                    now,
                );
                recruitment.push_back(at);
                self.recruitment_telegrams = recruitment;
                let mut telegrams = prune(&self.telegrams, self.telegram_cooldown, now);
                telegrams.push_back(at);
                self.telegrams = telegrams;
                self.book(sender, at, now);
            },
            Target::Telegram { sender } => {
                let mut telegrams = prune(&self.telegrams, self.telegram_cooldown, now);
                telegrams.push_back(at);
                self.telegrams = telegrams;
                self.book(sender, at, now);
            },
            Target::Restricted { sender } => {
                self.book(sender, at, now);
            },
            Target::Standard => {},
        }
        assert(self@.restricted_actions =~= old(self)@.reserve(target, now).restricted_actions);
        if wait == 0 {
            Ok(())
        } else {
            Err(wait)
        }
    }

    /// Answers one request at the time `now`.
    pub fn process_at(&mut self, action: Action, now: u64) -> (r: Result<Response, Error>)
        requires
            old(self).wf(),
        ensures
            final(self).wf(),
            match action {
                Action::Peek(target) => {
                    &&& final(self)@ == old(self)@
                    &&& r == Ok::<Response, Error>(
                        Response::Peek(old(self)@.wait(target, now) as u128),
                    )
                },
                Action::Acquire(target) => {
                    &&& final(self)@ == old(self)@.reserve(target, now)
                    &&& r matches Ok(Response::Acquire(answer))
                    &&& answer is Ok <==> old(self)@.wait(target, now) == 0
                    &&& answer matches Err(wait) ==> wait == old(self)@.wait(target, now)
                },
                Action::Update => final(self)@ == old(self)@ && r == Ok::<Response, Error>(
                    Response::Done,
                ),
            },
    {
        match action {
            Action::Peek(target) => Ok(Response::Peek(self.peek_at(&target, now))),
            Action::Acquire(target) => Ok(Response::Acquire(self.acquire_at(target, now))),
            Action::Update => Ok(Response::Done),
        }
    }

    /// The clock's reading: nanoseconds since these budgets were made, held
    /// at the largest value once the count no longer fits.
    pub fn now(&self) -> u64 {
        let nanos = clock_read(&self.origin);
        held(nanos)
    }

    /// `peek_at` at the clock's reading.
    pub fn peek(&self, target: &Target) -> (wait: u128)
        requires
            self.wf(),
        ensures
            exists|now: u64| wait == self@.wait(*target, now),
    {
        let now = self.now();
        self.peek_at(target, now)
    }

    /// `acquire_at` at the clock's reading.
    pub fn acquire(&mut self, target: Target) -> (r: Result<(), u128>)
        requires
            old(self).wf(),
        ensures
            final(self).wf(),
            exists|now: u64|
                {
                    &&& final(self)@ == #[trigger] old(self)@.reserve(target, now)
                    &&& r is Ok <==> old(self)@.wait(target, now) == 0
                    &&& r matches Err(wait) ==> wait == old(self)@.wait(target, now)
                },
    {
        let now = self.now();
        self.acquire_at(target, now)
    }

    /// `process_at` at the clock's reading.
    pub fn process(&mut self, action: Action) -> (r: Result<Response, Error>)
        requires
            old(self).wf(),
        ensures
            final(self).wf(),
            r is Ok,
            action matches Action::Peek(target) ==> final(self)@ == old(self)@ && exists|now: u64|
                r == Ok::<Response, Error>(
                    Response::Peek(#[trigger] old(self)@.wait(target, now) as u128),
                ),
            action is Update ==> final(self)@ == old(self)@ && r matches Ok(Response::Done),
            action matches Action::Acquire(target) ==> exists|now: u64|
                {
                    &&& final(self)@ == #[trigger] old(self)@.reserve(target, now)
                    &&& r matches Ok(Response::Acquire(answer))
                    &&& answer is Ok <==> old(self)@.wait(target, now) == 0
                    &&& answer matches Err(wait) ==> wait == old(self)@.wait(target, now)
                },
    {
        let now = self.now();
        self.process_at(action, now)
    }
}

fn max_wait(a: u128, b: u128) -> (m: u128)
    ensures
        m == longer(a as int, b as int),
{
    if a >= b {
        a
    } else {
        b
    }
}


/// A window times a bucket's length fits the integers that waits are held in.
proof fn lemma_product_fits(window: u64, len: nat)
    requires
        len <= usize::MAX,
    ensures
        window * len <= u64::MAX * u64::MAX,
{
    assert(window * len <= u64::MAX * u64::MAX) by (nonlinear_arith)
        requires
            0 <= window <= u64::MAX,
            0 <= len <= u64::MAX,
    ;
}

/// `std::time::Instant`, a reading of the monotonic clock; nothing is known
/// of what it holds.
#[verifier::external_type_specification]
#[verifier::external_body]
pub struct ExInstant(Instant);

/// `std::time::Instant::now`: the reading of the monotonic clock at the
/// moment of the call. Nothing is claimed of it.
#[verifier::external_body]
fn clock_start() -> Instant {
    Instant::now()
}

/// `std::time::Instant::elapsed`, taken as whole nanoseconds: the time that
/// has passed since `origin` was read. Nothing is claimed of the value.
#[verifier::external_body]
fn clock_read(origin: &Instant) -> u128 {
    origin.elapsed().as_nanos()
}

/// A count of nanoseconds as a time of the budgets: the count itself, or
/// the largest time where the count no longer fits.
pub open spec fn held_at(nanos: u128) -> u64 {
    if nanos > u64::MAX {
        u64::MAX
    } else {
        nanos as u64
    }
}

/// The time that stands for a count of nanoseconds read from the clock.
pub fn held(nanos: u128) -> (at: u64)
    ensures
        at == held_at(nanos),
{
    if nanos > u64::MAX as u128 {
        u64::MAX
    } else {
        nanos as u64
    }
}

} // verus!
