//! What a reservation made by the budgets is worth: how far it lies from the
//! reservations made before it.

use crate::ratelimiter::{bucket_wait, live, retained, Budgets, Target};
use vstd::prelude::*;

verus! {

/// The point from which a bucket counts its windows at `now`: its oldest
/// retained reservation, or `now` where that one still lies ahead.
pub open spec fn origin(kept: Seq<u128>, now: u64) -> int {
    if kept[0] <= now {
        kept[0] as int
    } else {
        now as int
    }
}

/// A bucket is on schedule at `now` when none of its retained reservations
/// lies later than its place on the grid of windows that starts at the
/// bucket's `origin`: the first `capacity` of them at the origin, the next
/// `capacity` one window on, and so forth.
pub open spec fn on_schedule(times: Seq<u128>, window: u64, capacity: int, now: u64) -> bool {
    let kept = retained(times, window, now);
    forall|i: int|
        0 <= i < kept.len() ==> #[trigger] kept[i] <= origin(kept, now) + window * (i / capacity)
}

/// How many reservations of `times` fall into the window `[start, start + window)`.
pub open spec fn booked_within(times: Seq<u128>, start: int, window: u64) -> nat {
    times.filter(|t: u128| start <= t < start + window).len()
}

/// The earliest time a bucket allows at `now` is its origin moved on by one
/// window for each `capacity` reservations it retains.
pub proof fn lemma_slot_of_bucket(times: Seq<u128>, window: u64, capacity: int, now: u64)
    requires
        capacity > 0,
        retained(times, window, now).len() >= capacity,
    ensures
        now + bucket_wait(times, window, capacity, now) >= origin(
            retained(times, window, now),
            now,
        ) + window * (retained(times, window, now).len() as int / capacity),
{
}

/// What a bucket has dropped at `now` lies a whole window back.
pub proof fn lemma_expired_is_past(times: Seq<u128>, window: u64, now: u64, i: int)
    requires
        window > 0,
        0 <= i < times.len(),
        !live(times[i], window, now),
    ensures
        times[i] + window <= now,
{
}

/// Filtering by a condition gives the same as filtering first by a weaker one.
proof fn lemma_filter_twice(s: Seq<u128>, p: spec_fn(u128) -> bool, q: spec_fn(u128) -> bool)
    requires
        forall|t: u128| #[trigger] q(t) ==> p(t),
    ensures
        s.filter(p).filter(q) == s.filter(q),
    decreases s.len(),
{
    reveal(Seq::filter);
    if s.len() > 0 {
        let front = s.drop_last();
        lemma_filter_twice(front, p, q);
        assert(s == front.push(s.last()));
        front.lemma_filter_push(s.last(), p);
        front.lemma_filter_push(s.last(), q);
        if p(s.last()) {
            front.filter(p).lemma_filter_push(s.last(), q);
        }
    }
}

/// Where the first `m` items fail a condition, at most the others pass it.
proof fn lemma_filter_skips(s: Seq<u128>, q: spec_fn(u128) -> bool, m: int)
    requires
        0 <= m,
        forall|i: int| 0 <= i < m && i < s.len() ==> !q(#[trigger] s[i]),
    ensures
        s.filter(q).len() <= if s.len() > m {
            s.len() - m
        } else {
            0
        },
    decreases s.len(),
{
    reveal(Seq::filter);
    if s.len() > 0 {
        let front = s.drop_last();
        assert forall|i: int| 0 <= i < m && i < front.len() implies !q(#[trigger] front[i]) by {
            assert(front[i] == s[i]);
        }
        lemma_filter_skips(front, q, m);
        assert(s == front.push(s.last()));
        front.lemma_filter_push(s.last(), q);
        if s.len() <= m {
            assert(!q(s[s.len() - 1]));
        }
    }
}

/// Global rate, for one reservation. Let a bucket of the given `capacity`
/// per `window` hold `times`, and let a new reservation be booked at `now`
/// plus a wait no shorter than the bucket's own. If the bucket still has a
/// free slot, or is on schedule, then every window that holds the new
/// reservation holds at most `capacity` reservations, the new one counted.
pub proof fn lemma_window_holds_capacity(
    times: Seq<u128>,
    window: u64,
    capacity: int,
    now: u64,
    wait: int,
    start: int,
)
    requires
        capacity > 0,
        wait >= bucket_wait(times, window, capacity, now),
        now + wait <= u128::MAX,
        retained(times, window, now).len() < capacity || on_schedule(
            times,
            window,
            capacity,
            now,
        ),
        start <= now + wait < start + window,
    ensures
        booked_within(times.push((now + wait) as u128), start, window) <= capacity,
{
    let at = (now + wait) as u128;
    let p = |t: u128| live(t, window, now);
    let q = |t: u128| start <= t < start + window;
    let kept = retained(times, window, now);
    let k = kept.len() as int;
    crate::ratelimiter::lemma_wait_bound(times, window, capacity, now);
    assert(wait >= 0);
    times.lemma_filter_push(at, q);
    assert forall|t: u128| #[trigger] q(t) implies p(t) by {
        if t <= now {
            assert(now - t < window);
        }
    }
    lemma_filter_twice(times, p, q);
    assert(times.filter(q) == kept.filter(q));
    if k < capacity {
        kept.lemma_filter_len(q);
    } else {
        let slots = k / capacity;
        let full = capacity * slots;
        assert(0 <= k - full < capacity && slots >= 1) by (nonlinear_arith)
            requires
                capacity > 0,
                k >= capacity,
                slots == k / capacity,
                full == capacity * slots,
        ;
        lemma_slot_of_bucket(times, window, capacity, now);
        assert forall|i: int| 0 <= i < full && i < kept.len() implies !q(#[trigger] kept[i]) by {
            let row = i / capacity;
            assert(row <= slots - 1) by (nonlinear_arith)
                requires
                    0 <= i < capacity * slots,
                    capacity > 0,
                    row == i / capacity,
            ;
            assert(window * row <= window * slots - window) by (nonlinear_arith)
                requires
                    row <= slots - 1,
                    window >= 0,
            ;
            assert(kept[i] <= origin(kept, now) + window * (i / capacity));
        }
        lemma_filter_skips(kept, q, full);
    }
}

/// Cooldown, for one reservation. Let a single-slot bucket with a `window`
/// above zero hold `times` and be on schedule at `now`, and let a new
/// reservation be booked at `now` plus a wait no shorter than the bucket's
/// own. Then the new reservation lies at least one window after every
/// reservation the bucket holds.
pub proof fn lemma_cooldown_is_kept(times: Seq<u128>, window: u64, now: u64, wait: int, i: int)
    requires
        window > 0,
        wait >= bucket_wait(times, window, 1, now),
        on_schedule(times, window, 1, now),
        0 <= i < times.len(),
    ensures
        times[i] + window <= now + wait,
{
    let p = |t: u128| live(t, window, now);
    let kept = retained(times, window, now);
    let k = kept.len() as int;
    crate::ratelimiter::lemma_wait_bound(times, window, 1, now);
    if live(times[i], window, now) {
        times.lemma_filter_contains(p, i);
        let j = choose|j: int| 0 <= j < kept.len() && kept[j] == times[i];
        lemma_slot_of_bucket(times, window, 1, now);
        assert(kept[j] <= origin(kept, now) + window * (j / 1));
        assert(window * j + window <= window * k) by (nonlinear_arith)
            requires
                0 <= j < k,
                window >= 0,
        ;
    }
}


/// A single-slot bucket is in step at `now` when its retained reservations
/// lie exactly one window apart and the oldest of them does not lie ahead.
pub open spec fn in_step(times: Seq<u128>, window: u64, now: u64) -> bool {
    let kept = retained(times, window, now);
    kept.len() > 0 ==> {
        &&& kept[0] <= now
        &&& forall|i: int| 0 <= i < kept.len() ==> #[trigger] kept[i] == kept[0] + window * i
    }
}

/// A bucket that is in step is on schedule.
pub proof fn lemma_in_step_is_on_schedule(times: Seq<u128>, window: u64, now: u64)
    requires
        in_step(times, window, now),
    ensures
        on_schedule(times, window, 1, now),
{
    let kept = retained(times, window, now);
    assert forall|i: int| 0 <= i < kept.len() implies #[trigger] kept[i] <= origin(kept, now)
        + window * (i / 1) by {
        assert(kept[i] == kept[0] + window * i);
    }
}

/// Where a condition, once met, is met by every later item, the items that
/// meet it are the items from some place on.
proof fn lemma_filter_is_a_tail(s: Seq<u128>, p: spec_fn(u128) -> bool) -> (from: int)
    requires
        forall|i: int, j: int| 0 <= i <= j < s.len() && p(s[i]) ==> p(s[j]),
    ensures
        0 <= from <= s.len(),
        s.filter(p) == s.skip(from),
        forall|i: int| 0 <= i < from ==> !p(s[i]),
        forall|i: int| from <= i < s.len() ==> p(s[i]),
    decreases s.len(),
{
    reveal(Seq::filter);
    if s.len() == 0 {
        assert(s.skip(0) == s);
        0
    } else {
        let front = s.drop_last();
        assert forall|i: int, j: int| 0 <= i <= j < front.len() && p(front[i]) implies p(
            front[j],
        ) by {
            assert(front[i] == s[i] && front[j] == s[j]);
        }
        let before = lemma_filter_is_a_tail(front, p);
        assert(s == front.push(s.last()));
        front.lemma_filter_push(s.last(), p);
        if p(s.last()) {
            assert(front.skip(before).push(s.last()) == s.skip(before));
            before
        } else {
            if before < front.len() {
                assert(p(front[before]));
                assert(front[before] == s[before]);
                assert(p(s[s.len() - 1]));
            }
            assert(front.skip(before) == s.skip(s.len() as int));
            s.len() as int
        }
    }
}

/// Cooldown, over time. A single-slot bucket that is in step stays in step
/// when the next reservation is booked at the bucket's own wait and the
/// clock does not run backwards; a bucket without reservations is in step.
/// So the reservations of a bucket that is alone in deciding its waits lie
/// one window apart at the least for as long as it is used.
pub proof fn lemma_alone_stays_in_step(times: Seq<u128>, window: u64, now: u64, later: u64)
    requires
        window > 0,
        in_step(times, window, now),
        now <= later,
        now + bucket_wait(times, window, 1, now) <= u128::MAX,
    ensures
        in_step(Seq::<u128>::empty(), window, now),
        in_step(
            retained(times, window, now).push((now + bucket_wait(times, window, 1, now)) as u128),
            window,
            later,
        ),
{
    reveal(Seq::filter);
    let alive = |t: u128| live(t, window, now);
    let kept = retained(times, window, now);
    let k = kept.len() as int;
    let at = (now + bucket_wait(times, window, 1, now)) as u128;
    let next = kept.push(at);
    let first = next[0];
    if k > 0 {
        times.lemma_filter_pred(alive, 0);
        assert(live(kept[0], window, now));
        assert(window * k >= window) by (nonlinear_arith)
            requires
                k >= 1,
                window >= 0,
        ;
        assert(at == kept[0] + window * k);
    } else {
        assert(at == now);
        assert(window * 0 == 0);
    }
    assert(first <= now);
    assert forall|i: int| 0 <= i < next.len() implies #[trigger] next[i] == first + window * i by {
        if i < k {
            assert(next[i] == kept[i]);
        }
    }
    let still = |t: u128| live(t, window, later);
    assert forall|i: int, j: int| 0 <= i <= j < next.len() && still(next[i]) implies still(
        next[j],
    ) by {
        assert(next[i] == first + window * i);
        assert(next[j] == first + window * j);
        assert(window * i <= window * j) by (nonlinear_arith)
            requires
                0 <= i <= j,
                window >= 0,
        ;
    }
    let from = lemma_filter_is_a_tail(next, still);
    let after = retained(next, window, later);
    assert(after == next.skip(from));
    if after.len() > 0 {
        assert(after[0] == next[from]);
        if from > 0 {
            assert(!still(next[from - 1]));
            assert(next[from - 1] == first + window * (from - 1));
            assert(next[from] == first + window * from);
            assert(window * from == window * (from - 1) + window) by (nonlinear_arith);
        }
        assert(after[0] <= later);
        assert forall|i: int| 0 <= i < after.len() implies #[trigger] after[i] == after[0]
            + window * i by {
            assert(after[i] == next[from + i]);
            assert(next[from + i] == first + window * (from + i));
            assert(window * (from + i) == window * from + window * i) by (nonlinear_arith);
        }
    }
}

/// The wait of a target is no shorter than the wait of any budget it counts
/// against.
pub proof fn lemma_wait_covers_budgets(b: Budgets, target: Target, now: u64)
    ensures
        b.wait(target, now) >= b.standard_wait(now),
        target.nation() matches Some(nation) ==> b.wait(target, now) >= b.restricted_wait(
            nation,
            now,
        ),
        target.telegraphs() ==> b.wait(target, now) >= b.telegram_wait(now),
        target.recruits() ==> b.wait(target, now) >= b.recruitment_wait(now),
{
}

/// Global rate. When the global bucket still has a free slot at `now`, or is
/// on schedule, every window of `bucket_length` that holds the time booked
/// for `target` holds at most `max_requests` of the reservations recorded in
/// the global bucket, the new one counted.
pub proof fn lemma_global_rate(b: Budgets, target: Target, now: u64, start: int)
    requires
        b.max_requests > 0,
        b.slot(target, now) <= u128::MAX,
        retained(b.requests, b.bucket_length, now).len() < b.max_requests || on_schedule(
            b.requests,
            b.bucket_length,
            b.max_requests as int,
            now,
        ),
        start <= b.slot(target, now) < start + b.bucket_length,
    ensures
        booked_within(b.requests.push(b.slot(target, now) as u128), start, b.bucket_length)
            <= b.max_requests,
{
    lemma_wait_covers_budgets(b, target, now);
    lemma_window_holds_capacity(
        b.requests,
        b.bucket_length,
        b.max_requests as int,
        now,
        b.wait(target, now),
        start,
    );
}

/// Per-nation cooldown. When the bucket of restricted actions of the nation
/// that `target` acts for is on schedule at `now`, the time booked for
/// `target` lies at least `restricted_action_cooldown` after every
/// restricted action recorded for that nation.
pub proof fn lemma_restricted_cooldown(b: Budgets, target: Target, now: u64, i: int)
    requires
        target.nation() is Some,
        b.restricted_action_cooldown > 0,
        on_schedule(b.actions_of(target.nation()->0), b.restricted_action_cooldown, 1, now),
        0 <= i < b.actions_of(target.nation()->0).len(),
    ensures
        b.actions_of(target.nation()->0)[i] + b.restricted_action_cooldown <= b.slot(target, now),
{
    lemma_wait_covers_budgets(b, target, now);
    lemma_cooldown_is_kept(
        b.actions_of(target.nation()->0),
        b.restricted_action_cooldown,
        now,
        b.wait(target, now),
        i,
    );
}

/// Telegram cooldown. When the telegram bucket is on schedule at `now`, the
/// time booked for a telegram of either kind lies at least
/// `telegram_cooldown` after every telegram recorded.
pub proof fn lemma_telegram_cooldown(b: Budgets, target: Target, now: u64, i: int)
    requires
        target.telegraphs(),
        b.telegram_cooldown > 0,
        on_schedule(b.telegrams, b.telegram_cooldown, 1, now),
        0 <= i < b.telegrams.len(),
    ensures
        b.telegrams[i] + b.telegram_cooldown <= b.slot(target, now),
{
    lemma_wait_covers_budgets(b, target, now);
    lemma_cooldown_is_kept(b.telegrams, b.telegram_cooldown, now, b.wait(target, now), i);
}

/// Recruitment cooldown. When the recruitment bucket is on schedule at
/// `now`, the time booked for a recruitment telegram lies at least
/// `recruitment_cooldown` after every recruitment telegram recorded.
pub proof fn lemma_recruitment_cooldown(b: Budgets, target: Target, now: u64, i: int)
    requires
        target.recruits(),
        b.recruitment_cooldown > 0,
        on_schedule(b.recruitment_telegrams, b.recruitment_cooldown, 1, now),
        0 <= i < b.recruitment_telegrams.len(),
    ensures
        b.recruitment_telegrams[i] + b.recruitment_cooldown <= b.slot(target, now),
{
    lemma_wait_covers_budgets(b, target, now);
    lemma_cooldown_is_kept(
        b.recruitment_telegrams,
        b.recruitment_cooldown,
        now,
        b.wait(target, now),
        i,
    );
}

/// A slot granted without a wait. Where `target` may go out at once, each
/// budget it counts against retains fewer reservations than it admits.
pub proof fn lemma_granted_at_once(b: Budgets, target: Target, now: u64)
    requires
        b.max_requests > 0,
        b.wait(target, now) == 0,
    ensures
        retained(b.requests, b.bucket_length, now).len() < b.max_requests,
        target.nation() matches Some(nation) ==> retained(
            b.actions_of(nation),
            b.restricted_action_cooldown,
            now,
        ).len() == 0,
        target.telegraphs() ==> retained(b.telegrams, b.telegram_cooldown, now).len() == 0,
        target.recruits() ==> retained(
            b.recruitment_telegrams,
            b.recruitment_cooldown,
            now,
        ).len() == 0,
{
    lemma_wait_covers_budgets(b, target, now);
    crate::ratelimiter::lemma_wait_bound(b.requests, b.bucket_length, b.max_requests as int, now);
    crate::ratelimiter::lemma_wait_bound(b.telegrams, b.telegram_cooldown, 1, now);
    crate::ratelimiter::lemma_wait_bound(
        b.recruitment_telegrams,
        b.recruitment_cooldown,
        1,
        now,
    );
    lemma_no_wait_means_room(b.requests, b.bucket_length, b.max_requests as int, now);
    lemma_no_wait_means_room(b.telegrams, b.telegram_cooldown, 1, now);
    lemma_no_wait_means_room(b.recruitment_telegrams, b.recruitment_cooldown, 1, now);
    if let Some(nation) = target.nation() {
        crate::ratelimiter::lemma_wait_bound(
            b.actions_of(nation),
            b.restricted_action_cooldown,
            1,
            now,
        );
        lemma_no_wait_means_room(b.actions_of(nation), b.restricted_action_cooldown, 1, now);
    }
}

/// A bucket asks for no wait exactly when it retains fewer reservations
/// than it admits.
pub proof fn lemma_no_wait_means_room(times: Seq<u128>, window: u64, capacity: int, now: u64)
    requires
        capacity > 0,
    ensures
        bucket_wait(times, window, capacity, now) == 0 <==> retained(times, window, now).len()
            < capacity,
{
    let p = |t: u128| live(t, window, now);
    let kept = retained(times, window, now);
    let k = kept.len() as int;
    if k >= capacity {
        times.lemma_filter_pred(p, 0);
        assert(live(kept[0], window, now));
        let slots = k / capacity;
        assert(slots >= 1) by (nonlinear_arith)
            requires
                k >= capacity,
                capacity > 0,
                slots == k / capacity,
        ;
        assert(window * slots >= window) by (nonlinear_arith)
            requires
                slots >= 1,
                window >= 0,
        ;
    }
}

/// Containment. Acquiring books one and the same time at the end of every
/// bucket that the target counts against, after dropping what has expired
/// there, and leaves every other bucket as it was: four buckets for a
/// recruitment telegram, three for a telegram, two for a restricted action,
/// one for a standard request.
pub proof fn lemma_reserve_books_each_budget(b: Budgets, target: Target, now: u64)
    ensures
        ({
            let after = b.reserve(target, now);
            let at = b.slot(target, now) as u128;
            &&& after.requests == retained(b.requests, b.bucket_length, now).push(at)
            &&& after.telegrams == if target.telegraphs() {
                retained(b.telegrams, b.telegram_cooldown, now).push(at)
            } else {
                b.telegrams
            }
            &&& after.recruitment_telegrams == if target.recruits() {
                retained(b.recruitment_telegrams, b.recruitment_cooldown, now).push(at)
            } else {
                b.recruitment_telegrams
            }
            &&& forall|nation: Seq<char>| #[trigger]
                after.actions_of(nation) == if target.nation() == Some(nation) {
                    retained(b.actions_of(nation), b.restricted_action_cooldown, now).push(at)
                } else {
                    b.actions_of(nation)
                }
            &&& target.budgets() == 1 + (if target.nation() is Some {
                1nat
            } else {
                0nat
            }) + (if target.telegraphs() {
                1nat
            } else {
                0nat
            }) + (if target.recruits() {
                1nat
            } else {
                0nat
            })
        }),
{
}

} // verus!
