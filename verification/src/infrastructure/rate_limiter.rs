//! Sliding-window rate limiting, globally and per validator.

use vstd::prelude::*;
use crate::infrastructure::clock::clock_millis;
use crate::keyed::PubkeyTable;
use crate::types::BlsPublicKey;
use crate::validation::sat_sub;

verus! {

/// The request times of `requests` still inside the window at `now`,
/// in their order. A time later than `now` counts as just made.
pub open spec fn recent(requests: Seq<u64>, now: u64, window_ms: u64) -> Seq<u64>
    decreases requests.len(),
{
    if requests.len() == 0 {
        requests
    } else {
        let before = recent(requests.drop_last(), now, window_ms);
        if sat_sub(now, requests.last()) < window_ms {
            before.push(requests.last())
        } else {
            before
        }
    }
}

/// Keeping recent requests never adds any.
pub proof fn lemma_recent_len(requests: Seq<u64>, now: u64, window_ms: u64)
    ensures
        recent(requests, now, window_ms).len() <= requests.len(),
    decreases requests.len(),
{
    if requests.len() > 0 {
        lemma_recent_len(requests.drop_last(), now, window_ms);
    }
}

/// One request at `now` on the limiter `before`, which becomes `after`:
/// requests outside the window are forgotten, and the request is allowed
/// and recorded only while fewer than the maximum remain.
pub open spec fn limit_step(before: RateLimiter, after: RateLimiter, now: u64, allowed: bool) -> bool {
    let kept = recent(before.spec_requests(), now, before.spec_window());
    &&& after.spec_max_requests() == before.spec_max_requests()
    &&& after.spec_window() == before.spec_window()
    &&& allowed == (kept.len() < before.spec_max_requests())
    &&& after.spec_requests() == if allowed { kept.push(now) } else { kept }
}

/// Counting at `now` on the limiter `before`, which becomes `after`: the
/// requests outside the window are forgotten and the rest are counted.
pub open spec fn count_step(before: RateLimiter, after: RateLimiter, now: u64, count: usize) -> bool {
    &&& after.spec_max_requests() == before.spec_max_requests()
    &&& after.spec_window() == before.spec_window()
    &&& after.spec_requests() == recent(before.spec_requests(), now, before.spec_window())
    &&& count == after.spec_requests().len()
}

/// Sliding-window rate limiter: at most `max_requests` requests within any
/// `window_ms` milliseconds.
#[derive(Debug)]
pub struct RateLimiter {
    requests: Vec<u64>,
    max_requests: usize,
    window_ms: u64,
}

impl RateLimiter {
    #[verifier::type_invariant]
    closed spec fn within_limit(&self) -> bool {
        self.requests@.len() <= self.max_requests
    }

    /// Times of the requests recorded.
    pub closed spec fn spec_requests(&self) -> Seq<u64> {
        self.requests@
    }

    pub closed spec fn spec_max_requests(&self) -> usize {
        self.max_requests
    }

    pub closed spec fn spec_window(&self) -> u64 {
        self.window_ms
    }

    /// A limiter allowing `max_requests` requests per `window_ms` milliseconds.
    pub fn new(max_requests: usize, window_ms: u64) -> (limiter: RateLimiter)
        ensures
            limiter.spec_requests() == Seq::<u64>::empty(),
            limiter.spec_max_requests() == max_requests,
            limiter.spec_window() == window_ms,
    {
        RateLimiter { requests: Vec::new(), max_requests, window_ms }
    }

    /// The recorded requests still inside the window at `now`.
    fn recent_requests(&self, now: u64) -> (kept: Vec<u64>)
        ensures
            kept@ == recent(self.requests@, now, self.window_ms),
            kept@.len() <= self.max_requests,
    {
        proof { use_type_invariant(self); }
        let mut kept: Vec<u64> = Vec::new();
        let mut i: usize = 0;
        while i < self.requests.len()
            invariant
                i <= self.requests@.len(),
                kept@ == recent(self.requests@.take(i as int), now, self.window_ms),
            decreases self.requests@.len() - i,
        {
            proof {
                assert(self.requests@.take(i + 1).drop_last() =~= self.requests@.take(i as int));
            }
            let t = self.requests[i];
            if now.saturating_sub(t) < self.window_ms {
                kept.push(t);
            }
            i = i + 1;
        }
        proof {
            assert(self.requests@.take(i as int) =~= self.requests@);
            lemma_recent_len(self.requests@, now, self.window_ms);
        }
        kept
    }

    /// Whether a request at time `now` is allowed: requests outside the
    /// window are forgotten, and the request is allowed and recorded only
    /// while fewer than `max_requests` remain.
    pub fn check_rate_limit_at(&mut self, now: u64) -> (allowed: bool)
        ensures
            limit_step(*old(self), *final(self), now, allowed),
            final(self).spec_requests().len() <= final(self).spec_max_requests(),
    {
        let mut kept = self.recent_requests(now);
        let allowed = kept.len() < self.max_requests;
        if allowed {
            kept.push(now);
        }
        self.requests = kept;
        proof { use_type_invariant(&*self); }
        allowed
    }

    /// `check_rate_limit_at` at the current time.
    pub fn check_rate_limit(&mut self) -> (allowed: bool)
        ensures
            exists|now: u64| #[trigger] limit_step(*old(self), *final(self), now, allowed),
            final(self).spec_requests().len() <= final(self).spec_max_requests(),
    {
        let now = clock_millis();
        let allowed = self.check_rate_limit_at(now);
        assert(limit_step(*old(self), *self, now, allowed));
        allowed
    }

    /// Number of requests inside the window at `now`, forgetting older ones.
    pub fn current_count_at(&mut self, now: u64) -> (count: usize)
        ensures
            count_step(*old(self), *final(self), now, count),
    {
        let kept = self.recent_requests(now);
        let count = kept.len();
        self.requests = kept;
        count
    }

    /// `current_count_at` at the current time.
    pub fn current_count(&mut self) -> (count: usize)
        ensures
            exists|now: u64| #[trigger] count_step(*old(self), *final(self), now, count),
            count <= old(self).spec_max_requests(),
    {
        proof { use_type_invariant(&*self); }
        let now = clock_millis();
        let count = self.current_count_at(now);
        proof { use_type_invariant(&*self); }
        assert(count_step(*old(self), *self, now, count));
        count
    }
}

/// How long a validator's limiter is kept without use: one hour.
pub const LIMITER_IDLE_MS: u64 = 3_600_000;

/// Per-validator rate limiters, each remembered with its last use (ms).
#[derive(Debug)]
pub struct ValidatorRateLimiter {
    limiters: PubkeyTable<(RateLimiter, u64)>,
    max_requests: usize,
    window_ms: u64,
}

/// One request of `validator` at `now` on the limiters `before`, which
/// become `after`: the validator's limiter (a fresh one for a validator
/// not seen before) forgets requests outside its window, allows the
/// request while fewer than its maximum remain and then records it, and
/// the validator's last use becomes `now`; other validators keep theirs.
pub open spec fn validator_limit_step(
    before: ValidatorRateLimiter,
    after: ValidatorRateLimiter,
    validator: BlsPublicKey,
    now: u64,
    allowed: bool,
) -> bool {
    let known = before.spec_limiters().dom().contains(validator);
    let requests = if known { before.spec_limiters()[validator].0.spec_requests() } else { Seq::<u64>::empty() };
    let max = if known { before.spec_limiters()[validator].0.spec_max_requests() } else { before.spec_max_requests() };
    let window = if known { before.spec_limiters()[validator].0.spec_window() } else { before.spec_window() };
    let kept = recent(requests, now, window);
    &&& after.spec_max_requests() == before.spec_max_requests()
    &&& after.spec_window() == before.spec_window()
    &&& after.spec_limiters().dom() == before.spec_limiters().dom().insert(validator)
    &&& forall|v: BlsPublicKey| v != validator && #[trigger] before.spec_limiters().dom().contains(v) ==>
        after.spec_limiters()[v] == before.spec_limiters()[v]
    &&& after.spec_limiters()[validator].1 == now
    &&& allowed == (kept.len() < max)
    &&& after.spec_limiters()[validator].0.spec_requests() == if allowed { kept.push(now) } else { kept }
    &&& after.spec_limiters()[validator].0.spec_max_requests() == max
    &&& after.spec_limiters()[validator].0.spec_window() == window
}

/// Counting the requests of `validator` at `now` on the limiters `before`,
/// which become `after`: zero for an unknown validator; otherwise the
/// requests inside its window, older ones being forgotten, and its last
/// use unchanged.
pub open spec fn validator_count_step(
    before: ValidatorRateLimiter,
    after: ValidatorRateLimiter,
    validator: BlsPublicKey,
    now: u64,
    count: usize,
) -> bool {
    &&& after.spec_max_requests() == before.spec_max_requests()
    &&& after.spec_window() == before.spec_window()
    &&& after.spec_limiters().dom() == before.spec_limiters().dom()
    &&& !before.spec_limiters().dom().contains(validator) ==> count == 0
    &&& before.spec_limiters().dom().contains(validator) ==> {
        let (limiter, last) = before.spec_limiters()[validator];
        &&& count == recent(limiter.spec_requests(), now, limiter.spec_window()).len()
        &&& after.spec_limiters()[validator].1 == last
    }
}

/// Cleaning up at `now` the limiters `before`, which become `after`: those
/// not used within the last hour are forgotten, `removed` of them.
pub open spec fn cleanup_step(before: ValidatorRateLimiter, after: ValidatorRateLimiter, now: u64, removed: usize) -> bool {
    &&& after.spec_max_requests() == before.spec_max_requests()
    &&& after.spec_window() == before.spec_window()
    &&& after.spec_limiters() == before.spec_limiters().restrict(
        before.spec_limiters().dom().filter(|v: BlsPublicKey| sat_sub(now, before.spec_limiters()[v].1) < LIMITER_IDLE_MS),
    )
    &&& before.spec_limiters().dom().finite()
    &&& removed == before.spec_limiters().dom().len() - after.spec_limiters().dom().len()
}

impl ValidatorRateLimiter {
    /// Limiters by validator.
    pub closed spec fn spec_limiters(&self) -> Map<BlsPublicKey, (RateLimiter, u64)> {
        self.limiters@
    }

    pub closed spec fn spec_max_requests(&self) -> usize {
        self.max_requests
    }

    pub closed spec fn spec_window(&self) -> u64 {
        self.window_ms
    }

    /// Limiters allowing `max_requests` per validator per `window_ms`.
    pub fn new(max_requests: usize, window_ms: u64) -> (limiter: ValidatorRateLimiter)
        ensures
            limiter.spec_limiters() == Map::<BlsPublicKey, (RateLimiter, u64)>::empty(),
            limiter.spec_max_requests() == max_requests,
            limiter.spec_window() == window_ms,
    {
        ValidatorRateLimiter { limiters: PubkeyTable::new(), max_requests, window_ms }
    }

    /// Whether a request from `validator` at `now` is allowed; a validator
    /// seen for the first time gets a fresh limiter. Either way the
    /// validator's last use becomes `now`.
    pub fn check_rate_limit_at(&mut self, validator: &BlsPublicKey, now: u64) -> (allowed: bool)
        ensures
            validator_limit_step(*old(self), *final(self), *validator, now, allowed),
    {
        let entry = self.limiters.remove(validator);
        let mut limiter = match entry {
            Some((limiter, _)) => limiter,
            None => RateLimiter::new(self.max_requests, self.window_ms),
        };
        let allowed = limiter.check_rate_limit_at(now);
        self.limiters.insert(*validator, (limiter, now));
        assert(self.spec_limiters().dom() =~= old(self).spec_limiters().dom().insert(*validator));
        allowed
    }

    /// `check_rate_limit_at` at the current time.
    pub fn check_rate_limit(&mut self, validator: &BlsPublicKey) -> (allowed: bool)
        ensures
            exists|now: u64| #[trigger] validator_limit_step(*old(self), *final(self), *validator, now, allowed),
    {
        let now = clock_millis();
        let allowed = self.check_rate_limit_at(validator, now);
        assert(validator_limit_step(*old(self), *self, *validator, now, allowed));
        allowed
    }

    /// Requests of `validator` inside its window at `now`; zero for an
    /// unknown validator. Older requests are forgotten.
    pub fn current_count_at(&mut self, validator: &BlsPublicKey, now: u64) -> (count: usize)
        ensures
            validator_count_step(*old(self), *final(self), *validator, now, count),
    {
        match self.limiters.remove(validator) {
            None => {
                assert(self.limiters@.dom() =~= old(self).limiters@.dom());
                0
            },
            Some((limiter, last_access)) => {
                let mut limiter = limiter;
                let count = limiter.current_count_at(now);
                self.limiters.insert(*validator, (limiter, last_access));
                assert(self.limiters@.dom() =~= old(self).limiters@.dom());
                count
            },
        }
    }

    /// `current_count_at` at the current time.
    pub fn current_count(&mut self, validator: &BlsPublicKey) -> (count: usize)
        ensures
            exists|now: u64| #[trigger] validator_count_step(*old(self), *final(self), *validator, now, count),
    {
        let now = clock_millis();
        let count = self.current_count_at(validator, now);
        assert(validator_count_step(*old(self), *self, *validator, now, count));
        count
    }

    /// Forgets the limiters not used within the last hour before `now`,
    /// returning how many were dropped.
    pub fn cleanup_old_limiters_at(&mut self, now: u64) -> (removed: usize)
        ensures
            cleanup_step(*old(self), *final(self), now, removed),
    {
        let initial = self.limiters.len();
        let keys = self.limiters.keys();
        let ghost start = self.limiters@;
        let mut i: usize = 0;
        while i < keys.len()
            invariant
                i <= keys@.len(),
                self.max_requests == old(self).max_requests,
                self.window_ms == old(self).window_ms,
                start == old(self).limiters@,
                forall|j: int| 0 <= j < keys@.len() ==> start.dom().contains(#[trigger] keys@[j]),
                forall|k: BlsPublicKey| #[trigger] start.dom().contains(k) ==> exists|j: int| 0 <= j < keys@.len() && #[trigger] keys@[j] == k,
                forall|a: int, b: int| 0 <= a < keys@.len() && 0 <= b < keys@.len() && a != b ==> #[trigger] keys@[a] != #[trigger] keys@[b],
                forall|k: BlsPublicKey| #[trigger] self.limiters@.dom().contains(k) ==> start.dom().contains(k) && self.limiters@[k] == start[k],
                forall|j: int| 0 <= j < i ==> (#[trigger] self.limiters@.dom().contains(keys@[j]) <==> sat_sub(now, start[keys@[j]].1) < LIMITER_IDLE_MS),
                forall|j: int| i <= j < keys@.len() ==> #[trigger] self.limiters@.dom().contains(keys@[j]),
            decreases keys@.len() - i,
        {
            let stale = match self.limiters.get(&keys[i]) {
                Some(entry) => now.saturating_sub(entry.1) >= LIMITER_IDLE_MS,
                None => false,
            };
            if stale {
                let _ = self.limiters.remove(&keys[i]);
            }
            i = i + 1;
        }
        proof {
            let target = start.restrict(start.dom().filter(|v: BlsPublicKey| sat_sub(now, start[v].1) < LIMITER_IDLE_MS));
            assert forall|k: BlsPublicKey| self.limiters@.dom().contains(k) <==> target.dom().contains(k) by {
                if start.dom().contains(k) {
                    let j = choose|j: int| 0 <= j < keys@.len() && #[trigger] keys@[j] == k;
                    assert(self.limiters@.dom().contains(keys@[j]) <==> sat_sub(now, start[keys@[j]].1) < LIMITER_IDLE_MS);
                }
            }
            assert(self.limiters@ =~= target);
        }
        let remaining = self.limiters.len();
        proof {
            vstd::set_lib::lemma_len_subset(self.limiters@.dom(), start.dom());
        }
        initial - remaining
    }

    /// `cleanup_old_limiters_at` at the current time.
    pub fn cleanup_old_limiters(&mut self) -> (removed: usize)
        ensures
            exists|now: u64| #[trigger] cleanup_step(*old(self), *final(self), now, removed),
    {
        let now = clock_millis();
        let removed = self.cleanup_old_limiters_at(now);
        assert(cleanup_step(*old(self), *self, now, removed));
        removed
    }
}

/// However requests arrive, a limiter never holds more than `max_requests`
/// requests in its window: an allowed request finds fewer than
/// `max_requests` recent ones.
pub proof fn law_rate_limit_bound(requests: Seq<u64>, now: u64, window_ms: u64, max_requests: usize)
    requires
        recent(requests, now, window_ms).len() < max_requests,
    ensures
        recent(requests, now, window_ms).push(now).len() <= max_requests,
        recent(recent(requests, now, window_ms).push(now), now, window_ms).len() <= max_requests,
{
    lemma_recent_len(recent(requests, now, window_ms).push(now), now, window_ms);
}

/// Requests that all lie in the window at `now` are all kept.
proof fn lemma_recent_all(requests: Seq<u64>, now: u64, window_ms: u64)
    requires
        forall|i: int| 0 <= i < requests.len() ==> sat_sub(now, #[trigger] requests[i]) < window_ms,
    ensures
        recent(requests, now, window_ms) == requests,
    decreases requests.len(),
{
    if requests.len() > 0 {
        let rest = requests.drop_last();
        assert forall|i: int| 0 <= i < rest.len() implies sat_sub(now, #[trigger] rest[i]) < window_ms by {
            assert(rest[i] == requests[i]);
        }
        lemma_recent_all(rest, now, window_ms);
        assert(sat_sub(now, requests[requests.len() - 1]) < window_ms);
        assert(rest.push(requests.last()) =~= requests);
    }
}

/// The first `j` steps of the law below.
proof fn lemma_calls_prefix(limiters: Seq<RateLimiter>, times: Seq<u64>, allowed: Seq<bool>, j: int)
    requires
        0 <= j <= times.len(),
        limiters.len() == times.len() + 1,
        allowed.len() == times.len(),
        limiters[0].spec_requests() == Seq::<u64>::empty(),
        forall|i: int| 0 <= i < times.len() ==> #[trigger] limit_step(limiters[i], limiters[i + 1], times[i], allowed[i]),
        forall|i: int| 0 <= i < times.len() ==> times[0] <= #[trigger] times[i] && times[i] - times[0] < limiters[0].spec_window(),
    ensures
        forall|i: int| 0 <= i < j ==> #[trigger] allowed[i] == (i < limiters[0].spec_max_requests()),
        limiters[j].spec_requests().len() == if j < limiters[0].spec_max_requests() { j } else { limiters[0].spec_max_requests() as int },
        limiters[j].spec_max_requests() == limiters[0].spec_max_requests(),
        limiters[j].spec_window() == limiters[0].spec_window(),
        forall|x: int| 0 <= x < limiters[j].spec_requests().len() ==> times[0] <= #[trigger] limiters[j].spec_requests()[x]
            && limiters[j].spec_requests()[x] - times[0] < limiters[0].spec_window(),
    decreases j,
{
    if j > 0 {
        lemma_calls_prefix(limiters, times, allowed, j - 1);
        let before = limiters[j - 1];
        let t = times[j - 1];
        let k = j - 1;
        assert(limit_step(limiters[k], limiters[k + 1], times[k], allowed[k]));
        assert(k + 1 == j);
        assert(times[0] <= t && t - times[0] < limiters[0].spec_window());
        let req = before.spec_requests();
        assert forall|x: int| 0 <= x < req.len() implies sat_sub(t, #[trigger] req[x]) < before.spec_window() by {
            assert(times[0] <= req[x] && req[x] - times[0] < limiters[0].spec_window());
        }
        lemma_recent_all(req, t, before.spec_window());
    }
}

/// Calls of `check_rate_limit_at` made within one window of the first, on a
/// limiter that has seen nothing, followed by one `current_count_at` in the
/// same window: the `i`-th call (from zero) is allowed exactly when `i` is
/// below the maximum, and the count is the number of calls, up to the
/// maximum. `limiters[i]` is the limiter before call `i`, `times[i]` its
/// time and `allowed[i]` its answer; `counted` is the limiter after the
/// count at `count_time`, which answered `count`.
pub proof fn law_calls_within_one_window(
    limiters: Seq<RateLimiter>,
    times: Seq<u64>,
    allowed: Seq<bool>,
    counted: RateLimiter,
    count_time: u64,
    count: usize,
)
    requires
        limiters.len() == times.len() + 1,
        allowed.len() == times.len(),
        limiters[0].spec_requests() == Seq::<u64>::empty(),
        forall|i: int| 0 <= i < times.len() ==> #[trigger] limit_step(limiters[i], limiters[i + 1], times[i], allowed[i]),
        forall|i: int| 0 <= i < times.len() ==> times[0] <= #[trigger] times[i] && times[i] - times[0] < limiters[0].spec_window(),
        count_step(limiters[times.len() as int], counted, count_time, count),
        times.len() > 0 ==> times[0] <= count_time && count_time - times[0] < limiters[0].spec_window(),
    ensures
        forall|i: int| 0 <= i < times.len() ==> #[trigger] allowed[i] == (i < limiters[0].spec_max_requests()),
        limiters[times.len() as int].spec_requests().len() == if times.len() < limiters[0].spec_max_requests() {
            times.len() as int
        } else {
            limiters[0].spec_max_requests() as int
        },
        count == if times.len() < limiters[0].spec_max_requests() {
            times.len() as int
        } else {
            limiters[0].spec_max_requests() as int
        },
{
    let n = times.len() as int;
    lemma_calls_prefix(limiters, times, allowed, n);
    let last = limiters[n];
    let req = last.spec_requests();
    assert forall|x: int| 0 <= x < req.len() implies sat_sub(count_time, #[trigger] req[x]) < last.spec_window() by {
        assert(times[0] <= req[x] && req[x] - times[0] < limiters[0].spec_window());
    }
    lemma_recent_all(req, count_time, last.spec_window());
}

} // verus!
