//! Per-relay circuit breaker: after enough failures a relay is left alone
//! until a reset timeout passes, then one test request is let through.

use vstd::prelude::*;
use crate::infrastructure::clock::clock_millis;
use crate::keyed::StrTable;

verus! {

/// Circuit state of one relay. Times are milliseconds.
#[derive(Debug, Clone, Copy, PartialEq, Eq, Structural)]
pub struct CircuitBreakerState {
    pub failures: u32,
    pub last_failure: Option<u64>,
    pub is_open: bool,
    pub half_open: bool,
}

/// The state of a relay never seen before.
pub open spec fn fresh_state() -> CircuitBreakerState {
    CircuitBreakerState { failures: 0, last_failure: None, is_open: false, half_open: false }
}

/// The state a relay has in `states`, fresh when it has none.
pub open spec fn state_of(states: Map<Seq<char>, CircuitBreakerState>, relay_id: Seq<char>) -> CircuitBreakerState {
    if states.dom().contains(relay_id) { states[relay_id] } else { fresh_state() }
}

/// An open circuit whose reset timeout has passed at `now` lets one test
/// request through.
pub open spec fn reset_due(s: CircuitBreakerState, reset_timeout_ms: u64, now: u64) -> bool {
    &&& s.is_open
    &&& !s.half_open
    &&& s.last_failure matches Some(t) && now >= t && now - t > reset_timeout_ms
}

/// The state after checking it at `now`.
pub open spec fn check_step(s: CircuitBreakerState, reset_timeout_ms: u64, now: u64) -> CircuitBreakerState {
    if reset_due(s, reset_timeout_ms, now) {
        CircuitBreakerState { half_open: true, ..s }
    } else {
        s
    }
}

/// The state after a failure at `now`.
pub open spec fn failure_step(s: CircuitBreakerState, threshold: u32, now: u64) -> CircuitBreakerState {
    if s.half_open {
        CircuitBreakerState { is_open: true, half_open: false, last_failure: Some(now), ..s }
    } else {
        let failures: u32 = if s.failures < u32::MAX { (s.failures + 1) as u32 } else { u32::MAX };
        CircuitBreakerState {
            failures,
            last_failure: Some(now),
            is_open: s.is_open || failures >= threshold,
            half_open: false,
        }
    }
}

/// Circuit breaker over many relays.
#[derive(Debug)]
pub struct CircuitBreaker {
    states: StrTable<CircuitBreakerState>,
    failure_threshold: u32,
    /// Time an open circuit waits before a test request, in milliseconds.
    reset_timeout_ms: u64,
}

impl CircuitBreaker {
    /// Per-relay states seen so far.
    pub closed spec fn spec_states(&self) -> Map<Seq<char>, CircuitBreakerState> {
        self.states@
    }

    /// Failures that open a circuit.
    pub closed spec fn spec_threshold(&self) -> u32 {
        self.failure_threshold
    }

    /// Milliseconds an open circuit waits before a test request.
    pub closed spec fn spec_timeout(&self) -> u64 {
        self.reset_timeout_ms
    }

    /// A breaker that opens after `failure_threshold` failures and waits
    /// `reset_timeout_ms` before letting a test request through.
    pub fn new(failure_threshold: u32, reset_timeout_ms: u64) -> (breaker: CircuitBreaker)
        ensures
            breaker.spec_states() == Map::<Seq<char>, CircuitBreakerState>::empty(),
            breaker.spec_threshold() == failure_threshold,
            breaker.spec_timeout() == reset_timeout_ms,
    {
        CircuitBreaker { states: StrTable::new(), failure_threshold, reset_timeout_ms }
    }

    /// Whether requests to `relay_id` should be held back at time `now`.
    /// An open circuit past its reset timeout turns half open and answers
    /// `false`, letting one test request through.
    pub fn is_open_at(&mut self, relay_id: &str, now: u64) -> (open: bool)
        ensures
            final(self).spec_threshold() == old(self).spec_threshold(),
            final(self).spec_timeout() == old(self).spec_timeout(),
            final(self).spec_states() == old(self).spec_states().insert(
                relay_id@,
                check_step(state_of(old(self).spec_states(), relay_id@), old(self).spec_timeout(), now),
            ),
            open == {
                let s = check_step(state_of(old(self).spec_states(), relay_id@), old(self).spec_timeout(), now);
                s.is_open && !s.half_open
            },
    {
        let current = match self.states.get(relay_id) {
            Some(s) => *s,
            None => CircuitBreakerState { failures: 0, last_failure: None, is_open: false, half_open: false },
        };
        let mut next = current;
        if current.is_open && !current.half_open {
            match current.last_failure {
                Some(t) => {
                    if now >= t && now - t > self.reset_timeout_ms {
                        next = CircuitBreakerState { half_open: true, ..current };
                    }
                },
                None => {},
            }
        }
        self.states.insert(relay_id.to_owned(), next);
        next.is_open && !next.half_open
    }

    /// `is_open_at` at the current time.
    pub fn is_open(&mut self, relay_id: &str) -> (open: bool)
        ensures
            final(self).spec_threshold() == old(self).spec_threshold(),
            final(self).spec_timeout() == old(self).spec_timeout(),
            !state_of(old(self).spec_states(), relay_id@).is_open ==> !open,
            state_of(old(self).spec_states(), relay_id@).half_open ==> !open,
            exists|now: u64| {
                let s = #[trigger] check_step(state_of(old(self).spec_states(), relay_id@), old(self).spec_timeout(), now);
                &&& final(self).spec_states() == old(self).spec_states().insert(relay_id@, s)
                &&& open == (s.is_open && !s.half_open)
            },
    {
        let now = clock_millis();
        let open = self.is_open_at(relay_id, now);
        assert(self.spec_states() == old(self).spec_states().insert(
            relay_id@,
            check_step(state_of(old(self).spec_states(), relay_id@), old(self).spec_timeout(), now),
        ));
        open
    }

    /// A success closes the circuit of a known relay and clears its failures.
    pub fn record_success(&mut self, relay_id: &str)
        ensures
            final(self).spec_threshold() == old(self).spec_threshold(),
            final(self).spec_timeout() == old(self).spec_timeout(),
            final(self).spec_states() == if old(self).spec_states().dom().contains(relay_id@) {
                old(self).spec_states().insert(relay_id@, fresh_state())
            } else {
                old(self).spec_states()
            },
    {
        match self.states.get(relay_id) {
            Some(_) => {
                self.states.insert(relay_id.to_owned(), CircuitBreakerState { failures: 0, last_failure: None, is_open: false, half_open: false });
            },
            None => {},
        }
    }

    /// Records a failure of `relay_id` at time `now`. A failed test request
    /// reopens the circuit at once; otherwise the failure count grows and
    /// the circuit opens once it reaches the threshold.
    pub fn record_failure_at(&mut self, relay_id: &str, now: u64)
        ensures
            final(self).spec_threshold() == old(self).spec_threshold(),
            final(self).spec_timeout() == old(self).spec_timeout(),
            final(self).spec_states() == old(self).spec_states().insert(
                relay_id@,
                failure_step(state_of(old(self).spec_states(), relay_id@), old(self).spec_threshold(), now),
            ),
    {
        let current = match self.states.get(relay_id) {
            Some(s) => *s,
            None => CircuitBreakerState { failures: 0, last_failure: None, is_open: false, half_open: false },
        };
        let next = if current.half_open {
            CircuitBreakerState { is_open: true, half_open: false, last_failure: Some(now), ..current }
        } else {
            let failures: u32 = if current.failures < u32::MAX { current.failures + 1 } else { u32::MAX };
            CircuitBreakerState {
                failures,
                last_failure: Some(now),
                is_open: current.is_open || failures >= self.failure_threshold,
                half_open: false,
            }
        };
        self.states.insert(relay_id.to_owned(), next);
    }

    /// `record_failure_at` at the current time.
    pub fn record_failure(&mut self, relay_id: &str)
        ensures
            final(self).spec_threshold() == old(self).spec_threshold(),
            final(self).spec_timeout() == old(self).spec_timeout(),
            final(self).spec_states().dom().contains(relay_id@),
            state_of(old(self).spec_states(), relay_id@).half_open ==> {
                let s = final(self).spec_states()[relay_id@];
                s.is_open && !s.half_open
            },
            exists|now: u64| final(self).spec_states() == old(self).spec_states().insert(
                relay_id@,
                #[trigger] failure_step(state_of(old(self).spec_states(), relay_id@), old(self).spec_threshold(), now),
            ),
    {
        let now = clock_millis();
        self.record_failure_at(relay_id, now);
        assert(self.spec_states() == old(self).spec_states().insert(
            relay_id@,
            failure_step(state_of(old(self).spec_states(), relay_id@), old(self).spec_threshold(), now),
        ));
    }
}

/// The state after failures at each time of `times`, starting from `s`.
pub open spec fn after_failures(s: CircuitBreakerState, threshold: u32, times: Seq<u64>) -> CircuitBreakerState
    decreases times.len(),
{
    if times.len() == 0 {
        s
    } else {
        failure_step(after_failures(s, threshold, times.drop_last()), threshold, times.last())
    }
}

/// From a fresh relay, `n` failures (fewer than `u32::MAX`) leave a failure
/// count of `n`, and the circuit is open exactly when there was a failure
/// and `n` reached the threshold.
pub proof fn law_failures_open_the_circuit(threshold: u32, times: Seq<u64>)
    requires
        times.len() < u32::MAX,
    ensures
        after_failures(fresh_state(), threshold, times).failures == times.len(),
        after_failures(fresh_state(), threshold, times).is_open == (times.len() > 0 && times.len() >= threshold),
        !after_failures(fresh_state(), threshold, times).half_open,
    decreases times.len(),
{
    if times.len() > 0 {
        law_failures_open_the_circuit(threshold, times.drop_last());
    }
}

/// A success after any history leaves a known relay closed with no failures.
pub proof fn law_success_closes(states: Map<Seq<char>, CircuitBreakerState>, relay_id: Seq<char>, reset_timeout_ms: u64, now: u64)
    requires
        states.dom().contains(relay_id),
    ensures
        !check_step(states.insert(relay_id, fresh_state())[relay_id], reset_timeout_ms, now).is_open,
{
}

/// A failed test request reopens the circuit, whatever the failure count.
pub proof fn law_half_open_failure_reopens(s: CircuitBreakerState, threshold: u32, now: u64)
    requires
        s.half_open,
    ensures
        failure_step(s, threshold, now).is_open,
        !failure_step(s, threshold, now).half_open,
        failure_step(s, threshold, now).failures == s.failures,
{
}

} // verus!
