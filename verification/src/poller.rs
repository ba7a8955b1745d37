//! Polling relays for validator registrations: what was last seen of each
//! relay, which polled registrations are processed, and what a poll's
//! answer does to the relay's circuit breaker.

use vstd::prelude::*;
use crate::commitment::RegistrationNotification;
use crate::infrastructure::circuit_breaker::{check_step, failure_step, fresh_state, reset_due, state_of, CircuitBreaker};
use crate::keyed::StrTable;
use crate::relay::{trim_slashes, trim_trailing_slashes};
use crate::text::{decimal, u64_to_decimal};
use crate::types::ValidatorRegistration;
use crate::validation::{registration_check, sat_sub, validate_registration};

verus! {

/// When each relay last gave registrations (Unix seconds), by relay URL.
#[derive(Debug)]
pub struct PollingState {
    last_seen_registrations: StrTable<u64>,
}

impl PollingState {
    /// The last-seen times by relay URL.
    pub closed spec fn spec_last_seen(&self) -> Map<Seq<char>, u64> {
        self.last_seen_registrations@
    }

    /// Nothing seen yet.
    pub fn new() -> (state: PollingState)
        ensures
            state.spec_last_seen() == Map::<Seq<char>, u64>::empty(),
    {
        PollingState { last_seen_registrations: StrTable::new() }
    }

    /// When `relay_url` last gave registrations.
    pub fn get_last_seen(&self, relay_url: &str) -> (seen: Option<u64>)
        ensures
            seen == if self.spec_last_seen().dom().contains(relay_url@) {
                Some(self.spec_last_seen()[relay_url@])
            } else {
                None::<u64>
            },
    {
        match self.last_seen_registrations.get(relay_url) {
            Some(t) => Some(*t),
            None => None,
        }
    }

    /// Records that `relay_url` gave registrations at `timestamp`.
    pub fn update_last_seen(&mut self, relay_url: &str, timestamp: u64)
        ensures
            final(self).spec_last_seen() == old(self).spec_last_seen().insert(relay_url@, timestamp),
    {
        self.last_seen_registrations.insert(relay_url.to_owned(), timestamp);
    }
}

/// Where a poll of `relay_url` at `now` (milliseconds) starts: nowhere
/// while the relay's circuit holds requests back, else from the time the
/// relay last gave registrations, or from zero. Asking the breaker may turn
/// an expired open circuit half open.
pub fn poll_start_at(polling: &PollingState, breaker: &mut CircuitBreaker, relay_url: &str, now: u64) -> (since: Option<u64>)
    ensures
        final(breaker).spec_threshold() == old(breaker).spec_threshold(),
        final(breaker).spec_timeout() == old(breaker).spec_timeout(),
        final(breaker).spec_states() == old(breaker).spec_states().insert(
            relay_url@,
            check_step(state_of(old(breaker).spec_states(), relay_url@), old(breaker).spec_timeout(), now),
        ),
        ({
            let s = check_step(state_of(old(breaker).spec_states(), relay_url@), old(breaker).spec_timeout(), now);
            since == if s.is_open && !s.half_open {
                None::<u64>
            } else if polling.spec_last_seen().dom().contains(relay_url@) {
                Some(polling.spec_last_seen()[relay_url@])
            } else {
                Some(0u64)
            }
        }),
        ({
            let s = state_of(old(breaker).spec_states(), relay_url@);
            s.is_open && !s.half_open && !reset_due(s, old(breaker).spec_timeout(), now) ==> since is None
        }),
{
    if breaker.is_open_at(relay_url, now) {
        return None;
    }
    match polling.get_last_seen(relay_url) {
        Some(t) => Some(t),
        None => Some(0),
    }
}

/// Recording a time and reading it back gives that time; other relays
/// keep theirs.
pub proof fn law_last_seen_read_back(seen: Map<Seq<char>, u64>, relay_url: Seq<char>, timestamp: u64, other: Seq<char>)
    ensures
        seen.insert(relay_url, timestamp).dom().contains(relay_url),
        seen.insert(relay_url, timestamp)[relay_url] == timestamp,
        other != relay_url ==> (seen.insert(relay_url, timestamp).dom().contains(other) == seen.dom().contains(other)),
        other != relay_url && seen.dom().contains(other) ==> seen.insert(relay_url, timestamp)[other] == seen[other],
{
}

/// The relay's registrations endpoint for registrations since `since`.
pub fn registrations_endpoint(relay_url: &str, since: u64) -> (endpoint: String)
    ensures
        endpoint@ == trim_slashes(relay_url@) + "/eth/v1/builder/registrations?since="@ + decimal(since as nat),
{
    let mut endpoint = trim_trailing_slashes(relay_url);
    endpoint.append("/eth/v1/builder/registrations?since=");
    endpoint.append(u64_to_decimal(since).as_str());
    endpoint
}

/// A polled registration is processed when it is at most `max_age_secs`
/// old at `now` and passes the registration checks.
pub open spec fn accepted(registration: ValidatorRegistration, max_age_secs: u64, now: u64) -> bool {
    sat_sub(now, registration.message.timestamp) <= max_age_secs && registration_check(registration) is Ok
}

/// The accepted registrations, in order.
pub open spec fn accepted_registrations(registrations: Seq<ValidatorRegistration>, max_age_secs: u64, now: u64) -> Seq<ValidatorRegistration> {
    registrations.filter(|r: ValidatorRegistration| accepted(r, max_age_secs, now))
}

/// Turns the registrations a relay gave at `now` (Unix seconds) into
/// notifications: those too old or failing the checks are dropped, the
/// rest name the relay and carry `now`. When any remain, the relay's
/// last-seen time becomes `now`.
pub fn accept_polled_registrations(
    state: &mut PollingState,
    relay_url: &str,
    registrations: &Vec<ValidatorRegistration>,
    max_age_secs: u64,
    now: u64,
) -> (notifications: Vec<RegistrationNotification>)
    ensures
        notifications@.len() == accepted_registrations(registrations@, max_age_secs, now).len(),
        forall|i: int| 0 <= i < notifications@.len() ==> {
            &&& (#[trigger] notifications@[i]).registration == accepted_registrations(registrations@, max_age_secs, now)[i]
            &&& notifications@[i].relay_url@ == relay_url@
            &&& notifications@[i].timestamp == now
        },
        final(state).spec_last_seen() == if notifications@.len() > 0 {
            old(state).spec_last_seen().insert(relay_url@, now)
        } else {
            old(state).spec_last_seen()
        },
{
    let ghost pred = |r: ValidatorRegistration| accepted(r, max_age_secs, now);
    let mut notifications: Vec<RegistrationNotification> = Vec::new();
    let ghost kept: Seq<ValidatorRegistration> = Seq::empty();
    let mut i: usize = 0;
    while i < registrations.len()
        invariant
            i <= registrations@.len(),
            pred == (|r: ValidatorRegistration| accepted(r, max_age_secs, now)),
            kept == registrations@.take(i as int).filter(pred),
            notifications@.len() == kept.len(),
            forall|j: int| 0 <= j < notifications@.len() ==> {
                &&& (#[trigger] notifications@[j]).registration == kept[j]
                &&& notifications@[j].relay_url@ == relay_url@
                &&& notifications@[j].timestamp == now
            },
        decreases registrations@.len() - i,
    {
        let r = registrations[i];
        proof {
            reveal(Seq::filter);
            let next = registrations@.take(i + 1);
            assert(next.drop_last() =~= registrations@.take(i as int));
            assert(next.last() == r);
        }
        let fresh = now.saturating_sub(r.message.timestamp) <= max_age_secs;
        if fresh && validate_registration(&r).is_ok() {
            notifications.push(RegistrationNotification { registration: r, relay_url: relay_url.to_owned(), timestamp: now });
            proof { kept = kept.push(r); }
        }
        i = i + 1;
    }
    proof {
        assert(registrations@.take(i as int) =~= registrations@);
    }
    if notifications.len() > 0 {
        state.update_last_seen(relay_url, now);
    }
    notifications
}

/// What a relay's answer to a registrations poll does at `now`
/// (milliseconds): a success code is recorded as a success of the relay,
/// any other code as a failure and an error naming the code.
pub fn registrations_answer(breaker: &mut CircuitBreaker, relay_url: &str, status: u16, status_text: &str, now: u64) -> (result: Result<(), String>)
    ensures
        200 <= status <= 299 <==> result is Ok,
        result matches Err(m) ==> m@ == "Relay returned error status: "@ + status_text@,
        final(breaker).spec_threshold() == old(breaker).spec_threshold(),
        final(breaker).spec_timeout() == old(breaker).spec_timeout(),
        200 <= status <= 299 ==> final(breaker).spec_states() == if old(breaker).spec_states().dom().contains(relay_url@) {
            old(breaker).spec_states().insert(relay_url@, fresh_state())
        } else {
            old(breaker).spec_states()
        },
        !(200 <= status <= 299) ==> final(breaker).spec_states() == old(breaker).spec_states().insert(
            relay_url@,
            failure_step(state_of(old(breaker).spec_states(), relay_url@), old(breaker).spec_threshold(), now),
        ),
{
    if 200 <= status && status <= 299 {
        breaker.record_success(relay_url);
        Ok(())
    } else {
        breaker.record_failure_at(relay_url, now);
        let mut m = String::from_str("Relay returned error status: ");
        m.append(status_text);
        Err(m)
    }
}

} // verus!
