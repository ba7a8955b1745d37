//! Relay queries: cache keys, the per-relay circuit breakers and retry
//! rounds around each request, and how each relay answer is read.

use vstd::prelude::*;
use crate::cache::{wrapping_inc, CircuitBreaker, CircuitState};
use crate::config::RelayGasConfig;
use crate::error::ReservedGasError;
use crate::keyed::StrTable;
use crate::text::{decimal, u64_to_decimal};
use crate::validation::{relay_config_verdict, validate_relay_gas_config, MAX_REASONABLE_GAS};

verus! {

/// Timeout of a header request, in milliseconds.
pub const DEFAULT_TIMEOUT_MS: u64 = 950;
/// Timeout of a validator registration request, in milliseconds.
pub const REGISTER_TIMEOUT_MS: u64 = 3000;
/// Timeout of a block submission, in milliseconds.
pub const SUBMIT_TIMEOUT_MS: u64 = 4000;
/// Timeout of a status request, in milliseconds.
pub const STATUS_TIMEOUT_MS: u64 = 1000;
/// Timeout of a gas configuration request, in milliseconds.
pub const CONFIG_TIMEOUT_MS: u64 = 5000;
/// Timeout of a reserve requirement request, in milliseconds.
pub const RESERVE_TIMEOUT_MS: u64 = 2000;
/// Entries of the header cache.
pub const CACHE_MAX_SIZE: usize = 1000;
/// Lifetime of a cached header, in milliseconds.
pub const CACHE_TTL_MS: u64 = 60_000;
/// Lifetime of a cached configuration or reserve, in milliseconds.
pub const CONFIG_CACHE_TTL_MS: u64 = 300_000;
/// Failures after which a relay's breaker opens.
pub const CIRCUIT_FAILURE_THRESHOLD: usize = 5;
/// Time after which an open breaker lets test requests through, in milliseconds.
pub const CIRCUIT_RECOVERY_TIMEOUT_MS: u64 = 30_000;
/// Successful test requests after which a half-open breaker closes.
pub const CIRCUIT_HALF_OPEN_SUCCESS_THRESHOLD: usize = 3;
/// Attempts per request.
pub const MAX_RETRIES: u32 = 3;

/// Cache key of a header query.
pub fn build_header_cache_key(relay_id: &str, slot: u64, parent_hash: &str, pubkey: &str) -> (key: String)
    ensures
        key@ == "header:"@ + relay_id@ + ":"@ + decimal(slot as nat) + ":"@ + parent_hash@ + ":"@ + pubkey@,
{
    let mut key = String::from_str("header:");
    key.append(relay_id);
    key.append(":");
    key.append(u64_to_decimal(slot).as_str());
    key.append(":");
    key.append(parent_hash);
    key.append(":");
    key.append(pubkey);
    key
}

/// Cache key of a gas configuration query.
pub fn build_gas_config_cache_key(relay_id: &str, endpoint: &str) -> (key: String)
    ensures
        key@ == "gas_config:"@ + relay_id@ + ":"@ + endpoint@,
{
    let mut key = String::from_str("gas_config:");
    key.append(relay_id);
    key.append(":");
    key.append(endpoint);
    key
}

/// Cache key of a reserve requirement query.
pub fn build_reserve_cache_key(relay_id: &str, endpoint: &str) -> (key: String)
    ensures
        key@ == "reserve:"@ + relay_id@ + ":"@ + endpoint@,
{
    let mut key = String::from_str("reserve:");
    key.append(relay_id);
    key.append(":");
    key.append(endpoint);
    key
}

/// The breaker a relay starts with.
pub open spec fn fresh_breaker() -> CircuitBreaker {
    CircuitBreaker {
        state: CircuitState::Closed,
        failure_count: 0,
        last_failure_time: None,
        failure_threshold: CIRCUIT_FAILURE_THRESHOLD,
        recovery_timeout_ms: CIRCUIT_RECOVERY_TIMEOUT_MS,
        half_open_success_threshold: CIRCUIT_HALF_OPEN_SUCCESS_THRESHOLD,
        half_open_attempts: 0,
    }
}

/// The breaker of `relay_id`: its own, or a fresh one.
pub open spec fn breaker_of(breakers: Map<Seq<char>, CircuitBreaker>, relay_id: Seq<char>) -> CircuitBreaker {
    if breakers.dom().contains(relay_id) { breakers[relay_id] } else { fresh_breaker() }
}

/// Whether a breaker lets a request through at `now`.
pub open spec fn may_proceed(b: CircuitBreaker, now: u64) -> bool {
    match b.state {
        CircuitState::Closed => true,
        CircuitState::Open => b.last_failure_time matches Some(t) && now > t + b.recovery_timeout_ms,
        CircuitState::HalfOpen => b.half_open_attempts < b.half_open_success_threshold,
    }
}

/// A breaker after it was asked at `now` whether a request may go out.
pub open spec fn after_proceed(b: CircuitBreaker, now: u64) -> CircuitBreaker {
    match b.state {
        CircuitState::Closed => b,
        CircuitState::Open => if may_proceed(b, now) {
            CircuitBreaker { state: CircuitState::HalfOpen, half_open_attempts: 0, ..b }
        } else {
            b
        },
        CircuitState::HalfOpen => CircuitBreaker { half_open_attempts: wrapping_inc(b.half_open_attempts), ..b },
    }
}

/// A breaker after a successful request.
pub open spec fn after_success(b: CircuitBreaker) -> CircuitBreaker {
    match b.state {
        CircuitState::HalfOpen => if b.half_open_attempts >= b.half_open_success_threshold {
            CircuitBreaker { state: CircuitState::Closed, failure_count: 0, half_open_attempts: 0, ..b }
        } else {
            b
        },
        CircuitState::Closed => CircuitBreaker { failure_count: 0, ..b },
        CircuitState::Open => b,
    }
}

/// A breaker after a failed request at `now`.
pub open spec fn after_failure(b: CircuitBreaker, now: u64) -> CircuitBreaker {
    let failures = wrapping_inc(b.failure_count);
    match b.state {
        CircuitState::Closed => CircuitBreaker {
            state: if failures >= b.failure_threshold { CircuitState::Open } else { CircuitState::Closed },
            failure_count: failures,
            last_failure_time: Some(now),
            ..b
        },
        CircuitState::HalfOpen => CircuitBreaker {
            state: CircuitState::Open,
            failure_count: failures,
            last_failure_time: Some(now),
            half_open_attempts: 0,
            ..b
        },
        CircuitState::Open => CircuitBreaker { failure_count: failures, last_failure_time: Some(now), ..b },
    }
}

/// A breaker after failed requests at the given times, in order.
pub open spec fn after_failures(b: CircuitBreaker, times: Seq<u64>) -> CircuitBreaker
    decreases times.len(),
{
    if times.len() == 0 { b } else { after_failure(after_failures(b, times.drop_last()), times.last()) }
}

/// From a fresh breaker, `n` failures in a row leave `n` counted, the
/// breaker closed below the threshold and open from it on.
proof fn lemma_fresh_failures(times: Seq<u64>)
    requires
        times.len() <= CIRCUIT_FAILURE_THRESHOLD,
    ensures
        after_failures(fresh_breaker(), times).failure_count == times.len(),
        after_failures(fresh_breaker(), times).state == if times.len() >= CIRCUIT_FAILURE_THRESHOLD {
            CircuitState::Open
        } else {
            CircuitState::Closed
        },
        after_failures(fresh_breaker(), times).failure_threshold == CIRCUIT_FAILURE_THRESHOLD,
        after_failures(fresh_breaker(), times).recovery_timeout_ms == CIRCUIT_RECOVERY_TIMEOUT_MS,
        times.len() > 0 ==> after_failures(fresh_breaker(), times).last_failure_time == Some(times.last()),
    decreases times.len(),
{
    if times.len() > 0 {
        lemma_fresh_failures(times.drop_last());
    }
}

/// A relay that failed as many times in a row as the threshold, starting
/// from a fresh breaker, is refused until the recovery timeout has passed
/// since the last failure, and let through once it has.
pub proof fn law_failures_open_relay_breaker(times: Seq<u64>, now: u64)
    requires
        times.len() == CIRCUIT_FAILURE_THRESHOLD,
    ensures
        after_failures(fresh_breaker(), times).state == CircuitState::Open,
        may_proceed(after_failures(fresh_breaker(), times), now) <==> now > times.last() + CIRCUIT_RECOVERY_TIMEOUT_MS,
{
    lemma_fresh_failures(times);
}

/// The per-relay breakers of the relay queries.
#[derive(Debug)]
pub struct RelayBreakers {
    breakers: StrTable<CircuitBreaker>,
}

impl RelayBreakers {
    /// Each relay's breaker, for the relays seen so far.
    pub closed spec fn spec_breakers(&self) -> Map<Seq<char>, CircuitBreaker> {
        self.breakers@
    }

    /// No relay seen yet.
    pub fn new() -> (breakers: RelayBreakers)
        ensures
            breakers.spec_breakers() == Map::<Seq<char>, CircuitBreaker>::empty(),
    {
        RelayBreakers { breakers: StrTable::new() }
    }

    /// Takes the breaker of `relay_id` out of the table, a fresh one when
    /// the relay was not seen yet.
    fn take(&mut self, relay_id: &str) -> (b: CircuitBreaker)
        ensures
            b == breaker_of(old(self).spec_breakers(), relay_id@),
            final(self).spec_breakers() == old(self).spec_breakers().remove(relay_id@),
    {
        match self.breakers.remove(relay_id) {
            Some(b) => b,
            None => {
                assert(old(self).spec_breakers().remove(relay_id@) =~= old(self).spec_breakers());
                CircuitBreaker::new(CIRCUIT_FAILURE_THRESHOLD, CIRCUIT_RECOVERY_TIMEOUT_MS, CIRCUIT_HALF_OPEN_SUCCESS_THRESHOLD)
            },
        }
    }

    /// Before a request to `relay_id` at `now`: refused while its breaker is
    /// open, which the breaker reports as a connection error.
    pub fn begin_at(&mut self, relay_id: &str, now: u64) -> (result: Result<(), ReservedGasError>)
        ensures
            result is Ok <==> may_proceed(breaker_of(old(self).spec_breakers(), relay_id@), now),
            result matches Err(e) ==> (e matches ReservedGasError::RelayConnectionError { relay_id: r, message: m }
                && r@ == relay_id@ && m@ == "Circuit breaker is open"@),
            final(self).spec_breakers() == old(self).spec_breakers().insert(
                relay_id@,
                after_proceed(breaker_of(old(self).spec_breakers(), relay_id@), now),
            ),
    {
        let mut b = self.take(relay_id);
        let allowed = b.can_proceed_at(now);
        self.breakers.insert(relay_id.to_owned(), b);
        proof {
            assert(self.spec_breakers() =~= old(self).spec_breakers().insert(
                relay_id@,
                after_proceed(breaker_of(old(self).spec_breakers(), relay_id@), now),
            ));
        }
        if allowed {
            Ok(())
        } else {
            Err(ReservedGasError::RelayConnectionError {
                relay_id: relay_id.to_owned(),
                message: String::from_str("Circuit breaker is open"),
            })
        }
    }

    /// After attempt number `attempt` (from zero) of a request to
    /// `relay_id` at `now`: the outcome goes to the relay's breaker, and
    /// the answer says whether to try again.
    pub fn after_attempt_at(&mut self, relay_id: &str, attempt: u32, succeeded: bool, now: u64) -> (retry: bool)
        ensures
            retry == (!succeeded && attempt + 1 < MAX_RETRIES),
            final(self).spec_breakers() == old(self).spec_breakers().insert(relay_id@, if succeeded {
                after_success(breaker_of(old(self).spec_breakers(), relay_id@))
            } else {
                after_failure(breaker_of(old(self).spec_breakers(), relay_id@), now)
            }),
    {
        let mut b = self.take(relay_id);
        if succeeded {
            b.record_success();
        } else {
            b.record_failure_at(now);
        }
        self.breakers.insert(relay_id.to_owned(), b);
        proof {
            let before = breaker_of(old(self).spec_breakers(), relay_id@);
            assert(self.spec_breakers() =~= old(self).spec_breakers().insert(relay_id@, if succeeded {
                after_success(before)
            } else {
                after_failure(before, now)
            }));
        }
        !succeeded && attempt < MAX_RETRIES - 1
    }
}

/// `result` is how a gas configuration answer from `relay_id` with code
/// `status` (rendered `status_text`) and body `body` is read: `200` with a
/// configuration that passes the checks gives it, one that fails them gives
/// the refusal `relay_config_verdict` names, `404` gives nothing, a body
/// that could not be read is a transport error, and any other code is a
/// configuration error naming the code.
pub open spec fn gas_config_answered(
    relay_id: Seq<char>,
    status: u16,
    status_text: Seq<char>,
    body: Result<RelayGasConfig, String>,
    result: Result<Option<RelayGasConfig>, ReservedGasError>,
) -> bool {
    &&& status == 200 ==> match body {
        Err(e) => result == Err::<Option<RelayGasConfig>, ReservedGasError>(ReservedGasError::RelayError(e)),
        Ok(config) => relay_config_verdict(config, relay_id, match result {
            Ok(_) => Ok::<(), ReservedGasError>(()),
            Err(e) => Err::<(), ReservedGasError>(e),
        }) && (result is Ok ==> result == Ok::<Option<RelayGasConfig>, ReservedGasError>(Some(config))),
    }
    &&& status == 404 ==> result == Ok::<Option<RelayGasConfig>, ReservedGasError>(None)
    &&& status != 200 && status != 404 ==> (result matches Err(ReservedGasError::ConfigError(m))
        && m@ == "Unexpected status from relay gas config endpoint: "@ + status_text)
}

/// `result` is how a reserve answer with code `status` and `reserve` field
/// `reserve` is read: `200` must carry a number no larger than the
/// reasonable maximum, `404` gives nothing, any other code is a
/// configuration error naming it.
pub open spec fn reserve_answered(
    status: u16,
    status_text: Seq<char>,
    reserve: Result<Option<u64>, String>,
    result: Result<Option<u64>, ReservedGasError>,
) -> bool {
    &&& status == 200 ==> match reserve {
        Err(e) => result == Err::<Option<u64>, ReservedGasError>(ReservedGasError::RelayError(e)),
        Ok(None) => result matches Err(ReservedGasError::ConfigError(m))
            && m@ == "Invalid reserve response: missing or invalid 'reserve' field"@,
        Ok(Some(r)) => if r > MAX_REASONABLE_GAS {
            result == Err::<Option<u64>, ReservedGasError>(ReservedGasError::ReservedGasTooHigh { amount: r, max: MAX_REASONABLE_GAS })
        } else {
            result == Ok::<Option<u64>, ReservedGasError>(Some(r))
        },
    }
    &&& status == 404 ==> result == Ok::<Option<u64>, ReservedGasError>(None)
    &&& status != 200 && status != 404 ==> (result matches Err(ReservedGasError::ConfigError(m))
        && m@ == "Unexpected status from relay reserve endpoint: "@ + status_text)
}

/// `result` is how a header answer with code `status` and body `body` is
/// read: a success code gives the header, any other code is a
/// configuration error naming it.
pub open spec fn header_answered<T>(
    status: u16,
    status_text: Seq<char>,
    body: Result<T, String>,
    result: Result<Option<T>, ReservedGasError>,
) -> bool {
    &&& 200 <= status <= 299 ==> match body {
        Err(e) => result == Err::<Option<T>, ReservedGasError>(ReservedGasError::RelayError(e)),
        Ok(h) => result == Ok::<Option<T>, ReservedGasError>(Some(h)),
    }
    &&& !(200 <= status <= 299) ==> (result matches Err(ReservedGasError::ConfigError(m))
        && m@ == "Unexpected status from relay: "@ + status_text)
}

/// Reads a relay's answer to a gas configuration request: `200` with a
/// configuration that passes the checks gives it, `404` gives nothing, a
/// body that could not be read is a transport error, and any other code
/// is a configuration error naming the code.
pub fn gas_config_answer(relay_id: &str, status: u16, status_text: &str, body: Result<RelayGasConfig, String>) -> (result: Result<Option<RelayGasConfig>, ReservedGasError>)
    ensures
        gas_config_answered(relay_id@, status, status_text@, body, result),
{
    if status == 200 {
        match body {
            Err(e) => Err(ReservedGasError::RelayError(e)),
            Ok(config) => {
                match validate_relay_gas_config(&config, relay_id) {
                    Err(e) => Err(e),
                    Ok(()) => Ok(Some(config)),
                }
            },
        }
    } else if status == 404 {
        Ok(None)
    } else {
        let mut m = String::from_str("Unexpected status from relay gas config endpoint: ");
        m.append(status_text);
        Err(ReservedGasError::ConfigError(m))
    }
}

/// Reads a relay's answer to a reserve requirement request: `200` must
/// carry a `reserve` number no larger than the reasonable maximum, `404`
/// gives nothing, any other code is a configuration error naming it.
/// `reserve` is the body's `reserve` field as a number, when the body
/// could be read.
pub fn reserve_answer(status: u16, status_text: &str, reserve: Result<Option<u64>, String>) -> (result: Result<Option<u64>, ReservedGasError>)
    ensures
        reserve_answered(status, status_text@, reserve, result),
{
    if status == 200 {
        match reserve {
            Err(e) => Err(ReservedGasError::RelayError(e)),
            Ok(None) => Err(ReservedGasError::ConfigError(String::from_str("Invalid reserve response: missing or invalid 'reserve' field"))),
            Ok(Some(r)) => if r > MAX_REASONABLE_GAS {
                Err(ReservedGasError::ReservedGasTooHigh { amount: r, max: MAX_REASONABLE_GAS })
            } else {
                Ok(Some(r))
            },
        }
    } else if status == 404 {
        Ok(None)
    } else {
        let mut m = String::from_str("Unexpected status from relay reserve endpoint: ");
        m.append(status_text);
        Err(ReservedGasError::ConfigError(m))
    }
}

/// Reads a relay's answer to a header request: a success code gives the
/// header read from the body, any other code is a configuration error.
pub fn header_answer<T>(status: u16, status_text: &str, body: Result<T, String>) -> (result: Result<Option<T>, ReservedGasError>)
    ensures
        header_answered(status, status_text@, body, result),
{
    if 200 <= status && status <= 299 {
        match body {
            Err(e) => Err(ReservedGasError::RelayError(e)),
            Ok(h) => Ok(Some(h)),
        }
    } else {
        let mut m = String::from_str("Unexpected status from relay: ");
        m.append(status_text);
        Err(ReservedGasError::ConfigError(m))
    }
}

/// A success code, or a configuration error `prefix` followed by the
/// code's rendering.
fn success_or(status: u16, status_text: &str, prefix: &str) -> (result: Result<(), ReservedGasError>)
    ensures
        200 <= status <= 299 <==> result is Ok,
        result matches Err(e) ==> (e matches ReservedGasError::ConfigError(m) && m@ == prefix@ + status_text@),
{
    if 200 <= status && status <= 299 {
        Ok(())
    } else {
        let mut m = String::from_str(prefix);
        m.append(status_text);
        Err(ReservedGasError::ConfigError(m))
    }
}

/// Reads a relay's answer to a validator registration.
pub fn registration_answer(status: u16, status_text: &str) -> (result: Result<(), ReservedGasError>)
    ensures
        200 <= status <= 299 <==> result is Ok,
        result matches Err(e) ==> (e matches ReservedGasError::ConfigError(m)
            && m@ == "Failed to register validators: "@ + status_text@),
{
    success_or(status, status_text, "Failed to register validators: ")
}

/// Reads a relay's answer to a block submission.
pub fn submit_answer(status: u16, status_text: &str) -> (result: Result<(), ReservedGasError>)
    ensures
        200 <= status <= 299 <==> result is Ok,
        result matches Err(e) ==> (e matches ReservedGasError::ConfigError(m)
            && m@ == "Failed to submit block: "@ + status_text@),
{
    success_or(status, status_text, "Failed to submit block: ")
}

/// Reads a relay's answer to a status request.
pub fn status_answer(status: u16, status_text: &str) -> (result: Result<(), ReservedGasError>)
    ensures
        200 <= status <= 299 <==> result is Ok,
        result matches Err(e) ==> (e matches ReservedGasError::ConfigError(m)
            && m@ == "Relay unhealthy: status "@ + status_text@),
{
    success_or(status, status_text, "Relay unhealthy: status ")
}

/// A conditional request on a cached entry is answered from the cache when
/// the relay says `304 Not Modified`.
pub fn cache_still_valid(status: u16) -> (valid: bool)
    ensures
        valid == (status == 304),
{
    status == 304
}

} // verus!
