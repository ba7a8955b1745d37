//! Reserved-gas state with a fetch clock: per-relay reservations over the
//! local configuration, and when relay configurations are due again.

use vstd::prelude::*;
use crate::config::{override_lookup, lemma_override_lookup_push, RelayGasConfig, ReservedGasConfig};
use crate::error::ReservedGasError;
use crate::infrastructure::clock::clock_millis;
use crate::reservations::{GasReservation, ReservationRecord, ReservationTable};
use crate::state_manager::{record_of, with_overrides};
use crate::types::{GasReservationOutcome, PbsModuleConfig};
use crate::validation::{gas_amount_acceptable, is_valid_relay_response, relay_response_valid, sat_sub, MIN_BLOCK_GAS_LIMIT};

verus! {

/// Reservations after storing each fetched configuration that is valid, in order.
pub open spec fn with_valid_fetched(
    table: Map<Seq<char>, ReservationRecord>,
    fetched: Seq<(String, Option<RelayGasConfig>)>,
    now: u64,
) -> Map<Seq<char>, ReservationRecord>
    decreases fetched.len(),
{
    if fetched.len() == 0 {
        table
    } else {
        let before = with_valid_fetched(table, fetched.drop_last(), now);
        match fetched.last().1 {
            Some(config) => if relay_response_valid(config) {
                before.insert(fetched.last().0@, record_of(config, now))
            } else {
                before
            },
            None => before,
        }
    }
}

/// A fetched entry carries a valid configuration.
pub open spec fn entry_valid(entry: (String, Option<RelayGasConfig>)) -> bool {
    match entry.1 {
        Some(c) => relay_response_valid(c),
        None => false,
    }
}

/// Some fetched configuration is valid.
pub open spec fn any_valid(fetched: Seq<(String, Option<RelayGasConfig>)>) -> bool {
    exists|i: int| 0 <= i < fetched.len() && #[trigger] entry_valid(fetched[i])
}

/// A relay's own minimum gas limit is kept only when it reaches the block
/// gas floor.
pub open spec fn update_accepted(config: RelayGasConfig) -> bool {
    match config.min_gas_limit {
        Some(min) => min >= MIN_BLOCK_GAS_LIMIT,
        None => true,
    }
}

/// Reserved-gas state: configuration, reservations, and the time of the
/// last successful fetch of relay configurations (milliseconds).
#[derive(Debug)]
pub struct ReservedGasState {
    pub config: ReservedGasConfig,
    pub reservations: ReservationTable,
    pub last_fetch: u64,
    pub pbs_config: PbsModuleConfig,
}

impl ReservedGasState {
    /// The service that applies this state's reservations to relay bids,
    /// reporting to `metrics`.
    pub fn create_service<M: crate::metrics_wrapper::MetricsRecorder>(self, metrics: M) -> (service: crate::service::ReservedGasService<M>)
        ensures
            service.state == self,
            service.metrics == metrics,
    {
        crate::service::ReservedGasService::with_dependencies(self, metrics)
    }

    /// Gas reserved for `relay_id`: its stored reservation, else what the
    /// configuration gives.
    pub open spec fn spec_reservation(&self, relay_id: Seq<char>) -> u64 {
        if self.reservations@.dom().contains(relay_id) {
            self.reservations@[relay_id].reserved_gas
        } else {
            self.config.spec_reserved_gas(relay_id)
        }
    }

    /// Builds the state at time `now`, storing the configured overrides.
    pub fn new_at(config: ReservedGasConfig, pbs_config: PbsModuleConfig, now: u64) -> (state: ReservedGasState)
        ensures
            state.config == config,
            state.pbs_config == pbs_config,
            state.last_fetch == now,
            state.reservations@ == with_overrides(Map::empty(), config.relay_overrides@, now),
            forall|k: Seq<char>| #[trigger] state.spec_reservation(k) == config.spec_reserved_gas(k),
    {
        let mut reservations = ReservationTable::new();
        let ghost start = reservations@;
        let mut i: usize = 0;
        while i < config.relay_overrides.len()
            invariant
                i <= config.relay_overrides@.len(),
                start == Map::<Seq<char>, ReservationRecord>::empty(),
                reservations@ == with_overrides(start, config.relay_overrides@.take(i as int), now),
            decreases config.relay_overrides@.len() - i,
        {
            let relay_id = config.relay_overrides[i].0.clone();
            let reserved_gas = config.relay_overrides[i].1;
            reservations.upsert(GasReservation { reserved_gas, last_updated: now, relay_id, min_gas_limit: None });
            proof {
                let next = config.relay_overrides@.take(i + 1);
                assert forall|k: Seq<char>| true implies
                    override_lookup(next, k) == if config.relay_overrides@[i as int].0@ == k {
                        Some(config.relay_overrides@[i as int].1)
                    } else {
                        override_lookup(config.relay_overrides@.take(i as int), k)
                    } by {
                    lemma_override_lookup_push(config.relay_overrides@, i as int, k);
                }
                assert(reservations@ =~= with_overrides(start, next, now));
            }
            i = i + 1;
        }
        proof {
            assert(config.relay_overrides@.take(i as int) =~= config.relay_overrides@);
        }
        ReservedGasState { config, reservations, last_fetch: now, pbs_config }
    }

    /// `new_at` at the current time.
    pub fn new(config: ReservedGasConfig, pbs_config: PbsModuleConfig) -> (state: ReservedGasState)
        ensures
            state.config == config,
            state.pbs_config == pbs_config,
            forall|k: Seq<char>| #[trigger] state.spec_reservation(k) == config.spec_reserved_gas(k),
            state.reservations@ == with_overrides(Map::empty(), config.relay_overrides@, state.last_fetch),
    {
        Self::new_at(config, pbs_config, clock_millis())
    }

    /// Gas reserved for `relay_id`.
    pub fn get_reservation(&self, relay_id: &str) -> (gas: u64)
        ensures
            gas == self.spec_reservation(relay_id@),
    {
        match self.reservations.get(relay_id) {
            Some(reservation) => reservation.reserved_gas,
            None => self.config.get_reserved_gas(relay_id),
        }
    }

    /// Stores a relay's gas configuration at time `now`, unless the relay
    /// states a minimum gas limit under `MIN_BLOCK_GAS_LIMIT`.
    pub fn update_reservation_at(&mut self, relay_id: String, config: RelayGasConfig, now: u64)
        ensures
            final(self).config == old(self).config,
            final(self).last_fetch == old(self).last_fetch,
            final(self).pbs_config == old(self).pbs_config,
            final(self).reservations@ == if update_accepted(config) {
                old(self).reservations@.insert(relay_id@, record_of(config, now))
            } else {
                old(self).reservations@
            },
    {
        match config.min_gas_limit {
            Some(min_gas) => {
                if min_gas < MIN_BLOCK_GAS_LIMIT {
                    return;
                }
            },
            None => {},
        }
        self.reservations.upsert(GasReservation {
            reserved_gas: config.reserved_gas_limit,
            last_updated: now,
            relay_id,
            min_gas_limit: config.min_gas_limit,
        });
    }

    /// `update_reservation_at` at the current time.
    pub fn update_reservation(&mut self, relay_id: String, config: RelayGasConfig)
        ensures
            final(self).config == old(self).config,
            final(self).last_fetch == old(self).last_fetch,
            update_accepted(config) ==> final(self).spec_reservation(relay_id@) == config.reserved_gas_limit,
            !update_accepted(config) ==> final(self).reservations@ == old(self).reservations@,
            forall|other: Seq<char>| other != relay_id@ ==> #[trigger] final(self).spec_reservation(other) == old(self).spec_reservation(other),
            exists|now: u64| final(self).reservations@ == if update_accepted(config) {
                old(self).reservations@.insert(relay_id@, #[trigger] record_of(config, now))
            } else {
                old(self).reservations@
            },
    {
        let now = clock_millis();
        let ghost id = relay_id@;
        self.update_reservation_at(relay_id, config, now);
        assert(self.reservations@ == if update_accepted(config) {
            old(self).reservations@.insert(id, record_of(config, now))
        } else {
            old(self).reservations@
        });
    }

    /// Records that relay configurations were fetched at time `now`.
    pub fn mark_fetch_completed_at(&mut self, now: u64)
        ensures
            final(self).last_fetch == now,
            final(self).config == old(self).config,
            final(self).reservations@ == old(self).reservations@,
            final(self).pbs_config == old(self).pbs_config,
    {
        self.last_fetch = now;
    }

    /// Records that relay configurations were fetched just now.
    pub fn mark_fetch_completed(&mut self)
        ensures
            final(self).config == old(self).config,
            final(self).reservations@ == old(self).reservations@,
            final(self).pbs_config == old(self).pbs_config,
    {
        let now = clock_millis();
        self.mark_fetch_completed_at(now);
    }

    /// Applies the reservation of `relay_id` to `original_gas_limit`; a
    /// gas limit left under the configured minimum is refused as a
    /// configuration error carrying the reason.
    pub fn apply_reservation(&self, relay_id: &str, original_gas_limit: u64) -> (result: Result<GasReservationOutcome, ReservedGasError>)
        ensures
            ({
                let reserved = self.spec_reservation(relay_id@);
                let left = sat_sub(original_gas_limit, reserved);
                &&& left >= self.config.min_block_gas_limit ==> (result matches Ok(outcome)
                    && outcome.new_gas_limit == left
                    && outcome.reserved_amount == reserved
                    && outcome.relay_id@ == relay_id@)
                &&& left < self.config.min_block_gas_limit ==> (result matches Err(ReservedGasError::ConfigError(reason))
                    && reason@ == (ReservedGasError::GasLimitTooLow {
                        actual: left,
                        minimum: self.config.min_block_gas_limit,
                        reserved,
                    }).spec_message())
            }),
    {
        let reserved = self.get_reservation(relay_id);
        match self.config.validate_gas_limit(original_gas_limit, reserved) {
            Ok(new_limit) => Ok(GasReservationOutcome {
                relay_id: relay_id.to_owned(),
                new_gas_limit: new_limit,
                reserved_amount: reserved,
            }),
            Err(e) => Err(ReservedGasError::ConfigError(e.message())),
        }
    }

    /// Milliseconds since the last fetch when that is more than twice the
    /// update interval, at time `now`; a fetch stamped later than `now`
    /// counts as just done.
    pub open spec fn staleness_at(&self, now: u64) -> Option<u64> {
        let elapsed = sat_sub(now, self.last_fetch);
        if (elapsed / 1000) as int > 2 * self.config.update_interval_secs { Some(elapsed) } else { None }
    }

    /// `staleness_at` computed.
    pub fn check_config_staleness_at(&self, now: u64) -> (stale_for: Option<u64>)
        ensures
            stale_for == self.staleness_at(now),
    {
        let elapsed = now.saturating_sub(self.last_fetch);
        let secs = elapsed / 1000;
        let interval = self.config.update_interval_secs;
        if interval <= u64::MAX / 2 && secs > interval * 2 {
            Some(elapsed)
        } else {
            None
        }
    }

    /// `check_config_staleness_at` at the current time.
    pub fn check_config_staleness(&self) -> (stale_for: Option<u64>)
        ensures
            exists|now: u64| stale_for == #[trigger] self.staleness_at(now),
    {
        let now = clock_millis();
        let stale_for = self.check_config_staleness_at(now);
        assert(stale_for == self.staleness_at(now));
        stale_for
    }

    /// Whether relay configurations are due again at time `now`: fetching
    /// is enabled and at least one update interval has passed.
    pub open spec fn fetch_due_at(&self, now: u64) -> bool {
        self.config.fetch_from_relays && sat_sub(now, self.last_fetch) / 1000 >= self.config.update_interval_secs
    }

    /// `fetch_due_at` computed.
    pub fn should_fetch_configs_at(&self, now: u64) -> (due: bool)
        ensures
            due == self.fetch_due_at(now),
            due == interval_elapsed(self.config.fetch_from_relays, self.last_fetch, self.config.update_interval_secs, now),
    {
        if !self.config.fetch_from_relays {
            return false;
        }
        let due = now.saturating_sub(self.last_fetch) / 1000 >= self.config.update_interval_secs;
        proof {
            law_fetch_due_after_interval(*self, now);
        }
        due
    }

    /// `should_fetch_configs_at` at the current time.
    pub fn should_fetch_configs(&self) -> (due: bool)
        ensures
            exists|now: u64| due == #[trigger] self.fetch_due_at(now),
            exists|now: u64| due == #[trigger] interval_elapsed(
                self.config.fetch_from_relays,
                self.last_fetch,
                self.config.update_interval_secs,
                now,
            ),
            due ==> self.config.fetch_from_relays,
    {
        let now = clock_millis();
        let due = self.should_fetch_configs_at(now);
        assert(due == self.fetch_due_at(now));
        assert(due == interval_elapsed(self.config.fetch_from_relays, self.last_fetch, self.config.update_interval_secs, now));
        due
    }

    /// When relay configurations were last fetched.
    pub fn get_last_fetch_time(&self) -> (at: u64)
        ensures
            at == self.last_fetch,
    {
        self.last_fetch
    }

    /// Every stored reservation with its relay identifier.
    pub fn get_all_reservations(&self) -> (all: Vec<(String, GasReservation)>)
        ensures
            all@.len() == self.reservations@.dom().len(),
            forall|i: int| 0 <= i < all@.len() ==> {
                &&& self.reservations@.dom().contains(#[trigger] all@[i].0@)
                &&& all@[i].1@ == self.reservations@[all@[i].0@]
            },
            forall|i: int, j: int|
                0 <= i < all@.len() && 0 <= j < all@.len() && i != j ==> #[trigger] all@[i].0@ != #[trigger] all@[j].0@,
    {
        self.reservations.to_vec()
    }

    /// Stores the relay configurations fetched at time `now`: each valid
    /// one in order, ignoring invalid and missing ones. The fetch time
    /// moves to `now` only when at least one was valid.
    pub fn record_fetched_configs_at(&mut self, fetched: Vec<(String, Option<RelayGasConfig>)>, now: u64)
        ensures
            final(self).config == old(self).config,
            final(self).reservations@ == with_valid_fetched(old(self).reservations@, fetched@, now),
            final(self).last_fetch == if any_valid(fetched@) { now } else { old(self).last_fetch },
    {
        let ghost start = self.reservations@;
        let mut any_success = false;
        let mut i: usize = 0;
        while i < fetched.len()
            invariant
                i <= fetched@.len(),
                self.config == old(self).config,
                self.last_fetch == old(self).last_fetch,
                self.reservations@ == with_valid_fetched(start, fetched@.take(i as int), now),
                any_success == any_valid(fetched@.take(i as int)),
            decreases fetched@.len() - i,
        {
            proof {
                assert(fetched@.take(i + 1).drop_last() =~= fetched@.take(i as int));
                assert(fetched@.take(i + 1).last() == fetched@[i as int]);
            }
            match fetched[i].1 {
                Some(config) => {
                    if is_valid_relay_response(&config, fetched[i].0.as_str()) {
                        let relay_id = fetched[i].0.clone();
                        self.update_reservation_at(relay_id, config, now);
                        any_success = true;
                        proof {
                            let t = fetched@.take(i + 1);
                            assert(entry_valid(t[i as int]));
                        }
                    } else {
                        proof { lemma_any_valid_step(fetched@, i as int); }
                    }
                },
                None => {
                    proof { lemma_any_valid_step(fetched@, i as int); }
                },
            }
            i = i + 1;
        }
        proof {
            assert(fetched@.take(i as int) =~= fetched@);
        }
        if any_success {
            self.last_fetch = now;
        }
    }
}

/// Adding an entry that is not a valid configuration leaves `any_valid` as it was.
proof fn lemma_any_valid_step(fetched: Seq<(String, Option<RelayGasConfig>)>, i: int)
    requires
        0 <= i < fetched.len(),
        !entry_valid(fetched[i]),
    ensures
        any_valid(fetched.take(i + 1)) == any_valid(fetched.take(i)),
{
    let a = fetched.take(i + 1);
    let b = fetched.take(i);
    if any_valid(a) {
        let w = choose|w: int| 0 <= w < a.len() && #[trigger] entry_valid(a[w]);
        assert(w != i);
        assert(b[w] == a[w]);
    }
    if any_valid(b) {
        let w = choose|w: int| 0 <= w < b.len() && #[trigger] entry_valid(b[w]);
        assert(a[w] == b[w]);
    }
}

/// Every stored reservation is an acceptable amount.
pub open spec fn all_acceptable(table: Map<Seq<char>, ReservationRecord>) -> bool {
    forall|k: Seq<char>| #[trigger] table.dom().contains(k) ==> gas_amount_acceptable(table[k].reserved_gas)
}

/// The override an identifier gets is one of the listed amounts.
proof fn lemma_override_is_listed(overrides: Seq<(String, u64)>, relay_id: Seq<char>)
    requires
        forall|i: int| 0 <= i < overrides.len() ==> gas_amount_acceptable(#[trigger] overrides[i].1),
    ensures
        override_lookup(overrides, relay_id) matches Some(gas) ==> gas_amount_acceptable(gas),
    decreases overrides.len(),
{
    if overrides.len() > 0 {
        let rest = overrides.drop_last();
        assert forall|i: int| 0 <= i < rest.len() implies gas_amount_acceptable(#[trigger] rest[i].1) by {
            assert(rest[i] == overrides[i]);
        }
        lemma_override_is_listed(rest, relay_id);
        assert(gas_amount_acceptable(overrides[overrides.len() - 1].1));
    }
}

/// Reservations stay acceptable amounts: a state built from acceptable
/// overrides holds only acceptable reservations, and storing a relay
/// configuration with an acceptable amount keeps it so.
pub proof fn law_reservations_stay_acceptable(
    overrides: Seq<(String, u64)>,
    table: Map<Seq<char>, ReservationRecord>,
    relay_id: Seq<char>,
    config: RelayGasConfig,
    now: u64,
)
    requires
        forall|i: int| 0 <= i < overrides.len() ==> gas_amount_acceptable(#[trigger] overrides[i].1),
        all_acceptable(table),
        gas_amount_acceptable(config.reserved_gas_limit),
    ensures
        all_acceptable(with_overrides(Map::empty(), overrides, now)),
        all_acceptable(if update_accepted(config) { table.insert(relay_id, record_of(config, now)) } else { table }),
{
    assert forall|k: Seq<char>| #[trigger] with_overrides(Map::empty(), overrides, now).dom().contains(k) implies
        gas_amount_acceptable(with_overrides(Map::empty(), overrides, now)[k].reserved_gas) by {
        lemma_override_is_listed(overrides, k);
    }
}

/// Decides when relay configurations are fetched again.
pub trait ConfigFetchManager {
    /// Whether a fetch is due now.
    fn should_fetch_configs(&self) -> bool;

    /// When configurations were last fetched (ms).
    fn get_last_fetch_time(&self) -> u64;
}

impl ConfigFetchManager for ReservedGasState {
    fn should_fetch_configs(&self) -> (due: bool)
        ensures
            exists|now: u64| due == #[trigger] self.fetch_due_at(now),
            due ==> self.config.fetch_from_relays,
    {
        ReservedGasState::should_fetch_configs(self)
    }

    fn get_last_fetch_time(&self) -> (at: u64)
        ensures
            at == self.last_fetch,
    {
        self.last_fetch
    }
}

/// Fetching is enabled and, counted from `last_fetch` to `now` (both in
/// milliseconds), at least `interval_secs` seconds have passed; a `now`
/// before the last fetch counts as no time passed.
pub open spec fn interval_elapsed(enabled: bool, last_fetch: u64, interval_secs: u64, now: u64) -> bool {
    &&& enabled
    &&& now >= last_fetch ==> now - last_fetch >= 1000 * interval_secs
    &&& now < last_fetch ==> interval_secs == 0
}

/// Relay configurations are due again exactly when fetching is enabled and
/// a whole update interval has passed since the last fetch: one
/// millisecond short of the interval they are not due, at the interval
/// and after it they are.
pub proof fn law_fetch_due_after_interval(state: ReservedGasState, now: u64)
    ensures
        state.fetch_due_at(now) == interval_elapsed(
            state.config.fetch_from_relays,
            state.last_fetch,
            state.config.update_interval_secs,
            now,
        ),
{
    let k = state.config.update_interval_secs;
    if now >= state.last_fetch {
        let d = (now - state.last_fetch) as int;
        assert(sat_sub(now, state.last_fetch) == d);
        assert((d / 1000 >= k) == (d >= 1000 * k)) by (nonlinear_arith)
            requires d >= 0, k >= 0;
    } else {
        assert(sat_sub(now, state.last_fetch) == 0);
    }
}

} // verus!
