//! Gas reservation manager: the configuration life cycle
//! (uninitialized, local only, synced, stale) and per-relay reservations.

use vstd::prelude::*;
use crate::config::{
    law_override_lookup_listed, lemma_override_lookup_push, override_lookup, overrides_distinct, RelayGasConfig, ReservedGasConfig,
};
use crate::error::ReservedGasError;
use crate::infrastructure::clock::clock_millis;
use crate::reservations::{GasReservation, ReservationRecord, ReservationTable};
use crate::types::{ConfigUpdateEvent, GasReservationOutcome, PbsModuleConfig};
use crate::validation::{gas_amount_acceptable, sat_sub, MAX_REASONABLE_GAS};

verus! {

/// The stages of the gas reservation configuration. Times are milliseconds.
#[derive(Debug)]
pub enum GasReservationState {
    /// No configuration loaded.
    Uninitialized,
    /// Only the local configuration is loaded.
    LocalOnly { config: ReservedGasConfig, configured_at: u64 },
    /// The configuration was synced with the relays.
    Synced { config: ReservedGasConfig, synced_at: u64, next_sync: u64 },
    /// The last sync is older than the update interval.
    Stale { config: ReservedGasConfig, last_sync: u64 },
}

impl GasReservationState {
    /// The configuration every stage but the first carries.
    pub open spec fn spec_config(&self) -> Option<ReservedGasConfig> {
        match self {
            GasReservationState::Uninitialized => None,
            GasReservationState::LocalOnly { config, .. } => Some(*config),
            GasReservationState::Synced { config, .. } => Some(*config),
            GasReservationState::Stale { config, .. } => Some(*config),
        }
    }

    /// Same stage, same times and the same settings.
    pub open spec fn same_as(&self, other: &GasReservationState) -> bool {
        match (self, other) {
            (GasReservationState::Uninitialized, GasReservationState::Uninitialized) => true,
            (
                GasReservationState::LocalOnly { config: a, configured_at: t },
                GasReservationState::LocalOnly { config: b, configured_at: u },
            ) => a.same_settings(b) && t == u,
            (
                GasReservationState::Synced { config: a, synced_at: t, next_sync: n },
                GasReservationState::Synced { config: b, synced_at: u, next_sync: m },
            ) => a.same_settings(b) && t == u && n == m,
            (
                GasReservationState::Stale { config: a, last_sync: t },
                GasReservationState::Stale { config: b, last_sync: u },
            ) => a.same_settings(b) && t == u,
            _ => false,
        }
    }

    /// A copy of this state.
    pub fn duplicate(&self) -> (copy: GasReservationState)
        ensures
            copy.same_as(self),
    {
        match self {
            GasReservationState::Uninitialized => GasReservationState::Uninitialized,
            GasReservationState::LocalOnly { config, configured_at } =>
                GasReservationState::LocalOnly { config: config.duplicate(), configured_at: *configured_at },
            GasReservationState::Synced { config, synced_at, next_sync } =>
                GasReservationState::Synced { config: config.duplicate(), synced_at: *synced_at, next_sync: *next_sync },
            GasReservationState::Stale { config, last_sync } =>
                GasReservationState::Stale { config: config.duplicate(), last_sync: *last_sync },
        }
    }
}

/// The reservations after storing `gas` for each override of `overrides`,
/// last occurrence first, stamped `now`.
pub open spec fn with_overrides(
    table: Map<Seq<char>, ReservationRecord>,
    overrides: Seq<(String, u64)>,
    now: u64,
) -> Map<Seq<char>, ReservationRecord> {
    Map::new(
        |k: Seq<char>| table.dom().contains(k) || override_lookup(overrides, k) is Some,
        |k: Seq<char>| match override_lookup(overrides, k) {
            Some(gas) => ReservationRecord { reserved_gas: gas, last_updated: now, min_gas_limit: None },
            None => table[k],
        },
    )
}

/// The record a relay gas configuration is stored as.
pub open spec fn record_of(config: RelayGasConfig, now: u64) -> ReservationRecord {
    ReservationRecord { reserved_gas: config.reserved_gas_limit, last_updated: now, min_gas_limit: config.min_gas_limit }
}

/// The reservations after storing each fetched configuration in order.
pub open spec fn with_fetched(
    table: Map<Seq<char>, ReservationRecord>,
    fetched: Seq<(String, RelayGasConfig)>,
    now: u64,
) -> Map<Seq<char>, ReservationRecord>
    decreases fetched.len(),
{
    if fetched.len() == 0 {
        table
    } else {
        with_fetched(table, fetched.drop_last(), now).insert(fetched.last().0@, record_of(fetched.last().1, now))
    }
}

/// Sums `a + b`, stopping at `u64::MAX`.
pub open spec fn sat_add(a: u64, b: u64) -> u64 {
    if a + b <= u64::MAX { (a + b) as u64 } else { u64::MAX }
}

/// The reservations after storing again each reservation of `previous`,
/// in order, stamped `now`; amounts that are not acceptable are skipped.
pub open spec fn with_carried(
    table: Map<Seq<char>, ReservationRecord>,
    previous: Seq<(String, GasReservation)>,
    now: u64,
) -> Map<Seq<char>, ReservationRecord>
    decreases previous.len(),
{
    if previous.len() == 0 {
        table
    } else {
        let before = with_carried(table, previous.drop_last(), now);
        let (relay_id, reservation) = previous.last();
        if gas_amount_acceptable(reservation.reserved_gas) {
            before.insert(relay_id@, ReservationRecord {
                reserved_gas: reservation.reserved_gas,
                last_updated: now,
                min_gas_limit: reservation.min_gas_limit,
            })
        } else {
            before
        }
    }
}

/// An update interval in milliseconds, stopping at `u64::MAX`.
pub open spec fn interval_millis(secs: u64) -> u64 {
    if secs * 1000 <= u64::MAX { (secs * 1000) as u64 } else { u64::MAX }
}

/// Storing at `now` a relay's gas configuration in the manager `before`,
/// which becomes `after`: refused before configuration; otherwise an
/// acceptable reservation is stored and the event reports the reservation
/// in force before and after.
pub open spec fn update_step(
    before: GasReservationManager,
    after: GasReservationManager,
    relay_id: Seq<char>,
    gas_config: RelayGasConfig,
    now: u64,
    result: Result<ConfigUpdateEvent, ReservedGasError>,
) -> bool {
    &&& before.spec_state() is Uninitialized <==> (result matches Err(ReservedGasError::ConfigError(_)))
    &&& before.spec_state() is Uninitialized <==> result is Err
    &&& result matches Err(ReservedGasError::ConfigError(m)) ==> m@ == "Cannot update relay configuration: not configured"@
    &&& after.spec_state() == before.spec_state()
    &&& result is Err ==> after.spec_reservations() == before.spec_reservations()
    &&& result matches Ok(event) ==> {
        &&& event.relay_id@ == relay_id
        &&& event.old_reservation == Some(before.spec_reservation(relay_id))
        &&& event.timestamp == now
        &&& if gas_amount_acceptable(gas_config.reserved_gas_limit) {
            &&& event.new_reservation == gas_config.reserved_gas_limit
            &&& after.spec_reservations() == before.spec_reservations().insert(relay_id, record_of(gas_config, now))
        } else {
            &&& event.new_reservation == before.spec_reservation(relay_id)
            &&& after.spec_reservations() == before.spec_reservations()
        }
    }
}

/// Checking at `now` whether the configuration of the manager `before` is
/// fresh, which leaves `after`: a synced configuration whose next sync
/// time has come turns stale; the reservations stay.
pub open spec fn freshness_step(
    before: GasReservationManager,
    after: GasReservationManager,
    now: u64,
    result: Result<bool, ReservedGasError>,
) -> bool {
    &&& before.spec_state() is Uninitialized <==> (result matches Err(ReservedGasError::ConfigError(_)))
    &&& after.spec_reservations() == before.spec_reservations()
    &&& after.spec_state().spec_config() == before.spec_state().spec_config()
    &&& match before.spec_state() {
        GasReservationState::Uninitialized => after.spec_state() == before.spec_state(),
        GasReservationState::LocalOnly { .. } => result == Ok::<bool, ReservedGasError>(true)
            && after.spec_state() == before.spec_state(),
        GasReservationState::Stale { .. } => result == Ok::<bool, ReservedGasError>(false)
            && after.spec_state() == before.spec_state(),
        GasReservationState::Synced { synced_at, next_sync, .. } => if now >= next_sync {
            &&& result == Ok::<bool, ReservedGasError>(false)
            &&& after.spec_state() matches GasReservationState::Stale { last_sync, .. } && last_sync == synced_at
        } else {
            &&& result == Ok::<bool, ReservedGasError>(true)
            &&& after.spec_state() == before.spec_state()
        },
    }
}

/// Gas reservation manager.
#[derive(Debug)]
pub struct GasReservationManager {
    state: GasReservationState,
    reservations: ReservationTable,
    pbs_config: Option<PbsModuleConfig>,
}

impl GasReservationManager {
    /// The current stage.
    pub closed spec fn spec_state(&self) -> GasReservationState {
        self.state
    }

    /// The stored per-relay reservations.
    pub closed spec fn spec_reservations(&self) -> Map<Seq<char>, ReservationRecord> {
        self.reservations@
    }

    /// The stored reserved amounts, in the table's order.
    pub closed spec fn spec_reserved_amounts(&self) -> Seq<u64> {
        self.reservations.amounts()
    }

    /// Gas reserved for `relay_id`: nothing before configuration, then its
    /// stored reservation, else the configured default.
    pub open spec fn spec_reservation(&self, relay_id: Seq<char>) -> u64 {
        match self.spec_state().spec_config() {
            None => 0,
            Some(config) => if self.spec_reservations().dom().contains(relay_id) {
                self.spec_reservations()[relay_id].reserved_gas
            } else {
                config.default_reserved_gas
            },
        }
    }

    /// A manager with no configuration and no reservations.
    pub fn new() -> (manager: GasReservationManager)
        ensures
            manager.spec_state() is Uninitialized,
            manager.spec_reservations() == Map::<Seq<char>, ReservationRecord>::empty(),
    {
        GasReservationManager {
            state: GasReservationState::Uninitialized,
            reservations: ReservationTable::new(),
            pbs_config: None,
        }
    }

    /// Whether a configuration is loaded.
    pub fn is_configured(&self) -> (configured: bool)
        ensures
            configured == !(self.spec_state() is Uninitialized),
    {
        match &self.state {
            GasReservationState::Uninitialized => false,
            _ => true,
        }
    }

    /// A copy of the current stage.
    pub fn get_state(&self) -> (state: GasReservationState)
        ensures
            state.same_as(&self.spec_state()),
    {
        self.state.duplicate()
    }

    /// Loads the local configuration at time `now`: the overrides become
    /// reservations and the stage becomes `LocalOnly`. Refused once configured.
    pub fn configure_at(&mut self, config: ReservedGasConfig, pbs_config: PbsModuleConfig, now: u64) -> (result: Result<(), ReservedGasError>)
        ensures
            old(self).spec_state() is Uninitialized <==> result is Ok,
            result is Err ==> (result matches Err(ReservedGasError::ConfigError(m)) && m@ == "Cannot configure: already initialized"@),
            result is Err ==> final(self).spec_state() == old(self).spec_state()
                && final(self).spec_reservations() == old(self).spec_reservations(),
            result is Ok ==> final(self).spec_state() == (GasReservationState::LocalOnly { config, configured_at: now })
                && final(self).spec_reservations() == with_overrides(old(self).spec_reservations(), config.relay_overrides@, now),
    {
        match &self.state {
            GasReservationState::Uninitialized => {},
            _ => {
                return Err(ReservedGasError::ConfigError(String::from_str("Cannot configure: already initialized")));
            },
        }
        let ghost start = self.reservations@;
        let mut i: usize = 0;
        while i < config.relay_overrides.len()
            invariant
                i <= config.relay_overrides@.len(),
                self.state is Uninitialized,
                self.reservations@ == with_overrides(start, config.relay_overrides@.take(i as int), now),
            decreases config.relay_overrides@.len() - i,
        {
            let relay_id = config.relay_overrides[i].0.clone();
            let reserved_gas = config.relay_overrides[i].1;
            self.reservations.upsert(GasReservation { reserved_gas, last_updated: now, relay_id, min_gas_limit: None });
            proof {
                let next = config.relay_overrides@.take(i + 1);
                assert forall|k: Seq<char>| true implies
                    override_lookup(next, k) == if config.relay_overrides@[i as int].0@ == k {
                        Some(config.relay_overrides@[i as int].1)
                    } else {
                        override_lookup(config.relay_overrides@.take(i as int), k)
                    } by {
                    lemma_override_lookup_push(config.relay_overrides@, i as int, k);
                }
                assert(self.reservations@ =~= with_overrides(start, next, now));
            }
            i = i + 1;
        }
        proof {
            assert(config.relay_overrides@.take(i as int) =~= config.relay_overrides@);
        }
        self.pbs_config = Some(pbs_config);
        self.state = GasReservationState::LocalOnly { config, configured_at: now };
        Ok(())
    }

    /// `configure_at` at the current time.
    pub fn configure(&mut self, config: ReservedGasConfig, pbs_config: PbsModuleConfig) -> (result: Result<(), ReservedGasError>)
        ensures
            old(self).spec_state() is Uninitialized <==> result is Ok,
            result is Err ==> (result matches Err(ReservedGasError::ConfigError(m)) && m@ == "Cannot configure: already initialized"@),
            result is Err ==> final(self).spec_state() == old(self).spec_state()
                && final(self).spec_reservations() == old(self).spec_reservations(),
            result is Ok ==> final(self).spec_state() is LocalOnly,
            result is Ok ==> final(self).spec_state().spec_config() == Some(config),
            result is Ok ==> final(self).spec_reservations() == with_overrides(
                old(self).spec_reservations(),
                config.relay_overrides@,
                final(self).spec_state()->configured_at,
            ),
    {
        let now = clock_millis();
        self.configure_at(config, pbs_config, now)
    }

    /// Gas reserved for `relay_id`: zero before configuration, then its
    /// stored reservation, else the configured default.
    pub fn get_reservation(&self, relay_id: &str) -> (gas: u64)
        ensures
            gas == self.spec_reservation(relay_id@),
    {
        let config = match &self.state {
            GasReservationState::Uninitialized => return 0,
            GasReservationState::LocalOnly { config, .. } => config,
            GasReservationState::Synced { config, .. } => config,
            GasReservationState::Stale { config, .. } => config,
        };
        match self.reservations.get(relay_id) {
            Some(reservation) => reservation.reserved_gas,
            None => config.default_reserved_gas,
        }
    }

    /// Applies the reservation of `relay_id` to `original_gas_limit`: the
    /// gas limit left must reach the configured minimum block gas limit.
    pub fn apply_reservation(&self, relay_id: &str, original_gas_limit: u64) -> (result: Result<GasReservationOutcome, ReservedGasError>)
        ensures
            self.spec_state() is Uninitialized <==> (result matches Err(ReservedGasError::ConfigError(_))),
            self.spec_state().spec_config() matches Some(config) ==> {
                let reserved = self.spec_reservation(relay_id@);
                let left = sat_sub(original_gas_limit, reserved);
                &&& left >= config.min_block_gas_limit ==> (result matches Ok(outcome)
                    && outcome.new_gas_limit == left
                    && outcome.reserved_amount == reserved
                    && outcome.relay_id@ == relay_id@)
                &&& left < config.min_block_gas_limit ==> result == Err::<GasReservationOutcome, ReservedGasError>(
                    ReservedGasError::GasLimitTooLow { actual: left, minimum: config.min_block_gas_limit, reserved })
            },
    {
        let config = match &self.state {
            GasReservationState::Uninitialized => {
                return Err(ReservedGasError::ConfigError(String::from_str("Cannot apply reservation: not configured")));
            },
            GasReservationState::LocalOnly { config, .. } => config,
            GasReservationState::Synced { config, .. } => config,
            GasReservationState::Stale { config, .. } => config,
        };
        let reserved_amount = match self.reservations.get(relay_id) {
            Some(reservation) => reservation.reserved_gas,
            None => config.default_reserved_gas,
        };
        match config.validate_gas_limit(original_gas_limit, reserved_amount) {
            Ok(new_gas_limit) => Ok(GasReservationOutcome { new_gas_limit, reserved_amount, relay_id: relay_id.to_owned() }),
            Err(e) => Err(e),
        }
    }

    /// Stores a relay's gas configuration at time `now`. A reservation of
    /// zero or above `MAX_REASONABLE_GAS` changes nothing; the event then
    /// reports the reservation in force as both old and new.
    pub fn update_relay_configuration_at(&mut self, relay_id: String, gas_config: RelayGasConfig, now: u64) -> (result: Result<ConfigUpdateEvent, ReservedGasError>)
        ensures
            update_step(*old(self), *final(self), relay_id@, gas_config, now, result),
            !(old(self).spec_state() is Uninitialized) ==> final(self).spec_reservation(relay_id@) == if gas_amount_acceptable(gas_config.reserved_gas_limit) {
                gas_config.reserved_gas_limit
            } else {
                old(self).spec_reservation(relay_id@)
            },
            forall|other: Seq<char>| other != relay_id@ ==> #[trigger] final(self).spec_reservation(other) == old(self).spec_reservation(other),
    {
        let current = match &self.state {
            GasReservationState::Uninitialized => {
                return Err(ReservedGasError::ConfigError(String::from_str("Cannot update relay configuration: not configured")));
            },
            GasReservationState::LocalOnly { config, .. } => config.default_reserved_gas,
            GasReservationState::Synced { config, .. } => config.default_reserved_gas,
            GasReservationState::Stale { config, .. } => config.default_reserved_gas,
        };
        let old_reservation = match self.reservations.get(relay_id.as_str()) {
            Some(reservation) => reservation.reserved_gas,
            None => current,
        };
        if gas_config.reserved_gas_limit == 0 || gas_config.reserved_gas_limit > MAX_REASONABLE_GAS {
            return Ok(ConfigUpdateEvent { relay_id, old_reservation: Some(old_reservation), new_reservation: old_reservation, timestamp: now });
        }
        let new_reservation = gas_config.reserved_gas_limit;
        let key = relay_id.clone();
        self.reservations.upsert(GasReservation {
            reserved_gas: new_reservation,
            last_updated: now,
            relay_id: key,
            min_gas_limit: gas_config.min_gas_limit,
        });
        Ok(ConfigUpdateEvent { relay_id, old_reservation: Some(old_reservation), new_reservation, timestamp: now })
    }

    /// `update_relay_configuration_at` at the current time.
    pub fn update_relay_configuration(&mut self, relay_id: String, gas_config: RelayGasConfig) -> (result: Result<ConfigUpdateEvent, ReservedGasError>)
        ensures
            old(self).spec_state() is Uninitialized <==> result is Err,
            final(self).spec_state() == old(self).spec_state(),
            result matches Ok(event) ==> event.relay_id@ == relay_id@
                && event.old_reservation == Some(old(self).spec_reservation(relay_id@))
                && event.new_reservation == final(self).spec_reservation(relay_id@),
            !(old(self).spec_state() is Uninitialized) ==> final(self).spec_reservation(relay_id@) == if gas_amount_acceptable(gas_config.reserved_gas_limit) {
                gas_config.reserved_gas_limit
            } else {
                old(self).spec_reservation(relay_id@)
            },
            forall|other: Seq<char>| other != relay_id@ ==> #[trigger] final(self).spec_reservation(other) == old(self).spec_reservation(other),
            exists|now: u64| #[trigger] update_step(*old(self), *final(self), relay_id@, gas_config, now, result),
    {
        let now = clock_millis();
        let ghost id = relay_id@;
        let result = self.update_relay_configuration_at(relay_id, gas_config, now);
        assert(update_step(*old(self), *self, id, gas_config, now, result));
        result
    }

    /// Every stored reservation with its relay identifier.
    pub fn get_all_reservations(&self) -> (all: Vec<(String, GasReservation)>)
        ensures
            all@.len() == self.spec_reservations().dom().len(),
            forall|i: int| 0 <= i < all@.len() ==> {
                &&& self.spec_reservations().dom().contains(#[trigger] all@[i].0@)
                &&& all@[i].1@ == self.spec_reservations()[all@[i].0@]
                &&& all@[i].1.relay_id@ == all@[i].0@
            },
            forall|i: int, j: int|
                0 <= i < all@.len() && 0 <= j < all@.len() && i != j ==> #[trigger] all@[i].0@ != #[trigger] all@[j].0@,
            forall|k: Seq<char>| #[trigger] self.spec_reservations().dom().contains(k) ==> exists|i: int| 0 <= i < all@.len() && #[trigger] all@[i].0@ == k,
            all@.map_values(|r: (String, GasReservation)| r.1.reserved_gas) == self.spec_reserved_amounts(),
    {
        self.reservations.to_vec()
    }

    /// Whether the configuration asks for syncing with the relays; refused
    /// before configuration.
    pub fn sync_required(&self) -> (result: Result<bool, ReservedGasError>)
        ensures
            self.spec_state() is Uninitialized <==> (result matches Err(ReservedGasError::ConfigError(_))),
            self.spec_state().spec_config() matches Some(config) ==> result == Ok::<bool, ReservedGasError>(config.fetch_from_relays),
    {
        match &self.state {
            GasReservationState::Uninitialized => Err(ReservedGasError::ConfigError(String::from_str("Cannot sync: not configured"))),
            GasReservationState::LocalOnly { config, .. } => Ok(config.fetch_from_relays),
            GasReservationState::Synced { config, .. } => Ok(config.fetch_from_relays),
            GasReservationState::Stale { config, .. } => Ok(config.fetch_from_relays),
        }
    }

    /// Whether the configuration is stale and should be synced again.
    pub fn refresh_required(&self) -> (stale: bool)
        ensures
            stale == self.spec_state() is Stale,
    {
        match &self.state {
            GasReservationState::Stale { .. } => true,
            _ => false,
        }
    }

    /// Records the gas configurations fetched from the relays at time `now`,
    /// in order, and marks the configuration synced until one update
    /// interval later. Refused before configuration.
    pub fn complete_sync_at(&mut self, fetched: Vec<(String, RelayGasConfig)>, now: u64) -> (result: Result<(), ReservedGasError>)
        ensures
            old(self).spec_state() is Uninitialized <==> (result matches Err(ReservedGasError::ConfigError(_))),
            old(self).spec_state() is Uninitialized <==> result is Err,
            result is Err ==> final(self).spec_state() == old(self).spec_state()
                && final(self).spec_reservations() == old(self).spec_reservations(),
            result is Ok ==> {
                &&& final(self).spec_state().spec_config() == old(self).spec_state().spec_config()
                &&& final(self).spec_state() matches GasReservationState::Synced { synced_at, next_sync, .. }
                    && synced_at == now
                    && next_sync == sat_add(now, interval_millis(old(self).spec_state().spec_config()->0.update_interval_secs))
                &&& final(self).spec_reservations() == with_fetched(old(self).spec_reservations(), fetched@, now)
            },
    {
        match &self.state {
            GasReservationState::Uninitialized => {
                return Err(ReservedGasError::ConfigError(String::from_str("Cannot sync: not configured")));
            },
            _ => {},
        }
        let ghost start = self.reservations@;
        let mut i: usize = 0;
        while i < fetched.len()
            invariant
                i <= fetched@.len(),
                self.state == old(self).state,
                self.reservations@ == with_fetched(start, fetched@.take(i as int), now),
            decreases fetched@.len() - i,
        {
            let relay_id = fetched[i].0.clone();
            let gas_config = fetched[i].1;
            self.reservations.upsert(GasReservation {
                reserved_gas: gas_config.reserved_gas_limit,
                last_updated: now,
                relay_id,
                min_gas_limit: gas_config.min_gas_limit,
            });
            proof {
                assert(fetched@.take(i + 1).drop_last() =~= fetched@.take(i as int));
            }
            i = i + 1;
        }
        proof {
            assert(fetched@.take(i as int) =~= fetched@);
        }
        let mut previous = GasReservationState::Uninitialized;
        std::mem::swap(&mut previous, &mut self.state);
        let config = match previous {
            GasReservationState::Uninitialized => {
                self.state = previous;
                return Err(ReservedGasError::ConfigError(String::from_str("Cannot sync: not configured")));
            },
            GasReservationState::LocalOnly { config, .. } => config,
            GasReservationState::Synced { config, .. } => config,
            GasReservationState::Stale { config, .. } => config,
        };
        let interval: u64 = if config.update_interval_secs <= u64::MAX / 1000 {
            config.update_interval_secs * 1000
        } else {
            u64::MAX
        };
        let next_sync = now.saturating_add(interval);
        self.state = GasReservationState::Synced { config, synced_at: now, next_sync };
        Ok(())
    }

    /// Syncs at time `now` with the configurations fetched from the relays
    /// when the configuration asks for it; refused before configuration,
    /// and nothing changes when fetching from relays is off.
    pub fn sync_if_enabled(&mut self, fetched: Vec<(String, RelayGasConfig)>, now: u64) -> (result: Result<(), ReservedGasError>)
        ensures
            old(self).spec_state() is Uninitialized <==> (result matches Err(ReservedGasError::ConfigError(_))),
            old(self).spec_state() is Uninitialized <==> result is Err,
            result is Err ==> final(self).spec_state() == old(self).spec_state()
                && final(self).spec_reservations() == old(self).spec_reservations(),
            (old(self).spec_state().spec_config() matches Some(c) && !c.fetch_from_relays) ==>
                final(self).spec_state() == old(self).spec_state() && final(self).spec_reservations() == old(self).spec_reservations(),
            (old(self).spec_state().spec_config() matches Some(c) && c.fetch_from_relays) ==> {
                &&& final(self).spec_state() matches GasReservationState::Synced { synced_at, .. } && synced_at == now
                &&& final(self).spec_state().spec_config() == old(self).spec_state().spec_config()
                &&& final(self).spec_reservations() == with_fetched(old(self).spec_reservations(), fetched@, now)
            },
    {
        match self.sync_required() {
            Err(e) => Err(e),
            Ok(false) => Ok(()),
            Ok(true) => self.complete_sync_at(fetched, now),
        }
    }

    /// Syncs a stale configuration at time `now` with the configurations
    /// fetched from the relays; any other stage is left as it is.
    pub fn refresh(&mut self, fetched: Vec<(String, RelayGasConfig)>, now: u64) -> (result: Result<(), ReservedGasError>)
        ensures
            result is Ok,
            !(old(self).spec_state() is Stale) ==> final(self).spec_state() == old(self).spec_state()
                && final(self).spec_reservations() == old(self).spec_reservations(),
            old(self).spec_state() is Stale ==> {
                &&& final(self).spec_state() matches GasReservationState::Synced { synced_at, .. } && synced_at == now
                &&& final(self).spec_reservations() == with_fetched(old(self).spec_reservations(), fetched@, now)
            },
    {
        if self.refresh_required() {
            self.complete_sync_at(fetched, now)
        } else {
            Ok(())
        }
    }

    /// Checks at time `now` whether the configuration is fresh. A synced
    /// configuration whose next sync time has come becomes stale.
    pub fn check_freshness_at(&mut self, now: u64) -> (result: Result<bool, ReservedGasError>)
        ensures
            freshness_step(*old(self), *final(self), now, result),
    {
        let due = match &self.state {
            GasReservationState::Uninitialized => {
                return Err(ReservedGasError::ConfigError(String::from_str("Cannot check freshness: not configured")));
            },
            GasReservationState::LocalOnly { .. } => return Ok(true),
            GasReservationState::Stale { .. } => return Ok(false),
            GasReservationState::Synced { next_sync, .. } => now >= *next_sync,
        };
        if !due {
            return Ok(true);
        }
        let mut previous = GasReservationState::Uninitialized;
        std::mem::swap(&mut previous, &mut self.state);
        match previous {
            GasReservationState::Synced { config, synced_at, .. } => {
                self.state = GasReservationState::Stale { config, last_sync: synced_at };
            },
            other => {
                self.state = other;
            },
        }
        Ok(false)
    }

    /// `check_freshness_at` at the current time.
    pub fn check_freshness(&mut self) -> (result: Result<bool, ReservedGasError>)
        ensures
            exists|now: u64| #[trigger] freshness_step(*old(self), *final(self), now, result),
    {
        let now = clock_millis();
        let result = self.check_freshness_at(now);
        assert(freshness_step(*old(self), *self, now, result));
        result
    }

    /// Stores again, at time `now`, each reservation of `previous` in order,
    /// as a relay configuration update; before configuration every update
    /// is refused and nothing changes.
    pub fn carry_over_at(&mut self, previous: &Vec<(String, GasReservation)>, now: u64)
        ensures
            final(self).spec_state() == old(self).spec_state(),
            old(self).spec_state() is Uninitialized ==> final(self).spec_reservations() == old(self).spec_reservations(),
            !(old(self).spec_state() is Uninitialized) ==>
                final(self).spec_reservations() == with_carried(old(self).spec_reservations(), previous@, now),
    {
        let ghost start = self.spec_reservations();
        let mut i: usize = 0;
        while i < previous.len()
            invariant
                i <= previous@.len(),
                self.spec_state() == old(self).spec_state(),
                start == old(self).spec_reservations(),
                old(self).spec_state() is Uninitialized ==> self.spec_reservations() == start,
                !(old(self).spec_state() is Uninitialized) ==>
                    self.spec_reservations() == with_carried(start, previous@.take(i as int), now),
            decreases previous@.len() - i,
        {
            let relay_id = previous[i].0.clone();
            let gas_config = RelayGasConfig {
                reserved_gas_limit: previous[i].1.reserved_gas,
                min_gas_limit: previous[i].1.min_gas_limit,
                update_interval: None,
            };
            let _ = self.update_relay_configuration_at(relay_id, gas_config, now);
            proof {
                assert(previous@.take(i + 1).drop_last() =~= previous@.take(i as int));
            }
            i = i + 1;
        }
        proof {
            assert(previous@.take(i as int) =~= previous@);
        }
    }
}

impl StateManagerReservedGasApi {
    /// A manager loaded afresh at time `now` from a new configuration: the
    /// local configuration, then the configurations fetched from the relays
    /// when the configuration asks for them, then the reservations of the
    /// manager it replaces, carried over.
    pub fn reload_at(
        config: ReservedGasConfig,
        pbs_config: PbsModuleConfig,
        fetched: Vec<(String, RelayGasConfig)>,
        previous: &Vec<(String, GasReservation)>,
        now: u64,
    ) -> (manager: GasReservationManager)
        ensures
            manager.spec_state().spec_config() == Some(config),
            config.fetch_from_relays ==> (manager.spec_state() matches GasReservationState::Synced { synced_at, .. } && synced_at == now),
            !config.fetch_from_relays ==> manager.spec_state() == (GasReservationState::LocalOnly { config, configured_at: now }),
            manager.spec_reservations() == with_carried(
                if config.fetch_from_relays {
                    with_fetched(with_overrides(Map::empty(), config.relay_overrides@, now), fetched@, now)
                } else {
                    with_overrides(Map::empty(), config.relay_overrides@, now)
                },
                previous@,
                now,
            ),
    {
        let mut manager = GasReservationManager::new();
        let fetch = config.fetch_from_relays;
        let _ = manager.configure_at(config, pbs_config, now);
        let _ = manager.sync_if_enabled(fetched, now);
        proof {
            assert(fetch ==> manager.spec_state() is Synced);
        }
        manager.carry_over_at(previous, now);
        manager
    }
}

/// Marker of the uninitialized stage.
#[derive(Debug, Clone, Copy)]
pub struct Uninitialized;

/// Marker of the local-only stage, with its configuration time (ms).
#[derive(Debug, Clone, Copy)]
pub struct LocalOnly {
    pub configured_at: u64,
}

/// Marker of the synced stage, with its sync times (ms).
#[derive(Debug, Clone, Copy)]
pub struct Synced {
    pub synced_at: u64,
    pub next_sync: u64,
}

/// Marker of the stale stage, with the last sync time (ms).
#[derive(Debug, Clone, Copy)]
pub struct Stale {
    pub last_sync: u64,
}

/// A reservation never raises a gas limit: the limit left after applying a
/// relay's reservation is at most the original limit, and where the
/// reservation fits, the limit left and the reservation add up to the
/// original limit.
pub proof fn law_reservation_never_raises_limit(manager: GasReservationManager, relay_id: Seq<char>, original: u64)
    ensures
        sat_sub(original, manager.spec_reservation(relay_id)) <= original,
        manager.spec_reservation(relay_id) <= original ==>
            sat_sub(original, manager.spec_reservation(relay_id)) + manager.spec_reservation(relay_id) == original,
{
}

/// The builder API that applies gas reservations through the manager.
#[derive(Debug, Clone, Copy)]
pub struct StateManagerReservedGasApi;

/// The earlier builder API kept for compatibility.
#[derive(Debug, Clone, Copy)]
pub struct TypestateReservedGasApi;

/// Configuring a new manager makes each listed override the reservation of
/// its relay and leaves every other relay at the configured default, when
/// the overrides name each relay once (as the table they are read from
/// does). `before` and `after` are the manager before and after a
/// successful `configure_at` at `now`.
pub proof fn law_configure_applies_overrides(
    before: GasReservationManager,
    after: GasReservationManager,
    config: ReservedGasConfig,
    now: u64,
)
    requires
        before.spec_state() is Uninitialized,
        before.spec_reservations() == Map::<Seq<char>, ReservationRecord>::empty(),
        after.spec_state() == (GasReservationState::LocalOnly { config, configured_at: now }),
        after.spec_reservations() == with_overrides(before.spec_reservations(), config.relay_overrides@, now),
        overrides_distinct(config.relay_overrides@),
    ensures
        forall|i: int| 0 <= i < config.relay_overrides@.len() ==>
            after.spec_reservation(#[trigger] config.relay_overrides@[i].0@) == config.relay_overrides@[i].1,
        forall|k: Seq<char>| #[trigger] override_lookup(config.relay_overrides@, k) is None ==>
            after.spec_reservation(k) == config.default_reserved_gas,
{
    assert forall|i: int| 0 <= i < config.relay_overrides@.len() implies
        after.spec_reservation(#[trigger] config.relay_overrides@[i].0@) == config.relay_overrides@[i].1 by {
        law_override_lookup_listed(config.relay_overrides@, i);
    }
}

} // verus!
