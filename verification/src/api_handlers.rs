//! What the gas reservation endpoints report: reservation statistics,
//! relay health by reserved gas, and relay reserve query summaries.

use vstd::prelude::*;
use crate::config::RelayGasConfig;
use crate::infrastructure::clock::clock_millis;
use crate::reservations::GasReservation;
use crate::state_manager::{record_of, GasReservationManager, GasReservationState};
use crate::text::{contains, contains_text, decimal, u64_to_decimal};
use crate::validation::{gas_amount_acceptable, sat_sub};

verus! {

/// Reserved gas up to which a relay counts as healthy: 10 million.
pub const RELAY_HEALTH_THRESHOLD_HEALTHY: u64 = 10_000_000;

/// Reserved gas up to which a relay counts as degraded: 20 million.
pub const RELAY_HEALTH_THRESHOLD_DEGRADED: u64 = 20_000_000;

/// Sum of `values`.
pub open spec fn total(values: Seq<u64>) -> int
    decreases values.len(),
{
    if values.len() == 0 { 0 } else { total(values.drop_last()) + values.last() }
}

/// Largest of `values`; zero for none.
pub open spec fn largest(values: Seq<u64>) -> u64
    decreases values.len(),
{
    if values.len() == 0 {
        0
    } else if values.len() == 1 || values.last() >= largest(values.drop_last()) {
        values.last()
    } else {
        largest(values.drop_last())
    }
}

/// Smallest of `values`; zero for none.
pub open spec fn smallest(values: Seq<u64>) -> u64
    decreases values.len(),
{
    if values.len() == 0 {
        0
    } else if values.len() == 1 || values.last() <= smallest(values.drop_last()) {
        values.last()
    } else {
        smallest(values.drop_last())
    }
}

/// How many of `values` satisfy `pred`.
pub open spec fn count_where(values: Seq<u64>, pred: spec_fn(u64) -> bool) -> nat
    decreases values.len(),
{
    if values.len() == 0 {
        0
    } else {
        count_where(values.drop_last(), pred) + if pred(values.last()) { 1nat } else { 0nat }
    }
}

/// Totals, mean and extremes of a list of amounts, with zeros for none.
#[derive(Debug, Clone, Copy, PartialEq, Eq, Structural)]
pub struct AmountStats {
    pub count: usize,
    pub total: u64,
    pub average: u64,
    pub max: u64,
    pub min: u64,
}

/// The bounds behind the statistics: the smallest and largest amounts
/// bracket every amount.
proof fn lemma_extremes(values: Seq<u64>)
    ensures
        forall|i: int| 0 <= i < values.len() ==> smallest(values) <= #[trigger] values[i] <= largest(values),
        values.len() > 0 ==> exists|i: int| 0 <= i < values.len() && values[i] == smallest(values),
        values.len() > 0 ==> exists|i: int| 0 <= i < values.len() && values[i] == largest(values),
        values.len() * smallest(values) <= total(values) <= values.len() * largest(values),
    decreases values.len(),
{
    if values.len() > 0 {
        let p = values.drop_last();
        lemma_extremes(p);
        assert forall|i: int| 0 <= i < values.len() implies smallest(values) <= #[trigger] values[i] <= largest(values) by {
            if i < p.len() {
                assert(values[i] == p[i]);
            }
        }
        if p.len() > 0 {
            let a = choose|i: int| 0 <= i < p.len() && p[i] == smallest(p);
            assert(values[a] == p[a]);
            let b = choose|i: int| 0 <= i < p.len() && p[i] == largest(p);
            assert(values[b] == p[b]);
        }
        assert(values[values.len() - 1] == values.last());
        let n = p.len();
        let lo = smallest(values);
        let hi = largest(values);
        assert(lo <= smallest(p) || p.len() == 0);
        assert(hi >= largest(p) || p.len() == 0);
        if p.len() > 0 {
            assert(n * lo <= n * smallest(p)) by (nonlinear_arith)
                requires lo <= smallest(p);
            assert(n * largest(p) <= n * hi) by (nonlinear_arith)
                requires largest(p) <= hi;
        }
        assert((n + 1) * lo == n * lo + lo) by (nonlinear_arith);
        assert((n + 1) * hi == n * hi + hi) by (nonlinear_arith);
    }
}

/// Count, total, integer mean, largest and smallest of `values`; all zero
/// when there are none. The total must fit in a `u64`.
pub fn amount_stats(values: &Vec<u64>) -> (stats: AmountStats)
    requires
        total(values@) <= u64::MAX,
    ensures
        stats.count == values@.len(),
        stats.total == total(values@),
        stats.average == if values@.len() == 0 { 0 } else { (total(values@) / values@.len() as int) as u64 },
        stats.max == largest(values@),
        stats.min == smallest(values@),
{
    let mut sum: u64 = 0;
    let mut max: u64 = 0;
    let mut min: u64 = 0;
    let mut i: usize = 0;
    while i < values.len()
        invariant
            i <= values@.len(),
            total(values@) <= u64::MAX,
            sum == total(values@.take(i as int)),
            max == largest(values@.take(i as int)),
            min == smallest(values@.take(i as int)),
        decreases values@.len() - i,
    {
        proof {
            assert(values@.take(i + 1).drop_last() =~= values@.take(i as int));
            lemma_total_prefix(values@, i + 1);
        }
        let v = values[i];
        sum = sum + v;
        if i == 0 || v >= max {
            max = v;
        }
        if i == 0 || v <= min {
            min = v;
        }
        i = i + 1;
    }
    proof {
        assert(values@.take(i as int) =~= values@);
    }
    let average = if values.len() == 0 { 0 } else { sum / (values.len() as u64) };
    AmountStats { count: values.len(), total: sum, average, max, min }
}

/// A prefix never sums to more than the whole list.
proof fn lemma_total_prefix(values: Seq<u64>, n: int)
    requires
        0 <= n <= values.len(),
    ensures
        total(values.take(n)) <= total(values),
    decreases values.len() - n,
{
    if n < values.len() {
        lemma_total_prefix(values, n + 1);
        assert(values.take(n + 1).drop_last() =~= values.take(n));
    } else {
        assert(values.take(n) =~= values);
    }
}

/// The mean of a non-empty list lies between its smallest and largest
/// amounts.
pub proof fn law_average_between_extremes(values: Seq<u64>)
    requires
        values.len() > 0,
    ensures
        smallest(values) <= total(values) / (values.len() as int) <= largest(values),
{
    lemma_extremes(values);
    let n = values.len() as int;
    let t = total(values);
    let lo = smallest(values) as int;
    let hi = largest(values) as int;
    assert(lo <= t / n) by (nonlinear_arith)
        requires n > 0, n * lo <= t;
    assert(t / n <= hi) by (nonlinear_arith)
        requires n > 0, t <= n * hi;
}

/// A single amount is its own mean, smallest and largest.
pub proof fn law_single_amount_statistics(values: Seq<u64>)
    requires
        values.len() == 1,
    ensures
        total(values) / (values.len() as int) == values[0],
        smallest(values) == values[0],
        largest(values) == values[0],
{
    assert(values.drop_last().len() == 0);
    assert(total(values.drop_last()) == 0);
    assert(values.last() == values[0]);
    assert(total(values) == values[0]);
}

/// Reserved amounts of a list of reservations.
pub open spec fn reserved_amounts(reservations: Seq<(String, GasReservation)>) -> Seq<u64> {
    reservations.map_values(|r: (String, GasReservation)| r.1.reserved_gas)
}

/// Healthy: at most the healthy threshold.
pub open spec fn is_healthy(gas: u64) -> bool {
    gas <= RELAY_HEALTH_THRESHOLD_HEALTHY
}

/// Degraded: above the healthy threshold, at most the degraded one.
pub open spec fn is_degraded(gas: u64) -> bool {
    RELAY_HEALTH_THRESHOLD_HEALTHY < gas <= RELAY_HEALTH_THRESHOLD_DEGRADED
}

/// Unhealthy: above the degraded threshold.
pub open spec fn is_unhealthy(gas: u64) -> bool {
    gas > RELAY_HEALTH_THRESHOLD_DEGRADED
}

/// Statistics of the stored reservations.
#[derive(Debug, Clone, Copy, PartialEq, Eq, Structural)]
pub struct ReservationStatistics {
    pub amounts: AmountStats,
    pub healthy: usize,
    pub degraded: usize,
    pub unhealthy: usize,
}

/// `stats` are the statistics of the reserved amounts `values`: count,
/// total, average rounded down (zero for none), largest and smallest, and
/// how many amounts are healthy, degraded and unhealthy.
pub open spec fn statistics_of(stats: ReservationStatistics, values: Seq<u64>) -> bool {
    &&& stats.amounts.count == values.len()
    &&& stats.amounts.total == total(values)
    &&& stats.amounts.average == if values.len() == 0 { 0 } else { (total(values) / values.len() as int) as u64 }
    &&& stats.amounts.max == largest(values)
    &&& stats.amounts.min == smallest(values)
    &&& stats.healthy == count_where(values, |g: u64| is_healthy(g))
    &&& stats.degraded == count_where(values, |g: u64| is_degraded(g))
    &&& stats.unhealthy == count_where(values, |g: u64| is_unhealthy(g))
}

/// Every reserved amount is exactly one of healthy, degraded and
/// unhealthy, so the three counts add up to the number of amounts.
pub proof fn law_health_classes_partition(values: Seq<u64>)
    ensures
        count_where(values, |g: u64| is_healthy(g)) + count_where(values, |g: u64| is_degraded(g))
            + count_where(values, |g: u64| is_unhealthy(g)) == values.len(),
    decreases values.len(),
{
    if values.len() > 0 {
        law_health_classes_partition(values.drop_last());
    }
}

/// Statistics of the reservations and how many relays are healthy,
/// degraded and unhealthy by reserved gas.
pub fn reservation_statistics(reservations: &Vec<(String, GasReservation)>) -> (stats: ReservationStatistics)
    requires
        total(reserved_amounts(reservations@)) <= u64::MAX,
    ensures
        statistics_of(stats, reserved_amounts(reservations@)),
{
    let mut amounts: Vec<u64> = Vec::new();
    let mut healthy: usize = 0;
    let mut degraded: usize = 0;
    let mut unhealthy: usize = 0;
    let ghost all = reserved_amounts(reservations@);
    let mut i: usize = 0;
    while i < reservations.len()
        invariant
            i <= reservations@.len(),
            all == reserved_amounts(reservations@),
            amounts@ == all.take(i as int),
            healthy == count_where(all.take(i as int), |g: u64| is_healthy(g)),
            degraded == count_where(all.take(i as int), |g: u64| is_degraded(g)),
            unhealthy == count_where(all.take(i as int), |g: u64| is_unhealthy(g)),
            healthy <= i,
            degraded <= i,
            unhealthy <= i,
        decreases reservations@.len() - i,
    {
        let g = reservations[i].1.reserved_gas;
        proof {
            assert(all.take(i + 1).drop_last() =~= all.take(i as int));
            assert(all.take(i + 1).last() == g);
        }
        amounts.push(g);
        assert(amounts@ =~= all.take(i + 1));
        if g <= RELAY_HEALTH_THRESHOLD_HEALTHY {
            healthy = healthy + 1;
        } else if g <= RELAY_HEALTH_THRESHOLD_DEGRADED {
            degraded = degraded + 1;
        } else {
            unhealthy = unhealthy + 1;
        }
        i = i + 1;
    }
    proof {
        assert(all.take(i as int) =~= all);
    }
    ReservationStatistics { amounts: amount_stats(&amounts), healthy, degraded, unhealthy }
}

/// One reservation as the endpoint lists it.
#[derive(Debug)]
pub struct ReservationEntry {
    pub relay_id: String,
    pub reserved_gas: u64,
    pub last_updated_secs_ago: u64,
    pub min_gas_limit: Option<u64>,
}

/// The gas reservations report.
#[derive(Debug)]
pub struct GasReservationsReport {
    pub default_reserved_gas: u64,
    pub fetch_from_relays: bool,
    pub update_interval_secs: u64,
    pub config_stale: bool,
    pub config_stale_duration_secs: Option<u64>,
    pub statistics: ReservationStatistics,
    pub reservations: Vec<ReservationEntry>,
}

/// Builds the gas reservations report at time `now` (ms): the freshness
/// check runs first (turning a due synced configuration stale), then the
/// configuration and the reservations are read. Refused before
/// configuration.
pub fn get_gas_reservations_at(manager: &mut GasReservationManager, now: u64) -> (report: Result<GasReservationsReport, String>)
    requires
        total(old(manager).spec_reserved_amounts()) <= u64::MAX,
    ensures
        old(manager).spec_state() is Uninitialized <==> report is Err,
        report matches Err(m) ==> m@ == "Manager not configured"@,
        final(manager).spec_reservations() == old(manager).spec_reservations(),
        report matches Ok(r) ==> {
            &&& r.default_reserved_gas == old(manager).spec_state().spec_config()->0.default_reserved_gas
            &&& r.fetch_from_relays == old(manager).spec_state().spec_config()->0.fetch_from_relays
            &&& r.update_interval_secs == old(manager).spec_state().spec_config()->0.update_interval_secs
            &&& r.config_stale == final(manager).spec_state() is Stale
            &&& r.config_stale_duration_secs == if r.config_stale {
                Some(r.update_interval_secs)
            } else {
                None
            }
            &&& statistics_of(r.statistics, old(manager).spec_reserved_amounts())
            &&& r.reservations@.len() == old(manager).spec_reservations().dom().len()
            &&& forall|i: int| 0 <= i < r.reservations@.len() ==> {
                let e = #[trigger] r.reservations@[i];
                &&& old(manager).spec_reservations().dom().contains(e.relay_id@)
                &&& e.reserved_gas == old(manager).spec_reservations()[e.relay_id@].reserved_gas
                &&& e.min_gas_limit == old(manager).spec_reservations()[e.relay_id@].min_gas_limit
                &&& e.last_updated_secs_ago == sat_sub(now, old(manager).spec_reservations()[e.relay_id@].last_updated) / 1000
            }
            &&& forall|i: int, j: int| 0 <= i < j < r.reservations@.len() ==>
                #[trigger] r.reservations@[i].relay_id@ != #[trigger] r.reservations@[j].relay_id@
        },
{
    let all = manager.get_all_reservations();
    assert(reserved_amounts(all@) =~= old(manager).spec_reserved_amounts());
    let fresh = match manager.check_freshness_at(now) {
        Ok(fresh) => fresh,
        Err(_) => true,
    };
    let is_stale = !fresh;
    let state = manager.get_state();
    let (default_reserved_gas, fetch_from_relays, update_interval_secs) = match &state {
        GasReservationState::Uninitialized => {
            return Err(String::from_str("Manager not configured"));
        },
        GasReservationState::LocalOnly { config, .. } => (config.default_reserved_gas, config.fetch_from_relays, config.update_interval_secs),
        GasReservationState::Synced { config, .. } => (config.default_reserved_gas, config.fetch_from_relays, config.update_interval_secs),
        GasReservationState::Stale { config, .. } => (config.default_reserved_gas, config.fetch_from_relays, config.update_interval_secs),
    };
    let statistics = reservation_statistics(&all);
    let mut entries: Vec<ReservationEntry> = Vec::new();
    let mut i: usize = 0;
    while i < all.len()
        invariant
            i <= all@.len(),
            entries@.len() == i,
            forall|j: int| 0 <= j < all@.len() ==> {
                &&& old(manager).spec_reservations().dom().contains(#[trigger] all@[j].0@)
                &&& all@[j].1@ == old(manager).spec_reservations()[all@[j].0@]
                &&& all@[j].1.relay_id@ == all@[j].0@
            },
            forall|a: int, b: int|
                0 <= a < all@.len() && 0 <= b < all@.len() && a != b ==> #[trigger] all@[a].0@ != #[trigger] all@[b].0@,
            forall|j: int| 0 <= j < i ==> {
                let e = #[trigger] entries@[j];
                &&& e.relay_id@ == all@[j].0@
                &&& e.reserved_gas == all@[j].1.reserved_gas
                &&& e.min_gas_limit == all@[j].1.min_gas_limit
                &&& e.last_updated_secs_ago == sat_sub(now, all@[j].1.last_updated) / 1000
            },
        decreases all@.len() - i,
    {
        let r = &all[i].1;
        entries.push(ReservationEntry {
            relay_id: r.relay_id.clone(),
            reserved_gas: r.reserved_gas,
            last_updated_secs_ago: now.saturating_sub(r.last_updated) / 1000,
            min_gas_limit: r.min_gas_limit,
        });
        i = i + 1;
    }
    Ok(GasReservationsReport {
        default_reserved_gas,
        fetch_from_relays,
        update_interval_secs,
        config_stale: is_stale,
        config_stale_duration_secs: if is_stale { Some(update_interval_secs) } else { None },
        statistics,
        reservations: entries,
    })
}

/// Builds the gas reservations report at the current time.
pub fn get_gas_reservations(manager: &mut GasReservationManager) -> (report: Result<GasReservationsReport, String>)
    requires
        total(old(manager).spec_reserved_amounts()) <= u64::MAX,
    ensures
        old(manager).spec_state() is Uninitialized <==> report is Err,
        report matches Err(m) ==> m@ == "Manager not configured"@,
        final(manager).spec_reservations() == old(manager).spec_reservations(),
        report matches Ok(r) ==> {
            &&& r.default_reserved_gas == old(manager).spec_state().spec_config()->0.default_reserved_gas
            &&& r.fetch_from_relays == old(manager).spec_state().spec_config()->0.fetch_from_relays
            &&& r.update_interval_secs == old(manager).spec_state().spec_config()->0.update_interval_secs
            &&& r.config_stale == final(manager).spec_state() is Stale
            &&& r.config_stale_duration_secs == if r.config_stale { Some(r.update_interval_secs) } else { None }
            &&& statistics_of(r.statistics, old(manager).spec_reserved_amounts())
            &&& r.reservations@.len() == old(manager).spec_reservations().dom().len()
            &&& forall|i: int| 0 <= i < r.reservations@.len() ==> {
                let e = #[trigger] r.reservations@[i];
                &&& old(manager).spec_reservations().dom().contains(e.relay_id@)
                &&& e.reserved_gas == old(manager).spec_reservations()[e.relay_id@].reserved_gas
                &&& e.min_gas_limit == old(manager).spec_reservations()[e.relay_id@].min_gas_limit
            }
            &&& forall|i: int, j: int| 0 <= i < j < r.reservations@.len() ==>
                #[trigger] r.reservations@[i].relay_id@ != #[trigger] r.reservations@[j].relay_id@
        },
{
    let now = clock_millis();
    get_gas_reservations_at(manager, now)
}

/// What a relay configuration update reports.
#[derive(Debug)]
pub struct RelayConfigUpdate {
    pub relay_id: String,
    /// The relay's stored reservation before the update, if it had one.
    pub old_reservation: Option<u64>,
    /// The reservation asked for.
    pub new_reservation: u64,
}

/// Applies a relay gas configuration at time `now` and reports the stored
/// reservation before and the amount asked for; the error of a manager
/// that is not configured is reported as text.
pub fn update_relay_config_at(manager: &mut GasReservationManager, relay_id: String, config: RelayGasConfig, now: u64) -> (update: Result<RelayConfigUpdate, String>)
    ensures
        old(manager).spec_state() is Uninitialized <==> update is Err,
        update matches Ok(u) ==> u.relay_id@ == relay_id@
            && u.new_reservation == config.reserved_gas_limit
            && u.old_reservation == if old(manager).spec_reservations().dom().contains(relay_id@) {
                Some(old(manager).spec_reservations()[relay_id@].reserved_gas)
            } else {
                None
            },
        update matches Err(m) ==> m@ == "Configuration error: Cannot update relay configuration: not configured"@,
        final(manager).spec_state() == old(manager).spec_state(),
        update is Err ==> final(manager).spec_reservations() == old(manager).spec_reservations(),
        update is Ok ==> final(manager).spec_reservations() == if gas_amount_acceptable(config.reserved_gas_limit) {
            old(manager).spec_reservations().insert(relay_id@, record_of(config, now))
        } else {
            old(manager).spec_reservations()
        },
{
    let all = manager.get_all_reservations();
    let mut old_reservation: Option<u64> = None;
    let mut i: usize = 0;
    while i < all.len()
        invariant
            i <= all@.len(),
            forall|j: int| 0 <= j < all@.len() ==> {
                &&& old(manager).spec_reservations().dom().contains(#[trigger] all@[j].0@)
                &&& all@[j].1@ == old(manager).spec_reservations()[all@[j].0@]
            },
            forall|k: Seq<char>| #[trigger] old(manager).spec_reservations().dom().contains(k) ==> exists|j: int| 0 <= j < all@.len() && #[trigger] all@[j].0@ == k,
            old_reservation is None ==> forall|j: int| 0 <= j < i ==> #[trigger] all@[j].0@ != relay_id@,
            old_reservation matches Some(g) ==> old(manager).spec_reservations().dom().contains(relay_id@)
                && g == old(manager).spec_reservations()[relay_id@].reserved_gas,
        decreases all@.len() - i,
    {
        if old_reservation.is_none() && all[i].0 == relay_id {
            old_reservation = Some(all[i].1.reserved_gas);
        }
        i = i + 1;
    }
    let new_reservation = config.reserved_gas_limit;
    let key = relay_id.clone();
    match manager.update_relay_configuration_at(key, config, now) {
        Err(e) => {
            proof {
                reveal_strlit("Configuration error: ");
                reveal_strlit("Cannot update relay configuration: not configured");
                reveal_strlit("Configuration error: Cannot update relay configuration: not configured");
                assert("Configuration error: "@ + "Cannot update relay configuration: not configured"@
                    =~= "Configuration error: Cannot update relay configuration: not configured"@);
            }
            Err(e.message())
        },
        Ok(_) => Ok(RelayConfigUpdate { relay_id, old_reservation, new_reservation }),
    }
}

/// Applies a relay gas configuration now; see `update_relay_config_at`.
pub fn update_relay_config(manager: &mut GasReservationManager, relay_id: String, config: RelayGasConfig) -> (update: Result<RelayConfigUpdate, String>)
    ensures
        old(manager).spec_state() is Uninitialized <==> update is Err,
        update matches Ok(u) ==> u.relay_id@ == relay_id@ && u.new_reservation == config.reserved_gas_limit
            && u.old_reservation == if old(manager).spec_reservations().dom().contains(relay_id@) {
                Some(old(manager).spec_reservations()[relay_id@].reserved_gas)
            } else {
                None
            },
        update matches Err(m) ==> m@ == "Configuration error: Cannot update relay configuration: not configured"@,
        final(manager).spec_state() == old(manager).spec_state(),
        update is Err ==> final(manager).spec_reservations() == old(manager).spec_reservations(),
        update is Ok ==> exists|now: u64| final(manager).spec_reservations() == if gas_amount_acceptable(config.reserved_gas_limit) {
            old(manager).spec_reservations().insert(relay_id@, #[trigger] record_of(config, now))
        } else {
            old(manager).spec_reservations()
        },
{
    let now = clock_millis();
    let ghost id = relay_id@;
    let update = update_relay_config_at(manager, relay_id, config, now);
    assert(update is Ok ==> manager.spec_reservations() == if gas_amount_acceptable(config.reserved_gas_limit) {
        old(manager).spec_reservations().insert(id, record_of(config, now))
    } else {
        old(manager).spec_reservations()
    });
    update
}

/// How querying a relay's reserve went.
#[derive(Debug, Clone, Copy, PartialEq, Eq, Structural)]
pub enum ReserveQueryStatus {
    Success,
    Error,
    Timeout,
}

/// A relay's reserve requirement as the endpoint reports it.
#[derive(Debug)]
pub struct RelayReserveInfo {
    pub relay_id: String,
    pub reserve: Option<u64>,
    pub query_time_ms: u64,
    pub status: ReserveQueryStatus,
    pub error: Option<String>,
}

/// Reports one relay's reserve query: an answer is a success, no answer
/// an error, and a failure a timeout when its text mentions `timeout`.
pub fn reserve_info(relay_id: String, outcome: Result<Option<u64>, String>, query_time_ms: u64) -> (info: RelayReserveInfo)
    ensures
        info.relay_id == relay_id,
        info.query_time_ms == query_time_ms,
        info.status == ReserveQueryStatus::Success <==> info.reserve is Some,
        info.status == ReserveQueryStatus::Success <==> info.error is None,
        match outcome {
            Ok(Some(reserve)) => info.reserve == Some(reserve) && info.status == ReserveQueryStatus::Success
                && info.error is None,
            Ok(None) => info.reserve is None && info.status == ReserveQueryStatus::Error
                && (info.error matches Some(e) && e@ == "Relay does not support reserve endpoint"@),
            Err(e) => info.reserve is None && if contains_text(e@, "timeout"@) {
                info.status == ReserveQueryStatus::Timeout && (info.error matches Some(m)
                    && m@ == "Request timeout after "@ + decimal(query_time_ms as nat) + "ms"@)
            } else {
                info.status == ReserveQueryStatus::Error && (info.error matches Some(m) && m@ == e@)
            },
        },
{
    match outcome {
        Ok(Some(reserve)) => RelayReserveInfo {
            relay_id,
            reserve: Some(reserve),
            query_time_ms,
            status: ReserveQueryStatus::Success,
            error: None,
        },
        Ok(None) => RelayReserveInfo {
            relay_id,
            reserve: None,
            query_time_ms,
            status: ReserveQueryStatus::Error,
            error: Some(String::from_str("Relay does not support reserve endpoint")),
        },
        Err(e) => {
            if contains(e.as_str(), "timeout") {
                let mut m = String::from_str("Request timeout after ");
                m.append(u64_to_decimal(query_time_ms).as_str());
                m.append("ms");
                RelayReserveInfo { relay_id, reserve: None, query_time_ms, status: ReserveQueryStatus::Timeout, error: Some(m) }
            } else {
                RelayReserveInfo { relay_id, reserve: None, query_time_ms, status: ReserveQueryStatus::Error, error: Some(e) }
            }
        },
    }
}

/// The reserves that were reported, in order.
pub open spec fn reported_reserves(results: Seq<RelayReserveInfo>) -> Seq<u64>
    decreases results.len(),
{
    if results.len() == 0 {
        Seq::empty()
    } else {
        let before = reported_reserves(results.drop_last());
        match results.last().reserve {
            Some(r) => before.push(r),
            None => before,
        }
    }
}

/// How many queries succeeded.
pub open spec fn successes(results: Seq<RelayReserveInfo>) -> nat
    decreases results.len(),
{
    if results.len() == 0 {
        0
    } else {
        successes(results.drop_last()) + if results.last().status == ReserveQueryStatus::Success { 1nat } else { 0nat }
    }
}

/// Statistics of the relay reserve queries.
#[derive(Debug, Clone, Copy, PartialEq, Eq, Structural)]
pub struct ReserveStatistics {
    pub total_relays: usize,
    pub successful_queries: usize,
    pub failed_queries: usize,
    pub average_reserve: Option<u64>,
    pub max_reserve: Option<u64>,
    pub min_reserve: Option<u64>,
}

/// Counts the queries that succeeded and failed, and gives the mean,
/// largest and smallest reported reserve when any was reported.
pub fn reserve_statistics(results: &Vec<RelayReserveInfo>) -> (stats: ReserveStatistics)
    requires
        total(reported_reserves(results@)) <= u64::MAX,
    ensures
        stats.total_relays == results@.len(),
        stats.successful_queries == successes(results@),
        stats.failed_queries == results@.len() - successes(results@),
        reported_reserves(results@).len() == 0 ==> stats.average_reserve is None && stats.max_reserve is None
            && stats.min_reserve is None,
        reported_reserves(results@).len() > 0 ==> {
            let r = reported_reserves(results@);
            &&& stats.average_reserve == Some((total(r) / r.len() as int) as u64)
            &&& stats.max_reserve == Some(largest(r))
            &&& stats.min_reserve == Some(smallest(r))
        },
{
    let mut reserves: Vec<u64> = Vec::new();
    let mut ok: usize = 0;
    let mut i: usize = 0;
    while i < results.len()
        invariant
            i <= results@.len(),
            reserves@ == reported_reserves(results@.take(i as int)),
            ok == successes(results@.take(i as int)),
            ok <= i,
        decreases results@.len() - i,
    {
        proof {
            assert(results@.take(i + 1).drop_last() =~= results@.take(i as int));
        }
        match results[i].reserve {
            Some(r) => reserves.push(r),
            None => {},
        }
        if results[i].status == ReserveQueryStatus::Success {
            ok = ok + 1;
        }
        i = i + 1;
    }
    proof {
        assert(results@.take(i as int) =~= results@);
        lemma_successes_bound(results@);
    }
    let failed = results.len() - ok;
    if reserves.len() == 0 {
        return ReserveStatistics {
            total_relays: results.len(),
            successful_queries: ok,
            failed_queries: failed,
            average_reserve: None,
            max_reserve: None,
            min_reserve: None,
        };
    }
    let stats = amount_stats(&reserves);
    ReserveStatistics {
        total_relays: results.len(),
        successful_queries: ok,
        failed_queries: failed,
        average_reserve: Some(stats.average),
        max_reserve: Some(stats.max),
        min_reserve: Some(stats.min),
    }
}

/// Successes never outnumber the queries.
proof fn lemma_successes_bound(results: Seq<RelayReserveInfo>)
    ensures
        successes(results) <= results.len(),
    decreases results.len(),
{
    if results.len() > 0 {
        lemma_successes_bound(results.drop_last());
    }
}

} // verus!
