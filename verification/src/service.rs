//! Applying gas reservations to relay bids and choosing the best bid.

use vstd::prelude::*;
use crate::config::RelayGasConfig;
use crate::error::ReservedGasError;
use crate::metrics_wrapper::MetricsRecorder;
use crate::state::ReservedGasState;
use crate::state_manager::GasReservationManager;
use crate::types::{AdjustedBid, BuilderBid, ConfigUpdateEvent, RelayQueryResult};
use crate::u256::U256;
use crate::validation::{sat_sub, MIN_GAS_AFTER_RESERVATION};

verus! {

/// What a processed bid records: the (adjusted) header, the gas limit before
/// the reservation, the reserved gas, and the relay.
pub type BidView = (BuilderBid, u64, u64, Seq<char>);

/// The view of an adjusted bid.
pub open spec fn bid_view(bid: AdjustedBid) -> BidView {
    (bid.response, bid.original_gas_limit, bid.reserved_gas, bid.relay_id@)
}

/// Whether a header from `relay_id` keeps enough gas once its reservation is
/// applied: at least the configured minimum and `MIN_GAS_AFTER_RESERVATION`.
pub open spec fn reservation_fits(state: ReservedGasState, relay_id: Seq<char>, gas_limit: u64) -> bool {
    let left = sat_sub(gas_limit, state.spec_reservation(relay_id));
    left >= state.config.min_block_gas_limit && left >= MIN_GAS_AFTER_RESERVATION
}

/// The bids that survive processing, in order, with reservations applied.
pub open spec fn processed_bids(state: ReservedGasState, results: Seq<(String, RelayQueryResult)>) -> Seq<BidView>
    decreases results.len(),
{
    if results.len() == 0 {
        Seq::empty()
    } else {
        let before = processed_bids(state, results.drop_last());
        let (relay_id, result) = results.last();
        match result {
            RelayQueryResult::Bid(bid) => if reservation_fits(state, relay_id@, bid.response.gas_limit) {
                let reserved = state.spec_reservation(relay_id@);
                before.push((
                    BuilderBid { gas_limit: sat_sub(bid.response.gas_limit, reserved), value: bid.response.value },
                    bid.response.gas_limit,
                    reserved,
                    bid.relay_id@,
                ))
            } else {
                before
            },
            _ => before,
        }
    }
}

/// The processed bid `v` comes from the relay answer `entry`: the answer is
/// a bid whose header fits the reservation of the answering relay, `v`
/// records that header's gas limit as the original and that relay's
/// reservation as reserved, and `v`'s header is the offered one with its gas
/// limit reduced by the reservation (down to zero at most).
pub open spec fn reduced_from(state: ReservedGasState, entry: (String, RelayQueryResult), v: BidView) -> bool {
    match entry.1 {
        RelayQueryResult::Bid(bid) => {
            &&& reservation_fits(state, entry.0@, bid.response.gas_limit)
            &&& v.1 == bid.response.gas_limit
            &&& v.2 == state.spec_reservation(entry.0@)
            &&& v.0.gas_limit == sat_sub(bid.response.gas_limit, state.spec_reservation(entry.0@))
            &&& v.0.value == bid.response.value
            &&& v.3 == bid.relay_id@
        },
        _ => false,
    }
}

/// Every bid that processing keeps is a relay's bid that fits its
/// reservation, with the header's gas limit reduced by that reservation.
pub proof fn law_kept_bids_are_reduced(state: ReservedGasState, results: Seq<(String, RelayQueryResult)>)
    ensures
        forall|i: int| 0 <= i < processed_bids(state, results).len() ==> exists|j: int|
            0 <= j < results.len() && reduced_from(state, #[trigger] results[j], #[trigger] processed_bids(state, results)[i]),
    decreases results.len(),
{
    if results.len() > 0 {
        let rest = results.drop_last();
        law_kept_bids_are_reduced(state, rest);
        let p = processed_bids(state, results);
        let q = processed_bids(state, rest);
        let n = results.len() - 1;
        assert forall|i: int| 0 <= i < p.len() implies exists|j: int|
            0 <= j < results.len() && reduced_from(state, #[trigger] results[j], #[trigger] p[i]) by {
            if i < q.len() {
                assert(p[i] == q[i]);
                let j = choose|j: int| 0 <= j < rest.len() && reduced_from(state, #[trigger] rest[j], #[trigger] q[i]);
                assert(rest[j] == results[j]);
            } else {
                assert(results[n] == results.last());
                assert(reduced_from(state, results[n], p[i]));
            }
        }
    }
}

/// The relay answer `entry` is a bid whose header fits the answering
/// relay's reservation.
pub open spec fn fitting_bid(state: ReservedGasState, entry: (String, RelayQueryResult)) -> bool {
    match entry.1 {
        RelayQueryResult::Bid(bid) => reservation_fits(state, entry.0@, bid.response.gas_limit),
        _ => false,
    }
}

/// `b` is the header of the relay answer `entry` with its gas limit reduced
/// by the answering relay's reservation (down to zero at most).
pub open spec fn reduced_header(state: ReservedGasState, entry: (String, RelayQueryResult), b: BuilderBid) -> bool {
    match entry.1 {
        RelayQueryResult::Bid(bid) => {
            &&& reservation_fits(state, entry.0@, bid.response.gas_limit)
            &&& b.gas_limit == sat_sub(bid.response.gas_limit, state.spec_reservation(entry.0@))
            &&& b.value == bid.response.value
        },
        _ => false,
    }
}

/// Every relay bid that fits its relay's reservation is kept by processing.
pub proof fn law_fitting_bids_are_kept(state: ReservedGasState, results: Seq<(String, RelayQueryResult)>)
    ensures
        forall|j: int| 0 <= j < results.len() && fitting_bid(state, #[trigger] results[j]) ==> exists|i: int|
            0 <= i < processed_bids(state, results).len() && reduced_from(state, results[j], #[trigger] processed_bids(state, results)[i]),
    decreases results.len(),
{
    if results.len() > 0 {
        let rest = results.drop_last();
        law_fitting_bids_are_kept(state, rest);
        let p = processed_bids(state, results);
        let q = processed_bids(state, rest);
        let n = results.len() - 1;
        assert forall|j: int| 0 <= j < results.len() && fitting_bid(state, #[trigger] results[j]) implies exists|i: int|
            0 <= i < p.len() && reduced_from(state, results[j], #[trigger] p[i]) by {
            if j < n {
                assert(rest[j] == results[j]);
                let i = choose|i: int| 0 <= i < q.len() && reduced_from(state, rest[j], #[trigger] q[i]);
                assert(p[i] == q[i]);
            } else {
                assert(results[n] == results.last());
                assert(reduced_from(state, results[j], p[q.len() as int]));
            }
        }
    }
}

/// What the choice among the processed bids says of the relay answers.
proof fn lemma_best_of_processed(
    state: ReservedGasState,
    results: Seq<(String, RelayQueryResult)>,
    best: Result<Option<BuilderBid>, ReservedGasError>,
)
    requires
        ({
            let bids = processed_bids(state, results);
            &&& bids.len() == 0 ==> best == Ok::<Option<BuilderBid>, ReservedGasError>(None)
            &&& bids.len() > 0 ==> exists|i: int| {
                &&& 0 <= i < bids.len()
                &&& best == Ok::<Option<BuilderBid>, ReservedGasError>(Some(bids[i].0))
                &&& forall|j: int| 0 <= j < bids.len() ==> #[trigger] bids[j].0.value.value() <= bids[i].0.value.value()
            }
        }),
    ensures
        best is Ok,
        best == Ok::<Option<BuilderBid>, ReservedGasError>(None) <==> forall|j: int| 0 <= j < results.len() ==>
            !fitting_bid(state, #[trigger] results[j]),
        best matches Ok(Some(b)) ==> exists|j: int| 0 <= j < results.len() && reduced_header(state, #[trigger] results[j], b),
        best matches Ok(Some(b)) ==> forall|j: int| 0 <= j < results.len() && fitting_bid(state, #[trigger] results[j])
            ==> (results[j].1)->Bid_0.response.value.value() <= b.value.value(),
{
    let bids = processed_bids(state, results);
    law_kept_bids_are_reduced(state, results);
    law_fitting_bids_are_kept(state, results);
    if bids.len() == 0 {
        assert forall|j: int| 0 <= j < results.len() implies !fitting_bid(state, #[trigger] results[j]) by {
            if fitting_bid(state, results[j]) {
                let i = choose|i: int| 0 <= i < bids.len() && reduced_from(state, results[j], #[trigger] bids[i]);
            }
        }
    } else {
        let i = choose|i: int| {
            &&& 0 <= i < bids.len()
            &&& best == Ok::<Option<BuilderBid>, ReservedGasError>(Some(bids[i].0))
            &&& forall|j: int| 0 <= j < bids.len() ==> #[trigger] bids[j].0.value.value() <= bids[i].0.value.value()
        };
        let b = bids[i].0;
        let k = choose|k: int| 0 <= k < results.len() && reduced_from(state, #[trigger] results[k], #[trigger] bids[i]);
        assert(reduced_header(state, results[k], b));
        assert(fitting_bid(state, results[k]));
        assert forall|j: int| 0 <= j < results.len() && fitting_bid(state, #[trigger] results[j]) implies
            (results[j].1)->Bid_0.response.value.value() <= b.value.value() by {
            let m = choose|m: int| 0 <= m < bids.len() && reduced_from(state, results[j], #[trigger] bids[m]);
            assert(bids[m].0.value.value() <= b.value.value());
        }
    }
}

/// Index of the last bid of greatest value.
pub open spec fn is_last_best(bids: Seq<AdjustedBid>, i: int) -> bool {
    &&& 0 <= i < bids.len()
    &&& forall|j: int| 0 <= j < bids.len() ==> #[trigger] bids[j].response.value.value() <= bids[i].response.value.value()
    &&& forall|j: int| i < j < bids.len() ==> #[trigger] bids[j].response.value.value() < bids[i].response.value.value()
}

/// Service that applies reserved gas to relay bids and reports what it
/// applies and updates to a metrics recorder.
#[derive(Debug)]
pub struct ReservedGasService<M: MetricsRecorder> {
    pub state: ReservedGasState,
    pub metrics: M,
}

impl<M: MetricsRecorder> ReservedGasService<M> {
    /// A service over `state` that reports to `metrics`.
    pub fn with_dependencies(state: ReservedGasState, metrics: M) -> (service: ReservedGasService<M>)
        ensures
            service.state == state,
            service.metrics == metrics,
    {
        ReservedGasService { state, metrics }
    }

    /// Applies the reservation of `relay_id` to a bid whose original gas
    /// limit is set. The bid changes only on success.
    pub fn apply_gas_reservation(&self, bid: &mut AdjustedBid, relay_id: &str) -> (result: Result<(), ReservedGasError>)
        ensures
            ({
                let reserved = self.state.spec_reservation(relay_id@);
                let left = sat_sub(old(bid).original_gas_limit, reserved);
                &&& result is Ok <==> reservation_fits(self.state, relay_id@, old(bid).original_gas_limit)
                &&& result is Ok ==> final(bid).response.gas_limit == left
                    && final(bid).response.value == old(bid).response.value
                    && final(bid).reserved_gas == reserved
                    && final(bid).original_gas_limit == old(bid).original_gas_limit
                    && final(bid).relay_id == old(bid).relay_id
                &&& result is Err ==> *final(bid) == *old(bid)
                &&& left < self.state.config.min_block_gas_limit ==> (result matches Err(ReservedGasError::ConfigError(_)))
                &&& left >= self.state.config.min_block_gas_limit && left < MIN_GAS_AFTER_RESERVATION ==>
                    result == Err::<(), ReservedGasError>(ReservedGasError::GasLimitTooLow {
                        actual: left,
                        minimum: MIN_GAS_AFTER_RESERVATION,
                        reserved,
                    })
            }),
    {
        let outcome = match self.state.apply_reservation(relay_id, bid.original_gas_limit) {
            Ok(outcome) => outcome,
            Err(e) => return Err(e),
        };
        if outcome.new_gas_limit < MIN_GAS_AFTER_RESERVATION {
            return Err(ReservedGasError::GasLimitTooLow {
                actual: outcome.new_gas_limit,
                minimum: MIN_GAS_AFTER_RESERVATION,
                reserved: outcome.reserved_amount,
            });
        }
        bid.response.gas_limit = outcome.new_gas_limit;
        bid.reserved_gas = outcome.reserved_amount;
        self.metrics.record_gas_reservation_applied(relay_id, outcome.reserved_amount);
        Ok(())
    }

    /// Keeps the bids to which the reservation of their relay applies, in
    /// order, each with its original gas limit recorded and its gas limit
    /// reduced; drops bids that do not fit, missing bids and errors.
    pub fn process_relay_results(&self, results: Vec<(String, RelayQueryResult)>) -> (bids: Vec<AdjustedBid>)
        ensures
            bids@.map_values(|b: AdjustedBid| bid_view(b)) == processed_bids(self.state, results@),
            forall|i: int| 0 <= i < bids@.len() ==> exists|j: int|
                0 <= j < results@.len() && reduced_from(self.state, #[trigger] results@[j], bid_view(#[trigger] bids@[i])),
    {
        let ghost all = results@;
        let total = results.len();
        let mut remaining = results;
        let mut bids: Vec<AdjustedBid> = Vec::new();
        let mut n: usize = 0;
        while remaining.len() > 0
            invariant
                n <= all.len(),
                total == all.len(),
                remaining@ == all.subrange(n as int, all.len() as int),
                bids@.map_values(|b: AdjustedBid| bid_view(b)) == processed_bids(self.state, all.take(n as int)),
            decreases remaining@.len(),
        {
            let (relay_id, result) = remaining.remove(0);
            proof {
                assert(all.take(n + 1).drop_last() =~= all.take(n as int));
                assert(all.take(n + 1).last() == all[n as int]);
            }
            match result {
                RelayQueryResult::Bid(bid) => {
                    let mut bid = bid;
                    bid.original_gas_limit = bid.response.gas_limit;
                    match self.apply_gas_reservation(&mut bid, relay_id.as_str()) {
                        Ok(_) => {
                            bids.push(bid);
                            proof {
                                assert(bids@.map_values(|b: AdjustedBid| bid_view(b)) =~= processed_bids(self.state, all.take(n + 1)));
                            }
                        },
                        Err(_) => {},
                    }
                },
                _ => {},
            }
            n = n + 1;
        }
        proof {
            assert(all.take(n as int) =~= all);
            law_kept_bids_are_reduced(self.state, all);
            assert forall|i: int| 0 <= i < bids@.len() implies exists|j: int|
                0 <= j < all.len() && reduced_from(self.state, #[trigger] all[j], bid_view(#[trigger] bids@[i])) by {
                assert(bid_view(bids@[i]) == processed_bids(self.state, all)[i]);
            }
        }
        bids
    }

    /// The header of the bid of greatest value; among equal values the
    /// last one wins. `None` when there is no bid.
    pub fn select_best_bid(&self, bids: Vec<AdjustedBid>, slot: u64) -> (best: Result<Option<BuilderBid>, ReservedGasError>)
        ensures
            bids@.len() == 0 ==> best == Ok::<Option<BuilderBid>, ReservedGasError>(None),
            bids@.len() > 0 ==> exists|i: int| is_last_best(bids@, i)
                && best == Ok::<Option<BuilderBid>, ReservedGasError>(Some(bids@[i].response)),
    {
        let _ = slot;
        if bids.len() == 0 {
            return Ok(None);
        }
        let mut best: usize = 0;
        let mut i: usize = 1;
        while i < bids.len()
            invariant
                1 <= i <= bids@.len(),
                best < i,
                forall|j: int| 0 <= j < i ==> #[trigger] bids@[j].response.value.value() <= bids@[best as int].response.value.value(),
                forall|j: int| best < j < i ==> #[trigger] bids@[j].response.value.value() < bids@[best as int].response.value.value(),
            decreases bids@.len() - i,
        {
            if bids[i].response.value.ge(&bids[best].response.value) {
                best = i;
            }
            i = i + 1;
        }
        assert(is_last_best(bids@, best as int));
        Ok(Some(bids[best].response))
    }

    /// The best bid among the relays' answers: each bid gets its relay's
    /// reservation, bids that do not fit are dropped, and the most valuable
    /// remaining header wins (the last among equals).
    pub fn get_best_bid(&self, results: Vec<(String, RelayQueryResult)>, slot: u64) -> (best: Result<Option<BuilderBid>, ReservedGasError>)
        ensures
            ({
                let bids = processed_bids(self.state, results@);
                &&& bids.len() == 0 ==> best == Ok::<Option<BuilderBid>, ReservedGasError>(None)
                &&& bids.len() > 0 ==> exists|i: int| {
                    &&& 0 <= i < bids.len()
                    &&& best == Ok::<Option<BuilderBid>, ReservedGasError>(Some(bids[i].0))
                    &&& forall|j: int| 0 <= j < bids.len() ==> #[trigger] bids[j].0.value.value() <= bids[i].0.value.value()
                    &&& forall|j: int| i < j < bids.len() ==> #[trigger] bids[j].0.value.value() < bids[i].0.value.value()
                }
            }),
            best is Ok,
            best == Ok::<Option<BuilderBid>, ReservedGasError>(None) <==> forall|j: int| 0 <= j < results@.len() ==>
                !fitting_bid(self.state, #[trigger] results@[j]),
            best matches Ok(Some(b)) ==> exists|j: int| 0 <= j < results@.len() && reduced_header(self.state, #[trigger] results@[j], b),
            best matches Ok(Some(b)) ==> forall|j: int| 0 <= j < results@.len() && fitting_bid(self.state, #[trigger] results@[j])
                ==> (results@[j].1)->Bid_0.response.value.value() <= b.value.value(),
    {
        let ghost input = results@;
        let bids = self.process_relay_results(results);
        let ghost views = bids@.map_values(|b: AdjustedBid| bid_view(b));
        let ghost all = bids@;
        let best = self.select_best_bid(bids, slot);
        proof {
            if views.len() > 0 {
                let i = choose|i: int| is_last_best(all, i)
                    && best == Ok::<Option<BuilderBid>, ReservedGasError>(Some(all[i].response));
                assert(views[i].0 == all[i].response);
                assert forall|j: int| 0 <= j < views.len() implies
                    #[trigger] views[j].0.value.value() <= views[i].0.value.value() by {
                    assert(views[j].0 == all[j].response);
                }
                assert forall|j: int| i < j < views.len() implies
                    #[trigger] views[j].0.value.value() < views[i].0.value.value() by {
                    assert(views[j].0 == all[j].response);
                }
            }
        }
        proof {
            lemma_best_of_processed(self.state, input, best);
        }
        best
    }

    /// Stores a relay's gas configuration at time `now` and reports the
    /// reservation before and the requested one after.
    pub fn update_relay_configuration_at(&mut self, relay_id: String, config: RelayGasConfig, now: u64) -> (event: ConfigUpdateEvent)
        ensures
            event.relay_id@ == relay_id@,
            event.old_reservation == Some(old(self).state.spec_reservation(relay_id@)),
            event.new_reservation == config.reserved_gas_limit,
            event.timestamp == now,
            final(self).state.config == old(self).state.config,
            final(self).metrics == old(self).metrics,
            final(self).state.reservations@ == if crate::state::update_accepted(config) {
                old(self).state.reservations@.insert(relay_id@, crate::state_manager::record_of(config, now))
            } else {
                old(self).state.reservations@
            },
    {
        let old_reservation = Some(self.state.get_reservation(relay_id.as_str()));
        let key = relay_id.clone();
        self.state.update_reservation_at(key, config, now);
        self.metrics.record_gas_config_update(relay_id.as_str());
        ConfigUpdateEvent { relay_id, old_reservation, new_reservation: config.reserved_gas_limit, timestamp: now }
    }
}

/// The header of the first bid of strictly greatest value among the bids
/// in `results`.
pub open spec fn is_first_best(results: Seq<RelayQueryResult>, i: int) -> bool {
    &&& 0 <= i < results.len()
    &&& results[i] is Bid
    &&& forall|j: int| 0 <= j < results.len() && #[trigger] results[j] is Bid ==>
        results[j]->Bid_0.response.value.value() <= results[i]->Bid_0.response.value.value()
    &&& forall|j: int| 0 <= j < i && #[trigger] results[j] is Bid ==>
        results[j]->Bid_0.response.value.value() < results[i]->Bid_0.response.value.value()
}

/// Picks the header of the first bid of greatest value; `None` when no
/// relay offered a bid.
pub fn pick_highest_bid(results: &Vec<RelayQueryResult>) -> (best: Option<BuilderBid>)
    ensures
        best is None <==> forall|j: int| 0 <= j < results@.len() ==> !(#[trigger] results@[j] is Bid),
        best matches Some(b) ==> exists|i: int| is_first_best(results@, i) && b == results@[i]->Bid_0.response,
{
    let mut best: Option<usize> = None;
    let mut i: usize = 0;
    while i < results.len()
        invariant
            i <= results@.len(),
            best is None <==> forall|j: int| 0 <= j < i ==> !(#[trigger] results@[j] is Bid),
            best matches Some(b) ==> b < i && results@[b as int] is Bid
                && (forall|j: int| 0 <= j < i && #[trigger] results@[j] is Bid ==>
                    results@[j]->Bid_0.response.value.value() <= results@[b as int]->Bid_0.response.value.value())
                && (forall|j: int| 0 <= j < b && #[trigger] results@[j] is Bid ==>
                    results@[j]->Bid_0.response.value.value() < results@[b as int]->Bid_0.response.value.value()),
        decreases results@.len() - i,
    {
        match &results[i] {
            RelayQueryResult::Bid(bid) => {
                match best {
                    None => {
                        best = Some(i);
                    },
                    Some(b) => {
                        let current = match &results[b] {
                            RelayQueryResult::Bid(top) => top.response.value,
                            _ => U256::zero(),
                        };
                        if bid.response.value.gt(&current) {
                            best = Some(i);
                        }
                    },
                }
            },
            _ => {},
        }
        i = i + 1;
    }
    match best {
        None => None,
        Some(b) => match &results[b] {
            RelayQueryResult::Bid(bid) => {
                assert(is_first_best(results@, b as int));
                Some(bid.response)
            },
            _ => None,
        },
    }
}

/// The result of querying one relay for a header, with the manager's
/// reservation for that relay applied when it accepts.
pub fn adjust_header_bid(manager: &GasReservationManager, relay_id: &str, response: BuilderBid) -> (result: RelayQueryResult)
    ensures
        match manager.spec_state().spec_config() {
            None => result is Error,
            Some(config) => {
                let reserved = manager.spec_reservation(relay_id@);
                let left = sat_sub(response.gas_limit, reserved);
                &&& left >= config.min_block_gas_limit ==> (result matches RelayQueryResult::Bid(bid)
                    && bid.response.gas_limit == left
                    && bid.response.value == response.value
                    && bid.original_gas_limit == response.gas_limit
                    && bid.reserved_gas == reserved
                    && bid.relay_id@ == relay_id@)
                &&& left < config.min_block_gas_limit ==> result is Error
            },
        },
{
    let original_gas_limit = response.gas_limit;
    match manager.apply_reservation(relay_id, original_gas_limit) {
        Ok(outcome) => RelayQueryResult::Bid(AdjustedBid {
            response: BuilderBid { gas_limit: outcome.new_gas_limit, value: response.value },
            original_gas_limit,
            reserved_gas: outcome.reserved_amount,
            relay_id: relay_id.to_owned(),
        }),
        Err(e) => RelayQueryResult::Error(e.message()),
    }
}

/// Registration succeeds when at least one relay accepted it.
pub fn registration_outcome(accepted: &Vec<bool>) -> (result: Result<(), ReservedGasError>)
    ensures
        result is Ok <==> exists|i: int| 0 <= i < accepted@.len() && #[trigger] accepted@[i],
        result is Err ==> result == Err::<(), ReservedGasError>(ReservedGasError::ValidatorRegistrationFailed),
{
    let mut i: usize = 0;
    while i < accepted.len()
        invariant
            i <= accepted@.len(),
            forall|j: int| 0 <= j < i ==> !(#[trigger] accepted@[j]),
        decreases accepted@.len() - i,
    {
        if accepted[i] {
            return Ok(());
        }
        i = i + 1;
    }
    Err(ReservedGasError::ValidatorRegistrationFailed)
}

/// The relays are usable when at least one answered its status check.
pub fn health_outcome(healthy: &Vec<bool>) -> (result: Result<(), ReservedGasError>)
    ensures
        result is Ok <==> exists|i: int| 0 <= i < healthy@.len() && #[trigger] healthy@[i],
        result is Err ==> result == Err::<(), ReservedGasError>(ReservedGasError::NoHealthyRelays),
{
    let mut i: usize = 0;
    while i < healthy.len()
        invariant
            i <= healthy@.len(),
            forall|j: int| 0 <= j < i ==> !(#[trigger] healthy@[j]),
        decreases healthy@.len() - i,
    {
        if healthy[i] {
            return Ok(());
        }
        i = i + 1;
    }
    Err(ReservedGasError::NoHealthyRelays)
}

/// A block goes to the relays in order until one accepts it: the position
/// of the first relay that accepted it, or a submission failure when none
/// did.
pub fn first_accepting_relay(accepted: &Vec<bool>) -> (result: Result<usize, ReservedGasError>)
    ensures
        result matches Ok(i) ==> i < accepted@.len() && accepted@[i as int]
            && forall|j: int| 0 <= j < i ==> !(#[trigger] accepted@[j]),
        result is Err <==> forall|j: int| 0 <= j < accepted@.len() ==> !(#[trigger] accepted@[j]),
        result is Err ==> result == Err::<usize, ReservedGasError>(ReservedGasError::BlockSubmissionFailed),
{
    let mut i: usize = 0;
    while i < accepted.len()
        invariant
            i <= accepted@.len(),
            forall|j: int| 0 <= j < i ==> !(#[trigger] accepted@[j]),
        decreases accepted@.len() - i,
    {
        if accepted[i] {
            return Ok(i);
        }
        i = i + 1;
    }
    Err(ReservedGasError::BlockSubmissionFailed)
}

} // verus!
