//! Cache of recent validator registrations, so that unchanged registrations
//! are not sent to the relays again within their lifetime.

use vstd::prelude::*;
use crate::cache::next_count;
use crate::infrastructure::clock::clock_millis;
use crate::keyed::PubkeyTable;
use crate::types::{Address, BlsPublicKey, ValidatorRegistration};
use crate::validation::sat_sub;

verus! {

/// How long a registration stays valid: 27 hours, in milliseconds.
pub const REGISTRATION_TTL_MS: u64 = 97_200_000;

/// A remembered registration.
#[derive(Debug, Clone, Copy)]
pub struct RegistrationEntry {
    pub fee_recipient: Address,
    pub gas_limit: u64,
    /// When it was registered, in milliseconds.
    pub registered_at: u64,
}

/// The entry has outlived the registration lifetime at `now`.
pub open spec fn entry_expired(entry: RegistrationEntry, now: u64) -> bool {
    sat_sub(now, entry.registered_at) > REGISTRATION_TTL_MS
}

/// Whether a registration must be sent: the validator is unknown, its entry
/// expired, or the fee recipient or gas limit changed.
pub open spec fn registration_needed(
    entries: Map<BlsPublicKey, RegistrationEntry>,
    pubkey: BlsPublicKey,
    fee_recipient: Address,
    gas_limit: u64,
    now: u64,
) -> bool {
    match entries.get(pubkey) {
        None => true,
        Some(entry) => entry_expired(entry, now) || entry.fee_recipient != fee_recipient || entry.gas_limit != gas_limit,
    }
}

/// The test a registration passes when it must be sent.
pub open spec fn needed_filter(entries: Map<BlsPublicKey, RegistrationEntry>, now: u64) -> spec_fn(ValidatorRegistration) -> bool {
    |r: ValidatorRegistration| registration_needed(entries, r.message.pubkey, r.message.fee_recipient, r.message.gas_limit, now)
}

/// The last registration of `registrations` for the validator `pubkey`.
pub open spec fn last_for_key(registrations: Seq<ValidatorRegistration>, pubkey: BlsPublicKey) -> Option<ValidatorRegistration>
    decreases registrations.len(),
{
    if registrations.len() == 0 {
        None
    } else if registrations.last().message.pubkey == pubkey {
        Some(registrations.last())
    } else {
        last_for_key(registrations.drop_last(), pubkey)
    }
}

/// The entries after remembering `registrations` at `now` in `before`:
/// each validator named keeps its last registration, stamped `now`; any
/// other entry is kept or, once expired, may be forgotten.
pub open spec fn remembered(
    before: Map<BlsPublicKey, RegistrationEntry>,
    after: Map<BlsPublicKey, RegistrationEntry>,
    registrations: Seq<ValidatorRegistration>,
    now: u64,
) -> bool {
    &&& forall|pk: BlsPublicKey| #[trigger] last_for_key(registrations, pk) matches Some(r) ==> after.dom().contains(pk)
        && after[pk] == (RegistrationEntry { fee_recipient: r.message.fee_recipient, gas_limit: r.message.gas_limit, registered_at: now })
    &&& forall|pk: BlsPublicKey| #[trigger] last_for_key(registrations, pk) is None ==> {
        &&& after.dom().contains(pk) ==> before.dom().contains(pk) && after[pk] == before[pk]
        &&& before.dom().contains(pk) && !entry_expired(before[pk], now) ==> after.dom().contains(pk)
    }
}

/// Recently registered validators with hit and miss counts.
#[derive(Debug)]
pub struct RegistrationCache {
    registrations: PubkeyTable<RegistrationEntry>,
    hits: u64,
    misses: u64,
}

/// Forgetting at `now` the expired registrations of the cache `before`,
/// which gives `after`; the counters stay.
pub open spec fn cleanup_at(before: RegistrationCache, after: RegistrationCache, now: u64) -> bool {
    &&& after.spec_entries() == before.spec_entries().restrict(
        before.spec_entries().dom().filter(|k: BlsPublicKey| !entry_expired(before.spec_entries()[k], now)),
    )
    &&& after.spec_hits() == before.spec_hits()
    &&& after.spec_misses() == before.spec_misses()
}

/// Remembering at `now` a registration in the cache `before`, which
/// becomes `after`: the registration is stored, other entries are kept
/// unless they had expired, and the counters stay.
pub open spec fn mark_at(
    before: RegistrationCache,
    after: RegistrationCache,
    pubkey: BlsPublicKey,
    fee_recipient: Address,
    gas_limit: u64,
    now: u64,
) -> bool {
    &&& after.spec_entries().dom().contains(pubkey)
    &&& after.spec_entries()[pubkey] == (RegistrationEntry { fee_recipient, gas_limit, registered_at: now })
    &&& forall|k: BlsPublicKey| k != pubkey ==> #[trigger] after.spec_entries().dom().contains(k) ==>
        before.spec_entries().dom().contains(k) && after.spec_entries()[k] == before.spec_entries()[k]
    &&& forall|k: BlsPublicKey| k != pubkey && #[trigger] before.spec_entries().dom().contains(k)
        && !entry_expired(before.spec_entries()[k], now) ==> after.spec_entries().dom().contains(k)
    &&& after.spec_hits() == before.spec_hits()
    &&& after.spec_misses() == before.spec_misses()
}

impl RegistrationCache {
    pub closed spec fn spec_entries(&self) -> Map<BlsPublicKey, RegistrationEntry> {
        self.registrations@
    }

    pub closed spec fn spec_hits(&self) -> u64 {
        self.hits
    }

    pub closed spec fn spec_misses(&self) -> u64 {
        self.misses
    }

    /// An empty cache.
    pub fn new() -> (cache: RegistrationCache)
        ensures
            cache.spec_entries() == Map::<BlsPublicKey, RegistrationEntry>::empty(),
            cache.spec_hits() == 0,
            cache.spec_misses() == 0,
    {
        RegistrationCache { registrations: PubkeyTable::new(), hits: 0, misses: 0 }
    }

    /// Whether the registration must be sent at time `now`; a needed one
    /// counts a miss, an unneeded one a hit.
    pub fn needs_registration_at(&mut self, pubkey: &BlsPublicKey, fee_recipient: &Address, gas_limit: u64, now: u64) -> (needed: bool)
        ensures
            needed == registration_needed(old(self).spec_entries(), *pubkey, *fee_recipient, gas_limit, now),
            final(self).spec_entries() == old(self).spec_entries(),
            needed ==> final(self).spec_misses() == next_count(old(self).spec_misses())
                && final(self).spec_hits() == old(self).spec_hits(),
            !needed ==> final(self).spec_hits() == next_count(old(self).spec_hits())
                && final(self).spec_misses() == old(self).spec_misses(),
    {
        let needed = match self.registrations.get(pubkey) {
            Some(entry) => {
                let expired = now.saturating_sub(entry.registered_at) > REGISTRATION_TTL_MS;
                let params_changed = entry.fee_recipient != *fee_recipient || entry.gas_limit != gas_limit;
                expired || params_changed
            },
            None => true,
        };
        if needed {
            self.misses = if self.misses < u64::MAX { self.misses + 1 } else { 0 };
        } else {
            self.hits = if self.hits < u64::MAX { self.hits + 1 } else { 0 };
        }
        needed
    }

    /// `needs_registration_at` at the current time.
    pub fn needs_registration(&mut self, pubkey: &BlsPublicKey, fee_recipient: &Address, gas_limit: u64) -> (needed: bool)
        ensures
            final(self).spec_entries() == old(self).spec_entries(),
            !old(self).spec_entries().dom().contains(*pubkey) ==> needed,
            old(self).spec_entries().dom().contains(*pubkey)
                && (old(self).spec_entries()[*pubkey].fee_recipient != *fee_recipient
                    || old(self).spec_entries()[*pubkey].gas_limit != gas_limit) ==> needed,
            exists|now: u64| needed == #[trigger] registration_needed(old(self).spec_entries(), *pubkey, *fee_recipient, gas_limit, now),
            needed ==> final(self).spec_misses() == next_count(old(self).spec_misses())
                && final(self).spec_hits() == old(self).spec_hits(),
            !needed ==> final(self).spec_hits() == next_count(old(self).spec_hits())
                && final(self).spec_misses() == old(self).spec_misses(),
    {
        let now = clock_millis();
        let needed = self.needs_registration_at(pubkey, fee_recipient, gas_limit, now);
        assert(needed == registration_needed(old(self).spec_entries(), *pubkey, *fee_recipient, gas_limit, now));
        needed
    }

    /// Forgets the registrations expired now.
    pub fn cleanup_expired(&mut self)
        ensures
            final(self).spec_entries().dom().subset_of(old(self).spec_entries().dom()),
            forall|k: BlsPublicKey| #[trigger] final(self).spec_entries().dom().contains(k) ==> final(self).spec_entries()[k] == old(self).spec_entries()[k],
            final(self).spec_hits() == old(self).spec_hits(),
            final(self).spec_misses() == old(self).spec_misses(),
            exists|now: u64| #[trigger] cleanup_at(*old(self), *final(self), now),
    {
        let now = clock_millis();
        self.cleanup_expired_at(now);
        assert(cleanup_at(*old(self), *self, now));
    }

    /// Forgets the expired registrations now, whatever the cache's size.
    pub fn force_cleanup(&mut self)
        ensures
            final(self).spec_entries().dom().subset_of(old(self).spec_entries().dom()),
            forall|k: BlsPublicKey| #[trigger] final(self).spec_entries().dom().contains(k) ==> final(self).spec_entries()[k] == old(self).spec_entries()[k],
            exists|now: u64| #[trigger] cleanup_at(*old(self), *final(self), now),
    {
        self.cleanup_expired();
    }

    /// Forgets the registrations expired at `now`.
    pub fn cleanup_expired_at(&mut self, now: u64)
        ensures
            cleanup_at(*old(self), *final(self), now),
    {
        let keys = self.registrations.keys();
        let ghost start = self.registrations@;
        let mut i: usize = 0;
        while i < keys.len()
            invariant
                i <= keys@.len(),
                self.hits == old(self).hits,
                self.misses == old(self).misses,
                start == old(self).registrations@,
                forall|j: int| 0 <= j < keys@.len() ==> start.dom().contains(#[trigger] keys@[j]),
                forall|k: BlsPublicKey| #[trigger] start.dom().contains(k) ==> exists|j: int| 0 <= j < keys@.len() && #[trigger] keys@[j] == k,
                forall|a: int, b: int| 0 <= a < keys@.len() && 0 <= b < keys@.len() && a != b ==> #[trigger] keys@[a] != #[trigger] keys@[b],
                forall|k: BlsPublicKey| #[trigger] self.registrations@.dom().contains(k) ==> start.dom().contains(k) && self.registrations@[k] == start[k],
                forall|j: int| 0 <= j < i ==> (#[trigger] self.registrations@.dom().contains(keys@[j]) <==> !entry_expired(start[keys@[j]], now)),
                forall|j: int| i <= j < keys@.len() ==> #[trigger] self.registrations@.dom().contains(keys@[j]),
            decreases keys@.len() - i,
        {
            let expired = match self.registrations.get(&keys[i]) {
                Some(entry) => now.saturating_sub(entry.registered_at) > REGISTRATION_TTL_MS,
                None => false,
            };
            if expired {
                let _ = self.registrations.remove(&keys[i]);
            }
            i = i + 1;
        }
        proof {
            let target = start.restrict(start.dom().filter(|k: BlsPublicKey| !entry_expired(start[k], now)));
            assert forall|k: BlsPublicKey| self.registrations@.dom().contains(k) <==> target.dom().contains(k) by {
                if start.dom().contains(k) {
                    let j = choose|j: int| 0 <= j < keys@.len() && #[trigger] keys@[j] == k;
                    assert(self.registrations@.dom().contains(keys@[j]) <==> !entry_expired(start[keys@[j]], now));
                }
            }
            assert(self.registrations@ =~= target);
        }
    }

    /// Remembers a registration made at `now`; each time the cache reaches
    /// a multiple of a thousand entries, expired ones are forgotten.
    pub fn mark_registered_at(&mut self, pubkey: BlsPublicKey, fee_recipient: Address, gas_limit: u64, now: u64)
        ensures
            mark_at(*old(self), *final(self), pubkey, fee_recipient, gas_limit, now),
    {
        self.registrations.insert(pubkey, RegistrationEntry { fee_recipient, gas_limit, registered_at: now });
        if self.registrations.len() % 1000 == 0 {
            self.cleanup_expired_at(now);
        }
    }

    /// `mark_registered_at` at the current time.
    pub fn mark_registered(&mut self, pubkey: BlsPublicKey, fee_recipient: Address, gas_limit: u64)
        ensures
            final(self).spec_entries().dom().contains(pubkey),
            final(self).spec_entries()[pubkey].fee_recipient == fee_recipient,
            final(self).spec_entries()[pubkey].gas_limit == gas_limit,
            exists|now: u64| #[trigger] mark_at(*old(self), *final(self), pubkey, fee_recipient, gas_limit, now),
    {
        let now = clock_millis();
        self.mark_registered_at(pubkey, fee_recipient, gas_limit, now);
        assert(mark_at(*old(self), *self, pubkey, fee_recipient, gas_limit, now));
    }

    /// Hits, misses and number of remembered registrations.
    pub fn stats(&self) -> (stats: (u64, u64, usize))
        ensures
            stats.0 == self.spec_hits(),
            stats.1 == self.spec_misses(),
            stats.2 == self.spec_entries().dom().len(),
    {
        (self.hits, self.misses, self.registrations.len())
    }

    /// Keeps the registrations that must be sent, in order, and remembers
    /// them as registered at `now`. Each registration is checked against the
    /// cache as it was before any of them was remembered.
    pub fn filter_registrations_at(&mut self, registrations: Vec<ValidatorRegistration>, now: u64) -> (needed: Vec<ValidatorRegistration>)
        ensures
            needed@ == registrations@.filter(needed_filter(old(self).spec_entries(), now)),
            forall|i: int| 0 <= i < needed@.len() ==> final(self).spec_entries().dom().contains(#[trigger] needed@[i].message.pubkey),
            remembered(old(self).spec_entries(), final(self).spec_entries(), needed@, now),
    {
        let ghost before = self.spec_entries();
        let ghost pred = needed_filter(before, now);
        let mut needed: Vec<ValidatorRegistration> = Vec::new();
        let mut i: usize = 0;
        while i < registrations.len()
            invariant
                i <= registrations@.len(),
                self.spec_entries() == before,
                pred == needed_filter(before, now),
                needed@ == registrations@.take(i as int).filter(pred),
            decreases registrations@.len() - i,
        {
            let r = registrations[i];
            let keep = self.needs_registration_at(&r.message.pubkey, &r.message.fee_recipient, r.message.gas_limit, now);
            proof {
                assert(registrations@.take(i + 1).drop_last() =~= registrations@.take(i as int));
                assert(registrations@.take(i + 1).last() == r);
                assert(keep == registration_needed(before, r.message.pubkey, r.message.fee_recipient, r.message.gas_limit, now));
                assert(pred(r) == keep);
                reveal(Seq::filter);
            }
            if keep {
                needed.push(r);
            }
            proof {
                reveal(Seq::filter);
                assert(needed@ =~= registrations@.take(i + 1).filter(pred));
            }
            i = i + 1;
        }
        proof {
            assert(registrations@.take(i as int) =~= registrations@);
        }
        let mut j: usize = 0;
        proof {
            assert(remembered(before, self.spec_entries(), needed@.take(0), now));
        }
        while j < needed.len()
            invariant
                j <= needed@.len(),
                forall|k: int| 0 <= k < j ==> self.spec_entries().dom().contains(#[trigger] needed@[k].message.pubkey)
                    && self.spec_entries()[needed@[k].message.pubkey].registered_at == now,
                remembered(before, self.spec_entries(), needed@.take(j as int), now),
            decreases needed@.len() - j,
        {
            let r = needed[j];
            let ghost prior = self.spec_entries();
            self.mark_registered_at(r.message.pubkey, r.message.fee_recipient, r.message.gas_limit, now);
            proof {
                assert forall|k: int| 0 <= k <= j implies self.spec_entries().dom().contains(#[trigger] needed@[k].message.pubkey)
                    && self.spec_entries()[needed@[k].message.pubkey].registered_at == now by {
                    let pk = needed@[k].message.pubkey;
                    if pk != r.message.pubkey {
                        assert(prior.dom().contains(pk) && !entry_expired(prior[pk], now));
                    }
                }
                let upto = needed@.take(j + 1);
                assert(upto.drop_last() =~= needed@.take(j as int));
                assert(upto.last() == r);
                let after = self.spec_entries();
                assert forall|pk: BlsPublicKey| #[trigger] last_for_key(upto, pk) is Some implies after.dom().contains(pk)
                    && after[pk] == (RegistrationEntry {
                        fee_recipient: last_for_key(upto, pk).unwrap().message.fee_recipient,
                        gas_limit: last_for_key(upto, pk).unwrap().message.gas_limit,
                        registered_at: now,
                    }) by {
                    if pk != r.message.pubkey {
                        assert(last_for_key(needed@.take(j as int), pk) is Some);
                        assert(prior.dom().contains(pk) && !entry_expired(prior[pk], now));
                    }
                }
                assert forall|pk: BlsPublicKey| #[trigger] last_for_key(upto, pk) is None implies {
                    &&& after.dom().contains(pk) ==> before.dom().contains(pk) && after[pk] == before[pk]
                    &&& before.dom().contains(pk) && !entry_expired(before[pk], now) ==> after.dom().contains(pk)
                } by {
                    assert(pk != r.message.pubkey);
                    assert(last_for_key(needed@.take(j as int), pk) is None);
                }
            }
            j = j + 1;
        }
        proof {
            assert(needed@.take(j as int) =~= needed@);
        }
        needed
    }
}

/// A validator registered at `registered_at` with some parameters needs no
/// new registration for the same parameters while the lifetime lasts, and
/// needs one as soon as a parameter differs.
pub proof fn law_registration_remembered(
    entries: Map<BlsPublicKey, RegistrationEntry>,
    pubkey: BlsPublicKey,
    fee_recipient: Address,
    gas_limit: u64,
    registered_at: u64,
    other_fee_recipient: Address,
    other_gas_limit: u64,
    now: u64,
)
    requires
        entries.dom().contains(pubkey),
        entries[pubkey] == (RegistrationEntry { fee_recipient, gas_limit, registered_at }),
    ensures
        sat_sub(now, registered_at) <= REGISTRATION_TTL_MS ==> !registration_needed(entries, pubkey, fee_recipient, gas_limit, now),
        sat_sub(now, registered_at) > REGISTRATION_TTL_MS ==> registration_needed(entries, pubkey, fee_recipient, gas_limit, now),
        other_fee_recipient != fee_recipient || other_gas_limit != gas_limit ==>
            registration_needed(entries, pubkey, other_fee_recipient, other_gas_limit, now),
{
}

} // verus!
