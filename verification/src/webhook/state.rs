//! What the webhook remembers between requests: the nonces it has seen and
//! the registrations it has already queued.

use vstd::prelude::*;
use crate::text::str_eq;
use crate::types::BlsPublicKey;

verus! {

/// A nonce the webhook has seen: when (milliseconds) and whose it was.
#[derive(Debug, Clone, Copy)]
pub struct NonceEntry {
    pub created_at: u64,
    pub validator_pubkey: BlsPublicKey,
}

/// Some entry of `entries` carries `nonce`.
pub open spec fn has_nonce(entries: Seq<([u8; 32], NonceEntry)>, nonce: [u8; 32]) -> bool {
    exists|i: int| 0 <= i < entries.len() && #[trigger] entries[i].0 == nonce
}

/// Once a nonce is tracked it is known, so the same nonce is refused the
/// next time; nonces tracked before stay known.
pub proof fn law_tracked_nonce_is_known(entries: Seq<([u8; 32], NonceEntry)>, nonce: [u8; 32], entry: NonceEntry, earlier: [u8; 32])
    ensures
        has_nonce(entries.push((nonce, entry)), nonce),
        has_nonce(entries, earlier) ==> has_nonce(entries.push((nonce, entry)), earlier),
{
    let after = entries.push((nonce, entry));
    assert(after[entries.len() as int].0 == nonce);
    if has_nonce(entries, earlier) {
        let i = choose|i: int| 0 <= i < entries.len() && #[trigger] entries[i].0 == earlier;
        assert(after[i].0 == earlier);
    }
}

/// Whether two 32-byte values are equal.
pub fn bytes32_eq(a: &[u8; 32], b: &[u8; 32]) -> (same: bool)
    ensures
        same == (*a == *b),
{
    let mut i: usize = 0;
    while i < 32
        invariant
            i <= 32,
            forall|j: int| 0 <= j < i ==> a[j] == b[j],
        decreases 32 - i,
    {
        if a[i] != b[i] {
            return false;
        }
        i = i + 1;
    }
    assert(*a =~= *b);
    true
}

/// The nonces seen, in the order they were first seen.
#[derive(Debug)]
pub struct NonceTracker {
    entries: Vec<([u8; 32], NonceEntry)>,
}

impl NonceTracker {
    /// The tracked nonces with their entries.
    pub closed spec fn spec_entries(&self) -> Seq<([u8; 32], NonceEntry)> {
        self.entries@
    }

    /// A tracker that has seen nothing.
    pub fn new() -> (tracker: NonceTracker)
        ensures
            tracker.spec_entries() == Seq::<([u8; 32], NonceEntry)>::empty(),
    {
        NonceTracker { entries: Vec::new() }
    }

    /// Number of tracked nonces.
    pub fn len(&self) -> (n: usize)
        ensures
            n == self.spec_entries().len(),
    {
        self.entries.len()
    }

    /// Whether `nonce` has been seen.
    pub fn contains(&self, nonce: &[u8; 32]) -> (seen: bool)
        ensures
            seen == has_nonce(self.spec_entries(), *nonce),
    {
        let mut i: usize = 0;
        while i < self.entries.len()
            invariant
                i <= self.entries@.len(),
                forall|j: int| 0 <= j < i ==> #[trigger] self.entries@[j].0 != *nonce,
            decreases self.entries@.len() - i,
        {
            if bytes32_eq(&self.entries[i].0, nonce) {
                assert(self.entries@[i as int].0 == *nonce);
                return true;
            }
            i = i + 1;
        }
        false
    }

    /// Appends an entry for a nonce.
    pub fn push(&mut self, nonce: [u8; 32], entry: NonceEntry)
        ensures
            final(self).spec_entries() == old(self).spec_entries().push((nonce, entry)),
    {
        self.entries.push((nonce, entry));
    }

    /// Keeps the entries created less than `max_age_ms` before `now`
    /// (milliseconds) and answers how many were dropped.
    pub fn retain_younger_than(&mut self, now: u64, max_age_ms: u64) -> (removed: usize)
        ensures
            final(self).spec_entries() == old(self).spec_entries().filter(
                |e: ([u8; 32], NonceEntry)| crate::validation::sat_sub(now, e.1.created_at) < max_age_ms,
            ),
            removed == old(self).spec_entries().len() - final(self).spec_entries().len(),
    {
        let ghost pred = |e: ([u8; 32], NonceEntry)| crate::validation::sat_sub(now, e.1.created_at) < max_age_ms;
        let mut kept: Vec<([u8; 32], NonceEntry)> = Vec::new();
        let mut i: usize = 0;
        while i < self.entries.len()
            invariant
                i <= self.entries@.len(),
                pred == (|e: ([u8; 32], NonceEntry)| crate::validation::sat_sub(now, e.1.created_at) < max_age_ms),
                kept@ == self.entries@.take(i as int).filter(pred),
                kept@.len() <= i,
            decreases self.entries@.len() - i,
        {
            let e = self.entries[i];
            proof {
                reveal(Seq::filter);
                let next = self.entries@.take(i + 1);
                assert(next.drop_last() =~= self.entries@.take(i as int));
                assert(next.last() == e);
                assert(next.filter(pred) == if pred(e) {
                    self.entries@.take(i as int).filter(pred).push(e)
                } else {
                    self.entries@.take(i as int).filter(pred)
                });
            }
            if now.saturating_sub(e.1.created_at) < max_age_ms {
                kept.push(e);
            }
            i = i + 1;
        }
        proof {
            assert(self.entries@.take(i as int) =~= self.entries@);
        }
        let removed = self.entries.len() - kept.len();
        self.entries = kept;
        removed
    }
}

/// A queued registration: the validator, the notification's timestamp
/// and the relay URL.
#[derive(Debug)]
pub struct DedupKey {
    pub validator_pubkey: BlsPublicKey,
    pub timestamp: u64,
    pub relay_url: String,
}

impl View for DedupKey {
    type V = (BlsPublicKey, u64, Seq<char>);

    open spec fn view(&self) -> (BlsPublicKey, u64, Seq<char>) {
        (self.validator_pubkey, self.timestamp, self.relay_url@)
    }
}

/// Some key of `keys` equals `key`.
pub open spec fn has_key(keys: Seq<(BlsPublicKey, u64, Seq<char>)>, key: (BlsPublicKey, u64, Seq<char>)) -> bool {
    exists|i: int| 0 <= i < keys.len() && #[trigger] keys[i] == key
}

/// A registration once remembered is known, so the same registration is
/// answered as a duplicate the next time.
pub proof fn law_remembered_registration_is_known(keys: Seq<(BlsPublicKey, u64, Seq<char>)>, key: (BlsPublicKey, u64, Seq<char>))
    ensures
        has_key(keys.push(key), key),
{
    assert(keys.push(key)[keys.len() as int] == key);
}

/// The registrations already queued.
#[derive(Debug)]
pub struct DedupTracker {
    keys: Vec<DedupKey>,
}

impl DedupTracker {
    /// The queued registrations, in the order they were queued.
    pub closed spec fn spec_keys(&self) -> Seq<(BlsPublicKey, u64, Seq<char>)> {
        self.keys@.map_values(|k: DedupKey| k@)
    }

    /// A tracker that has seen nothing.
    pub fn new() -> (tracker: DedupTracker)
        ensures
            tracker.spec_keys() == Seq::<(BlsPublicKey, u64, Seq<char>)>::empty(),
    {
        let tracker = DedupTracker { keys: Vec::new() };
        assert(tracker.spec_keys() =~= Seq::<(BlsPublicKey, u64, Seq<char>)>::empty());
        tracker
    }

    /// Number of queued registrations remembered.
    pub fn len(&self) -> (n: usize)
        ensures
            n == self.spec_keys().len(),
    {
        self.keys.len()
    }

    /// Remembers `key` unless it is already known; answers whether it was new.
    pub fn insert(&mut self, key: DedupKey) -> (inserted: bool)
        ensures
            inserted == !has_key(old(self).spec_keys(), key@),
            inserted ==> final(self).spec_keys() == old(self).spec_keys().push(key@),
            !inserted ==> final(self).spec_keys() == old(self).spec_keys(),
    {
        let mut i: usize = 0;
        while i < self.keys.len()
            invariant
                i <= self.keys@.len(),
                forall|j: int| 0 <= j < i ==> #[trigger] self.spec_keys()[j] != key@,
            decreases self.keys@.len() - i,
        {
            let k = &self.keys[i];
            if k.validator_pubkey == key.validator_pubkey && k.timestamp == key.timestamp
                && str_eq(k.relay_url.as_str(), key.relay_url.as_str()) {
                assert(self.spec_keys()[i as int] == key@);
                return false;
            }
            assert(self.spec_keys()[i as int] == self.keys@[i as int]@);
            i = i + 1;
        }
        let ghost before = self.spec_keys();
        self.keys.push(key);
        assert(self.spec_keys() =~= before.push(key@));
        true
    }

    /// Forgets the registrations whose timestamp is `max_age_secs` or more
    /// before `now` (seconds).
    pub fn retain_younger_than(&mut self, now: u64, max_age_secs: u64)
        ensures
            final(self).spec_keys() == old(self).spec_keys().filter(
                |k: (BlsPublicKey, u64, Seq<char>)| crate::validation::sat_sub(now, k.1) < max_age_secs,
            ),
    {
        let ghost pred = |k: (BlsPublicKey, u64, Seq<char>)| crate::validation::sat_sub(now, k.1) < max_age_secs;
        let ghost all = self.spec_keys();
        let mut kept: Vec<DedupKey> = Vec::new();
        let mut i: usize = 0;
        while i < self.keys.len()
            invariant
                i <= self.keys@.len(),
                all == self.keys@.map_values(|k: DedupKey| k@),
                pred == (|k: (BlsPublicKey, u64, Seq<char>)| crate::validation::sat_sub(now, k.1) < max_age_secs),
                kept@.map_values(|k: DedupKey| k@) == all.take(i as int).filter(pred),
            decreases self.keys@.len() - i,
        {
            proof {
                reveal(Seq::filter);
                let next = all.take(i + 1);
                let item = self.keys@[i as int]@;
                assert(next.drop_last() =~= all.take(i as int));
                assert(next.last() == item);
                assert(next.filter(pred) == if pred(item) {
                    all.take(i as int).filter(pred).push(item)
                } else {
                    all.take(i as int).filter(pred)
                });
            }
            let k = &self.keys[i];
            if now.saturating_sub(k.timestamp) < max_age_secs {
                let copy = DedupKey {
                    validator_pubkey: k.validator_pubkey,
                    timestamp: k.timestamp,
                    relay_url: k.relay_url.clone(),
                };
                let ghost before = kept@.map_values(|k: DedupKey| k@);
                kept.push(copy);
                assert(kept@.map_values(|k: DedupKey| k@) =~= before.push(self.keys@[i as int]@));
            }
            i = i + 1;
        }
        proof {
            assert(all.take(i as int) =~= all);
        }
        self.keys = kept;
    }
}

} // verus!
