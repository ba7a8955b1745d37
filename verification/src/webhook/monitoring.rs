//! Periodic forgetting of old nonces and old queued registrations.

use vstd::prelude::*;
use crate::validation::sat_sub;
use crate::webhook::state::{DedupTracker, NonceEntry, NonceTracker};
use crate::types::BlsPublicKey;

verus! {

/// How long a nonce is remembered: five minutes, in milliseconds.
pub const NONCE_EXPIRATION_MS: u64 = 300_000;

/// How long a queued registration is remembered: five minutes, in seconds.
pub const DEDUP_EXPIRATION_SECS: u64 = 300;

/// Pause between two cleanups, in seconds.
pub const CLEANUP_INTERVAL_SECS: u64 = 60;

/// Pause between two EigenLayer monitoring rounds, in seconds.
pub const MONITORING_INTERVAL_SECS: u64 = 300;

/// One cleanup round at `now_ms` (milliseconds): nonces seen five minutes
/// ago or more are forgotten; when the Unix time `now_secs` is known, so
/// are registrations whose timestamp is five minutes old or more. Answers
/// how many nonces were forgotten.
pub fn cleanup_expired_at(nonces: &mut NonceTracker, dedup: &mut DedupTracker, now_ms: u64, now_secs: Option<u64>) -> (forgotten: usize)
    ensures
        final(nonces).spec_entries() == old(nonces).spec_entries().filter(
            |e: ([u8; 32], NonceEntry)| sat_sub(now_ms, e.1.created_at) < NONCE_EXPIRATION_MS,
        ),
        forgotten == old(nonces).spec_entries().len() - final(nonces).spec_entries().len(),
        match now_secs {
            Some(t) => final(dedup).spec_keys() == old(dedup).spec_keys().filter(
                |k: (BlsPublicKey, u64, Seq<char>)| sat_sub(t, k.1) < DEDUP_EXPIRATION_SECS,
            ),
            None => final(dedup).spec_keys() == old(dedup).spec_keys(),
        },
{
    let forgotten = nonces.retain_younger_than(now_ms, NONCE_EXPIRATION_MS);
    match now_secs {
        Some(t) => dedup.retain_younger_than(t, DEDUP_EXPIRATION_SECS),
        None => {},
    }
    forgotten
}

} // verus!
