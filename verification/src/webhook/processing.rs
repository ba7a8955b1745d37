//! Turning a queued notification into a commitment, and refusing replays.

use vstd::prelude::*;
use crate::commitment::{registration_ssz, RegistrationNotification, XGACommitment, XGAParameters, XGA_SIGNING_DOMAIN};
use crate::crypto::sha256_digest;
use crate::eigenlayer::EigenLayerIntegration;
use crate::types::BlsPublicKey;
use crate::webhook::state::{has_nonce, NonceEntry, NonceTracker};
use crate::webhook::utils::{extract_relay_id, relay_id_of};
use vstd::string::StringSliceAdditionalSpecFns;

verus! {

/// Records `nonce` as seen at `now` (milliseconds) for `validator_pubkey`.
/// A nonce seen before is a replay: it is refused and nothing changes.
pub fn track_nonce(tracker: &mut NonceTracker, nonce: [u8; 32], validator_pubkey: BlsPublicKey, now: u64) -> (fresh: bool)
    ensures
        fresh == !has_nonce(old(tracker).spec_entries(), nonce),
        fresh ==> final(tracker).spec_entries() == old(tracker).spec_entries().push(
            (nonce, NonceEntry { created_at: now, validator_pubkey }),
        ),
        !fresh ==> final(tracker).spec_entries() == old(tracker).spec_entries(),
        has_nonce(final(tracker).spec_entries(), nonce),
{
    if tracker.contains(&nonce) {
        return false;
    }
    tracker.push(nonce, NonceEntry { created_at: now, validator_pubkey });
    proof {
        let entries = tracker.spec_entries();
        assert(entries[entries.len() - 1].0 == nonce);
    }
    true
}

/// The commitment a notification gives at Unix time `now` (seconds) on
/// chain `chain_id`: the hash of the registration, the validator's key,
/// the identifier of the relay the notification names, and the default
/// parameters.
pub fn create_commitment_from_notification(notification: &RegistrationNotification, chain_id: u64, now: u64) -> (commitment: XGACommitment)
    ensures
        commitment.registration_hash.spec_bytes()@ == sha256_digest(registration_ssz(notification.registration)),
        commitment.validator_pubkey == notification.registration.message.pubkey,
        exists|relay_id: &str| relay_id_of(notification.relay_url@, relay_id@)
            && #[trigger] commitment.relay_id.spec_bytes()@ == sha256_digest(relay_id.spec_bytes()),
        commitment.xga_version == 1,
        commitment.parameters == (XGAParameters { version: 1, min_inclusion_slot: 0, max_inclusion_slot: 0, flags: 0 }),
        commitment.timestamp == now,
        commitment.chain_id == chain_id,
        commitment.signing_domain == XGA_SIGNING_DOMAIN,
{
    let relay_id = extract_relay_id(notification.relay_url.as_str());
    let registration_hash = XGACommitment::hash_registration(&notification.registration);
    let validator_pubkey = notification.registration.message.pubkey;
    let parameters = XGAParameters::default();
    let rid = relay_id.as_str();
    let commitment = XGACommitment::new_at(registration_hash, validator_pubkey, rid, chain_id, parameters, now);
    assert(relay_id_of(notification.relay_url@, rid@));
    commitment
}

/// What a processed commitment asks of the EigenLayer integration.
#[derive(Debug, Clone, Copy, PartialEq, Eq, Structural)]
pub enum EigenLayerStep {
    /// The operator is not known to be registered: start tracking.
    Register,
    /// The tracked commitment differs: track the new one.
    Update,
    /// Nothing to do.
    Nothing,
}

/// Decides what a commitment with hash `commitment_hash` asks of the
/// integration, given whether the registry reported the operator as
/// registered; a failed query counts as not registered.
pub fn eigenlayer_step(integration: &EigenLayerIntegration, registered: Result<bool, String>, commitment_hash: &[u8; 32]) -> (step: EigenLayerStep)
    ensures
        !(registered == Ok::<bool, String>(true)) ==> step == EigenLayerStep::Register,
        registered == Ok::<bool, String>(true) ==> step == if (match integration.current_commitment_hash {
            Some(current) => current != *commitment_hash,
            None => true,
        }) {
            EigenLayerStep::Update
        } else {
            EigenLayerStep::Nothing
        },
{
    let known = match registered {
        Ok(r) => r,
        Err(_) => false,
    };
    if !known {
        return EigenLayerStep::Register;
    }
    if integration.requires_update(commitment_hash) {
        EigenLayerStep::Update
    } else {
        EigenLayerStep::Nothing
    }
}

} // verus!
