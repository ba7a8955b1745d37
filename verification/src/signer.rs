//! Commitment processing around the signer: the checks before a
//! commitment is signed, the check of the signature, and what the
//! relay's answer does to its circuit breaker.

use vstd::prelude::*;
use crate::commitment::{commitment_root, SignedXGACommitment, XGACommitment};
use crate::crypto::{bls_signature_valid, bls_verify};
use crate::infrastructure::circuit_breaker::{check_step, failure_step, fresh_state, state_of, CircuitBreaker};
use crate::infrastructure::rate_limiter::{recent, validator_limit_step, ValidatorRateLimiter};
use crate::types::{BlsPublicKey, BlsSignature};
use crate::validation::{check_view, commitment_check, validate_commitment_at};

verus! {

/// Domain separation tag of XGA commitment signatures:
/// `BLS_SIG_XGA_COMMITMENT_COMMIT_BOOST` in ASCII.
pub const XGA_DST: [u8; 35] = [
    0x42, 0x4c, 0x53, 0x5f, 0x53, 0x49, 0x47, 0x5f, 0x58, 0x47, 0x41, 0x5f, 0x43, 0x4f, 0x4d, 0x4d, 0x49,
    0x54, 0x4d, 0x45, 0x4e, 0x54, 0x5f, 0x43, 0x4f, 0x4d, 0x4d, 0x49, 0x54, 0x5f, 0x42, 0x4f, 0x4f, 0x53, 0x54,
];

/// Whether `signature` is a valid BLS signature by `pubkey` over the hash
/// tree root of `commitment`, under the XGA domain separation tag. Bytes
/// that do not decode to a signature or a key give `false`.
pub fn verify_signature(commitment: &XGACommitment, signature: &BlsSignature, pubkey: &BlsPublicKey) -> (valid: bool)
    ensures
        valid == bls_signature_valid(signature.0@, pubkey.0@, commitment_root(*commitment), XGA_DST@),
{
    let message = commitment.get_tree_hash_root();
    let dst = XGA_DST;
    bls_verify(&signature.0, &pubkey.0, &message, dst.as_slice())
}

/// Whether the per-validator limit admits one more request from
/// `validator` at `now` (milliseconds).
pub open spec fn limiter_admits(limiter: ValidatorRateLimiter, validator: BlsPublicKey, now: u64) -> bool {
    let known = limiter.spec_limiters().dom().contains(validator);
    let before = if known { limiter.spec_limiters()[validator].0.spec_requests() } else { Seq::<u64>::empty() };
    let max = if known { limiter.spec_limiters()[validator].0.spec_max_requests() } else { limiter.spec_max_requests() };
    let window = if known { limiter.spec_limiters()[validator].0.spec_window() } else { limiter.spec_window() };
    recent(before, now, window).len() < max
}

/// Whether the relay's circuit holds requests back at `now` (milliseconds).
pub open spec fn circuit_holds(breaker: CircuitBreaker, relay_url: Seq<char>, now: u64) -> bool {
    let s = check_step(state_of(breaker.spec_states(), relay_url), breaker.spec_timeout(), now);
    s.is_open && !s.half_open
}

/// The checks before a commitment to the relay at `relay_url` is signed,
/// at `now` (milliseconds): the commitment itself, at the Unix second of
/// `now`; the validator's request limit; the relay's circuit breaker. The
/// first that fails gives the error. The limit is only consulted for a
/// valid commitment, and the breaker only for an admitted request.
pub fn prepare_commitment_at(
    commitment: &XGACommitment,
    relay_url: &str,
    breaker: &mut CircuitBreaker,
    limiter: &mut ValidatorRateLimiter,
    now: u64,
) -> (result: Result<(), String>)
    ensures
        commitment_check(*commitment, now / 1000) is Err ==> check_view(result) == commitment_check(*commitment, now / 1000)
            && *final(limiter) == *old(limiter) && *final(breaker) == *old(breaker),
        commitment_check(*commitment, now / 1000) is Ok && !limiter_admits(*old(limiter), commitment.validator_pubkey, now) ==>
            (result matches Err(m) && m@ == "Rate limit exceeded for validator"@) && *final(breaker) == *old(breaker),
        commitment_check(*commitment, now / 1000) is Ok ==> validator_limit_step(
            *old(limiter), *final(limiter), commitment.validator_pubkey, now,
            limiter_admits(*old(limiter), commitment.validator_pubkey, now),
        ),
        commitment_check(*commitment, now / 1000) is Ok && limiter_admits(*old(limiter), commitment.validator_pubkey, now) ==>
            (circuit_holds(*old(breaker), relay_url@, now) <==> result is Err)
            && (result matches Err(m) ==> m@ == "Circuit breaker is open for relay"@)
            && final(breaker).spec_states() == old(breaker).spec_states().insert(
                relay_url@,
                check_step(state_of(old(breaker).spec_states(), relay_url@), old(breaker).spec_timeout(), now),
            ),
{
    match validate_commitment_at(commitment, now / 1000) {
        Err(e) => return Err(e),
        Ok(()) => {},
    }
    if !limiter.check_rate_limit_at(&commitment.validator_pubkey, now) {
        return Err(String::from_str("Rate limit exceeded for validator"));
    }
    if breaker.is_open_at(relay_url, now) {
        return Err(String::from_str("Circuit breaker is open for relay"));
    }
    Ok(())
}

/// Pairs a commitment with the signature the signer returned, once the
/// signature checks out against the validator's key.
pub fn signed_commitment(commitment: XGACommitment, signature: BlsSignature) -> (result: Result<SignedXGACommitment, String>)
    ensures
        result is Ok <==> bls_signature_valid(signature.0@, commitment.validator_pubkey.0@, commitment_root(commitment), XGA_DST@),
        result matches Ok(s) ==> s.message == commitment && s.signature == signature,
        result matches Err(m) ==> m@ == "Signature verification failed"@,
{
    if !verify_signature(&commitment, &signature, &commitment.validator_pubkey) {
        return Err(String::from_str("Signature verification failed"));
    }
    Ok(SignedXGACommitment { message: commitment, signature })
}

/// Records the relay's answer at `now` (milliseconds) in its circuit
/// breaker and passes the answer on.
pub fn record_send_outcome_at(breaker: &mut CircuitBreaker, relay_url: &str, sent: Result<(), String>, now: u64) -> (result: Result<(), String>)
    ensures
        result == sent,
        final(breaker).spec_threshold() == old(breaker).spec_threshold(),
        final(breaker).spec_timeout() == old(breaker).spec_timeout(),
        sent is Ok ==> final(breaker).spec_states() == if old(breaker).spec_states().dom().contains(relay_url@) {
            old(breaker).spec_states().insert(relay_url@, fresh_state())
        } else {
            old(breaker).spec_states()
        },
        sent is Err ==> final(breaker).spec_states() == old(breaker).spec_states().insert(
            relay_url@,
            failure_step(state_of(old(breaker).spec_states(), relay_url@), old(breaker).spec_threshold(), now),
        ),
{
    if sent.is_ok() {
        breaker.record_success(relay_url);
    } else {
        breaker.record_failure_at(relay_url, now);
    }
    sent
}

} // verus!
