//! XGA commitments: what a validator commits to, how a registration is
//! hashed, and the SSZ hash tree root that gets signed.

use vstd::prelude::*;
use crate::crypto::{merkle_root, merkle_root_of, sha256, sha256_digest};
use crate::infrastructure::utils::get_current_timestamp;
use crate::types::{BlsPublicKey, BlsSignature, CommitmentHash, RelayId, ValidatorRegistration};
use vstd::string::StringSliceAdditionalSpecFns;

verus! {

/// Signing domain of the module: `XGA_COMMITMENT` in ASCII, zero padded.
pub const XGA_SIGNING_DOMAIN: [u8; 32] = [
    0x58, 0x47, 0x41, 0x5f, 0x43, 0x4f, 0x4d, 0x4d, 0x49, 0x54, 0x4d, 0x45, 0x4e, 0x54, 0x00, 0x00,
    0x00, 0x00, 0x00, 0x00, 0x00, 0x00, 0x00, 0x00, 0x00, 0x00, 0x00, 0x00, 0x00, 0x00, 0x00, 0x00,
];

/// XGA parameters of a commitment.
#[derive(Debug, Clone, Copy, PartialEq, Eq, Structural)]
pub struct XGAParameters {
    /// Version of the XGA protocol.
    pub version: u64,
    /// Earliest slot of guaranteed inclusion.
    pub min_inclusion_slot: u64,
    /// Latest slot of guaranteed inclusion.
    pub max_inclusion_slot: u64,
    /// Flags for future extensions.
    pub flags: u64,
}

/// The parameters under their other spelling.
pub type XgaParameters = XGAParameters;

impl Default for XGAParameters {
    fn default() -> (params: XGAParameters)
        ensures
            params == (XGAParameters { version: 1, min_inclusion_slot: 0, max_inclusion_slot: 0, flags: 0 }),
    {
        XGAParameters { version: 1, min_inclusion_slot: 0, max_inclusion_slot: 0, flags: 0 }
    }
}

/// A commitment tied to one validator registration.
#[derive(Debug, Clone, Copy)]
pub struct XGACommitment {
    /// Hash of the registration the commitment is tied to.
    pub registration_hash: CommitmentHash,
    pub validator_pubkey: BlsPublicKey,
    /// Identifier of the relay the commitment is for.
    pub relay_id: RelayId,
    pub xga_version: u64,
    pub parameters: XGAParameters,
    /// Unix time of creation, in seconds.
    pub timestamp: u64,
    /// Chain the commitment is valid on.
    pub chain_id: u64,
    pub signing_domain: [u8; 32],
}

/// The commitment under its other spelling.
pub type XgaCommitment = XGACommitment;

/// A commitment with its BLS signature.
#[derive(Debug, Clone, Copy)]
pub struct SignedXGACommitment {
    pub message: XGACommitment,
    pub signature: BlsSignature,
}

/// The signed commitment under its other spelling.
pub type SignedXgaCommitment = SignedXGACommitment;

/// A registration reported to the module, with the relay it went to.
#[derive(Debug)]
pub struct RegistrationNotification {
    pub registration: ValidatorRegistration,
    pub relay_url: String,
    /// Unix time the registration was sent, in seconds.
    pub timestamp: u64,
}

/// Little-endian bytes of `n`, `count` of them.
pub open spec fn le_bytes(n: nat, count: nat) -> Seq<u8>
    decreases count,
{
    if count == 0 {
        Seq::empty()
    } else {
        seq![(n % 256) as u8] + le_bytes(n / 256, (count - 1) as nat)
    }
}

/// The SSZ encoding of a registration: public key, fee recipient, gas
/// limit and timestamp (little endian) and signature, 180 bytes.
pub open spec fn registration_ssz(registration: ValidatorRegistration) -> Seq<u8> {
    registration.message.pubkey.0@ + registration.message.fee_recipient.0@
        + le_bytes(registration.message.gas_limit as nat, 8) + le_bytes(registration.message.timestamp as nat, 8)
        + registration.signature.0@
}

/// Appends the 8 little-endian bytes of `n` to `out`.
fn push_le_u64(out: &mut Vec<u8>, n: u64)
    ensures
        final(out)@ == old(out)@ + le_bytes(n as nat, 8),
{
    let ghost start = out@;
    let mut x: u64 = n;
    let mut i: usize = 0;
    while i < 8
        invariant
            i <= 8,
            out@ + le_bytes(x as nat, (8 - i) as nat) == start + le_bytes(n as nat, 8),
        decreases 8 - i,
    {
        let ghost before = out@;
        out.push((x % 256) as u8);
        proof {
            assert(le_bytes(x as nat, (8 - i) as nat) =~= seq![(x % 256) as u8] + le_bytes((x / 256) as nat, (8 - i - 1) as nat));
            assert(out@ + le_bytes((x / 256) as nat, (8 - i - 1) as nat) =~= before + le_bytes(x as nat, (8 - i) as nat));
        }
        x = x / 256;
        i = i + 1;
    }
    assert(le_bytes(x as nat, 0) =~= Seq::<u8>::empty());
    assert(out@ =~= start + le_bytes(n as nat, 8));
}

/// Appends all of `bytes` to `out`.
fn push_all(out: &mut Vec<u8>, bytes: &[u8])
    ensures
        final(out)@ == old(out)@ + bytes@,
{
    let ghost start = out@;
    let mut i: usize = 0;
    while i < bytes.len()
        invariant
            i <= bytes@.len(),
            out@ == start + bytes@.take(i as int),
        decreases bytes@.len() - i,
    {
        out.push(bytes[i]);
        assert(out@ =~= start + bytes@.take(i + 1));
        i = i + 1;
    }
    assert(bytes@.take(i as int) =~= bytes@);
}

/// The SSZ encoding of a registration.
pub fn registration_ssz_bytes(registration: &ValidatorRegistration) -> (bytes: Vec<u8>)
    ensures
        bytes@ == registration_ssz(*registration),
        bytes@.len() == 180,
{
    let mut bytes: Vec<u8> = Vec::new();
    push_all(&mut bytes, &registration.message.pubkey.0);
    push_all(&mut bytes, &registration.message.fee_recipient.0);
    push_le_u64(&mut bytes, registration.message.gas_limit);
    push_le_u64(&mut bytes, registration.message.timestamp);
    push_all(&mut bytes, &registration.signature.0);
    proof {
        lemma_le_bytes_len(registration.message.gas_limit as nat, 8);
        lemma_le_bytes_len(registration.message.timestamp as nat, 8);
    }
    bytes
}

/// `le_bytes` gives as many bytes as asked.
proof fn lemma_le_bytes_len(n: nat, count: nat)
    ensures
        le_bytes(n, count).len() == count,
    decreases count,
{
    if count > 0 {
        lemma_le_bytes_len(n / 256, (count - 1) as nat);
    }
}

/// The hash tree leaf of a `u64`: its little-endian bytes, zero padded.
pub open spec fn u64_leaf(n: u64) -> Seq<u8> {
    le_bytes(n as nat, 8) + Seq::new(24, |i: int| 0u8)
}

/// The leaves of a commitment's hash tree, concatenated.
pub open spec fn commitment_leaves(c: XGACommitment) -> Seq<u8> {
    c.registration_hash.spec_bytes()@
        + merkle_root_of(c.validator_pubkey.0@, 2)
        + c.relay_id.spec_bytes()@
        + u64_leaf(c.xga_version)
        + u64_leaf(c.parameters.version)
        + u64_leaf(c.parameters.min_inclusion_slot)
        + u64_leaf(c.parameters.max_inclusion_slot)
        + u64_leaf(c.parameters.flags)
        + u64_leaf(c.timestamp)
        + u64_leaf(c.chain_id)
        + c.signing_domain@
}

/// The SSZ hash tree root of a commitment: the Merkle root of its eleven
/// field leaves.
pub open spec fn commitment_root(c: XGACommitment) -> Seq<u8> {
    merkle_root_of(commitment_leaves(c), 11)
}

/// Appends the hash tree leaf of `n` to `out`.
fn push_u64_leaf(out: &mut Vec<u8>, n: u64)
    ensures
        final(out)@ == old(out)@ + u64_leaf(n),
{
    let ghost start = out@;
    push_le_u64(out, n);
    let mut i: usize = 0;
    while i < 24
        invariant
            i <= 24,
            out@ == start + le_bytes(n as nat, 8) + Seq::new(i as nat, |j: int| 0u8),
        decreases 24 - i,
    {
        out.push(0);
        assert(out@ =~= start + le_bytes(n as nat, 8) + Seq::new((i + 1) as nat, |j: int| 0u8));
        i = i + 1;
    }
}

impl XGACommitment {
    /// A commitment created at Unix time `now` (seconds) for the relay
    /// at `relay_url`, at XGA version 1 in the module's signing domain.
    pub fn new_at(
        registration_hash: [u8; 32],
        validator_pubkey: BlsPublicKey,
        relay_url: &str,
        chain_id: u64,
        parameters: XGAParameters,
        now: u64,
    ) -> (commitment: XGACommitment)
        ensures
            commitment.registration_hash.spec_bytes() == registration_hash,
            commitment.validator_pubkey == validator_pubkey,
            commitment.relay_id.spec_bytes()@ == sha256_digest(relay_url.spec_bytes()),
            commitment.xga_version == 1,
            commitment.parameters == parameters,
            commitment.timestamp == now,
            commitment.chain_id == chain_id,
            commitment.signing_domain == XGA_SIGNING_DOMAIN,
    {
        XGACommitment {
            registration_hash: CommitmentHash::from_bytes(registration_hash),
            validator_pubkey,
            relay_id: RelayId::from_url(relay_url),
            xga_version: 1,
            parameters,
            timestamp: now,
            chain_id,
            signing_domain: XGA_SIGNING_DOMAIN,
        }
    }

    /// `new_at` at the current Unix time, or zero when the clock fails.
    pub fn new(
        registration_hash: [u8; 32],
        validator_pubkey: BlsPublicKey,
        relay_url: &str,
        chain_id: u64,
        parameters: XGAParameters,
    ) -> (commitment: XGACommitment)
        ensures
            commitment.registration_hash.spec_bytes() == registration_hash,
            commitment.validator_pubkey == validator_pubkey,
            commitment.relay_id.spec_bytes()@ == sha256_digest(relay_url.spec_bytes()),
            commitment.xga_version == 1,
            commitment.parameters == parameters,
            commitment.chain_id == chain_id,
            commitment.signing_domain == XGA_SIGNING_DOMAIN,
    {
        let now = match get_current_timestamp() {
            Ok(t) => t,
            Err(_) => 0,
        };
        Self::new_at(registration_hash, validator_pubkey, relay_url, chain_id, parameters, now)
    }

    /// SHA-256 of the registration's SSZ encoding.
    pub fn hash_registration(registration: &ValidatorRegistration) -> (hash: [u8; 32])
        ensures
            hash@ == sha256_digest(registration_ssz(*registration)),
    {
        let bytes = registration_ssz_bytes(registration);
        sha256(bytes.as_slice())
    }

    /// The SSZ hash tree root of the commitment.
    pub fn get_tree_hash_root(&self) -> (root: [u8; 32])
        ensures
            root@ == commitment_root(*self),
    {
        let mut leaves: Vec<u8> = Vec::new();
        push_all(&mut leaves, self.registration_hash.as_bytes());
        let pubkey_root = merkle_root(&self.validator_pubkey.0, 2);
        push_all(&mut leaves, &pubkey_root);
        push_all(&mut leaves, self.relay_id.as_bytes());
        push_u64_leaf(&mut leaves, self.xga_version);
        push_u64_leaf(&mut leaves, self.parameters.version);
        push_u64_leaf(&mut leaves, self.parameters.min_inclusion_slot);
        push_u64_leaf(&mut leaves, self.parameters.max_inclusion_slot);
        push_u64_leaf(&mut leaves, self.parameters.flags);
        push_u64_leaf(&mut leaves, self.timestamp);
        push_u64_leaf(&mut leaves, self.chain_id);
        push_all(&mut leaves, &self.signing_domain);
        proof {
            lemma_le_bytes_len(self.xga_version as nat, 8);
            lemma_le_bytes_len(self.parameters.version as nat, 8);
            lemma_le_bytes_len(self.parameters.min_inclusion_slot as nat, 8);
            lemma_le_bytes_len(self.parameters.max_inclusion_slot as nat, 8);
            lemma_le_bytes_len(self.parameters.flags as nat, 8);
            lemma_le_bytes_len(self.timestamp as nat, 8);
            lemma_le_bytes_len(self.chain_id as nat, 8);
            assert(leaves@ =~= commitment_leaves(*self));
        }
        merkle_root(leaves.as_slice(), 11)
    }
}

} // verus!
