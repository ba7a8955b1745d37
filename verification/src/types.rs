//! Identifiers and records shared across the module.

use vstd::prelude::*;
use crate::u256::U256;
use crate::crypto::{sha256, sha256_digest};
use vstd::string::StringSliceAdditionalSpecFns;
use vstd::std_specs::convert::FromSpec;

verus! {

/// Identifier of a relay: 32 bytes.
#[derive(Debug, Clone, Copy, Eq, Hash)]
pub struct RelayId([u8; 32]);

impl PartialEq for RelayId {
    fn eq(&self, other: &Self) -> (same: bool) {
        let mut i: usize = 0;
        while i < 32
            invariant
                i <= 32,
                forall|j: int| 0 <= j < i ==> self.0[j] == other.0[j],
            decreases 32 - i,
        {
            if self.0[i] != other.0[i] {
                return false;
            }
            i = i + 1;
        }
        assert(self.0 =~= other.0);
        true
    }
}

impl vstd::std_specs::cmp::PartialEqSpecImpl for RelayId {
    open spec fn obeys_eq_spec() -> bool {
        true
    }

    open spec fn eq_spec(&self, other: &RelayId) -> bool {
        self.spec_bytes() == other.spec_bytes()
    }
}

impl RelayId {
    /// The identifier's bytes.
    pub closed spec fn spec_bytes(&self) -> [u8; 32] {
        self.0
    }

    /// The identifier with these bytes.
    pub fn from_bytes(bytes: [u8; 32]) -> (id: RelayId)
        ensures
            id.spec_bytes() == bytes,
    {
        RelayId(bytes)
    }

    /// The identifier of a relay URL: the SHA-256 digest of its UTF-8 bytes.
    pub fn from_url(url: &str) -> (id: RelayId)
        ensures
            id.spec_bytes()@ == sha256_digest(url.spec_bytes()),
    {
        RelayId(sha256(url.as_bytes()))
    }

    /// The identifier's bytes.
    pub fn as_bytes(&self) -> (bytes: &[u8; 32])
        ensures
            *bytes == self.spec_bytes(),
    {
        &self.0
    }

    /// The identifier's bytes, by value.
    pub fn into_bytes(self) -> (bytes: [u8; 32])
        ensures
            bytes == self.spec_bytes(),
    {
        self.0
    }
}

impl From<[u8; 32]> for RelayId {
    fn from(bytes: [u8; 32]) -> (id: RelayId)
        ensures
            id.spec_bytes() == bytes,
    {
        RelayId(bytes)
    }
}

impl vstd::std_specs::convert::FromSpecImpl<[u8; 32]> for RelayId {
    open spec fn obeys_from_spec() -> bool {
        true
    }

    closed spec fn from_spec(v: [u8; 32]) -> RelayId {
        RelayId(v)
    }
}

/// Hash of a commitment's registration: 32 bytes.
#[derive(Debug, Clone, Copy, Eq, Hash)]
pub struct CommitmentHash([u8; 32]);

impl PartialEq for CommitmentHash {
    fn eq(&self, other: &Self) -> (same: bool) {
        let mut i: usize = 0;
        while i < 32
            invariant
                i <= 32,
                forall|j: int| 0 <= j < i ==> self.0[j] == other.0[j],
            decreases 32 - i,
        {
            if self.0[i] != other.0[i] {
                return false;
            }
            i = i + 1;
        }
        assert(self.0 =~= other.0);
        true
    }
}

impl vstd::std_specs::cmp::PartialEqSpecImpl for CommitmentHash {
    open spec fn obeys_eq_spec() -> bool {
        true
    }

    open spec fn eq_spec(&self, other: &CommitmentHash) -> bool {
        self.spec_bytes() == other.spec_bytes()
    }
}

impl CommitmentHash {
    /// The hash's bytes.
    pub closed spec fn spec_bytes(&self) -> [u8; 32] {
        self.0
    }

    /// The hash with these bytes.
    pub fn from_bytes(bytes: [u8; 32]) -> (hash: CommitmentHash)
        ensures
            hash.spec_bytes() == bytes,
    {
        CommitmentHash(bytes)
    }

    /// The hash's bytes.
    pub fn as_bytes(&self) -> (bytes: &[u8; 32])
        ensures
            *bytes == self.spec_bytes(),
    {
        &self.0
    }

    /// The hash's bytes, by value.
    pub fn into_bytes(self) -> (bytes: [u8; 32])
        ensures
            bytes == self.spec_bytes(),
    {
        self.0
    }
}

impl From<[u8; 32]> for CommitmentHash {
    fn from(bytes: [u8; 32]) -> (hash: CommitmentHash)
        ensures
            hash.spec_bytes() == bytes,
    {
        CommitmentHash(bytes)
    }
}

impl vstd::std_specs::convert::FromSpecImpl<[u8; 32]> for CommitmentHash {
    open spec fn obeys_from_spec() -> bool {
        true
    }

    closed spec fn from_spec(v: [u8; 32]) -> CommitmentHash {
        CommitmentHash(v)
    }
}

/// A relay identifier is its bytes, and so is a commitment hash: two with
/// the same bytes are the same, whether made by `from`, `from_bytes` or
/// `from_url`.
pub proof fn law_same_bytes_same_value(a: RelayId, b: RelayId, c: CommitmentHash, d: CommitmentHash)
    ensures
        a.spec_bytes() == b.spec_bytes() ==> a == b,
        c.spec_bytes() == d.spec_bytes() ==> c == d,
{
}

/// Converting bytes into a relay identifier or a commitment hash keeps the
/// bytes, so that `from` and `from_bytes` give the same value.
pub proof fn law_from_keeps_bytes(bytes: [u8; 32])
    ensures
        <RelayId as FromSpec<[u8; 32]>>::from_spec(bytes).spec_bytes() == bytes,
        <CommitmentHash as FromSpec<[u8; 32]>>::from_spec(bytes).spec_bytes() == bytes,
{
}

/// Two relay identifiers from the same URL are equal.
pub proof fn law_relay_id_deterministic(a: RelayId, b: RelayId, url: Seq<u8>)
    requires
        a.spec_bytes()@ == sha256_digest(url),
        b.spec_bytes()@ == sha256_digest(url),
    ensures
        a == b,
{
    assert(a.spec_bytes() =~= b.spec_bytes());
    assert(a.spec_bytes() == b.spec_bytes());
    lemma_relay_id_bytes(a, b);
}

/// Identifiers with the same bytes are the same identifier.
proof fn lemma_relay_id_bytes(a: RelayId, b: RelayId)
    requires
        a.spec_bytes() == b.spec_bytes(),
    ensures
        a == b,
{
}

/// A validator's BLS public key.
#[derive(Debug, Clone, Copy, Eq, Hash)]
pub struct BlsPublicKey(pub [u8; 48]);

impl PartialEq for BlsPublicKey {
    fn eq(&self, other: &Self) -> (same: bool) {
        let mut i: usize = 0;
        while i < 48
            invariant
                i <= 48,
                forall|j: int| 0 <= j < i ==> self.0[j] == other.0[j],
            decreases 48 - i,
        {
            if self.0[i] != other.0[i] {
                return false;
            }
            i = i + 1;
        }
        assert(self.0 =~= other.0);
        true
    }
}

impl vstd::std_specs::cmp::PartialEqSpecImpl for BlsPublicKey {
    open spec fn obeys_eq_spec() -> bool {
        true
    }

    open spec fn eq_spec(&self, other: &BlsPublicKey) -> bool {
        self.0 == other.0
    }
}

impl From<[u8; 48]> for BlsPublicKey {
    fn from(bytes: [u8; 48]) -> (key: BlsPublicKey) {
        BlsPublicKey(bytes)
    }
}

impl vstd::std_specs::convert::FromSpecImpl<[u8; 48]> for BlsPublicKey {
    open spec fn obeys_from_spec() -> bool {
        true
    }

    open spec fn from_spec(v: [u8; 48]) -> BlsPublicKey {
        BlsPublicKey(v)
    }
}

/// An execution-layer address.
#[derive(Debug, Clone, Copy, Eq, Hash)]
pub struct Address(pub [u8; 20]);

impl PartialEq for Address {
    fn eq(&self, other: &Self) -> (same: bool) {
        let mut i: usize = 0;
        while i < 20
            invariant
                i <= 20,
                forall|j: int| 0 <= j < i ==> self.0[j] == other.0[j],
            decreases 20 - i,
        {
            if self.0[i] != other.0[i] {
                return false;
            }
            i = i + 1;
        }
        assert(self.0 =~= other.0);
        true
    }
}

impl vstd::std_specs::cmp::PartialEqSpecImpl for Address {
    open spec fn obeys_eq_spec() -> bool {
        true
    }

    open spec fn eq_spec(&self, other: &Address) -> bool {
        self.0 == other.0
    }
}

impl From<[u8; 20]> for Address {
    fn from(bytes: [u8; 20]) -> (address: Address) {
        Address(bytes)
    }
}

impl vstd::std_specs::convert::FromSpecImpl<[u8; 20]> for Address {
    open spec fn obeys_from_spec() -> bool {
        true
    }

    open spec fn from_spec(v: [u8; 20]) -> Address {
        Address(v)
    }
}

impl Default for Address {
    fn default() -> (address: Address)
        ensures
            forall|i: int| 0 <= i < 20 ==> address.0[i] == 0,
    {
        Address([0u8; 20])
    }
}

impl Address {
    /// Every byte is zero.
    pub open spec fn spec_is_zero(&self) -> bool {
        forall|i: int| 0 <= i < 20 ==> self.0[i] == 0
    }

    /// Whether every byte is zero.
    pub fn is_zero(&self) -> (zero: bool)
        ensures
            zero == self.spec_is_zero(),
    {
        let mut i: usize = 0;
        while i < 20
            invariant
                i <= 20,
                forall|j: int| 0 <= j < i ==> self.0[j] == 0,
            decreases 20 - i,
        {
            if self.0[i] != 0 {
                return false;
            }
            i = i + 1;
        }
        true
    }
}

/// A BLS signature.
#[derive(Debug, Clone, Copy)]
pub struct BlsSignature(pub [u8; 96]);

/// The signed part of a validator registration.
#[derive(Debug, Clone, Copy)]
pub struct ValidatorRegistrationMessage {
    pub fee_recipient: Address,
    pub gas_limit: u64,
    pub timestamp: u64,
    pub pubkey: BlsPublicKey,
}

/// A validator's registration with the builder network.
#[derive(Debug, Clone, Copy)]
pub struct ValidatorRegistration {
    pub message: ValidatorRegistrationMessage,
    pub signature: BlsSignature,
}

/// Result of applying a gas reservation to a block gas limit.
#[derive(Debug)]
pub struct GasReservationOutcome {
    /// Gas limit left for the block.
    pub new_gas_limit: u64,
    /// Gas that was reserved.
    pub reserved_amount: u64,
    /// Relay the reservation belongs to.
    pub relay_id: String,
}

/// What an update of a relay's gas configuration did.
#[derive(Debug)]
pub struct ConfigUpdateEvent {
    pub relay_id: String,
    /// Reservation in force before the update.
    pub old_reservation: Option<u64>,
    /// Reservation in force after the update.
    pub new_reservation: u64,
    /// When the update happened, in milliseconds.
    pub timestamp: u64,
}

/// A relay the PBS module talks to.
#[derive(Debug)]
pub struct RelayClient {
    pub id: String,
    pub url: String,
}

/// The part of the PBS module configuration the gas logic keeps.
#[derive(Debug)]
pub struct PbsModuleConfig {
    pub relays: Vec<RelayClient>,
}

/// The part of a relay's header answer the gas logic reads and writes.
#[derive(Debug, Clone, Copy, PartialEq, Eq, Structural)]
pub struct BuilderBid {
    /// Gas limit of the offered block.
    pub gas_limit: u64,
    /// Value the builder pays, in wei.
    pub value: U256,
}

/// A bid with the gas reservation of its relay applied.
#[derive(Debug)]
pub struct AdjustedBid {
    pub response: BuilderBid,
    /// Gas limit before the reservation.
    pub original_gas_limit: u64,
    /// Gas reserved for the relay.
    pub reserved_gas: u64,
    pub relay_id: String,
}

/// What querying one relay for a header gave.
#[derive(Debug)]
pub enum RelayQueryResult {
    Bid(AdjustedBid),
    NoBid,
    Error(String),
}

} // verus!
