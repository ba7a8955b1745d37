//! Contract call encoding for the XGA registry: function selectors, an
//! address argument, and a `uint256` answer.

use vstd::prelude::*;
use crate::text::{decimal, u64_to_decimal};
use crate::types::Address;
use crate::eigenlayer::OperatorData;
use crate::u256::{be_value, U256};

verus! {

/// Selector of `operators(address)`.
pub const OPERATORS_SELECTOR: [u8; 4] = [0x13, 0x71, 0x25, 0x23];

/// Selector of `getPendingRewards(address)`.
pub const GET_PENDING_REWARDS_SELECTOR: [u8; 4] = [0x6a, 0x27, 0xb3, 0x0b];

/// Selector of `penaltyRates(address)`.
pub const PENALTY_RATES_SELECTOR: [u8; 4] = [0x0e, 0x39, 0x8a, 0x8b];

/// Call data of a function taking one address: the selector, then the
/// address as a 32-byte word (twelve zero bytes, then its twenty bytes).
pub open spec fn address_call(selector: [u8; 4], address: Address) -> Seq<u8> {
    selector@ + Seq::new(12, |i: int| 0u8) + address.0@
}

/// Encodes a call of the function `selector` with one address argument.
pub fn encode_address_call(selector: [u8; 4], address: Address) -> (data: Vec<u8>)
    ensures
        data@ == address_call(selector, address),
        data@.len() == 36,
{
    let mut data: Vec<u8> = Vec::new();
    let mut i: usize = 0;
    while i < 4
        invariant
            i <= 4,
            data@ == selector@.take(i as int),
        decreases 4 - i,
    {
        data.push(selector[i]);
        assert(selector@.take(i + 1) =~= selector@.take(i as int).push(selector[i as int]));
        i = i + 1;
    }
    assert(selector@.take(4) =~= selector@);
    let mut j: usize = 0;
    while j < 12
        invariant
            j <= 12,
            data@ == selector@ + Seq::new(j as nat, |k: int| 0u8),
        decreases 12 - j,
    {
        data.push(0u8);
        assert(selector@ + Seq::new((j + 1) as nat, |k: int| 0u8) =~= (selector@ + Seq::new(j as nat, |k: int| 0u8)).push(0u8));
        j = j + 1;
    }
    let mut k: usize = 0;
    while k < 20
        invariant
            k <= 20,
            data@ == selector@ + Seq::new(12, |k: int| 0u8) + address.0@.take(k as int),
        decreases 20 - k,
    {
        data.push(address.0[k]);
        assert(address.0@.take(k + 1) =~= address.0@.take(k as int).push(address.0[k as int]));
        assert(selector@ + Seq::new(12, |k: int| 0u8) + address.0@.take(k + 1)
            =~= (selector@ + Seq::new(12, |k: int| 0u8) + address.0@.take(k as int)).push(address.0[k as int]));
        k = k + 1;
    }
    assert(address.0@.take(20) =~= address.0@);
    data
}

/// Decodes a `uint256` answer: exactly 32 bytes, most significant first.
pub fn decode_uint256(data: &[u8]) -> (result: Result<U256, String>)
    ensures
        data@.len() == 32 <==> result is Ok,
        result matches Ok(v) ==> v.value() == be_value(data@),
        result matches Err(m) ==> m@ == "Invalid data length for uint256: "@ + decimal(data@.len()),
{
    if data.len() != 32 {
        let mut m = String::from_str("Invalid data length for uint256: ");
        m.append(u64_to_decimal(data.len() as u64).as_str());
        return Err(m);
    }
    let mut word: [u8; 32] = [0u8; 32];
    let mut i: usize = 0;
    while i < 32
        invariant
            i <= 32,
            data@.len() == 32,
            forall|j: int| 0 <= j < i ==> word[j] == data@[j],
        decreases 32 - i,
    {
        word[i] = data[i];
        i = i + 1;
    }
    assert(word@ =~= data@);
    Ok(U256::from_be_bytes(&word))
}

/// What ABI decoding of `(bytes32, bytes, uint256, uint256, bool,
/// uint256)` from `data`, with validation, gives: the six values (numbers
/// as 32 big-endian bytes), or the decoder's error text.
pub uninterp spec fn operator_tuple_decode(data: Seq<u8>) -> Result<(Seq<u8>, Seq<u8>, Seq<u8>, Seq<u8>, bool, Seq<u8>), Seq<char>>;

/// The registry's operator record as the decoder gives it, numbers as
/// big-endian words.
#[derive(Debug)]
pub struct RawOperatorData {
    pub commitment_hash: [u8; 32],
    pub signature: Vec<u8>,
    pub registration_block: [u8; 32],
    pub last_reward_block: [u8; 32],
    pub is_active: bool,
    pub accumulated_rewards: [u8; 32],
}

/// ABI decoding through `alloy_sol_types::SolValue::abi_decode_with_config`
/// on the tuple `(FixedBytes<32>, Bytes, U256, U256, bool, U256)` with
/// validation switched on; numbers are read back with `to_be_bytes`, and an
/// error is rendered as text. The outcome is named by
/// `operator_tuple_decode`.
#[verifier::external_body]
fn abi_decode_operator_tuple(data: &[u8]) -> (decoded: Result<RawOperatorData, String>)
    ensures
        match decoded {
            Ok(d) => operator_tuple_decode(data@) == Ok::<(Seq<u8>, Seq<u8>, Seq<u8>, Seq<u8>, bool, Seq<u8>), Seq<char>>((
                d.commitment_hash@,
                d.signature@,
                d.registration_block@,
                d.last_reward_block@,
                d.is_active,
                d.accumulated_rewards@,
            )),
            Err(e) => operator_tuple_decode(data@) == Err::<(Seq<u8>, Seq<u8>, Seq<u8>, Seq<u8>, bool, Seq<u8>), Seq<char>>(e@),
        },
{
    let config = alloy_sol_types::abi::AbiDecoderConfig::new().validate(true);
    match <(alloy_primitives::FixedBytes<32>, alloy_primitives::Bytes, alloy_primitives::U256, alloy_primitives::U256, bool, alloy_primitives::U256)
        as alloy_sol_types::SolValue>::abi_decode_with_config(data, config) {
        Ok(t) => Ok(RawOperatorData {
            commitment_hash: t.0.0,
            signature: t.1.to_vec(),
            registration_block: t.2.to_be_bytes::<32>(),
            last_reward_block: t.3.to_be_bytes::<32>(),
            is_active: t.4,
            accumulated_rewards: t.5.to_be_bytes::<32>(),
        }),
        Err(e) => Err(e.to_string()),
    }
}

/// Decodes the registry's `operators(address)` answer: at least the 192
/// bytes of the fixed parts, then the ABI tuple `(bytes32 commitmentHash,
/// bytes signature, uint256 registrationBlock, uint256 lastRewardBlock,
/// bool isActive, uint256 accumulatedRewards)`.
pub fn decode_operator_data(data: &[u8]) -> (result: Result<OperatorData, String>)
    ensures
        data@.len() < 192 ==> (result matches Err(m) && m@ == "Invalid data length for operator data: "@ + decimal(data@.len())),
        data@.len() >= 192 ==> match operator_tuple_decode(data@) {
            Ok(t) => result matches Ok(d) && {
                &&& d.commitment_hash@ == t.0
                &&& d.signature@ == t.1
                &&& d.registration_block.value() == be_value(t.2)
                &&& d.last_reward_block.value() == be_value(t.3)
                &&& d.is_active == t.4
                &&& d.accumulated_rewards.value() == be_value(t.5)
            },
            Err(e) => result matches Err(m) && m@ == e,
        },
{
    if data.len() < 192 {
        let mut m = String::from_str("Invalid data length for operator data: ");
        m.append(u64_to_decimal(data.len() as u64).as_str());
        return Err(m);
    }
    match abi_decode_operator_tuple(data) {
        Err(e) => Err(e),
        Ok(raw) => Ok(OperatorData {
            commitment_hash: raw.commitment_hash,
            signature: raw.signature,
            registration_block: U256::from_be_bytes(&raw.registration_block),
            last_reward_block: U256::from_be_bytes(&raw.last_reward_block),
            is_active: raw.is_active,
            accumulated_rewards: U256::from_be_bytes(&raw.accumulated_rewards),
        }),
    }
}

} // verus!
