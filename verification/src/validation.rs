//! Input validation: gas amounts, relay answers, XGA parameters, commitments,
//! validator registrations and relay URLs.

use vstd::prelude::*;
use crate::error::ReservedGasError;
use crate::config::RelayGasConfig;
use crate::commitment::{XGACommitment, XGAParameters};
use crate::infrastructure::urls::{parse_url, url_parse, UrlParts};
use crate::infrastructure::utils::get_current_timestamp;
use crate::text::{decimal, str_eq, u64_to_decimal};
use crate::types::{BlsPublicKey, ValidatorRegistration};

verus! {

/// Smallest block gas limit that may remain once gas has been reserved.
pub const MIN_GAS_AFTER_RESERVATION: u64 = 10_000_000;

/// Largest gas amount (reservation or limit) the module treats as reasonable.
pub const MAX_REASONABLE_GAS: u64 = 30_000_000;

/// Smallest minimum block gas limit a relay may ask for.
pub const MIN_BLOCK_GAS_LIMIT: u64 = 1_000_000;

/// `a - b`, or zero when `b` exceeds `a`.
pub open spec fn sat_sub(a: u64, b: u64) -> u64 {
    if a >= b { (a - b) as u64 } else { 0 }
}

/// A gas amount is accepted when it is positive and at most
/// `MAX_REASONABLE_GAS`.
pub open spec fn gas_amount_acceptable(gas: u64) -> bool {
    0 < gas <= MAX_REASONABLE_GAS
}

/// A relay's answer is usable when its reservation is acceptable and any
/// minimum gas limit it states is at least `MIN_BLOCK_GAS_LIMIT`.
pub open spec fn relay_response_valid(config: RelayGasConfig) -> bool {
    &&& gas_amount_acceptable(config.reserved_gas_limit)
    &&& match config.min_gas_limit {
        Some(min) => min >= MIN_BLOCK_GAS_LIMIT,
        None => true,
    }
}

/// The result is an `InvalidRelayConfig` error naming `relay_id`.
pub open spec fn invalid_config_for<T>(result: Result<T, ReservedGasError>, relay_id: Seq<char>) -> bool {
    match result {
        Err(ReservedGasError::InvalidRelayConfig { relay_id: id, .. }) => id@ == relay_id,
        _ => false,
    }
}

/// Checks a gas amount reported for `relay_id`: zero is rejected as an invalid
/// relay configuration, anything above `MAX_REASONABLE_GAS` as too high.
pub fn validate_gas_limit(gas_limit: u64, relay_id: &str) -> (result: Result<u64, ReservedGasError>)
    ensures
        gas_limit == 0 <==> invalid_config_for(result, relay_id@),
        gas_limit == 0 ==> (result matches Err(ReservedGasError::InvalidRelayConfig { reason, .. })
            && reason@ == "gas limit must be greater than zero"@),
        gas_limit > MAX_REASONABLE_GAS <==> result == Err::<u64, ReservedGasError>(
            ReservedGasError::ReservedGasTooHigh { amount: gas_limit, max: MAX_REASONABLE_GAS },
        ),
        gas_amount_acceptable(gas_limit) <==> result == Ok::<u64, ReservedGasError>(gas_limit),
{
    if gas_limit == 0 {
        return Err(ReservedGasError::InvalidRelayConfig {
            relay_id: relay_id.to_owned(),
            reason: String::from_str("gas limit must be greater than zero"),
        });
    }
    if gas_limit > MAX_REASONABLE_GAS {
        return Err(ReservedGasError::ReservedGasTooHigh { amount: gas_limit, max: MAX_REASONABLE_GAS });
    }
    Ok(gas_limit)
}

/// Subtracts `reserved` from `original_gas_limit` (saturating at zero) and
/// accepts the result only when it is at least `min_required`.
pub fn validate_gas_after_reservation(
    original_gas_limit: u64,
    reserved: u64,
    min_required: u64,
) -> (result: Result<u64, ReservedGasError>)
    ensures
        sat_sub(original_gas_limit, reserved) >= min_required ==> result == Ok::<u64, ReservedGasError>(
            sat_sub(original_gas_limit, reserved),
        ),
        sat_sub(original_gas_limit, reserved) < min_required ==> result == Err::<u64, ReservedGasError>(
            ReservedGasError::GasLimitTooLow {
                actual: sat_sub(original_gas_limit, reserved),
                minimum: min_required,
                reserved,
            },
        ),
{
    let new_limit = original_gas_limit.saturating_sub(reserved);
    if new_limit < min_required {
        Err(ReservedGasError::GasLimitTooLow { actual: new_limit, minimum: min_required, reserved })
    } else {
        Ok(new_limit)
    }
}

/// Whether a relay's gas configuration may be stored.
pub fn is_valid_relay_response(config: &RelayGasConfig, relay_id: &str) -> (valid: bool)
    ensures
        valid == relay_response_valid(*config),
{
    let _ = relay_id;
    if config.reserved_gas_limit == 0 || config.reserved_gas_limit > MAX_REASONABLE_GAS {
        return false;
    }
    match config.min_gas_limit {
        Some(min) => min >= MIN_BLOCK_GAS_LIMIT,
        None => true,
    }
}

/// `result` is what checking `config` from `relay_id` gives: a zero
/// reservation and a minimum gas limit under the block gas floor are invalid
/// configurations of that relay, each with its reason; a reservation above
/// the reasonable maximum is too high; anything else passes.
pub open spec fn relay_config_verdict(config: RelayGasConfig, relay_id: Seq<char>, result: Result<(), ReservedGasError>) -> bool {
    if config.reserved_gas_limit == 0 {
        result matches Err(ReservedGasError::InvalidRelayConfig { relay_id: id, reason })
            && id@ == relay_id && reason@ == "gas limit must be greater than zero"@
    } else if config.reserved_gas_limit > MAX_REASONABLE_GAS {
        result == Err::<(), ReservedGasError>(
            ReservedGasError::ReservedGasTooHigh { amount: config.reserved_gas_limit, max: MAX_REASONABLE_GAS },
        )
    } else if config.min_gas_limit matches Some(m) && m < MIN_BLOCK_GAS_LIMIT {
        result matches Err(ReservedGasError::InvalidRelayConfig { relay_id: id, reason })
            && id@ == relay_id && reason@ == "minimum gas limit is below the block gas floor"@
    } else {
        result == Ok::<(), ReservedGasError>(())
    }
}

/// Checks a relay's gas configuration, reporting why it is refused.
pub fn validate_relay_gas_config(config: &RelayGasConfig, relay_id: &str) -> (result: Result<(), ReservedGasError>)
    ensures
        result is Ok <==> relay_response_valid(*config),
        config.reserved_gas_limit > MAX_REASONABLE_GAS ==> result == Err::<(), ReservedGasError>(
            ReservedGasError::ReservedGasTooHigh { amount: config.reserved_gas_limit, max: MAX_REASONABLE_GAS },
        ),
        config.reserved_gas_limit == 0 || (gas_amount_acceptable(config.reserved_gas_limit) && !relay_response_valid(*config))
            ==> invalid_config_for(result, relay_id@),
        relay_config_verdict(*config, relay_id@, result),
{
    match validate_gas_limit(config.reserved_gas_limit, relay_id) {
        Err(e) => return Err(e),
        Ok(_) => {},
    }
    match config.min_gas_limit {
        Some(min) => {
            if min < MIN_BLOCK_GAS_LIMIT {
                return Err(ReservedGasError::InvalidRelayConfig {
                    relay_id: relay_id.to_owned(),
                    reason: String::from_str("minimum gas limit is below the block gas floor"),
                });
            }
        },
        None => {},
    }
    Ok(())
}

/// Every byte of the key is zero.
pub open spec fn zero_pubkey(pubkey: BlsPublicKey) -> bool {
    forall|i: int| 0 <= i < 48 ==> pubkey.0[i] == 0
}

/// Whether every byte of `pubkey` is zero.
fn is_zero_pubkey(pubkey: &BlsPublicKey) -> (zero: bool)
    ensures
        zero == zero_pubkey(*pubkey),
{
    let mut i: usize = 0;
    while i < 48
        invariant
            i <= 48,
            forall|j: int| 0 <= j < i ==> pubkey.0[j] == 0,
        decreases 48 - i,
    {
        if pubkey.0[i] != 0 {
            return false;
        }
        i = i + 1;
    }
    true
}

/// Refuses the all-zero BLS public key; a key always has 48 bytes.
pub fn validate_validator_pubkey(pubkey: &BlsPublicKey) -> (result: Result<(), String>)
    ensures
        result is Ok <==> !zero_pubkey(*pubkey),
        result matches Err(m) ==> m@ == "Invalid BLS public key: zero key not allowed"@,
{
    if is_zero_pubkey(pubkey) {
        return Err(String::from_str("Invalid BLS public key: zero key not allowed"));
    }
    Ok(())
}

/// The outcome of checking XGA parameters: version from 1 to 100, a slot
/// range that is not inverted and spans at most 1000 slots.
pub open spec fn xga_parameters_check(params: XGAParameters) -> Result<(), Seq<char>> {
    if !(params.version > 0 && params.version <= 100) {
        Err("Invalid XGA version: "@ + decimal(params.version as nat))
    } else if params.min_inclusion_slot > params.max_inclusion_slot {
        Err("Invalid slot range: min_inclusion_slot ("@ + decimal(params.min_inclusion_slot as nat)
            + ") > max_inclusion_slot ("@ + decimal(params.max_inclusion_slot as nat) + ")"@)
    } else if params.max_inclusion_slot - params.min_inclusion_slot > 1000 {
        Err("Slot range too large: "@ + decimal((params.max_inclusion_slot - params.min_inclusion_slot) as nat) + " slots"@)
    } else {
        Ok(())
    }
}

/// The view of a validation result.
pub open spec fn check_view(result: Result<(), String>) -> Result<(), Seq<char>> {
    match result {
        Ok(()) => Ok(()),
        Err(m) => Err(m@),
    }
}

/// Checks XGA parameters against the protocol rules.
pub fn validate_xga_parameters(params: &XGAParameters) -> (result: Result<(), String>)
    ensures
        check_view(result) == xga_parameters_check(*params),
{
    if !(params.version > 0 && params.version <= 100) {
        let mut m = String::from_str("Invalid XGA version: ");
        m.append(u64_to_decimal(params.version).as_str());
        return Err(m);
    }
    if params.min_inclusion_slot > params.max_inclusion_slot {
        let mut m = String::from_str("Invalid slot range: min_inclusion_slot (");
        m.append(u64_to_decimal(params.min_inclusion_slot).as_str());
        m.append(") > max_inclusion_slot (");
        m.append(u64_to_decimal(params.max_inclusion_slot).as_str());
        m.append(")");
        return Err(m);
    }
    let slot_range = params.max_inclusion_slot - params.min_inclusion_slot;
    if slot_range > 1000 {
        let mut m = String::from_str("Slot range too large: ");
        m.append(u64_to_decimal(slot_range).as_str());
        m.append(" slots");
        return Err(m);
    }
    Ok(())
}

/// Largest time a commitment may carry at `now`: five minutes ahead.
pub open spec fn max_future_time(now: u64) -> u64 {
    if now + 300 <= u64::MAX { (now + 300) as u64 } else { u64::MAX }
}

/// The outcome of checking a commitment at Unix time `now` (seconds):
/// its key, its parameters, and a timestamp no more than five minutes ahead.
pub open spec fn commitment_check(commitment: XGACommitment, now: u64) -> Result<(), Seq<char>> {
    if zero_pubkey(commitment.validator_pubkey) {
        Err("Invalid BLS public key: zero key not allowed"@)
    } else if xga_parameters_check(commitment.parameters) is Err {
        xga_parameters_check(commitment.parameters)
    } else if commitment.timestamp > max_future_time(now) {
        Err("Commitment timestamp too far in future: "@ + decimal(commitment.timestamp as nat) + " > "@
            + decimal(max_future_time(now) as nat))
    } else {
        Ok(())
    }
}

/// Checks a commitment at Unix time `now` (seconds).
pub fn validate_commitment_at(commitment: &XGACommitment, now: u64) -> (result: Result<(), String>)
    ensures
        check_view(result) == commitment_check(*commitment, now),
{
    match validate_validator_pubkey(&commitment.validator_pubkey) {
        Err(e) => return Err(e),
        Ok(()) => {},
    }
    match validate_xga_parameters(&commitment.parameters) {
        Err(e) => return Err(e),
        Ok(()) => {},
    }
    let max_future = now.saturating_add(300);
    if commitment.timestamp > max_future {
        let mut m = String::from_str("Commitment timestamp too far in future: ");
        m.append(u64_to_decimal(commitment.timestamp).as_str());
        m.append(" > ");
        m.append(u64_to_decimal(max_future).as_str());
        return Err(m);
    }
    Ok(())
}

/// Checks a commitment at the current time; fails when the clock cannot be read.
pub fn validate_commitment(commitment: &XGACommitment) -> (result: Result<(), String>)
    ensures
        zero_pubkey(commitment.validator_pubkey) ==> result is Err,
        xga_parameters_check(commitment.parameters) is Err ==> result is Err,
        match result {
            Ok(()) => exists|now: u64| #[trigger] commitment_check(*commitment, now) is Ok,
            Err(m) => m@ == "System time error: Failed to get current timestamp"@
                || exists|now: u64| #[trigger] commitment_check(*commitment, now) == Err::<(), Seq<char>>(m@),
        },
{
    match get_current_timestamp() {
        Ok(now) => {
            let result = validate_commitment_at(commitment, now);
            assert(check_view(result) == commitment_check(*commitment, now));
            result
        },
        Err(e) => {
            proof {
                reveal_strlit("System time error: ");
                reveal_strlit("Failed to get current timestamp");
                reveal_strlit("System time error: Failed to get current timestamp");
                assert("System time error: "@ + "Failed to get current timestamp"@
                    =~= "System time error: Failed to get current timestamp"@);
            }
            Err(e.message())
        },
    }
}

/// The outcome of checking a registration: its key, a non-zero fee
/// recipient, and a gas limit from one to fifty million.
pub open spec fn registration_check(registration: ValidatorRegistration) -> Result<(), Seq<char>> {
    if zero_pubkey(registration.message.pubkey) {
        Err("Invalid BLS public key: zero key not allowed"@)
    } else if registration.message.fee_recipient.spec_is_zero() {
        Err("Invalid fee recipient: zero address not allowed"@)
    } else if !(registration.message.gas_limit >= 1_000_000 && registration.message.gas_limit <= 50_000_000) {
        Err("Invalid gas limit: "@ + decimal(registration.message.gas_limit as nat) + " (must be between 1M and 50M)"@)
    } else {
        Ok(())
    }
}

/// Checks a validator registration.
pub fn validate_registration(registration: &ValidatorRegistration) -> (result: Result<(), String>)
    ensures
        check_view(result) == registration_check(*registration),
{
    match validate_validator_pubkey(&registration.message.pubkey) {
        Err(e) => return Err(e),
        Ok(()) => {},
    }
    if registration.message.fee_recipient.is_zero() {
        return Err(String::from_str("Invalid fee recipient: zero address not allowed"));
    }
    let gas_limit = registration.message.gas_limit;
    if !(gas_limit >= 1_000_000 && gas_limit <= 50_000_000) {
        let mut m = String::from_str("Invalid gas limit: ");
        m.append(u64_to_decimal(gas_limit).as_str());
        m.append(" (must be between 1M and 50M)");
        return Err(m);
    }
    Ok(())
}

/// The outcome of checking a relay URL given what parsing gave: parsing
/// must succeed, with the `https` scheme and a host.
pub open spec fn relay_url_check(
    url: Seq<char>,
    parsed: Result<(Seq<char>, Option<Seq<char>>, Seq<char>), Seq<char>>,
) -> Result<(), Seq<char>> {
    match parsed {
        Err(e) => Err(e),
        Ok(parts) => if parts.0 != "https"@ {
            Err("Relay URL must use HTTPS: "@ + url)
        } else if parts.1 is None {
            Err("Relay URL must have a valid host: "@ + url)
        } else {
            Ok(())
        },
    }
}

/// Applies the relay URL rules to what parsing `url` gave.
pub fn check_relay_url(url: &str, parsed: Result<UrlParts, String>) -> (result: Result<(), String>)
    ensures
        check_view(result) == relay_url_check(url@, match parsed {
            Ok(p) => Ok(crate::infrastructure::urls::parts_view(p)),
            Err(e) => Err(e@),
        }),
{
    let parts = match parsed {
        Err(e) => return Err(e),
        Ok(parts) => parts,
    };
    if !str_eq(parts.scheme.as_str(), "https") {
        let mut m = String::from_str("Relay URL must use HTTPS: ");
        m.append(url);
        return Err(m);
    }
    match parts.host {
        None => {
            let mut m = String::from_str("Relay URL must have a valid host: ");
            m.append(url);
            Err(m)
        },
        Some(_) => Ok(()),
    }
}

/// Checks that a relay URL parses, uses HTTPS and has a host.
pub fn validate_relay_url(url: &str) -> (result: Result<(), String>)
    ensures
        check_view(result) == relay_url_check(url@, url_parse(url@)),
{
    let parsed = parse_url(url);
    check_relay_url(url, parsed)
}

} // verus!
