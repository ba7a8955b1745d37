//! Checks on the registration notifications the webhook receives.

use vstd::prelude::*;
use crate::commitment::RegistrationNotification;
use crate::config::XgaConfig;
use crate::infrastructure::error::Error;
use crate::infrastructure::urls::{checked_url, parse_and_validate_url, url_parse};
use crate::infrastructure::utils::get_current_timestamp;
use crate::text::{decimal, u64_to_decimal};
use crate::types::BlsSignature;
use crate::validation::{sat_sub, zero_pubkey};

verus! {

/// Smallest gas limit a notified registration may carry.
pub const MIN_GAS_LIMIT: u64 = 1_000_000;

/// Largest gas limit a notified registration may carry.
pub const MAX_GAS_LIMIT: u64 = 50_000_000;

/// How far, in seconds, a notification may lie in the future.
pub const MAX_CLOCK_SKEW_SECONDS: u64 = 5;

/// The outcome of the relay URL rules, with errors rendered as text.
pub open spec fn relay_url_outcome(url: Seq<char>) -> Result<(), Seq<char>> {
    match checked_url(url, url_parse(url)) {
        Ok(_) => Ok(()),
        Err(m) => Err("Invalid URL: "@ + m),
    }
}

/// Checks that a relay URL parses, uses HTTPS, has a host and is not local.
pub fn validate_relay_url(relay_url: &str) -> (result: Result<(), String>)
    ensures
        match result {
            Ok(()) => relay_url_outcome(relay_url@) is Ok,
            Err(m) => relay_url_outcome(relay_url@) == Err::<(), Seq<char>>(m@),
        },
{
    match parse_and_validate_url(relay_url) {
        Ok(_) => Ok(()),
        Err(e) => {
            let m = e.message();
            match &e {
                Error::InvalidUrl(_) => {},
                _ => { assert(false); },
            }
            Err(m)
        },
    }
}

/// Every byte of the signature is zero.
pub open spec fn zero_signature(signature: BlsSignature) -> bool {
    forall|i: int| 0 <= i < 96 ==> signature.0[i] == 0
}

/// Whether every byte of `signature` is zero.
fn is_zero_signature(signature: &BlsSignature) -> (zero: bool)
    ensures
        zero == zero_signature(*signature),
{
    let mut i: usize = 0;
    while i < 96
        invariant
            i <= 96,
            forall|j: int| 0 <= j < i ==> signature.0[j] == 0,
        decreases 96 - i,
    {
        if signature.0[i] != 0 {
            return false;
        }
        i = i + 1;
    }
    true
}

/// The outcome of checking a notification at Unix time `now` (seconds),
/// rule by rule: the relay URL, the age, a timestamp not too far in the
/// future, the key, the fee recipient, the gas limit and the signature.
pub open spec fn notification_check(n: RegistrationNotification, max_age_secs: u64, now: u64) -> Result<(), Seq<char>> {
    let message = n.registration.message;
    if relay_url_outcome(n.relay_url@) is Err {
        relay_url_outcome(n.relay_url@)
    } else if sat_sub(now, n.timestamp) > max_age_secs {
        Err("Registration too old: "@ + decimal(sat_sub(now, n.timestamp) as nat) + " seconds"@)
    } else if n.timestamp > now + MAX_CLOCK_SKEW_SECONDS {
        Err("Registration timestamp is in the future"@)
    } else if zero_pubkey(message.pubkey) {
        Err("Invalid validator public key: all zeros"@)
    } else if message.fee_recipient.spec_is_zero() {
        Err("Invalid fee recipient: zero address"@)
    } else if message.gas_limit < MIN_GAS_LIMIT {
        Err("Gas limit too low: "@ + decimal(message.gas_limit as nat) + " < 1000000"@)
    } else if message.gas_limit > MAX_GAS_LIMIT {
        Err("Gas limit too high: "@ + decimal(message.gas_limit as nat) + " > 50000000"@)
    } else if zero_signature(n.registration.signature) {
        Err("Invalid signature: all zeros"@)
    } else {
        Ok(())
    }
}

/// The result as character sequences.
pub open spec fn outcome_view(result: Result<(), String>) -> Result<(), Seq<char>> {
    match result {
        Ok(()) => Ok(()),
        Err(m) => Err(m@),
    }
}

/// Checks a registration notification at Unix time `now` (seconds) against
/// the module's oldest accepted age.
pub fn validate_notification_at(notification: &RegistrationNotification, config: &XgaConfig, now: u64) -> (result: Result<(), String>)
    ensures
        outcome_view(result) == notification_check(*notification, config.max_registration_age_secs, now),
{
    match validate_relay_url(notification.relay_url.as_str()) {
        Err(m) => return Err(m),
        Ok(()) => {},
    }
    let age = now.saturating_sub(notification.timestamp);
    if age > config.max_registration_age_secs {
        let mut m = String::from_str("Registration too old: ");
        m.append(u64_to_decimal(age).as_str());
        m.append(" seconds");
        return Err(m);
    }
    if notification.timestamp > MAX_CLOCK_SKEW_SECONDS && notification.timestamp - MAX_CLOCK_SKEW_SECONDS > now {
        return Err(String::from_str("Registration timestamp is in the future"));
    }
    let message = &notification.registration.message;
    if crate::validation::validate_validator_pubkey(&message.pubkey).is_err() {
        return Err(String::from_str("Invalid validator public key: all zeros"));
    }
    if message.fee_recipient.is_zero() {
        return Err(String::from_str("Invalid fee recipient: zero address"));
    }
    let gas_limit = message.gas_limit;
    if gas_limit < MIN_GAS_LIMIT {
        let mut m = String::from_str("Gas limit too low: ");
        m.append(u64_to_decimal(gas_limit).as_str());
        m.append(" < 1000000");
        return Err(m);
    }
    if gas_limit > MAX_GAS_LIMIT {
        let mut m = String::from_str("Gas limit too high: ");
        m.append(u64_to_decimal(gas_limit).as_str());
        m.append(" > 50000000");
        return Err(m);
    }
    if is_zero_signature(&notification.registration.signature) {
        return Err(String::from_str("Invalid signature: all zeros"));
    }
    Ok(())
}

/// Checks a registration notification against the current Unix time; a
/// clock failure is reported as the error it gives.
pub fn validate_notification(notification: &RegistrationNotification, config: &XgaConfig) -> (result: Result<(), String>)
    ensures
        relay_url_outcome(notification.relay_url@) is Err ==> outcome_view(result) == relay_url_outcome(notification.relay_url@),
        result is Ok ==> exists|now: u64| #[trigger] notification_check(*notification, config.max_registration_age_secs, now) is Ok,
{
    match validate_relay_url(notification.relay_url.as_str()) {
        Err(m) => return Err(m),
        Ok(()) => {},
    }
    match get_current_timestamp() {
        Err(e) => Err(e.message()),
        Ok(now) => validate_notification_at(notification, config, now),
    }
}

} // verus!
