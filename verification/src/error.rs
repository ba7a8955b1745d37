use vstd::prelude::*;
use crate::text::{decimal, u64_to_decimal};

verus! {

/// Errors of the reserved-gas logic.
///
/// Transport and decoding failures, which come from outside the library,
/// are carried as their rendered message.
#[derive(Debug, PartialEq, Eq)]
pub enum ReservedGasError {
    /// A relay answered with a gas configuration that breaks the rules.
    InvalidRelayConfig { relay_id: String, reason: String },
    /// The block gas limit left after the reservation is under the minimum.
    GasLimitTooLow { actual: u64, minimum: u64, reserved: u64 },
    /// A reservation above the largest amount the module accepts.
    ReservedGasTooHigh { amount: u64, max: u64 },
    /// Talking to a relay failed.
    RelayError(String),
    /// A relay could not be reached.
    RelayConnectionError { relay_id: String, message: String },
    /// Every relay is unavailable.
    NoHealthyRelays,
    /// No relay accepted the validator registrations.
    ValidatorRegistrationFailed,
    /// No relay accepted the block.
    BlockSubmissionFailed,
    /// The module is not in a state that allows the operation.
    ConfigError(String),
    /// A payload could not be encoded or decoded.
    SerializationError(String),
}

impl ReservedGasError {
    /// The text that describes this error.
    pub open spec fn spec_message(&self) -> Seq<char> {
        match self {
            ReservedGasError::InvalidRelayConfig { relay_id, reason } =>
                "Invalid gas configuration from relay "@ + relay_id@ + ": "@ + reason@,
            ReservedGasError::GasLimitTooLow { actual, minimum, reserved } =>
                "Gas limit "@ + decimal(*actual as nat) + " would be below minimum "@ + decimal(*minimum as nat)
                    + " after reserving "@ + decimal(*reserved as nat),
            ReservedGasError::ReservedGasTooHigh { amount, max } =>
                "Reserved gas amount "@ + decimal(*amount as nat) + " exceeds reasonable limit of "@ + decimal(*max as nat),
            ReservedGasError::RelayError(detail) => "Relay communication failed: "@ + detail@,
            ReservedGasError::RelayConnectionError { relay_id, message } =>
                "Relay connection error for "@ + relay_id@ + ": "@ + message@,
            ReservedGasError::NoHealthyRelays => "No healthy relays available"@,
            ReservedGasError::ValidatorRegistrationFailed => "Failed to register validators with any relay"@,
            ReservedGasError::BlockSubmissionFailed => "Failed to submit block to any relay"@,
            ReservedGasError::ConfigError(detail) => "Configuration error: "@ + detail@,
            ReservedGasError::SerializationError(detail) => "Serialization error: "@ + detail@,
        }
    }

    /// Renders the error as text.
    pub fn message(&self) -> (text: String)
        ensures
            text@ == self.spec_message(),
    {
        match self {
            ReservedGasError::InvalidRelayConfig { relay_id, reason } => {
                let mut text = String::from_str("Invalid gas configuration from relay ");
                text.append(relay_id.as_str());
                text.append(": ");
                text.append(reason.as_str());
                text
            },
            ReservedGasError::GasLimitTooLow { actual, minimum, reserved } => {
                let mut text = String::from_str("Gas limit ");
                text.append(u64_to_decimal(*actual).as_str());
                text.append(" would be below minimum ");
                text.append(u64_to_decimal(*minimum).as_str());
                text.append(" after reserving ");
                text.append(u64_to_decimal(*reserved).as_str());
                text
            },
            ReservedGasError::ReservedGasTooHigh { amount, max } => {
                let mut text = String::from_str("Reserved gas amount ");
                text.append(u64_to_decimal(*amount).as_str());
                text.append(" exceeds reasonable limit of ");
                text.append(u64_to_decimal(*max).as_str());
                text
            },
            ReservedGasError::RelayError(detail) => {
                let mut text = String::from_str("Relay communication failed: ");
                text.append(detail.as_str());
                text
            },
            ReservedGasError::RelayConnectionError { relay_id, message } => {
                let mut text = String::from_str("Relay connection error for ");
                text.append(relay_id.as_str());
                text.append(": ");
                text.append(message.as_str());
                text
            },
            ReservedGasError::NoHealthyRelays => String::from_str("No healthy relays available"),
            ReservedGasError::ValidatorRegistrationFailed => String::from_str("Failed to register validators with any relay"),
            ReservedGasError::BlockSubmissionFailed => String::from_str("Failed to submit block to any relay"),
            ReservedGasError::ConfigError(detail) => {
                let mut text = String::from_str("Configuration error: ");
                text.append(detail.as_str());
                text
            },
            ReservedGasError::SerializationError(detail) => {
                let mut text = String::from_str("Serialization error: ");
                text.append(detail.as_str());
                text
            },
        }
    }
}

} // verus!
