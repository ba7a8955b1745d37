//! What a registration notification request is answered.

use vstd::prelude::*;
use crate::commitment::RegistrationNotification;
use crate::config::XgaConfig;
use crate::webhook::state::{has_key, DedupKey, DedupTracker};
use crate::webhook::validation::{notification_check, validate_notification_at};

verus! {

/// What to do with a registration notification.
#[derive(Debug)]
pub enum RegistrationAction {
    /// The request limit is reached.
    RateLimited,
    /// The notification breaks a rule; the text says which.
    Invalid(String),
    /// The relay is not one of the XGA relays.
    NotXgaRelay,
    /// The same registration was already queued.
    Duplicate,
    /// The notification goes to the processing queue.
    Queue,
}

/// Decides on a registration notification at Unix time `now` (seconds),
/// given whether the request limit allowed it: limited requests are
/// refused, then the notification is checked, then only XGA relays are
/// served, and a registration already queued is not queued again.
/// Remembers the registration when it is queued.
pub fn handle_registration(
    rate_allowed: bool,
    notification: &RegistrationNotification,
    config: &XgaConfig,
    dedup: &mut DedupTracker,
    now: u64,
) -> (action: RegistrationAction)
    ensures
        !rate_allowed ==> action is RateLimited,
        rate_allowed && notification_check(*notification, config.max_registration_age_secs, now) is Err ==>
            (action matches RegistrationAction::Invalid(m)
                && notification_check(*notification, config.max_registration_age_secs, now) == Err::<(), Seq<char>>(m@)),
        rate_allowed && notification_check(*notification, config.max_registration_age_secs, now) is Ok ==> {
            let xga = exists|i: int| 0 <= i < config.xga_relays@.len() && #[trigger] config.xga_relays@[i]@ == notification.relay_url@;
            let key = (notification.registration.message.pubkey, notification.timestamp, notification.relay_url@);
            &&& !xga ==> action is NotXgaRelay
            &&& xga && has_key(old(dedup).spec_keys(), key) ==> action is Duplicate
            &&& xga && !has_key(old(dedup).spec_keys(), key) ==> action is Queue
                && final(dedup).spec_keys() == old(dedup).spec_keys().push(key)
        },
        !(action is Queue) ==> final(dedup).spec_keys() == old(dedup).spec_keys(),
{
    if !rate_allowed {
        return RegistrationAction::RateLimited;
    }
    match validate_notification_at(notification, config, now) {
        Err(m) => return RegistrationAction::Invalid(m),
        Ok(()) => {},
    }
    if !config.is_xga_relay(notification.relay_url.as_str()) {
        return RegistrationAction::NotXgaRelay;
    }
    let key = DedupKey {
        validator_pubkey: notification.registration.message.pubkey,
        timestamp: notification.timestamp,
        relay_url: notification.relay_url.clone(),
    };
    if dedup.insert(key) {
        RegistrationAction::Queue
    } else {
        RegistrationAction::Duplicate
    }
}

/// The HTTP status and text a decision is answered with; a queued
/// notification is answered once the queue took it or refused it.
pub fn registration_response(action: &RegistrationAction, queued: bool) -> (response: (u16, String))
    ensures
        match action {
            RegistrationAction::RateLimited => response.0 == 429 && response.1@ == "Rate limit exceeded"@,
            RegistrationAction::Invalid(m) => response.0 == 400 && response.1@ == m@,
            RegistrationAction::NotXgaRelay => response.0 == 200 && response.1@ == "Not an XGA relay"@,
            RegistrationAction::Duplicate => response.0 == 200 && response.1@ == "Duplicate registration"@,
            RegistrationAction::Queue => if queued {
                response.0 == 200 && response.1@ == "Registration queued for XGA commitment"@
            } else {
                response.0 == 503 && response.1@ == "Processing queue full"@
            },
        },
{
    match action {
        RegistrationAction::RateLimited => (429, String::from_str("Rate limit exceeded")),
        RegistrationAction::Invalid(m) => (400, m.clone()),
        RegistrationAction::NotXgaRelay => (200, String::from_str("Not an XGA relay")),
        RegistrationAction::Duplicate => (200, String::from_str("Duplicate registration")),
        RegistrationAction::Queue => if queued {
            (200, String::from_str("Registration queued for XGA commitment"))
        } else {
            (503, String::from_str("Processing queue full"))
        },
    }
}

/// The answer of the health endpoint.
pub fn health_check() -> (answer: &'static str)
    ensures
        answer@ == "OK"@,
{
    "OK"
}

} // verus!
