use xga_commitment::cli::{
    hex_with_prefix, parse_validator_pubkey, parse_validator_pubkeys, test_registration, trim_hex_prefixes, DEFAULT_GAS_LIMIT,
    TEST_FEE_RECIPIENT, TEST_VALIDATOR_PUBKEY,
};
use xga_commitment::commitment::RegistrationNotification;
use xga_commitment::config::{EigenLayerConfig, RelayGasConfig, RetryConfig, ValidatorRateLimitConfig, XgaConfig};
use xga_commitment::error::ReservedGasError;
use xga_commitment::infrastructure::circuit_breaker::CircuitBreaker;
use xga_commitment::poller::{accept_polled_registrations, poll_start_at, registrations_answer, registrations_endpoint, PollingState};
use xga_commitment::relay::{
    capabilities_confirm, capabilities_endpoint, commitment_endpoint, commitment_rejected, commitment_send_result, head_confirm,
    options_confirm, send_should_retry, trim_trailing_slashes, RelayAck,
};
use xga_commitment::relay_queries::{header_endpoint, header_query_end, query_begin, relay_request_url, reserve_query_end, QueryStep};
use xga_commitment::cache::LruCache;
use xga_commitment::wire::registration_from_text;
use xga_commitment::relay_communication::{
    build_gas_config_cache_key, build_header_cache_key, build_reserve_cache_key, cache_still_valid, gas_config_answer,
    header_answer, registration_answer, reserve_answer, status_answer, RelayBreakers,
};
use xga_commitment::service::{first_accepting_relay, health_outcome, pick_highest_bid, registration_outcome};
use xga_commitment::types::{Address, BlsPublicKey, BlsSignature, BuilderBid, ValidatorRegistration, ValidatorRegistrationMessage};
use xga_commitment::types::{AdjustedBid, RelayQueryResult};
use xga_commitment::u256::U256;
use xga_commitment::webhook::handlers::{handle_registration, health_check, registration_response, RegistrationAction};
use xga_commitment::webhook::monitoring::cleanup_expired_at;
use xga_commitment::webhook::processing::{create_commitment_from_notification, track_nonce};
use xga_commitment::webhook::state::{DedupKey, DedupTracker, NonceTracker};
use xga_commitment::webhook::validation::validate_notification_at;

fn registration(key: u8, timestamp: u64) -> ValidatorRegistration {
    ValidatorRegistration {
        message: ValidatorRegistrationMessage {
            fee_recipient: Address([0x02; 20]),
            gas_limit: 30_000_000,
            timestamp,
            pubkey: BlsPublicKey([key; 48]),
        },
        signature: BlsSignature([0x03; 96]),
    }
}

fn xga_config() -> XgaConfig {
    XgaConfig {
        polling_interval_secs: 5,
        xga_relays: vec!["https://relay.example.com".to_string()],
        max_registration_age_secs: 300,
        probe_relay_capabilities: false,
        retry_config: RetryConfig::default(),
        eigenlayer: EigenLayerConfig::default(),
        validator_rate_limit: ValidatorRateLimitConfig::default(),
    }
}

#[test]
fn relay_endpoints() {
    assert_eq!(trim_trailing_slashes("https://r.example.com///"), "https://r.example.com");
    assert_eq!(commitment_endpoint("https://r.example.com/"), "https://r.example.com/eth/v1/builder/xga/commitment");
    assert_eq!(capabilities_endpoint("https://r.example.com"), "https://r.example.com/eth/v1/builder/xga/capabilities");
    assert_eq!(registrations_endpoint("https://r.example.com/", 42), "https://r.example.com/eth/v1/builder/registrations?since=42");
}

#[test]
fn commitment_answers() {
    assert_eq!(commitment_send_result(200, "200 OK", None, ""), Ok(()));
    let ack = RelayAck { success: true, message: None, commitment_id: Some("c1".to_string()) };
    assert_eq!(commitment_send_result(201, "201 Created", Some(ack), ""), Ok(()));
    let nack = RelayAck { success: false, message: Some("bad slot".to_string()), commitment_id: None };
    assert_eq!(commitment_send_result(202, "202 Accepted", Some(nack), "").err().unwrap(), "Relay rejected commitment: bad slot");
    assert!(commitment_send_result(400, "400 Bad Request", None, "Invalid commitment format").err().unwrap().contains("Bad request"));
    assert!(commitment_send_result(401, "401 Unauthorized", None, "").err().unwrap().contains("Unauthorized"));
    assert!(commitment_send_result(404, "404 Not Found", None, "").err().unwrap().contains("not found"));
    assert!(commitment_send_result(429, "429 Too Many Requests", None, "").err().unwrap().contains("Rate limited"));
    assert_eq!(
        commitment_send_result(500, "500 Internal Server Error", None, "oops").err().unwrap(),
        "Relay returned 500 Internal Server Error: oops"
    );
}

#[test]
fn xga_support_probes() {
    assert!(capabilities_confirm(Some(200)));
    assert!(!capabilities_confirm(Some(404)));
    assert!(!capabilities_confirm(None));
    assert!(options_confirm(Some("POST, OPTIONS"), false));
    assert!(options_confirm(None, true));
    assert!(!options_confirm(Some("GET"), false));
    assert!(head_confirm(Some(405)));
    assert!(head_confirm(Some(200)));
    assert!(!head_confirm(Some(404)));
    assert!(!head_confirm(None));
    assert!(!head_confirm(Some(500)));
    assert!(!head_confirm(Some(503)));
}

#[test]
fn test_cache_key_generation() {
    let key = build_header_cache_key("relay1", 12345, "0x00", "0x01");
    assert!(key.contains("relay1"));
    assert!(key.contains("12345"));
    assert_eq!(key, "header:relay1:12345:0x00:0x01");
    assert_eq!(build_gas_config_cache_key("relay1", "/gas_config"), "gas_config:relay1:/gas_config");
    assert_eq!(build_reserve_cache_key("relay1", "/reserve"), "reserve:relay1:/reserve");
}

#[test]
fn relay_answers() {
    let cfg = RelayGasConfig { reserved_gas_limit: 2_000_000, min_gas_limit: None, update_interval: None };
    assert_eq!(gas_config_answer("r", 200, "200 OK", Ok(cfg)), Ok(Some(cfg)));
    assert_eq!(gas_config_answer("r", 404, "404 Not Found", Ok(cfg)), Ok(None));
    assert_eq!(
        gas_config_answer("r", 500, "500 Internal Server Error", Ok(cfg)),
        Err(ReservedGasError::ConfigError("Unexpected status from relay gas config endpoint: 500 Internal Server Error".to_string()))
    );
    assert_eq!(
        gas_config_answer("r", 200, "200 OK", Err("eof".to_string())),
        Err(ReservedGasError::RelayError("eof".to_string()))
    );
    assert_eq!(reserve_answer(200, "200 OK", Ok(Some(2_000_000))), Ok(Some(2_000_000)));
    assert_eq!(
        reserve_answer(200, "200 OK", Ok(Some(40_000_000))),
        Err(ReservedGasError::ReservedGasTooHigh { amount: 40_000_000, max: 30_000_000 })
    );
    assert!(matches!(reserve_answer(200, "200 OK", Ok(None)), Err(ReservedGasError::ConfigError(_))));
    assert_eq!(reserve_answer(404, "404 Not Found", Ok(None)), Ok(None));
    assert_eq!(header_answer(200, "200 OK", Ok(5u32)), Ok(Some(5)));
    assert!(header_answer::<u32>(502, "502 Bad Gateway", Ok(5)).is_err());
    assert!(registration_answer(200, "200 OK").is_ok());
    assert_eq!(
        registration_answer(400, "400 Bad Request"),
        Err(ReservedGasError::ConfigError("Failed to register validators: 400 Bad Request".to_string()))
    );
    assert!(submit_answer_ok());
    assert_eq!(
        status_answer(503, "503 Service Unavailable"),
        Err(ReservedGasError::ConfigError("Relay unhealthy: status 503 Service Unavailable".to_string()))
    );
    assert!(cache_still_valid(304));
    assert!(!cache_still_valid(200));
}

fn submit_answer_ok() -> bool {
    xga_commitment::relay_communication::submit_answer(202, "202 Accepted").is_ok()
}

#[test]
fn relay_breakers_open_after_failures() {
    let mut b = RelayBreakers::new();
    assert!(b.begin_at("r", 0).is_ok());
    for i in 0..5u32 {
        b.after_attempt_at("r", i % 3, false, 10 + i as u64);
    }
    match b.begin_at("r", 20) {
        Err(ReservedGasError::RelayConnectionError { relay_id, message }) => {
            assert_eq!(relay_id, "r");
            assert_eq!(message, "Circuit breaker is open");
        }
        other => panic!("unexpected {:?}", other),
    }
    assert!(b.begin_at("other", 20).is_ok());
    assert!(b.begin_at("r", 30_100).is_ok());
    assert!(b.after_attempt_at("x", 0, false, 1));
    assert!(b.after_attempt_at("x", 1, false, 2));
    assert!(!b.after_attempt_at("x", 2, false, 3));
    assert!(!b.after_attempt_at("x", 0, true, 4));
}

#[test]
fn best_bid_and_outcomes() {
    let bid = |v: u128| {
        RelayQueryResult::Bid(AdjustedBid {
            response: BuilderBid { gas_limit: 28_000_000, value: U256::from_u128(v) },
            original_gas_limit: 30_000_000,
            reserved_gas: 2_000_000,
            relay_id: "r".to_string(),
        })
    };
    let results = vec![RelayQueryResult::NoBid, bid(5), RelayQueryResult::Error("x".to_string()), bid(9), bid(9)];
    assert_eq!(pick_highest_bid(&results).unwrap().value, U256::from_u128(9));
    assert!(pick_highest_bid(&vec![RelayQueryResult::NoBid]).is_none());
    assert!(registration_outcome(&vec![false, true]).is_ok());
    assert_eq!(registration_outcome(&vec![false]), Err(ReservedGasError::ValidatorRegistrationFailed));
    assert_eq!(health_outcome(&vec![]), Err(ReservedGasError::NoHealthyRelays));
    assert_eq!(first_accepting_relay(&vec![false, true, true]), Ok(1));
    assert_eq!(first_accepting_relay(&vec![false, false]), Err(ReservedGasError::BlockSubmissionFailed));
}

#[test]
fn test_polling_state_tracks_timestamps() {
    let mut state = PollingState::new();
    let relay_url = "https://test-relay.com";
    assert_eq!(state.get_last_seen(relay_url), None);
    state.update_last_seen(relay_url, 1_234_567_890);
    assert_eq!(state.get_last_seen(relay_url), Some(1_234_567_890));
    state.update_last_seen(relay_url, 1_234_567_900);
    assert_eq!(state.get_last_seen(relay_url), Some(1_234_567_900));
}

#[test]
fn polled_registrations_are_filtered() {
    let mut state = PollingState::new();
    let now = 1_700_000_000;
    let mut zero_key = registration(0, now);
    zero_key.message.pubkey = BlsPublicKey([0; 48]);
    let regs = vec![registration(1, now - 10), registration(2, now - 1_000), zero_key, registration(3, now)];
    let notes = accept_polled_registrations(&mut state, "https://r.example.com", &regs, 60, now);
    assert_eq!(notes.len(), 2);
    assert_eq!(notes[0].registration.message.pubkey.0, [1; 48]);
    assert_eq!(notes[1].registration.message.pubkey.0, [3; 48]);
    assert!(notes.iter().all(|n| n.timestamp == now && n.relay_url == "https://r.example.com"));
    assert_eq!(state.get_last_seen("https://r.example.com"), Some(now));
    let none = accept_polled_registrations(&mut state, "https://q.example.com", &vec![], 60, now);
    assert!(none.is_empty());
    assert_eq!(state.get_last_seen("https://q.example.com"), None);

    let mut cb = CircuitBreaker::new(1, 1_000);
    assert!(registrations_answer(&mut cb, "https://r.example.com", 200, "200 OK", 0).is_ok());
    assert_eq!(
        registrations_answer(&mut cb, "https://r.example.com", 500, "500 Internal Server Error", 1).err(),
        Some("Relay returned error status: 500 Internal Server Error".to_string())
    );
    assert!(cb.is_open_at("https://r.example.com", 2));
}

fn notification(now: u64) -> RegistrationNotification {
    RegistrationNotification {
        registration: registration(1, now - 10),
        relay_url: "https://relay.example.com".to_string(),
        timestamp: now - 10,
    }
}

#[test]
fn test_validate_notification() {
    let now = 1_700_000_000;
    let config = xga_config();
    let valid = notification(now);
    assert!(validate_notification_at(&valid, &config, now).is_ok());

    let mut invalid_url = notification(now);
    invalid_url.relay_url = "http://relay.example.com".to_string();
    assert!(validate_notification_at(&invalid_url, &config, now).is_err());

    let mut old = notification(now);
    old.timestamp = now - 400;
    assert_eq!(validate_notification_at(&old, &config, now).err(), Some("Registration too old: 400 seconds".to_string()));

    let mut future = notification(now);
    future.timestamp = now + 10;
    assert_eq!(validate_notification_at(&future, &config, now).err(), Some("Registration timestamp is in the future".to_string()));
    future.timestamp = now + 5;
    assert!(validate_notification_at(&future, &config, now).is_ok());

    let mut zero_pubkey = notification(now);
    zero_pubkey.registration.message.pubkey = BlsPublicKey([0; 48]);
    assert!(validate_notification_at(&zero_pubkey, &config, now).is_err());

    let mut zero_fee = notification(now);
    zero_fee.registration.message.fee_recipient = Address([0; 20]);
    assert_eq!(validate_notification_at(&zero_fee, &config, now).err(), Some("Invalid fee recipient: zero address".to_string()));

    let mut low_gas = notification(now);
    low_gas.registration.message.gas_limit = 500_000;
    assert_eq!(validate_notification_at(&low_gas, &config, now).err(), Some("Gas limit too low: 500000 < 1000000".to_string()));

    let mut high_gas = notification(now);
    high_gas.registration.message.gas_limit = 60_000_000;
    assert_eq!(validate_notification_at(&high_gas, &config, now).err(), Some("Gas limit too high: 60000000 > 50000000".to_string()));

    let mut zero_sig = notification(now);
    zero_sig.registration.signature = BlsSignature([0; 96]);
    assert_eq!(validate_notification_at(&zero_sig, &config, now).err(), Some("Invalid signature: all zeros".to_string()));
}

#[test]
fn test_nonce_replay_protection() {
    let mut tracker = NonceTracker::new();
    let key = BlsPublicKey([1; 48]);
    assert!(track_nonce(&mut tracker, [0x42; 32], key, 0));
    assert!(!track_nonce(&mut tracker, [0x42; 32], key, 1));
    assert!(track_nonce(&mut tracker, [0x43; 32], BlsPublicKey([2; 48]), 2));
    assert_eq!(tracker.len(), 2);

    let mut dedup = DedupTracker::new();
    assert!(dedup.insert(DedupKey { validator_pubkey: key, timestamp: 100, relay_url: "u".to_string() }));
    assert!(!dedup.insert(DedupKey { validator_pubkey: key, timestamp: 100, relay_url: "u".to_string() }));
    assert!(dedup.insert(DedupKey { validator_pubkey: key, timestamp: 101, relay_url: "u".to_string() }));

    let forgotten = cleanup_expired_at(&mut tracker, &mut dedup, 300_001, Some(400));
    assert_eq!(forgotten, 1);
    assert_eq!(tracker.len(), 1);
    assert_eq!(dedup.len(), 1);
    let again = cleanup_expired_at(&mut tracker, &mut dedup, 300_001, None);
    assert_eq!(again, 0);
    assert_eq!(dedup.len(), 1);
}

#[test]
fn webhook_decisions() {
    let now = 1_700_000_000;
    let config = xga_config();
    let mut dedup = DedupTracker::new();
    assert!(matches!(handle_registration(false, &notification(now), &config, &mut dedup, now), RegistrationAction::RateLimited));
    let first = handle_registration(true, &notification(now), &config, &mut dedup, now);
    assert!(matches!(first, RegistrationAction::Queue));
    assert!(matches!(handle_registration(true, &notification(now), &config, &mut dedup, now), RegistrationAction::Duplicate));
    let mut other = notification(now);
    other.relay_url = "https://other.example.com".to_string();
    assert!(matches!(handle_registration(true, &other, &config, &mut dedup, now), RegistrationAction::NotXgaRelay));
    let mut bad = notification(now);
    bad.registration.signature = BlsSignature([0; 96]);
    assert!(matches!(handle_registration(true, &bad, &config, &mut dedup, now), RegistrationAction::Invalid(_)));

    assert_eq!(registration_response(&first, true), (200, "Registration queued for XGA commitment".to_string()));
    assert_eq!(registration_response(&first, false), (503, "Processing queue full".to_string()));
    assert_eq!(registration_response(&RegistrationAction::RateLimited, true), (429, "Rate limit exceeded".to_string()));
    assert_eq!(health_check(), "OK");

    let c = create_commitment_from_notification(&notification(now), 1, now);
    assert_eq!(c.chain_id, 1);
    assert_eq!(c.timestamp, now);
    let expected = xga_commitment::types::RelayId::from_url("relay.example.com");
    assert_eq!(c.relay_id, expected);
}

#[test]
fn command_line_helpers() {
    assert_eq!(trim_hex_prefixes("0x0xab"), "ab");
    assert_eq!(trim_hex_prefixes("ab"), "ab");
    let hex = format!("0x{}", "11".repeat(48));
    assert_eq!(parse_validator_pubkey(&hex).unwrap().0, [0x11; 48]);
    assert_eq!(parse_validator_pubkey("0x1111").err(), Some("Validator pubkey must be 48 bytes".to_string()));
    assert!(parse_validator_pubkey("0xzz").err().unwrap().starts_with("Invalid validator pubkey: "));
    assert_eq!(parse_validator_pubkeys(&vec![hex.clone(), hex.clone()]).unwrap().len(), 2);
    assert!(parse_validator_pubkeys(&vec![hex, "bad".to_string()]).is_err());

    let r = test_registration(None, 1_700_000_000);
    assert_eq!(r.message.pubkey.0, TEST_VALIDATOR_PUBKEY);
    assert_eq!(r.message.fee_recipient.0, TEST_FEE_RECIPIENT);
    assert_eq!(r.message.gas_limit, DEFAULT_GAS_LIMIT);
    assert_eq!(test_registration(Some(25_000_000), 1).message.gas_limit, 25_000_000);
    assert_eq!(hex_with_prefix(&[0xab, 0x01]), "0xab01");
    assert!(hex_with_prefix(&TEST_VALIDATOR_PUBKEY).starts_with("0xb060572f"));
}

#[test]
fn test_send_commitment_error_handling() {
    let bad = commitment_send_result(400, "400 Bad Request", None, "Invalid commitment format").unwrap_err();
    assert!(bad.contains("Bad request"));
    let unauthorized = commitment_send_result(401, "401 Unauthorized", None, "").unwrap_err();
    assert!(unauthorized.contains("Unauthorized"));
    let missing = commitment_send_result(404, "404 Not Found", None, "").unwrap_err();
    assert!(missing.contains("not found"));
    let limited = commitment_send_result(429, "429 Too Many Requests", None, "").unwrap_err();
    assert!(limited.contains("Rate limited"));
}

#[test]
fn test_check_xga_support_methods() {
    // the capabilities endpoint answers 200
    assert!(capabilities_confirm(Some(200)));
    // no capabilities endpoint, but OPTIONS lists POST
    assert!(!capabilities_confirm(Some(501)));
    assert!(options_confirm(Some("POST, OPTIONS"), false));
    // OPTIONS answers with the XGA header
    assert!(options_confirm(None, true));
    // HEAD answers 405: the endpoint exists
    assert!(!options_confirm(None, false));
    assert!(head_confirm(Some(405)));
    // HEAD answers 404: not supported
    assert!(!head_confirm(Some(404)));
}

#[test]
fn poll_start_follows_breaker_and_last_seen() {
    let mut polling = PollingState::new();
    let mut breaker = CircuitBreaker::new(1, 1_000);
    let relay = "https://relay.example.com";
    assert_eq!(poll_start_at(&polling, &mut breaker, relay, 10_000), Some(0));
    polling.update_last_seen(relay, 1_700_000_000);
    assert_eq!(poll_start_at(&polling, &mut breaker, relay, 10_000), Some(1_700_000_000));
    breaker.record_failure_at(relay, 10_000);
    assert_eq!(poll_start_at(&polling, &mut breaker, relay, 10_500), None);
    // past the reset timeout one poll is let through
    assert_eq!(poll_start_at(&polling, &mut breaker, relay, 12_000), Some(1_700_000_000));
}

#[test]
fn send_retries_follow_the_failure_kind() {
    assert!(send_should_retry(0, 3, None, false));
    assert!(send_should_retry(0, 3, Some(500), false));
    assert!(send_should_retry(2, 3, Some(503), false));
    assert!(send_should_retry(1, 3, Some(429), false));
    assert!(!send_should_retry(3, 3, Some(500), false));
    assert!(!send_should_retry(0, 0, None, false));
    assert!(!send_should_retry(0, 3, Some(400), false));
    assert!(!send_should_retry(0, 3, Some(404), false));
    assert!(!send_should_retry(0, 3, Some(200), true));
}

#[test]
fn rejection_is_a_success_code_with_success_false() {
    let refused = Some(RelayAck { success: false, message: None, commitment_id: None });
    let accepted = Some(RelayAck { success: true, message: None, commitment_id: None });
    assert!(commitment_rejected(200, &refused));
    assert!(commitment_rejected(202, &refused));
    assert!(!commitment_rejected(200, &accepted));
    assert!(!commitment_rejected(200, &None));
    assert!(!commitment_rejected(500, &refused));
}

#[test]
fn cached_queries_use_revalidate_or_fetch() {
    let mut cache: LruCache<u64> = LruCache::new(10, 1_000);
    assert!(matches!(query_begin(&mut cache, "r", 0), QueryStep::Fetch));

    let fetched = reserve_query_end(&mut cache, "r".to_string(), None, 200, "200 OK", None, Ok(Some(5_000_000)), 0);
    assert_eq!(fetched, Ok(Some(5_000_000)));
    assert!(matches!(query_begin(&mut cache, "r", 10), QueryStep::UseCached(5_000_000)));
    assert!(matches!(query_begin(&mut cache, "r", 2_000), QueryStep::Fetch));

    let tagged = reserve_query_end(&mut cache, "t".to_string(), None, 200, "200 OK", Some("\"v1\"".to_string()), Ok(Some(7)), 0);
    assert_eq!(tagged, Ok(Some(7)));
    match query_begin(&mut cache, "t", 5) {
        QueryStep::Revalidate { etag, cached } => {
            assert_eq!(etag, "\"v1\"");
            assert_eq!(cached, 7);
        }
        _ => panic!("expected a revalidation"),
    }
    let not_modified = reserve_query_end(&mut cache, "t".to_string(), Some(7), 304, "304 Not Modified", None, Ok(None), 5);
    assert_eq!(not_modified, Ok(Some(7)));

    let failed = reserve_query_end(&mut cache, "x".to_string(), None, 500, "500 Internal Server Error", None, Ok(None), 5);
    assert!(matches!(failed, Err(ReservedGasError::ConfigError(_))));
    assert!(matches!(query_begin(&mut cache, "x", 6), QueryStep::Fetch));

    let missing = reserve_query_end(&mut cache, "m".to_string(), None, 404, "404 Not Found", None, Ok(None), 5);
    assert_eq!(missing, Ok(None));
    assert!(matches!(query_begin(&mut cache, "m", 6), QueryStep::Fetch));

    let mut headers: LruCache<String> = LruCache::new(10, 1_000);
    let header = header_query_end(&mut headers, "h".to_string(), None, 200, "200 OK", None, Ok("bid".to_string()), 0);
    assert_eq!(header, Ok(Some("bid".to_string())));
    assert!(matches!(query_begin(&mut headers, "h", 1), QueryStep::UseCached(ref h) if h == "bid"));
}

#[test]
fn refused_gas_configurations_name_their_reason() {
    let zero = RelayGasConfig { reserved_gas_limit: 0, min_gas_limit: None, update_interval: None };
    assert_eq!(
        gas_config_answer("r", 200, "200 OK", Ok(zero)),
        Err(ReservedGasError::InvalidRelayConfig { relay_id: "r".to_string(), reason: "gas limit must be greater than zero".to_string() })
    );
    let high = RelayGasConfig { reserved_gas_limit: 40_000_000, min_gas_limit: None, update_interval: None };
    assert!(matches!(
        gas_config_answer("r", 200, "200 OK", Ok(high)),
        Err(ReservedGasError::ReservedGasTooHigh { amount: 40_000_000, .. })
    ));
    let low_floor = RelayGasConfig { reserved_gas_limit: 2_000_000, min_gas_limit: Some(1), update_interval: None };
    assert_eq!(
        gas_config_answer("q", 200, "200 OK", Ok(low_floor)),
        Err(ReservedGasError::InvalidRelayConfig {
            relay_id: "q".to_string(),
            reason: "minimum gas limit is below the block gas floor".to_string()
        })
    );
}

#[test]
fn first_refused_key_gives_the_error() {
    let good = format!("0x{}", "ab".repeat(48));
    let short = "0xabcd".to_string();
    let bad = "0xzz".to_string();
    assert_eq!(parse_validator_pubkeys(&vec![good.clone(), short.clone(), bad.clone()]).unwrap_err(), "Validator pubkey must be 48 bytes");
    assert!(parse_validator_pubkeys(&vec![good, bad, short]).unwrap_err().starts_with("Invalid validator pubkey: "));
}

#[test]
fn registration_text_errors_name_the_first_bad_field() {
    let fee = format!("0x{}", "01".repeat(20));
    let key = format!("0x{}", "02".repeat(48));
    let sig = format!("0x{}", "03".repeat(96));
    assert!(registration_from_text(&fee, "30000000", "1700000000", &key, &sig).is_ok());
    assert_eq!(registration_from_text("0x01", "x", "y", &key, &sig).unwrap_err(), "Invalid fee recipient");
    assert_eq!(registration_from_text(&fee, "x", "y", &key, &sig).unwrap_err(), "Invalid gas limit");
    assert_eq!(registration_from_text(&fee, "1", "y", "0x", &sig).unwrap_err(), "Invalid timestamp");
    assert_eq!(registration_from_text(&fee, "1", "2", "0x", &sig).unwrap_err(), "Invalid validator public key");
    assert_eq!(registration_from_text(&fee, "1", "2", &key, "0x00").unwrap_err(), "Invalid signature");
}

#[test]
fn query_urls_are_resolved_against_the_relay() {
    assert_eq!(header_endpoint(12345, "0x00", "0x01"), "/eth/v1/builder/header/12345/0x00/0x01");
    assert_eq!(
        relay_request_url("https://relay.example.com/base/", "/xga/reserve").unwrap(),
        "https://relay.example.com/xga/reserve"
    );
    assert_eq!(
        relay_request_url("https://relay.example.com/base/", "reserve").unwrap(),
        "https://relay.example.com/base/reserve"
    );
    match relay_request_url("not a url", "/x") {
        Err(ReservedGasError::ConfigError(m)) => assert!(m.starts_with("Invalid URL: ")),
        other => panic!("unexpected: {:?}", other),
    }
}
