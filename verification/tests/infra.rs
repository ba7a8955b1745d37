use xga_commitment::cache::{CircuitBreaker as RelayCircuit, CircuitState, LruCache};
use xga_commitment::infrastructure::circuit_breaker::CircuitBreaker;
use xga_commitment::infrastructure::error::Error;
use xga_commitment::infrastructure::http_client::HttpClientFactory;
use xga_commitment::infrastructure::rate_limiter::{RateLimiter, ValidatorRateLimiter};
use xga_commitment::infrastructure::urls::parse_and_validate_url;
use xga_commitment::infrastructure::utils::{is_local_address, parse_u8};
use xga_commitment::register_validator::{registration_batches, registration_succeeded, RegistrationRetry};
use xga_commitment::registration_cache::{RegistrationCache, REGISTRATION_TTL_MS};
use xga_commitment::webhook::utils::extract_relay_id;
use xga_commitment::types::{Address, BlsPublicKey, BlsSignature, ValidatorRegistration, ValidatorRegistrationMessage};

fn registration(key: u8, gas: u64) -> ValidatorRegistration {
    ValidatorRegistration {
        message: ValidatorRegistrationMessage {
            fee_recipient: Address([0x02; 20]),
            gas_limit: gas,
            timestamp: 1_700_000_000,
            pubkey: BlsPublicKey([key; 48]),
        },
        signature: BlsSignature([0x03; 96]),
    }
}

#[test]
fn url_rules() {
    let parts = parse_and_validate_url("https://relay.example.com/path").unwrap();
    assert_eq!(parts.scheme, "https");
    assert_eq!(parts.host.as_deref(), Some("relay.example.com"));
    match parse_and_validate_url("http://relay.example.com") {
        Err(Error::InvalidUrl(m)) => assert!(m.contains("must use HTTPS scheme")),
        other => panic!("unexpected {:?}", other),
    }
    match parse_and_validate_url("https://10.1.2.3") {
        Err(Error::InvalidUrl(m)) => assert!(m.contains("local addresses")),
        other => panic!("unexpected {:?}", other),
    }
    match parse_and_validate_url("not-a-url") {
        Err(Error::InvalidUrl(m)) => assert!(m.starts_with("Failed to parse URL 'not-a-url': ")),
        other => panic!("unexpected {:?}", other),
    }
    assert_eq!(Error::Timeout.message(), "Request timeout");
}

#[test]
fn local_addresses() {
    assert!(is_local_address("localhost"));
    assert!(is_local_address("127.0.0.1"));
    assert!(is_local_address("0.0.0.0"));
    assert!(is_local_address("10.0.0.1"));
    assert!(is_local_address("192.168.1.1"));
    assert!(is_local_address("172.16.5.4"));
    assert!(!is_local_address("172.32.0.1"));
    assert!(!is_local_address("relay.example.com"));
    assert!(is_local_address("[fe80::1]"));
    assert!(is_local_address("[fc00::1]"));
    assert!(is_local_address("fe80::1"));
    assert_eq!(parse_u8("255"), Some(255));
    assert_eq!(parse_u8("256"), None);
    assert_eq!(parse_u8(""), None);
    assert_eq!(parse_u8("1a"), None);
}

#[test]
fn failures_open_and_success_closes() {
    let mut cb = CircuitBreaker::new(3, 60_000);
    assert!(!cb.is_open_at("r", 0));
    cb.record_failure_at("r", 1);
    cb.record_failure_at("r", 2);
    assert!(!cb.is_open_at("r", 3));
    cb.record_failure_at("r", 4);
    assert!(cb.is_open_at("r", 5));
    assert!(!cb.is_open_at("other", 5));
    // after the reset timeout one test request goes through
    assert!(!cb.is_open_at("r", 60_005));
    cb.record_failure_at("r", 60_006);
    assert!(cb.is_open_at("r", 60_007));
    cb.record_success("r");
    assert!(!cb.is_open_at("r", 60_008));
}

#[test]
fn rate_limit_window() {
    let mut rl = RateLimiter::new(2, 1_000);
    assert!(rl.check_rate_limit_at(0));
    assert!(rl.check_rate_limit_at(10));
    assert!(!rl.check_rate_limit_at(20));
    assert_eq!(rl.current_count_at(500), 2);
    assert!(rl.check_rate_limit_at(1_005));
    assert_eq!(rl.current_count_at(1_006), 2);

    let mut v = ValidatorRateLimiter::new(1, 1_000);
    let a = BlsPublicKey([1; 48]);
    let b = BlsPublicKey([2; 48]);
    assert!(v.check_rate_limit_at(&a, 0));
    assert!(!v.check_rate_limit_at(&a, 1));
    assert!(v.check_rate_limit_at(&b, 1));
    assert_eq!(v.current_count_at(&a, 2), 1);
    assert_eq!(v.cleanup_old_limiters_at(4_000_000), 2);
}

#[test]
fn lru_cache_read_back_and_eviction() {
    let mut cache: LruCache<u64> = LruCache::new(2, 1_000);
    cache.insert_at("a".to_string(), 1, Some("etag-a".to_string()), 0);
    cache.insert_at("b".to_string(), 2, None, 0);
    assert_eq!(cache.get_at("a", 10), Some((1, Some("etag-a".to_string()))));
    cache.insert_at("c".to_string(), 3, None, 20);
    // "b" was the least recently used
    assert_eq!(cache.get_at("b", 30), None);
    assert_eq!(cache.get_at("c", 30), Some((3, None)));
    assert_eq!(cache.get_etag_at("a", 40), Some("etag-a".to_string()));
    // expired after its lifetime
    assert_eq!(cache.get_at("a", 5_000), None);
    let stats = cache.stats();
    assert_eq!(stats.capacity, 2);
    assert_eq!(stats.hits, 2);
    assert_eq!(stats.misses, 1);
    cache.insert_with_ttl_at("d".to_string(), 4, None, 10, 6_000);
    cache.clear_expired_at(7_000);
    assert_eq!(cache.stats().size, 0);
    assert_eq!(cache.remove("zzz"), None);
}

#[test]
fn relay_circuit_states() {
    let mut cb = RelayCircuit::new(2, 100, 1);
    assert!(cb.can_proceed_at(0));
    cb.record_failure_at(1);
    cb.record_failure_at(2);
    assert_eq!(cb.state(), CircuitState::Open);
    assert!(!cb.can_proceed_at(50));
    assert!(cb.can_proceed_at(200));
    assert_eq!(cb.state(), CircuitState::HalfOpen);
    assert!(cb.can_proceed_at(201));
    assert!(!cb.can_proceed_at(202));
    cb.record_success();
    assert_eq!(cb.state(), CircuitState::Closed);
    cb.record_failure_at(300);
    cb.reset();
    assert_eq!(cb.state(), CircuitState::Closed);
    assert_eq!(cb.failure_count, 0);
}

#[test]
fn registration_cache_remembers() {
    let mut cache = RegistrationCache::new();
    let key = BlsPublicKey([9; 48]);
    let fee = Address([1; 20]);
    assert!(cache.needs_registration_at(&key, &fee, 30_000_000, 0));
    cache.mark_registered_at(key, fee, 30_000_000, 0);
    assert!(!cache.needs_registration_at(&key, &fee, 30_000_000, 1_000));
    assert!(cache.needs_registration_at(&key, &fee, 31_000_000, 1_000));
    assert!(cache.needs_registration_at(&key, &fee, 30_000_000, REGISTRATION_TTL_MS + 1));
    let (hits, misses, size) = cache.stats();
    assert_eq!((hits, size), (1, 1));
    assert!(misses >= 2);

    cache.mark_registered_at(BlsPublicKey([1; 48]), Address([0x02; 20]), 30_000_000, 0);
    let needed = cache.filter_registrations_at(vec![registration(1, 30_000_000), registration(5, 30_000_000)], 10);
    assert_eq!(needed.len(), 1);
    assert_eq!(needed[0].message.pubkey.0, [5; 48]);
}

#[test]
fn registration_batching_and_retry() {
    let regs: Vec<ValidatorRegistration> = (0..5).map(|i| registration(i, 30_000_000)).collect();
    let batches = registration_batches(&regs, Some(2));
    assert_eq!(batches.iter().map(|b| b.len()).collect::<Vec<_>>(), vec![2, 2, 1]);
    assert_eq!(registration_batches(&regs, None).len(), 1);

    let mut r = RegistrationRetry::start(1_000);
    assert!(r.on_retryable_failure(3));
    assert!(r.after_backoff(1_000, 400));
    assert_eq!(r.backoff_ms, 500);
    assert_eq!(r.remaining_timeout_ms, 600);
    assert!(r.on_retryable_failure(3));
    assert!(!r.on_retryable_failure(3));
    assert!(!r.after_backoff(1_000, 2_000));

    assert!(registration_succeeded(true, &vec![false, true]));
    assert!(!registration_succeeded(true, &vec![false, false]));
    assert!(registration_succeeded(false, &vec![false, true]));
    assert!(!registration_succeeded(false, &vec![]));
}

#[test]
fn http_client_defaults() {
    let f = HttpClientFactory::new();
    assert_eq!(f.default_timeout_ms(), 10_000);
    assert_eq!(f.max_idle_per_host(), 10);
    assert!(f.create_client().is_ok());
    assert!(f.create_client_with_timeout(5_000).is_ok());
}

#[test]
fn bracketed_ipv6_local_hosts_are_refused() {
    assert!(parse_and_validate_url("https://[fe80::1]").is_err());
    assert!(parse_and_validate_url("https://[fc00::1]/x").is_err());
    assert!(parse_and_validate_url("https://relay.example.com").is_ok());
}

#[test]
fn relay_id_leaves_out_user_information() {
    assert_eq!(extract_relay_id("https://0xab@relay.example.com/api"), "relay.example.com");
    assert_eq!(extract_relay_id("https://a@b@relay.example.com:9000/x"), "relay.example.com:9000");
}

#[test]
fn registration_filter_stores_what_it_passes_on() {
    let mut cache = RegistrationCache::new();
    let needed = cache.filter_registrations_at(vec![registration(7, 30_000_000), registration(7, 36_000_000)], 100);
    assert_eq!(needed.len(), 2);
    let key = BlsPublicKey([7; 48]);
    let fee = Address([0x02; 20]);
    assert!(!cache.needs_registration_at(&key, &fee, 36_000_000, 200));
    assert!(cache.needs_registration_at(&key, &fee, 30_000_000, 200));
    assert!(cache.needs_registration_at(&key, &Address([0x09; 20]), 36_000_000, 200));
    let again = cache.filter_registrations_at(vec![registration(7, 36_000_000)], 300);
    assert!(again.is_empty());
}
