use xga_commitment::cache::{CircuitBreaker as RelayCircuit, CircuitState, LruCache};
use xga_commitment::config::RelayGasConfig;
use xga_commitment::infrastructure::circuit_breaker::CircuitBreaker;
use xga_commitment::relay_communication::{
    CACHE_MAX_SIZE, CIRCUIT_FAILURE_THRESHOLD, CIRCUIT_HALF_OPEN_SUCCESS_THRESHOLD, CIRCUIT_RECOVERY_TIMEOUT_MS, CONFIG_CACHE_TTL_MS,
};
use xga_commitment::infrastructure::rate_limiter::{RateLimiter, ValidatorRateLimiter};
use xga_commitment::types::BlsPublicKey;

const T0: u64 = 1_700_000_000_000;

#[test]
fn test_rate_limiter() {
    let mut rl = RateLimiter::new(3, 1_000);
    assert!(rl.check_rate_limit_at(T0));
    assert!(rl.check_rate_limit_at(T0));
    assert!(rl.check_rate_limit_at(T0));
    assert!(!rl.check_rate_limit_at(T0));
    assert_eq!(rl.current_count_at(T0), 3);
    // one window later the requests are forgotten
    assert!(rl.check_rate_limit_at(T0 + 1_000));
}

#[test]
fn test_rate_limiter_sliding_window() {
    let mut rl = RateLimiter::new(2, 100);
    assert!(rl.check_rate_limit_at(T0));
    assert!(rl.check_rate_limit_at(T0 + 1));
    assert!(!rl.check_rate_limit_at(T0 + 2));
    // half a window later: still at the limit
    assert!(!rl.check_rate_limit_at(T0 + 50));
    // the first request has left the window
    assert!(rl.check_rate_limit_at(T0 + 110));
}

#[test]
fn test_validator_rate_limiter() {
    let mut vrl = ValidatorRateLimiter::new(2, 1_000);
    let validator1 = BlsPublicKey([1u8; 48]);
    let validator2 = BlsPublicKey([2u8; 48]);
    assert!(vrl.check_rate_limit_at(&validator1, T0));
    assert!(vrl.check_rate_limit_at(&validator1, T0));
    assert!(!vrl.check_rate_limit_at(&validator1, T0));
    assert!(vrl.check_rate_limit_at(&validator2, T0));
    assert!(vrl.check_rate_limit_at(&validator2, T0));
    assert!(!vrl.check_rate_limit_at(&validator2, T0));
    assert_eq!(vrl.current_count_at(&validator1, T0), 2);
    assert_eq!(vrl.current_count_at(&validator2, T0), 2);
}

#[test]
fn test_cleanup_old_limiters() {
    let mut vrl = ValidatorRateLimiter::new(2, 100);
    let validator1 = BlsPublicKey([1u8; 48]);
    let validator2 = BlsPublicKey([2u8; 48]);
    let validator3 = BlsPublicKey([3u8; 48]);
    let old = BlsPublicKey([4u8; 48]);
    assert!(vrl.check_rate_limit_at(&validator1, T0));
    assert!(vrl.check_rate_limit_at(&validator2, T0));
    assert!(vrl.check_rate_limit_at(&validator3, T0));
    assert_eq!(vrl.cleanup_old_limiters_at(T0), 0);
    assert!(vrl.check_rate_limit_at(&validator1, T0));
    assert!(vrl.check_rate_limit_at(&validator2, T0));
    assert!(!vrl.check_rate_limit_at(&validator2, T0));
    // a limiter last used two hours ago
    assert!(vrl.check_rate_limit_at(&old, T0 - 7_200_000));
    assert_eq!(vrl.cleanup_old_limiters_at(T0), 1);
    assert_eq!(vrl.current_count_at(&old, T0), 0);
    assert!(vrl.current_count_at(&validator1, T0) > 0);
    assert!(vrl.current_count_at(&validator2, T0) > 0);
    assert!(vrl.current_count_at(&validator3, T0) > 0);
}

#[test]
fn test_cleanup_old_limiters_retains_recent() {
    let mut vrl = ValidatorRateLimiter::new(5, 1_000);
    let validator = BlsPublicKey([1u8; 48]);
    assert!(vrl.check_rate_limit_at(&validator, T0));
    assert_eq!(vrl.cleanup_old_limiters_at(T0), 0);
    assert!(vrl.current_count_at(&validator, T0) > 0);
}

#[test]
fn test_cleanup_returns_correct_count() {
    let mut vrl = ValidatorRateLimiter::new(1, 50);
    for i in 0..5u8 {
        assert!(vrl.check_rate_limit_at(&BlsPublicKey([i; 48]), T0 - 7_200_000));
    }
    for i in 10..13u8 {
        assert!(vrl.check_rate_limit_at(&BlsPublicKey([i; 48]), T0));
    }
    assert_eq!(vrl.cleanup_old_limiters_at(T0), 5);
    for i in 10..13u8 {
        assert!(vrl.current_count_at(&BlsPublicKey([i; 48]), T0) > 0);
    }
}

#[test]
fn circuit_breaker_test_circuit_breaker() {
    let mut cb = CircuitBreaker::new(3, 100);
    let relay_id = "test-relay";
    assert!(!cb.is_open_at(relay_id, T0));
    cb.record_failure_at(relay_id, T0);
    cb.record_failure_at(relay_id, T0);
    assert!(!cb.is_open_at(relay_id, T0));
    cb.record_failure_at(relay_id, T0);
    assert!(cb.is_open_at(relay_id, T0));
    cb.record_success(relay_id);
    assert!(!cb.is_open_at(relay_id, T0));
}

#[test]
fn test_circuit_breaker_half_open_state() {
    let mut cb = CircuitBreaker::new(1, 50);
    let relay_id = "half-open-test-relay";
    cb.record_failure_at(relay_id, T0);
    assert!(cb.is_open_at(relay_id, T0));
    // after the reset timeout one request is let through
    assert!(!cb.is_open_at(relay_id, T0 + 60));
    cb.record_success(relay_id);
    assert!(!cb.is_open_at(relay_id, T0 + 60));
}

#[test]
fn test_circuit_breaker_half_open_failure() {
    let mut cb = CircuitBreaker::new(1, 50);
    let relay_id = "half-open-fail-relay";
    cb.record_failure_at(relay_id, T0);
    assert!(cb.is_open_at(relay_id, T0));
    assert!(!cb.is_open_at(relay_id, T0 + 60));
    cb.record_failure_at(relay_id, T0 + 60);
    assert!(cb.is_open_at(relay_id, T0 + 60));
}

#[test]
fn test_cache_expiration() {
    let mut cache: LruCache<String> = LruCache::new(10, 100);
    cache.insert_at("key1".to_string(), "value1".to_string(), None, T0);
    // 150 ms later the entry has expired
    assert!(cache.get_at("key1", T0 + 150).is_none());
}

#[test]
fn cache_test_circuit_breaker() {
    let mut breaker = RelayCircuit::new(3, 100, 2);
    assert_eq!(breaker.state(), CircuitState::Closed);
    assert!(breaker.can_proceed_at(T0));
    for _ in 0..3 {
        breaker.record_failure_at(T0);
    }
    assert_eq!(breaker.state(), CircuitState::Open);
    assert!(!breaker.can_proceed_at(T0));
    // 150 ms later the recovery timeout has passed
    assert!(breaker.can_proceed_at(T0 + 150));
    assert_eq!(breaker.state(), CircuitState::HalfOpen);
    assert!(breaker.can_proceed_at(T0 + 150));
    breaker.record_success();
    assert!(breaker.can_proceed_at(T0 + 150));
    breaker.record_success();
    assert_eq!(breaker.state(), CircuitState::Closed);
}

#[test]
fn test_cache_functionality() {
    let mut gas_config_cache: LruCache<RelayGasConfig> = LruCache::new(CACHE_MAX_SIZE, CONFIG_CACHE_TTL_MS);
    let config_key = "test-config".to_string();
    let test_config = RelayGasConfig { reserved_gas_limit: 2_000_000, min_gas_limit: Some(15_000_000), update_interval: None };
    gas_config_cache.insert_at(config_key.clone(), test_config, Some("config-etag".to_string()), T0);
    let (cached_config, etag) = gas_config_cache.get_at(&config_key, T0).unwrap();
    assert_eq!(cached_config.reserved_gas_limit, test_config.reserved_gas_limit);
    assert_eq!(etag, Some("config-etag".to_string()));
}

#[test]
fn test_circuit_breaker_functionality() {
    let mut breaker = RelayCircuit::new(CIRCUIT_FAILURE_THRESHOLD, CIRCUIT_RECOVERY_TIMEOUT_MS, CIRCUIT_HALF_OPEN_SUCCESS_THRESHOLD);
    assert!(breaker.can_proceed_at(T0));
    assert_eq!(breaker.state(), CircuitState::Closed);
    for _ in 0..CIRCUIT_FAILURE_THRESHOLD {
        breaker.record_failure_at(T0);
    }
    assert!(!breaker.can_proceed_at(T0));
    assert_eq!(breaker.state(), CircuitState::Open);
    let later = T0 + CIRCUIT_RECOVERY_TIMEOUT_MS + 100;
    assert!(breaker.can_proceed_at(later));
    assert_eq!(breaker.state(), CircuitState::HalfOpen);
}
