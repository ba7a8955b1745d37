use blst::min_pk::SecretKey;
use xga_commitment::abi_helpers::{decode_uint256, encode_address_call, OPERATORS_SELECTOR};
use xga_commitment::api_handlers::amount_stats;
use xga_commitment::cache::{CircuitBreaker, CircuitState, LruCache};
use xga_commitment::commitment::{XgaCommitment, XgaParameters};
use xga_commitment::config::ReservedGasConfig;
use xga_commitment::infrastructure::http_client::HttpClientFactory;
use xga_commitment::infrastructure::urls::parse_and_validate_url;
use xga_commitment::register_validator::registration_batches;
use xga_commitment::registration_cache::RegistrationCache;
use xga_commitment::signer::{verify_signature, XGA_DST};
use xga_commitment::types::{Address, BlsPublicKey, BlsSignature, RelayId, ValidatorRegistration, ValidatorRegistrationMessage};
use xga_commitment::u256::U256;
use xga_commitment::validation::{validate_validator_pubkey, MAX_REASONABLE_GAS, MIN_GAS_AFTER_RESERVATION};

fn create_test_registrations(count: usize) -> Vec<ValidatorRegistration> {
    (0..count)
        .map(|i| ValidatorRegistration {
            message: ValidatorRegistrationMessage {
                fee_recipient: Address::default(),
                gas_limit: 30_000_000,
                timestamp: 1000 + i as u64,
                pubkey: BlsPublicKey::from([i as u8; 48]),
            },
            signature: BlsSignature([0u8; 96]),
        })
        .collect()
}

#[test]
fn test_batch_calculation() {
    let registrations = create_test_registrations(100);
    let batches = registration_batches(&registrations, Some(20));
    assert_eq!(batches.len(), 5);
    assert_eq!(batches[0].len(), 20);
    assert_eq!(batches[4].len(), 20);

    let batches = registration_batches(&registrations, None);
    assert_eq!(batches.len(), 1);
    assert_eq!(batches[0].len(), 100);

    let registrations = create_test_registrations(95);
    let batches = registration_batches(&registrations, Some(20));
    assert_eq!(batches.len(), 5);
    assert_eq!(batches[4].len(), 15);
}

#[test]
fn test_registration_deduplication() {
    let mut cache = RegistrationCache::new();
    let registrations = create_test_registrations(5);
    for reg in &registrations {
        assert!(cache.needs_registration(&reg.message.pubkey, &reg.message.fee_recipient, reg.message.gas_limit));
        cache.mark_registered(reg.message.pubkey, reg.message.fee_recipient, reg.message.gas_limit);
    }
    for reg in &registrations {
        assert!(!cache.needs_registration(&reg.message.pubkey, &reg.message.fee_recipient, reg.message.gas_limit));
    }
    let (hits, misses, size) = cache.stats();
    assert_eq!(hits, 5);
    assert_eq!(misses, 5);
    assert_eq!(size, 5);
    assert_eq!((hits as f64 / (hits + misses) as f64) * 100.0, 50.0);
}

#[test]
fn test_registration_param_changes() {
    let mut cache = RegistrationCache::new();
    let reg = create_test_registrations(1).into_iter().next().unwrap();
    assert!(cache.needs_registration(&reg.message.pubkey, &reg.message.fee_recipient, reg.message.gas_limit));
    cache.mark_registered(reg.message.pubkey, reg.message.fee_recipient, reg.message.gas_limit);
    assert!(!cache.needs_registration(&reg.message.pubkey, &reg.message.fee_recipient, reg.message.gas_limit));
    let new_fee_recipient = Address::from([1u8; 20]);
    assert!(cache.needs_registration(&reg.message.pubkey, &new_fee_recipient, reg.message.gas_limit));
    assert!(cache.needs_registration(&reg.message.pubkey, &reg.message.fee_recipient, 25_000_000));
}

#[test]
fn test_filtered_registrations_logic() {
    let mut cache = RegistrationCache::new();
    let registrations = create_test_registrations(10);
    for reg in &registrations[0..5] {
        cache.mark_registered(reg.message.pubkey, reg.message.fee_recipient, reg.message.gas_limit);
    }
    let filtered: Vec<_> = registrations
        .iter()
        .filter(|reg| cache.needs_registration(&reg.message.pubkey, &reg.message.fee_recipient, reg.message.gas_limit))
        .cloned()
        .collect();
    assert_eq!(filtered.len(), 5);
    for (i, reg) in filtered.iter().enumerate() {
        assert_eq!(reg.message.pubkey, registrations[i + 5].message.pubkey);
    }
}

#[test]
fn test_registration_cache_ttl() {
    let mut cache = RegistrationCache::new();
    let pubkey = BlsPublicKey::from([1u8; 48]);
    let fee_recipient = Address::from([2u8; 20]);
    assert!(cache.needs_registration(&pubkey, &fee_recipient, 30_000_000));
    cache.mark_registered(pubkey, fee_recipient, 30_000_000);
    assert!(!cache.needs_registration(&pubkey, &fee_recipient, 30_000_000));
    let (hits, misses, _) = cache.stats();
    assert_eq!(hits, 1);
    assert_eq!(misses, 1);
    assert_eq!((hits as f64 / (hits + misses) as f64) * 100.0, 50.0);
}

#[test]
fn test_params_change_triggers_reregistration() {
    let mut cache = RegistrationCache::new();
    let pubkey = BlsPublicKey::from([1u8; 48]);
    let fee_recipient1 = Address::from([2u8; 20]);
    let fee_recipient2 = Address::from([3u8; 20]);
    cache.mark_registered(pubkey, fee_recipient1, 30_000_000);
    assert!(cache.needs_registration(&pubkey, &fee_recipient2, 30_000_000));
    assert!(cache.needs_registration(&pubkey, &fee_recipient1, 25_000_000));
    let (_, misses, _) = cache.stats();
    assert_eq!(misses, 2);
}

#[test]
fn test_cleanup_expired() {
    let mut cache = RegistrationCache::new();
    for i in 0..10 {
        let pubkey = BlsPublicKey::from([i; 48]);
        cache.mark_registered(pubkey, Address::default(), 30_000_000);
    }
    assert_eq!(cache.stats().2, 10);
    cache.force_cleanup();
    assert_eq!(cache.stats().2, 10);
}

#[test]
fn test_stats() {
    let mut cache = RegistrationCache::new();
    let pubkey = BlsPublicKey::from([1u8; 48]);
    let fee_recipient = Address::from([2u8; 20]);
    let (hits, misses, size) = cache.stats();
    assert_eq!((hits, misses, size), (0, 0, 0));
    cache.needs_registration(&pubkey, &fee_recipient, 30_000_000);
    cache.mark_registered(pubkey, fee_recipient, 30_000_000);
    let (hits, misses, size) = cache.stats();
    assert_eq!((hits, misses, size), (0, 1, 1));
    cache.needs_registration(&pubkey, &fee_recipient, 30_000_000);
    let (hits, misses, size) = cache.stats();
    assert_eq!((hits, misses, size), (1, 1, 1));
}

#[test]
fn test_encode_address_call() {
    let address = Address::from([0x42; 20]);
    let encoded = encode_address_call(OPERATORS_SELECTOR, address);
    assert_eq!(&encoded[0..4], &OPERATORS_SELECTOR);
    assert_eq!(encoded.len(), 36);
    assert_eq!(&encoded[16..36], &address.0[..]);
}

#[test]
fn test_decode_uint256() {
    let value = U256::from_u128(12345);
    let mut encoded = [0u8; 32];
    encoded[16..].copy_from_slice(&12345u128.to_be_bytes());
    let decoded = decode_uint256(&encoded).unwrap();
    assert_eq!(decoded, value);
}

#[test]
fn test_lru_cache_basic() {
    let mut cache: LruCache<String> = LruCache::new(2, 60_000);
    cache.insert("key1".to_string(), "value1".to_string(), None);
    cache.insert("key2".to_string(), "value2".to_string(), Some("etag1".to_string()));
    let (value, etag) = cache.get("key1").unwrap();
    assert_eq!(value, "value1");
    assert!(etag.is_none());
    let (value, etag) = cache.get("key2").unwrap();
    assert_eq!(value, "value2");
    assert_eq!(etag, Some("etag1".to_string()));
}

#[test]
fn test_lru_eviction() {
    let mut cache: LruCache<String> = LruCache::new(2, 60_000);
    cache.insert("key1".to_string(), "value1".to_string(), None);
    cache.insert("key2".to_string(), "value2".to_string(), None);
    cache.insert("key3".to_string(), "value3".to_string(), None);
    assert!(cache.get("key1").is_none());
    assert!(cache.get("key2").is_some());
    assert!(cache.get("key3").is_some());
}

#[test]
fn test_circuit_breaker() {
    let mut breaker = CircuitBreaker::new(3, 100, 2);
    assert_eq!(breaker.state(), CircuitState::Closed);
    assert!(breaker.can_proceed_at(0));
    for t in 1..4 {
        breaker.record_failure_at(t);
    }
    assert_eq!(breaker.state(), CircuitState::Open);
    assert!(!breaker.can_proceed_at(10));
    assert!(breaker.can_proceed_at(153));
    assert_eq!(breaker.state(), CircuitState::HalfOpen);
    assert!(breaker.can_proceed_at(154));
    breaker.record_success();
    assert!(breaker.can_proceed_at(155));
    breaker.record_success();
    assert_eq!(breaker.state(), CircuitState::Closed);
}

#[test]
fn test_commitment_creation_with_relay_id_hashing() {
    let registration_hash = [0x42u8; 32];
    let validator_pubkey = BlsPublicKey::from([0x01u8; 48]);
    let commitment1 = XgaCommitment::new(registration_hash, validator_pubkey, "https://relay.example.com", 1, XgaParameters::default());
    let commitment2 = XgaCommitment::new(registration_hash, validator_pubkey, "https://relay.example.com", 1, XgaParameters::default());
    assert_eq!(commitment1.relay_id, commitment2.relay_id);
    let commitment3 =
        XgaCommitment::new(registration_hash, validator_pubkey, "https://different-relay.example.com", 1, XgaParameters::default());
    assert_ne!(commitment1.relay_id, commitment3.relay_id);
    assert!(commitment1.timestamp > 0);
    assert!(commitment2.timestamp > 0);
    assert!(commitment3.timestamp > 0);
}

#[test]
fn test_hash_registration_ssz_encoding() {
    let registration = ValidatorRegistration {
        message: ValidatorRegistrationMessage {
            pubkey: BlsPublicKey::from([0x01u8; 48]),
            fee_recipient: Address::from([0x02u8; 20]),
            gas_limit: 30_000_000,
            timestamp: 1_700_000_000,
        },
        signature: BlsSignature([0x03u8; 96]),
    };
    let hash1 = XgaCommitment::hash_registration(&registration);
    let hash2 = XgaCommitment::hash_registration(&registration);
    assert_eq!(hash1, hash2);
    let mut different_registration = registration;
    different_registration.message.gas_limit = 25_000_000;
    let hash3 = XgaCommitment::hash_registration(&different_registration);
    assert_ne!(hash1, hash3);
    let expected_ssz_len = 48 + 20 + 8 + 8 + 96;
    let mut ssz_bytes = Vec::with_capacity(expected_ssz_len);
    ssz_bytes.extend_from_slice(&registration.message.pubkey.0);
    ssz_bytes.extend_from_slice(&registration.message.fee_recipient.0);
    ssz_bytes.extend_from_slice(&registration.message.gas_limit.to_le_bytes());
    ssz_bytes.extend_from_slice(&registration.message.timestamp.to_le_bytes());
    ssz_bytes.extend_from_slice(&registration.signature.0);
    assert_eq!(ssz_bytes.len(), expected_ssz_len);
}

#[test]
fn test_tree_hash_deterministic() {
    let commitment = XgaCommitment::new(
        [0x42u8; 32],
        BlsPublicKey::from([0x01u8; 48]),
        "test-relay",
        1,
        XgaParameters { version: 1, min_inclusion_slot: 100, max_inclusion_slot: 200, flags: 0 },
    );
    let hash1 = commitment.get_tree_hash_root();
    let hash2 = commitment.get_tree_hash_root();
    assert_eq!(hash1, hash2);
    let mut modified = commitment;
    modified.xga_version = 2;
    assert_ne!(hash1, modified.get_tree_hash_root());
    let mut modified2 = commitment;
    modified2.timestamp += 1;
    assert_ne!(hash1, modified2.get_tree_hash_root());
}

#[test]
fn test_client_factory_creation() {
    let factory = HttpClientFactory::new();
    assert!(factory.create_client().is_ok());
}

#[test]
fn test_client_with_custom_timeout() {
    let factory = HttpClientFactory::new();
    let client = factory.create_client_with_timeout(30_000);
    assert!(client.is_ok());
}

#[test]
fn test_url_validation() {
    assert!(parse_and_validate_url("https://relay.example.com").is_ok());
    assert!(parse_and_validate_url("https://relay.example.com:8080").is_ok());
    assert!(parse_and_validate_url("http://relay.example.com").is_err());
    assert!(parse_and_validate_url("https://localhost").is_err());
    assert!(parse_and_validate_url("https://127.0.0.1").is_err());
    assert!(parse_and_validate_url("https://192.168.1.1").is_err());
    assert!(parse_and_validate_url("not-a-url").is_err());
}

#[test]
fn test_verify_signature_with_proper_dst() {
    let commitment = XgaCommitment::new(
        [0x42u8; 32],
        BlsPublicKey::from([0x01u8; 48]),
        "test-relay",
        1,
        XgaParameters { version: 2, min_inclusion_slot: 100, max_inclusion_slot: 200, flags: 0x1 },
    );
    let ikm = b"test key material for BLS signature testing";
    let sk = SecretKey::key_gen(ikm, &[]).expect("Test key generation should succeed");
    let pk = sk.sk_to_pk();
    let message = commitment.get_tree_hash_root();
    let sig = sk.sign(&message, &XGA_DST, &[]);
    let pubkey = BlsPublicKey::from(pk.to_bytes());
    let signature = BlsSignature(sig.to_bytes());
    assert!(verify_signature(&commitment, &signature, &pubkey), "Valid signature should verify");
    let wrong_pubkey = BlsPublicKey::from([0x02u8; 48]);
    assert!(!verify_signature(&commitment, &signature, &wrong_pubkey), "Signature with wrong pubkey should not verify");
    let mut modified_commitment = commitment;
    modified_commitment.timestamp += 1000;
    assert!(!verify_signature(&modified_commitment, &signature, &pubkey), "Signature for different commitment should not verify");
}

#[test]
fn test_verify_signature_rejects_invalid_formats() {
    let commitment = XgaCommitment::new([0u8; 32], BlsPublicKey([0u8; 48]), "test-relay", 1, XgaParameters::default());
    let invalid_sig = BlsSignature([0u8; 96]);
    let pubkey = BlsPublicKey::from([0x01u8; 48]);
    assert!(!verify_signature(&commitment, &invalid_sig, &pubkey), "Invalid signature format should not verify");
    let valid_sig = BlsSignature([0x01u8; 96]);
    let invalid_pubkey = BlsPublicKey::from([0u8; 48]);
    assert!(!verify_signature(&commitment, &valid_sig, &invalid_pubkey), "Invalid pubkey format should not verify");
}

#[test]
fn test_relay_id_from_url() {
    let url1 = "https://relay.example.com";
    let url2 = "https://different-relay.example.com";
    let id1 = RelayId::from_url(url1);
    let id2 = RelayId::from_url(url2);
    assert_eq!(id1, RelayId::from_url(url1));
    assert_ne!(id1, id2);
}

#[test]
fn test_validate_validator_pubkey() {
    let valid_pubkey = BlsPublicKey::from([1u8; 48]);
    assert!(validate_validator_pubkey(&valid_pubkey).is_ok());
    let zero_pubkey = BlsPublicKey::from([0u8; 48]);
    assert!(validate_validator_pubkey(&zero_pubkey).is_err());
}

#[test]
fn test_reserve_statistics() {
    let reserves = vec![1_000_000u64, 2_000_000, 3_000_000, 4_000_000, 5_000_000];
    let stats = amount_stats(&reserves);
    assert_eq!(stats.total, 15_000_000);
    assert_eq!(stats.average, 3_000_000);
    assert_eq!(stats.max, 5_000_000);
    assert_eq!(stats.min, 1_000_000);
    assert!(stats.average >= stats.min);
    assert!(stats.average <= stats.max);
}

#[test]
fn test_configuration_consistency() {
    let config = ReservedGasConfig {
        default_reserved_gas: 1_000_000,
        min_block_gas_limit: 10_000_000,
        relay_overrides: vec![("relay1".to_string(), 2_500_000), ("relay2".to_string(), 1_500_000)],
        fetch_from_relays: false,
        update_interval_secs: 60,
        relay_config_endpoint: "/eth/v1/relay/gas_config".to_string(),
        relay_reserve_endpoint: "/xga/v2/relay/reserve".to_string(),
    };
    assert!(config.default_reserved_gas > 0);
    assert!(config.default_reserved_gas <= MAX_REASONABLE_GAS);
    assert!(config.min_block_gas_limit >= MIN_GAS_AFTER_RESERVATION);
    assert!(config.update_interval_secs > 0);
    for (relay_id, reserved) in &config.relay_overrides {
        assert!(!relay_id.is_empty());
        assert!(*reserved > 0);
        assert!(*reserved <= MAX_REASONABLE_GAS);
    }
    assert_eq!(config.get_reserved_gas("relay1"), 2_500_000);
}

/// Hits as a percentage of all lookups, zero before any lookup.
fn hit_rate_of(cache: &RegistrationCache) -> f64 {
    let (hits, misses, _) = cache.stats();
    let total = hits + misses;
    if total == 0 {
        0.0
    } else {
        (hits as f64 / total as f64) * 100.0
    }
}

#[test]
fn test_hit_rate_calculation() {
    let mut cache = RegistrationCache::new();
    assert_eq!(hit_rate_of(&cache), 0.0);
    let pubkey = BlsPublicKey([1u8; 48]);
    let fee_recipient = Address([2u8; 20]);
    cache.needs_registration(&pubkey, &fee_recipient, 30_000_000);
    cache.mark_registered(pubkey, fee_recipient, 30_000_000);
    assert_eq!(hit_rate_of(&cache), 0.0);
    cache.needs_registration(&pubkey, &fee_recipient, 30_000_000);
    assert_eq!(hit_rate_of(&cache), 50.0);
    cache.needs_registration(&pubkey, &fee_recipient, 30_000_000);
    assert!((hit_rate_of(&cache) - 66.67).abs() < 0.1);
}
