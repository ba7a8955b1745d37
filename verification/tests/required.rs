use xga_commitment::commitment::XgaParameters;
use xga_commitment::conflicts::is_incompatible;
use xga_commitment::infrastructure::error::Error;
use xga_commitment::infrastructure::utils::{constant_time_eq, get_current_timestamp, is_private_172_range, timestamp_from_millis};
use xga_commitment::types::{CommitmentHash, RelayId};
use xga_commitment::validation::{validate_relay_url, validate_xga_parameters};
use xga_commitment::webhook::utils::extract_relay_id;
use xga_commitment::webhook::validation::validate_relay_url as webhook_validate_relay_url;

#[test]
fn test_is_incompatible() {
    assert!(is_incompatible("pbs_relay_a", "pbs_relay_b"));
    assert!(is_incompatible("pbs_relay_b", "pbs_relay_a"));
    assert!(is_incompatible("custom_pbs", "pbs"));
    assert!(is_incompatible("pbs", "custom_pbs"));

    assert!(!is_incompatible("pbs", "signer"));
    assert!(!is_incompatible("signer", "metrics"));
}

#[test]
fn test_private_172_range_detection() {
    assert!(is_private_172_range("172.16.0.1"));
    assert!(is_private_172_range("172.20.10.5"));
    assert!(is_private_172_range("172.31.255.255"));
    assert!(!is_private_172_range("172.15.0.1"));
    assert!(!is_private_172_range("172.32.0.1"));
    assert!(!is_private_172_range("173.16.0.1"));
}

#[test]
fn test_constant_time_comparison() {
    let a = b"hello";
    let b = b"hello";
    let c = b"world";
    let d = b"hell";

    assert!(constant_time_eq(a, b));
    assert!(!constant_time_eq(a, c));
    assert!(!constant_time_eq(a, d));
}

#[test]
fn test_get_current_timestamp() {
    let timestamp = get_current_timestamp().unwrap();
    assert!(timestamp > 0);
    assert!(timestamp > 1577836800);
}

#[test]
fn test_type_conversions() {
    let bytes = [0x42u8; 32];

    let relay_id = RelayId::from_bytes(bytes);
    assert_eq!(relay_id.as_bytes(), &bytes);
    assert_eq!(relay_id.into_bytes(), bytes);

    let commitment_hash = CommitmentHash::from(bytes);
    assert_eq!(commitment_hash.as_bytes(), &bytes);
}

#[test]
fn test_validate_xga_parameters() {
    let valid_params = XgaParameters { version: 1, min_inclusion_slot: 100, max_inclusion_slot: 200, flags: 0 };
    assert!(validate_xga_parameters(&valid_params).is_ok());

    let invalid_version = XgaParameters { version: 0, ..valid_params };
    assert!(validate_xga_parameters(&invalid_version).is_err());

    let invalid_range = XgaParameters { min_inclusion_slot: 200, max_inclusion_slot: 100, ..valid_params };
    assert!(validate_xga_parameters(&invalid_range).is_err());

    let large_range = XgaParameters { min_inclusion_slot: 0, max_inclusion_slot: 2000, ..valid_params };
    assert!(validate_xga_parameters(&large_range).is_err());
}

#[test]
fn test_validate_relay_url() {
    assert!(validate_relay_url("https://relay.example.com").is_ok());
    assert!(validate_relay_url("http://relay.example.com").is_err());
    assert!(validate_relay_url("not-a-url").is_err());
    assert!(validate_relay_url("https://").is_err());
}

#[test]
fn validation_test_validate_relay_url() {
    let validate_relay_url = webhook_validate_relay_url;
    assert!(validate_relay_url("https://relay.example.com").is_ok());
    assert!(validate_relay_url("https://relay.example.com:8080").is_ok());
    assert!(validate_relay_url("https://relay.example.com/api/v1").is_ok());

    assert!(validate_relay_url("http://relay.example.com").is_err());
    let err = validate_relay_url("http://relay.example.com").expect_err("Should fail for HTTP URL");
    assert!(err.contains("HTTPS"));

    assert!(validate_relay_url("https://localhost").is_err());
    assert!(validate_relay_url("https://127.0.0.1").is_err());
    assert!(validate_relay_url("https://0.0.0.0").is_err());
    assert!(validate_relay_url("https://192.168.1.1").is_err());
    assert!(validate_relay_url("https://10.0.0.1").is_err());

    assert!(validate_relay_url("not-a-url").is_err());
    assert!(validate_relay_url("").is_err());
    assert!(validate_relay_url("https://").is_err());
}

#[test]
fn test_extract_relay_id() {
    assert_eq!(extract_relay_id("https://relay.example.com/api"), "relay.example.com");
    assert_eq!(extract_relay_id("http://localhost:8080"), "localhost:8080");
    assert_eq!(extract_relay_id("https://relay.example.com:9000/v1/relay"), "relay.example.com:9000");
    assert_eq!(extract_relay_id("relay.example.com"), "relay.example.com");
}

#[test]
fn from_and_from_bytes_agree() {
    let bytes = [0x42u8; 32];
    assert!(RelayId::from(bytes) == RelayId::from_bytes(bytes));
    assert!(CommitmentHash::from(bytes) == CommitmentHash::from_bytes(bytes));
    assert_eq!(CommitmentHash::from_bytes(bytes).into_bytes(), bytes);
    assert!(RelayId::from([0x41u8; 32]) != RelayId::from_bytes(bytes));
}

#[test]
fn timestamp_is_the_reading_in_seconds() {
    assert_eq!(timestamp_from_millis(Some(1_700_000_123_456)).unwrap(), 1_700_000_123);
    assert_eq!(timestamp_from_millis(Some(999)).unwrap(), 0);
    match timestamp_from_millis(None) {
        Err(Error::SystemTime(m)) => assert_eq!(m, "Failed to get current timestamp"),
        other => panic!("unexpected: {:?}", other),
    }
}
