use xga_commitment::api_handlers::RELAY_HEALTH_THRESHOLD_HEALTHY;
use xga_commitment::config::{RelayGasConfig, ReservedGasConfig};
use xga_commitment::error::ReservedGasError;
use xga_commitment::infrastructure::clock::clock_millis;
use xga_commitment::metrics_wrapper::NoOpMetricsRecorder;
use xga_commitment::state_manager::{GasReservationManager, GasReservationState};
use xga_commitment::types::PbsModuleConfig;
use xga_commitment::validation::{MAX_REASONABLE_GAS, MIN_GAS_AFTER_RESERVATION};

fn create_test_config() -> ReservedGasConfig {
    ReservedGasConfig {
        default_reserved_gas: 1_000_000,
        min_block_gas_limit: 10_000_000,
        relay_overrides: vec![("relay1".to_string(), 2_500_000), ("relay2".to_string(), 1_500_000)],
        fetch_from_relays: false,
        update_interval_secs: 60,
        relay_config_endpoint: "/eth/v1/relay/gas_config".to_string(),
        relay_reserve_endpoint: "/xga/v2/relay/reserve".to_string(),
    }
}

fn create_test_manager() -> GasReservationManager {
    let mut manager = GasReservationManager::new();
    manager.configure(create_test_config(), PbsModuleConfig { relays: vec![] }).unwrap();
    manager
}

fn gas(reserved_gas_limit: u64, min_gas_limit: Option<u64>) -> RelayGasConfig {
    RelayGasConfig { reserved_gas_limit, min_gas_limit, update_interval: None }
}

#[test]
fn test_update_reservation_persists_state() {
    let mut manager = create_test_manager();
    assert_eq!(manager.get_reservation("relay1"), 2_500_000);

    let config = RelayGasConfig { reserved_gas_limit: 3_500_000, min_gas_limit: Some(15_000_000), update_interval: Some(300) };
    let event = manager.update_relay_configuration("relay1".to_string(), config).unwrap();
    assert_eq!(event.relay_id, "relay1");
    assert_eq!(event.old_reservation, Some(2_500_000));
    assert_eq!(event.new_reservation, 3_500_000);
    assert!(clock_millis().saturating_sub(event.timestamp) < 1_000);

    assert_eq!(manager.get_reservation("relay1"), 3_500_000);
    assert_eq!(manager.get_reservation("relay2"), 1_500_000);
    assert_eq!(manager.get_reservation("unknown"), 1_000_000);
}

#[test]
fn test_apply_reservation_calculations() {
    let manager = create_test_manager();
    let original_gas = 30_000_000;
    let outcome = manager.apply_reservation("relay1", original_gas).unwrap();
    assert_eq!(outcome.relay_id, "relay1");
    assert_eq!(outcome.new_gas_limit, 27_500_000);
    assert_eq!(outcome.reserved_amount, 2_500_000);
    assert_eq!(outcome.new_gas_limit + outcome.reserved_amount, original_gas);
}

#[test]
fn test_apply_reservation_fails_when_gas_too_low() {
    let mut manager = create_test_manager();
    manager.update_relay_configuration("relay1".to_string(), gas(25_000_000, None)).unwrap();
    let result = manager.apply_reservation("relay1", 30_000_000);
    assert_eq!(
        result.err(),
        Some(ReservedGasError::GasLimitTooLow { actual: 5_000_000, minimum: MIN_GAS_AFTER_RESERVATION, reserved: 25_000_000 })
    );
}

#[test]
fn test_multiple_updates_maintain_consistency() {
    let mut manager = create_test_manager();
    let mut last_value = manager.get_reservation("relay1");
    for i in 1..=3 {
        let new_value = i * 1_000_000;
        let event = manager.update_relay_configuration("relay1".to_string(), gas(new_value, None)).unwrap();
        assert_eq!(event.old_reservation, Some(last_value));
        assert_eq!(event.new_reservation, new_value);
        last_value = new_value;
    }
    assert_eq!(manager.get_reservation("relay1"), 3_000_000);
}

#[test]
fn test_get_all_reservations_accuracy() {
    let mut manager = create_test_manager();
    manager.update_relay_configuration("relay3".to_string(), gas(4_000_000, None)).unwrap();
    let reservations = manager.get_all_reservations();
    assert!(reservations.len() >= 3);
    let now = clock_millis();
    for (relay_id, reservation) in &reservations {
        match relay_id.as_str() {
            "relay1" => assert_eq!(reservation.reserved_gas, 2_500_000),
            "relay2" => assert_eq!(reservation.reserved_gas, 1_500_000),
            "relay3" => assert_eq!(reservation.reserved_gas, 4_000_000),
            _ => {}
        }
        assert!(reservation.reserved_gas <= RELAY_HEALTH_THRESHOLD_HEALTHY);
        assert_eq!(&reservation.relay_id, relay_id);
        assert_eq!(reservation.min_gas_limit, None);
        assert!(now.saturating_sub(reservation.last_updated) < 60_000);
    }
}

#[test]
fn test_default_reservation_for_unknown_relay() {
    let mut manager = create_test_manager();
    assert_eq!(manager.get_reservation("unknown-relay"), 1_000_000);
    manager.update_relay_configuration("known-relay".to_string(), gas(2_000_000, None)).unwrap();
    assert_eq!(manager.get_reservation("known-relay"), 2_000_000);
    assert_eq!(manager.get_reservation("another-unknown"), 1_000_000);
}

#[test]
fn test_apply_reservation_with_zero_reservation() {
    let mut manager = create_test_manager();
    manager.update_relay_configuration("relay1".to_string(), gas(0, None)).unwrap();
    assert_eq!(manager.get_reservation("relay1"), 2_500_000);
}

#[test]
fn test_validation_constraints() {
    let mut manager = create_test_manager();
    let event = manager.update_relay_configuration("test".to_string(), gas(MAX_REASONABLE_GAS + 1, None)).unwrap();
    assert_eq!(event.old_reservation, Some(1_000_000));
    assert_eq!(event.new_reservation, 1_000_000);

    let event = manager.update_relay_configuration("test".to_string(), gas(5_000_000, Some(20_000_000))).unwrap();
    assert_eq!(event.old_reservation, Some(1_000_000));
    assert_eq!(event.new_reservation, 5_000_000);
    assert_eq!(manager.get_reservation("test"), 5_000_000);
}

#[test]
fn test_reservation_with_exact_minimum() {
    let mut manager = create_test_manager();
    let reserved = 5_000_000;
    manager.update_relay_configuration("test".to_string(), gas(reserved, None)).unwrap();
    let original_gas = MIN_GAS_AFTER_RESERVATION + reserved;
    let outcome = manager.apply_reservation("test", original_gas).unwrap();
    assert_eq!(outcome.new_gas_limit, MIN_GAS_AFTER_RESERVATION);
    assert_eq!(outcome.reserved_amount, reserved);
    assert!(manager.apply_reservation("test", original_gas - 1).is_err());
}

#[test]
fn test_concurrent_updates_are_thread_safe() {
    let mut manager = GasReservationManager::new();
    manager.configure(create_test_config(), PbsModuleConfig { relays: vec![] }).unwrap();
    for i in 0..5u64 {
        for j in 0..10u64 {
            manager.update_relay_configuration(format!("relay{}", i), gas((i + 1) * 1_000_000 + j * 100_000, None)).ok();
        }
    }
    for i in 0..5u64 {
        let expected_final = (i + 1) * 1_000_000 + 9 * 100_000;
        assert_eq!(manager.get_reservation(&format!("relay{}", i)), expected_final);
    }
}

#[test]
fn test_relay_configuration_precedence() {
    let mut manager = create_test_manager();
    assert_eq!(manager.get_reservation("relay1"), 2_500_000);
    assert_eq!(manager.get_reservation("unknown"), 1_000_000);
    manager.update_relay_configuration("relay1".to_string(), gas(3_000_000, None)).unwrap();
    assert_eq!(manager.get_reservation("relay1"), 3_000_000);
}

#[test]
fn test_edge_case_handling() {
    let mut manager = create_test_manager();
    assert_eq!(manager.get_reservation(""), 1_000_000);
    let event = manager.update_relay_configuration(String::new(), gas(2_000_000, None)).unwrap();
    assert_eq!(event.new_reservation, 2_000_000);
    assert_eq!(manager.get_reservation(""), 2_000_000);

    let long_id = "x".repeat(500);
    assert_eq!(manager.get_reservation(&long_id), 1_000_000);
    manager.update_relay_configuration(long_id.clone(), gas(1_500_000, None)).unwrap();
    assert_eq!(manager.get_reservation(&long_id), 1_500_000);
}

#[test]
fn test_metrics_recording() {
    let mut manager = create_test_manager();
    let metrics = NoOpMetricsRecorder;
    let _reservation = manager.get_reservation("relay1");
    let _outcome = manager.apply_reservation("relay1", 30_000_000);
    let _event = manager.update_relay_configuration("relay1".to_string(), gas(3_000_000, None));
    let _ = metrics;
}

fn local_config(default_reserved_gas: u64) -> ReservedGasConfig {
    ReservedGasConfig {
        default_reserved_gas,
        relay_overrides: vec![],
        update_interval_secs: 60,
        min_block_gas_limit: 10_000_000,
        relay_config_endpoint: "/relay/v1/gas_config".to_string(),
        fetch_from_relays: false,
        relay_reserve_endpoint: "/xga/v2/relay/reserve".to_string(),
    }
}

#[test]
fn test_state_transitions() {
    let mut manager = GasReservationManager::new();
    assert!(matches!(manager.get_state(), GasReservationState::Uninitialized));
    manager.configure(local_config(1_000_000), PbsModuleConfig { relays: vec![] }).unwrap();
    assert!(matches!(manager.get_state(), GasReservationState::LocalOnly { .. }));
}

#[test]
fn test_gas_reservation_application() {
    let mut manager = GasReservationManager::new();
    manager.configure(local_config(2_000_000), PbsModuleConfig { relays: vec![] }).unwrap();
    let outcome = manager.apply_reservation("test-relay", 30_000_000).unwrap();
    assert_eq!(outcome.reserved_amount, 2_000_000);
    assert_eq!(outcome.new_gas_limit, 28_000_000);
}
