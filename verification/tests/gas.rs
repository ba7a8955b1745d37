use xga_commitment::api_handlers::{
    amount_stats, get_gas_reservations_at, reservation_statistics, reserve_info, reserve_statistics, update_relay_config_at,
    ReserveQueryStatus,
};
use xga_commitment::config::{RelayGasConfig, ReservedGasConfig};
use xga_commitment::error::ReservedGasError;
use xga_commitment::reservations::GasReservation;
use xga_commitment::state::ReservedGasState;
use xga_commitment::state_manager::{GasReservationManager, GasReservationState, StateManagerReservedGasApi};
use xga_commitment::types::PbsModuleConfig;
use xga_commitment::validation::{
    is_valid_relay_response, validate_gas_after_reservation, validate_gas_limit, validate_relay_gas_config,
    MAX_REASONABLE_GAS,
};

fn config(default_gas: u64, overrides: Vec<(&str, u64)>, fetch: bool) -> ReservedGasConfig {
    ReservedGasConfig {
        default_reserved_gas: default_gas,
        relay_overrides: overrides.into_iter().map(|(k, v)| (k.to_string(), v)).collect(),
        update_interval_secs: 60,
        min_block_gas_limit: 10_000_000,
        relay_config_endpoint: "/relay/v1/gas_config".to_string(),
        fetch_from_relays: fetch,
        relay_reserve_endpoint: "/xga/v2/relay/reserve".to_string(),
    }
}

fn pbs() -> PbsModuleConfig {
    PbsModuleConfig { relays: vec![] }
}

#[test]
fn gas_limit_bounds() {
    assert!(matches!(validate_gas_limit(0, "r"), Err(ReservedGasError::InvalidRelayConfig { .. })));
    assert_eq!(validate_gas_limit(1, "r"), Ok(1));
    assert_eq!(validate_gas_limit(MAX_REASONABLE_GAS, "r"), Ok(MAX_REASONABLE_GAS));
    assert_eq!(
        validate_gas_limit(MAX_REASONABLE_GAS + 1, "r"),
        Err(ReservedGasError::ReservedGasTooHigh { amount: MAX_REASONABLE_GAS + 1, max: MAX_REASONABLE_GAS })
    );
}

#[test]
fn reservation_keeps_minimum() {
    assert_eq!(validate_gas_after_reservation(30_000_000, 2_000_000, 10_000_000), Ok(28_000_000));
    assert_eq!(
        validate_gas_after_reservation(11_000_000, 2_000_000, 10_000_000),
        Err(ReservedGasError::GasLimitTooLow { actual: 9_000_000, minimum: 10_000_000, reserved: 2_000_000 })
    );
    assert_eq!(
        validate_gas_after_reservation(1_000, 2_000_000, 0),
        Ok(0)
    );
}

#[test]
fn relay_config_checks() {
    let ok = RelayGasConfig { reserved_gas_limit: 2_000_000, min_gas_limit: Some(15_000_000), update_interval: None };
    assert!(is_valid_relay_response(&ok, "r"));
    assert!(validate_relay_gas_config(&ok, "r").is_ok());
    let low_min = RelayGasConfig { reserved_gas_limit: 2_000_000, min_gas_limit: Some(500_000), update_interval: None };
    assert!(!is_valid_relay_response(&low_min, "r"));
    assert!(validate_relay_gas_config(&low_min, "r").is_err());
    let too_high = RelayGasConfig { reserved_gas_limit: 40_000_000, min_gas_limit: None, update_interval: None };
    assert_eq!(
        validate_relay_gas_config(&too_high, "r"),
        Err(ReservedGasError::ReservedGasTooHigh { amount: 40_000_000, max: MAX_REASONABLE_GAS })
    );
}

#[test]
fn override_takes_precedence_last_wins() {
    let c = config(1_000_000, vec![("a", 2_000_000), ("b", 3_000_000), ("a", 4_000_000)], false);
    assert_eq!(c.get_reserved_gas("a"), 4_000_000);
    assert_eq!(c.get_reserved_gas("b"), 3_000_000);
    assert_eq!(c.get_reserved_gas(""), 1_000_000);
}

#[test]
fn manager_life_cycle() {
    let mut m = GasReservationManager::new();
    assert!(!m.is_configured());
    assert_eq!(m.get_reservation("x"), 0);
    assert!(matches!(m.apply_reservation("x", 30_000_000), Err(ReservedGasError::ConfigError(_))));
    assert!(m.configure_at(config(2_000_000, vec![("special", 5_000_000)], true), pbs(), 1_000).is_ok());
    assert!(m.is_configured());
    assert!(matches!(m.get_state(), GasReservationState::LocalOnly { configured_at: 1_000, .. }));
    assert!(m.configure_at(config(2_000_000, vec![], true), pbs(), 2_000).is_err());

    let outcome = m.apply_reservation("test-relay", 30_000_000).unwrap();
    assert_eq!(outcome.reserved_amount, 2_000_000);
    assert_eq!(outcome.new_gas_limit, 28_000_000);
    assert_eq!(m.get_reservation("special"), 5_000_000);

    let event = m
        .update_relay_configuration_at(
            "relay-1".to_string(),
            RelayGasConfig { reserved_gas_limit: 3_000_000, min_gas_limit: None, update_interval: None },
            5_000,
        )
        .unwrap();
    assert_eq!(event.old_reservation, Some(2_000_000));
    assert_eq!(event.new_reservation, 3_000_000);
    assert_eq!(m.get_reservation("relay-1"), 3_000_000);

    let rejected = m
        .update_relay_configuration_at(
            "relay-1".to_string(),
            RelayGasConfig { reserved_gas_limit: 0, min_gas_limit: None, update_interval: None },
            6_000,
        )
        .unwrap();
    assert_eq!(rejected.new_reservation, 3_000_000);

    assert_eq!(m.sync_required(), Ok(true));
    assert!(!m.refresh_required());
    assert!(m
        .complete_sync_at(
            vec![("relay-2".to_string(), RelayGasConfig { reserved_gas_limit: 1_500_000, min_gas_limit: None, update_interval: None })],
            10_000,
        )
        .is_ok());
    assert!(matches!(m.get_state(), GasReservationState::Synced { synced_at: 10_000, next_sync: 70_000, .. }));
    assert_eq!(m.get_reservation("relay-2"), 1_500_000);
    assert_eq!(m.check_freshness_at(50_000), Ok(true));
    assert_eq!(m.check_freshness_at(80_000), Ok(false));
    assert!(m.refresh_required());
}

#[test]
fn too_little_gas_left_is_refused() {
    let mut m = GasReservationManager::new();
    m.configure_at(config(25_000_000, vec![], false), pbs(), 0).unwrap();
    assert_eq!(
        m.apply_reservation("r", 30_000_000).err(),
        Some(ReservedGasError::GasLimitTooLow { actual: 5_000_000, minimum: 10_000_000, reserved: 25_000_000 })
    );
}

#[test]
fn reservations_report() {
    let mut m = GasReservationManager::new();
    assert_eq!(get_gas_reservations_at(&mut m, 0).err(), Some("Manager not configured".to_string()));
    m.configure_at(config(1_000_000, vec![("a", 2_000_000), ("b", 25_000_000)], false), pbs(), 1_000).unwrap();
    let report = get_gas_reservations_at(&mut m, 61_000).unwrap();
    assert_eq!(report.default_reserved_gas, 1_000_000);
    assert_eq!(report.reservations.len(), 2);
    assert_eq!(report.statistics.amounts.total, 27_000_000);
    assert_eq!(report.statistics.amounts.average, 13_500_000);
    assert_eq!(report.statistics.amounts.max, 25_000_000);
    assert_eq!(report.statistics.amounts.min, 2_000_000);
    assert_eq!(report.statistics.healthy, 1);
    assert_eq!(report.statistics.unhealthy, 1);
    for e in &report.reservations {
        assert_eq!(e.last_updated_secs_ago, 60);
    }
    assert!(!report.config_stale);

    let update = update_relay_config_at(
        &mut m,
        "a".to_string(),
        RelayGasConfig { reserved_gas_limit: 3_000_000, min_gas_limit: None, update_interval: None },
        70_000,
    )
    .unwrap();
    assert_eq!(update.old_reservation, Some(2_000_000));
    assert_eq!(update.new_reservation, 3_000_000);
}

#[test]
fn statistics_of_amounts() {
    let s = amount_stats(&vec![]);
    assert_eq!((s.count, s.total, s.average, s.max, s.min), (0, 0, 0, 0, 0));
    let s = amount_stats(&vec![7]);
    assert_eq!((s.average, s.max, s.min), (7, 7, 7));
    let s = amount_stats(&vec![1, 2, 4]);
    assert_eq!((s.total, s.average, s.max, s.min), (7, 2, 4, 1));
    assert!(s.min <= s.average && s.average <= s.max);

    let list = vec![
        ("x".to_string(), GasReservation { reserved_gas: 15_000_000, last_updated: 0, relay_id: "x".to_string(), min_gas_limit: None }),
    ];
    let st = reservation_statistics(&list);
    assert_eq!(st.degraded, 1);
}

#[test]
fn reserve_queries() {
    let ok = reserve_info("r1".to_string(), Ok(Some(2_000_000)), 12);
    assert_eq!(ok.status, ReserveQueryStatus::Success);
    assert_eq!(ok.reserve, Some(2_000_000));
    assert!(ok.error.is_none());
    let unsupported = reserve_info("r2".to_string(), Ok(None), 5);
    assert_eq!(unsupported.status, ReserveQueryStatus::Error);
    assert_eq!(unsupported.error.as_deref(), Some("Relay does not support reserve endpoint"));
    let timeout = reserve_info("r3".to_string(), Err("request timeout".to_string()), 2000);
    assert_eq!(timeout.status, ReserveQueryStatus::Timeout);
    assert_eq!(timeout.error.as_deref(), Some("Request timeout after 2000ms"));
    let failed = reserve_info("r4".to_string(), Err("boom".to_string()), 3);
    assert_eq!(failed.status, ReserveQueryStatus::Error);
    assert_eq!(failed.error.as_deref(), Some("boom"));

    let stats = reserve_statistics(&vec![ok, unsupported, timeout, failed]);
    assert_eq!(stats.total_relays, 4);
    assert_eq!(stats.successful_queries, 1);
    assert_eq!(stats.failed_queries, 3);
    assert_eq!(stats.average_reserve, Some(2_000_000));
    assert_eq!(stats.min_reserve, stats.max_reserve);

    let none = reserve_statistics(&vec![]);
    assert_eq!(none.average_reserve, None);
}

#[test]
fn reload_carries_over_previous_reservations() {
    let previous = vec![
        ("relay-a".to_string(), GasReservation { reserved_gas: 3_000_000, last_updated: 1, relay_id: "relay-a".to_string(), min_gas_limit: None }),
        ("relay-b".to_string(), GasReservation { reserved_gas: 0, last_updated: 1, relay_id: "relay-b".to_string(), min_gas_limit: None }),
    ];
    let fetched = vec![("relay-c".to_string(), RelayGasConfig { reserved_gas_limit: 4_000_000, min_gas_limit: None, update_interval: None })];
    let manager = StateManagerReservedGasApi::reload_at(config(1_000_000, vec![("relay-b", 2_000_000)], true), pbs(), fetched, &previous, 50);
    assert!(matches!(manager.get_state(), GasReservationState::Synced { synced_at: 50, .. }));
    assert_eq!(manager.get_reservation("relay-a"), 3_000_000);
    // a zero reservation is not carried over: the override stays
    assert_eq!(manager.get_reservation("relay-b"), 2_000_000);
    assert_eq!(manager.get_reservation("relay-c"), 4_000_000);
    assert_eq!(manager.get_reservation("relay-d"), 1_000_000);

    let local = StateManagerReservedGasApi::reload_at(config(1_000_000, vec![], false), pbs(), vec![], &previous, 7);
    assert!(matches!(local.get_state(), GasReservationState::LocalOnly { configured_at: 7, .. }));
    assert_eq!(local.get_reservation("relay-a"), 3_000_000);
    assert_eq!(local.get_reservation("relay-c"), 1_000_000);
}

#[test]
fn stored_reservations_stay_acceptable() {
    let mut state = ReservedGasState::new_at(config(1_000_000, vec![("relay-a", 2_000_000)], false), pbs(), 0);
    for (i, gas) in [3_000_000u64, 0, MAX_REASONABLE_GAS + 1, MAX_REASONABLE_GAS].iter().enumerate() {
        let relay_config = RelayGasConfig { reserved_gas_limit: *gas, min_gas_limit: None, update_interval: None };
        if is_valid_relay_response(&relay_config, "relay") {
            state.update_reservation_at(format!("relay-{}", i), relay_config, 10);
        }
    }
    let all = state.get_all_reservations();
    assert_eq!(all.len(), 3);
    for (_, reservation) in all {
        assert!(reservation.reserved_gas > 0 && reservation.reserved_gas <= MAX_REASONABLE_GAS);
    }
}

#[test]
fn health_classes_cover_every_reservation() {
    let r = |id: &str, gas: u64| (id.to_string(), GasReservation { reserved_gas: gas, last_updated: 0, relay_id: id.to_string(), min_gas_limit: None });
    let all = vec![r("a", 1_000_000), r("b", 12_000_000), r("c", 25_000_000), r("d", 10_000_000)];
    let stats = reservation_statistics(&all);
    assert_eq!(stats.healthy + stats.degraded + stats.unhealthy, all.len());
    assert_eq!(stats.amounts.count, all.len());
}

#[test]
fn second_configure_is_refused_with_its_message() {
    let mut m = GasReservationManager::new();
    m.configure_at(config(2_000_000, vec![("special", 5_000_000)], true), pbs(), 1_000).unwrap();
    match m.configure_at(config(3_000_000, vec![], true), pbs(), 2_000) {
        Err(ReservedGasError::ConfigError(message)) => assert_eq!(message, "Cannot configure: already initialized"),
        other => panic!("unexpected: {:?}", other),
    }
    assert_eq!(m.get_reservation("special"), 5_000_000);
    assert!(matches!(m.get_state(), GasReservationState::LocalOnly { configured_at: 1_000, .. }));
}

#[test]
fn reservations_report_lists_each_relay_once() {
    let mut m = GasReservationManager::new();
    m.configure_at(config(1_000_000, vec![("a", 2_000_000), ("b", 3_000_000), ("c", 4_000_000)], false), pbs(), 0).unwrap();
    let report = get_gas_reservations_at(&mut m, 0).unwrap();
    let mut ids: Vec<String> = report.reservations.iter().map(|e| e.relay_id.clone()).collect();
    ids.sort();
    assert_eq!(ids, vec!["a".to_string(), "b".to_string(), "c".to_string()]);
    for e in &report.reservations {
        assert_eq!(e.reserved_gas, m.get_reservation(&e.relay_id));
    }
}

#[test]
fn configured_overrides_become_reservations() {
    let mut m = GasReservationManager::new();
    m.configure_at(config(1_500_000, vec![("x", 2_000_000), ("y", 6_000_000)], false), pbs(), 5).unwrap();
    assert_eq!(m.get_reservation("x"), 2_000_000);
    assert_eq!(m.get_reservation("y"), 6_000_000);
    assert_eq!(m.get_reservation("z"), 1_500_000);
}
