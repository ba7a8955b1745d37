//! Metrics recording behind a trait, so that recording can be switched off.

use vstd::prelude::*;

verus! {

/// Records gas reservation metrics.
pub trait MetricsRecorder {
    fn record_gas_reservation_amount(&self, relay_id: &str, amount: u64);

    fn record_gas_reservation_applied(&self, relay_id: &str, amount: u64);

    fn record_gas_config_update(&self, relay_id: &str);
}

/// A recorder that records nothing.
#[derive(Debug, Clone, Copy)]
pub struct NoOpMetricsRecorder;

impl MetricsRecorder for NoOpMetricsRecorder {
    fn record_gas_reservation_amount(&self, relay_id: &str, amount: u64) {
    }

    fn record_gas_reservation_applied(&self, relay_id: &str, amount: u64) {
    }

    fn record_gas_config_update(&self, relay_id: &str) {
    }
}

/// Which recorder to use: the one that records nothing, or the Prometheus
/// one the application registers.
#[derive(Debug, Clone, Copy, PartialEq, Eq, Structural)]
pub enum MetricsRecorderKind {
    NoOp,
    Prometheus,
}

/// The recorder to use: none when `use_noop`, else Prometheus.
pub fn create_metrics_recorder(use_noop: bool) -> (kind: MetricsRecorderKind)
    ensures
        kind == if use_noop { MetricsRecorderKind::NoOp } else { MetricsRecorderKind::Prometheus },
{
    if use_noop {
        MetricsRecorderKind::NoOp
    } else {
        MetricsRecorderKind::Prometheus
    }
}

} // verus!
