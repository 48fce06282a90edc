//! Measurements: bandwidth, the state of a path, and how well media plays.

pub mod bandwidth_estimator;
pub mod cross_layer_metrics;
pub mod quic_metrics;
