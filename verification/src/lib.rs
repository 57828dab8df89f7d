//! Metrics factories: scoped metrics handed to a sink, and gauges that accumulate between reports.
pub mod aggregation;
pub mod allocator;
mod clock;
pub mod gauge;
pub mod gauge_group;
pub mod laws;
pub mod linear_map;
pub mod meaning;
pub mod metrics;
pub mod metrics_factory;
pub mod pipeline;
pub mod types;
