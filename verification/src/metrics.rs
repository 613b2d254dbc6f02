//! The metrics registry: counters, gauges and histograms, each identified by
//! its name and its labels.
//!
//! The registry keeps its samples ordered by name and then by label set, so
//! that all samples of one name stand together and every walk over the
//! registry meets them in the same order. All samples of one name have the
//! same kind.

pub mod laws;
pub mod model;
pub mod registry;

pub use self::model::{MetricKind, RegistryModel, SampleModel, ValueModel};
pub use crate::error::MetricsError;
pub use self::registry::{MetricSample, MetricValue, MetricsRegistry};
