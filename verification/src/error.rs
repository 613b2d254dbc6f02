//! Why a request to the aggregator or to the registry is refused.
//!
//! A refusal is for the caller to deal with: it tells of a mistake in how
//! the process was put together, not of trouble while it runs. What goes
//! wrong while a check runs is no refusal; it is taken down as the result of
//! that check.

use vstd::prelude::*;

verus! {

/// Why a check could not be registered.
#[derive(Clone, Copy, Debug, PartialEq, Eq, Structural)]
pub enum HealthError {
    /// A check of that name is registered already.
    DuplicateCheckName,
}

/// Why the registry refused a write.
#[derive(Clone, Copy, Debug, PartialEq, Eq, Structural)]
pub enum MetricsError {
    /// A counter was asked to go down.
    InvalidDelta,
    /// The bounds of a histogram's buckets were not strictly increasing, or
    /// were not those the histogram was registered with.
    InvalidBuckets,
    /// The name is already in use for a metric of another kind.
    KindMismatch,
}

} // verus!
