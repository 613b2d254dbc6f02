//! Health and metrics for a small HTTP service.
//!
//! The crate holds what such a service has to get right once the sockets
//! are left aside. [`health`] keeps the named checks of a process, what each
//! last reported, and the status they add up to. [`metrics`] keeps counters,
//! gauges and histograms, each identified by a name and a set of labels, and
//! [`exposition`] writes them out as the text that a collector reads.
//! [`report`] is what a process says of its health, and [`service`] answers
//! the two requests that the runtime hands over and notes down each request
//! that was served. [`error`] names the reasons for which a request to the
//! aggregator or the registry is refused.
//!
//! Every function states what it returns and changes, and Verus checks that
//! it does. Values are integers throughout: a duration is a number of
//! microseconds, a temperature a number of whatever the caller measures in.
//! Nothing here locks, waits or reads a clock; the caller brings the time
//! and shares the values as it sees fit.

pub mod error;
pub mod escape;
pub mod exposition;
pub mod health;
pub mod histogram;
pub mod metrics;
pub mod report;
pub mod service;
pub mod text;
pub mod textmap;
