//! A single-target HTTP latency benchmark library.
//!
//! Given a validated target URI and a repeat count, the surrounding binary
//! issues that many GET requests and reports each outcome (a measured
//! success or a measured failure) to a collector; the finalized sample set
//! of successful-request durations is then reduced to summary statistics
//! (average and median). Durations are carried as whole nanoseconds.

pub mod args;
pub mod collector;
pub mod driver;
pub mod sample;
pub mod stats;
