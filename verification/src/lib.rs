//! Keeps DNS host records pointed at the caller's current public IPv4 address.
//!
//! The library is the part of that job that decides: which provider record
//! answers which wanted record, what to ask of the outside world next, what to
//! report, and how a run ends. It performs no I/O. A caller resolves the
//! address, reads the configuration, talks to the provider and writes the log,
//! driving a [`orchestrator::Run`] one event at a time.
//!
//! - [`model`]: the records wanted and the records a provider reports.
//! - [`engine`]: the plan for one zone, and the matching policy it follows.
//! - [`source`]: what the configuration source delivers.
//! - [`outcome`]: reports, outcomes and the status of a run.
//! - [`orchestrator`]: the run as a state machine.
//! - [`isolation`], [`completeness`], [`accounting`]: what is proved of every run.

pub mod accounting;
pub mod completeness;
pub mod engine;
pub mod isolation;
pub mod model;
pub mod orchestrator;
pub mod outcome;
pub mod source;
