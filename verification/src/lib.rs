//! Diagnostic library for checking that a cluster workload can use federated
//! (workload) identity against a cloud management API.
//!
//! The verified core is a linear pipeline: validate the identity
//! configuration read from the environment, decide whether a token may be
//! requested, classify the responses of two read-only permission probes
//! (list subscriptions, list resource groups), and report leveled
//! diagnostics. All network and process I/O lives outside this crate; the
//! library consumes plain values (status codes, response bodies) and
//! returns decisions.

pub mod classify;
pub mod config;
pub mod entities;
pub mod json;
pub mod laws;
pub mod pipeline;
pub mod report;
