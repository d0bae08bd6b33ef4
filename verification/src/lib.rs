//! Best-effort detection of virtualised or sandboxed execution.
//!
//! The library holds the decisions: how raw measurements and host
//! descriptions are turned into verdicts, and how verdicts are combined.
//! Obtaining the measurements (reading the time-stamp counter, issuing CPU
//! identification queries, asking the operating system for names and
//! addresses) is left to the caller, who hands the results over as plain
//! values.

pub mod detect;
pub mod fingerprint;
pub mod probe;
pub mod sorting;
pub mod text;
pub mod timing;

pub use crate::detect::inside_vm;
