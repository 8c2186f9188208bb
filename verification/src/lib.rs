//! Subprocess orchestration and progress inference for an external
//! transcription engine: heuristic translation of free-text diagnostic lines
//! into a monotonic progress signal, and extraction and validation of the
//! terminal structured result, with the behaviour of every piece stated in
//! its contract.
//!
//! Progress is measured in hundredths of a percent and every other fraction
//! in thousandths, so no contract and no caller depends on a float.

pub mod extract;
pub mod json;
pub mod progress;
pub mod session;
pub mod text;
