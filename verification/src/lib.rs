//! Media-conversion orchestration core.
//!
//! Drives an external transcoder through its lifecycle: command
//! construction for heterogeneous target formats and duration
//! strategies, decoding of the machine-oriented progress stream,
//! extraction of media metadata from free-form diagnostic text,
//! single-flight session control with cooperative cancellation, and
//! classification of a finished run.
//!
//! Durations and rates are carried as fixed-point integers throughout:
//! milliseconds for durations, thousandths for frame rates, speed
//! multipliers and percentages.  All parsing is best effort: a field
//! that cannot be read is absent, never an error.

pub mod command;
pub mod diag;
pub mod num;
pub mod probe;
pub mod progress;
pub mod session;
pub mod text;
