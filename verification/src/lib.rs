//! A sans-I/O engine for driving an interactive `ghci` session.
//!
//! The crate decides what a driver must write to, wait for and read from the
//! `ghci` process, and what each answer means; it never touches the process
//! itself. A driver owns the child process and its pipes, performs each
//! request that the engine makes, and reports the outcome as an event.

pub mod error;
pub mod eval;
pub mod framing;
pub mod laws;
pub mod scan;
pub mod session;

pub use error::{GhciError, IoKind};
pub use eval::{EvalOutput, Evaluation, Event, Progress, Readiness, Request, Stage};
pub use scan::{clear_blocking_reader_until, Scan, ScanBuffer, SCAN_LIMIT};
pub use session::{Ghci, Handshake, Lifecycle, Reply};
