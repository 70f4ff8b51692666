//! Runs a noisy child command behind a single continuously-overwritten status
//! line and, only on failure, replays the captured output.
//!
//! This crate holds the verified core: the escape-sequence sanitizer, the
//! ellipsis truncator, label derivation, the status-line renderer, the
//! per-stream capture histories, and the supervisor's finish/replay decision.
//! The thin process plumbing (spawning, pipes, threads, the terminal itself)
//! lives outside the library and hands it plain values.

pub mod chars;
pub mod sanitize;
pub mod truncate;
pub mod label;
pub mod history;
pub mod render;
pub mod report;
