//! Core of a focused-work session tracker.
//!
//! Each invocation of the surrounding tool reads a one-line status file,
//! decides whether a work session is being opened or closed, updates that
//! file, appends finished sessions to a history file, and reports progress
//! toward a daily goal.  This crate holds the verified core: the status and
//! history line codecs, the session state machine, the history aggregator,
//! and the progress-bar renderer.  File access, the clock, user prompting
//! and first-run bootstrap are collaborators supplied by the caller.
//!
//! The tool assumes a single process at a time: there is no locking, and a
//! concurrent invocation can interleave reads and writes of the status file
//! (last write wins).  That limitation is deliberate and documented here
//! rather than papered over.

pub mod config;
pub mod datetime;
pub mod digits;
pub mod engine;
pub mod errors;
pub mod history;
pub mod progress;
pub mod status;
pub mod words;
