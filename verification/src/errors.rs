//! Error taxonomy of the core.
//!
//! I/O failures are surfaced by the caller's persistence collaborators and
//! never reach this crate; the core itself reports only corruption of the
//! stored lines and configuration mistakes.

use vstd::prelude::*;

verus! {

/// A stored line could not be decoded, or an aggregate could not be
/// represented.  Corruption is fatal for the current operation: the core
/// stops rather than guessing a default state, since guessing could
/// silently fabricate lost work time or erase a real open session.
#[derive(Clone, Copy, Debug, PartialEq, Eq, Structural)]
pub enum CorruptionError {
    /// The status line has fewer than two tokens, or its first token is
    /// neither the configured open keyword nor the closed keyword.
    UnknownStatus,
    /// The status line's payload does not parse as a date-time.
    BadTimestamp,
    /// A history line's first token does not parse as a calendar date.
    BadDate,
    /// A history line's second token is missing, or is not a non-negative
    /// base-10 integer that fits the duration type.
    BadDuration,
    /// The sum of matching durations does not fit the duration type.
    Overflow,
}

/// A configuration value was rejected before any work was attempted.
#[derive(Clone, Copy, Debug, PartialEq, Eq, Structural)]
pub enum ConfigError {
    /// The daily goal handed to the progress renderer was zero or negative.
    NonPositiveGoal,
}

} // verus!
