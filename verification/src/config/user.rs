//! The user-tunable part of the configuration.
//!
//! The surrounding tool reads these two values from a configuration file;
//! the core consumes them as plain numbers and never loads the file
//! itself.

use vstd::prelude::*;

verus! {

/// The two thresholds a user may tune.
#[derive(Clone, Copy, Debug, PartialEq, Eq, Structural)]
pub struct UserConfig {
    /// A session shorter than this may not close without an explicit
    /// override.
    pub minimum_work_block_duration_in_minutes: i64,
    /// A session at least this long is considered abandoned, and the
    /// daily target for the progress report.
    pub daily_work_goal_in_minutes: i64,
}

impl UserConfig {
    /// The defaults used when the user has not tuned anything.
    pub fn default_values() -> (c: UserConfig)
        ensures
            c.minimum_work_block_duration_in_minutes == 25,
            c.daily_work_goal_in_minutes == 180,
    {
        UserConfig { minimum_work_block_duration_in_minutes: 25, daily_work_goal_in_minutes: 180 }
    }
}

} // verus!
