//! Run configuration, constructed once at process start and passed by
//! reference into the engine, the codecs and the aggregator.
//!
//! The caller supplies the file locations; keywords, formats and the two
//! duration thresholds default to the values the stored files use.  The
//! core never mutates a configuration.

pub mod internal;
pub mod user;

use vstd::prelude::*;
use crate::words::no_space_chars;

verus! {

/// Everything one invocation needs: file locations, the status-line
/// keywords, the storage format names, and the two duration thresholds.
pub struct Config {
    /// Location of the one-line current-session status file.
    pub status_filepath: String,
    /// Location of the append-only completed-session history file.
    pub timestamps_filepath: String,
    /// Location of the user configuration file.
    pub config_filepath: String,
    /// Name of the date-time layout used by the status file.  The codecs
    /// implement exactly this layout.
    pub datetime_format: String,
    /// Name of the date layout used by the history file.  The codecs
    /// implement exactly this layout.
    pub date_format: String,
    /// First token of the status line while a session is open.
    pub open_timestamp_keyword: String,
    /// First token of the status line while no session is open.
    pub closed_timestamp_keyword: String,
    /// A session shorter than this may not close without an explicit
    /// override.
    pub minimum_work_block_duration_in_minutes: i64,
    /// A session at least this long is considered abandoned, and the
    /// daily target for the progress report.
    pub daily_work_goal_in_minutes: i64,
}

impl Config {
    /// The keywords can be told apart and survive the one-line storage
    /// format, and the minimum block length is not negative.
    pub open spec fn wf(self) -> bool {
        &&& self.open_timestamp_keyword@.len() >= 1
        &&& self.closed_timestamp_keyword@.len() >= 1
        &&& no_space_chars(self.open_timestamp_keyword@)
        &&& no_space_chars(self.closed_timestamp_keyword@)
        &&& self.open_timestamp_keyword@ != self.closed_timestamp_keyword@
        &&& self.minimum_work_block_duration_in_minutes >= 0
    }

    /// A configuration with the given file locations and the default
    /// keywords, formats and thresholds.
    pub fn new(
        status_filepath: String,
        timestamps_filepath: String,
        config_filepath: String,
    ) -> (c: Config)
        ensures
            c.status_filepath@ == status_filepath@,
            c.timestamps_filepath@ == timestamps_filepath@,
            c.config_filepath@ == config_filepath@,
            c.datetime_format@ == "%d/%m/%Y--%H:%M:%S"@,
            c.date_format@ == "%d/%m/%Y"@,
            c.open_timestamp_keyword@ == "OPEN"@,
            c.closed_timestamp_keyword@ == "CLOSED"@,
            c.minimum_work_block_duration_in_minutes == 25,
            c.daily_work_goal_in_minutes == 180,
            c.wf(),
    {
        let c = Config {
            status_filepath,
            timestamps_filepath,
            config_filepath,
            datetime_format: String::from_str("%d/%m/%Y--%H:%M:%S"),
            date_format: String::from_str("%d/%m/%Y"),
            open_timestamp_keyword: String::from_str("OPEN"),
            closed_timestamp_keyword: String::from_str("CLOSED"),
            minimum_work_block_duration_in_minutes: 25,
            daily_work_goal_in_minutes: 180,
        };
        proof {
            lemma_default_keywords_wf();
        }
        c
    }
}

/// The default keywords are distinct, non-empty and free of spaces.
pub(crate) proof fn lemma_default_keywords_wf()
    ensures
        "OPEN"@.len() == 4,
        "CLOSED"@.len() == 6,
        no_space_chars("OPEN"@),
        no_space_chars("CLOSED"@),
        "OPEN"@ != "CLOSED"@,
{
    reveal_strlit("OPEN");
    reveal_strlit("CLOSED");
    assert("OPEN"@ =~= seq!['O', 'P', 'E', 'N']);
    assert("CLOSED"@ =~= seq!['C', 'L', 'O', 'S', 'E', 'D']);
    assert forall|i: int| 0 <= i < "OPEN"@.len() implies #[trigger] "OPEN"@[i] != ' ' by {
        assert(seq!['O', 'P', 'E', 'N'][i] != ' ');
    }
    assert forall|i: int| 0 <= i < "CLOSED"@.len() implies #[trigger] "CLOSED"@[i] != ' ' by {
        assert(seq!['C', 'L', 'O', 'S', 'E', 'D'][i] != ' ');
    }
}

} // verus!
