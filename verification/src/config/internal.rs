//! The tool-internal part of the configuration: file locations, keywords
//! and format names, without the user-tunable thresholds.

use vstd::prelude::*;
use crate::words::no_space_chars;

verus! {

/// File locations, status keywords and storage format names.
pub struct InternalConfig {
    /// Location of the one-line current-session status file.
    pub status_filepath: String,
    /// Location of the append-only completed-session history file.
    pub timestamps_filepath: String,
    /// Location of the user configuration file.
    pub config_filepath: String,
    /// Name of the date-time layout used by the status file.
    pub datetime_format: String,
    /// Name of the date layout used by the history file.
    pub date_format: String,
    /// First token of the status line while a session is open.
    pub open_timestamp_keyword: String,
    /// First token of the status line while no session is open.
    pub closed_timestamp_keyword: String,
}

impl InternalConfig {
    /// The keywords can be told apart and survive the one-line storage
    /// format.
    pub open spec fn wf(self) -> bool {
        &&& self.open_timestamp_keyword@.len() >= 1
        &&& self.closed_timestamp_keyword@.len() >= 1
        &&& no_space_chars(self.open_timestamp_keyword@)
        &&& no_space_chars(self.closed_timestamp_keyword@)
        &&& self.open_timestamp_keyword@ != self.closed_timestamp_keyword@
    }

    /// An internal configuration with the given file locations and the
    /// default keywords and format names.
    pub fn new(
        status_filepath: String,
        timestamps_filepath: String,
        config_filepath: String,
    ) -> (c: InternalConfig)
        ensures
            c.status_filepath@ == status_filepath@,
            c.timestamps_filepath@ == timestamps_filepath@,
            c.config_filepath@ == config_filepath@,
            c.datetime_format@ == "%d/%m/%Y--%H:%M:%S"@,
            c.date_format@ == "%d/%m/%Y"@,
            c.open_timestamp_keyword@ == "OPEN"@,
            c.closed_timestamp_keyword@ == "CLOSED"@,
            c.wf(),
    {
        let c = InternalConfig {
            status_filepath,
            timestamps_filepath,
            config_filepath,
            datetime_format: String::from_str("%d/%m/%Y--%H:%M:%S"),
            date_format: String::from_str("%d/%m/%Y"),
            open_timestamp_keyword: String::from_str("OPEN"),
            closed_timestamp_keyword: String::from_str("CLOSED"),
        };
        proof {
            crate::config::lemma_default_keywords_wf();
        }
        c
    }
}

} // verus!
