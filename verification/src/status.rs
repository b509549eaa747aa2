//! Status codec: the one-line record of whether a session is open.
//!
//! The status file's first line is `"<keyword> <payload>"`.  With the
//! open keyword the payload is the moment the session was opened; with
//! the closed keyword the payload is a fixed placeholder that decoding
//! tolerates but ignores.  Any other keyword, or a missing payload
//! token, is corruption — never a silent default state.

use vstd::prelude::*;
use crate::config::Config;
use crate::datetime::{
    datetime_chars, datetime_from_string, datetime_to_string, lemma_datetime_round_trip,
    parse_datetime_chars, DateTime,
};
use crate::errors::CorruptionError;
use crate::words::{
    get_two_words_from_line, lemma_two_words_of_join, no_space_chars, two_words_spec,
};

verus! {

/// Whether a work session is in progress.  Recomputed from storage at
/// the start of every invocation; nothing persists in memory across
/// runs.
#[derive(Clone, Copy, Debug, PartialEq, Eq, Structural)]
pub enum TimestampStatus {
    /// A session is in progress; the field is the moment it was opened.
    Open(DateTime),
    /// No session is in progress.
    Closed,
}

impl TimestampStatus {
    /// An open session carries a valid moment.
    pub open spec fn wf(self) -> bool {
        match self {
            TimestampStatus::Open(dt) => dt.wf(),
            TimestampStatus::Closed => true,
        }
    }
}

/// The status line recording an open session: keyword, space, moment.
pub open spec fn encode_open_spec(cfg: Config, dt: DateTime) -> Seq<char> {
    cfg.open_timestamp_keyword@ + seq![' '] + datetime_chars(dt)
}

/// The status line recording no session: keyword, space, placeholder.
pub open spec fn encode_closed_spec(cfg: Config) -> Seq<char> {
    cfg.closed_timestamp_keyword@ + seq![' '] + "TIMESTAMP"@
}

/// The status line recording a session state.
pub open spec fn encode_status_spec(cfg: Config, state: TimestampStatus) -> Seq<char> {
    match state {
        TimestampStatus::Open(dt) => encode_open_spec(cfg, dt),
        TimestampStatus::Closed => encode_closed_spec(cfg),
    }
}

/// Meaning of a status line.  The line must split into two tokens; the
/// first must be one of the two keywords; with the open keyword the
/// second must spell a valid moment.
pub open spec fn decode_status_spec(cfg: Config, line: Seq<char>) -> Result<
    TimestampStatus,
    CorruptionError,
> {
    match two_words_spec(line) {
        Option::None => Result::Err(CorruptionError::UnknownStatus),
        Option::Some(w) => {
            if w.0 == cfg.open_timestamp_keyword@ {
                match parse_datetime_chars(w.1) {
                    Option::Some(dt) => Result::Ok(TimestampStatus::Open(dt)),
                    Option::None => Result::Err(CorruptionError::BadTimestamp),
                }
            } else if w.0 == cfg.closed_timestamp_keyword@ {
                Result::Ok(TimestampStatus::Closed)
            } else {
                Result::Err(CorruptionError::UnknownStatus)
            }
        },
    }
}

/// Decodes the first line of the status file.  A line without a second
/// token, or with an unknown first token, is corruption — it never
/// decodes to a default state.
pub fn get_current_status(status_line: &str, cfg: &Config) -> (r: Result<
    TimestampStatus,
    CorruptionError,
>)
    ensures
        r == decode_status_spec(*cfg, status_line@),
        two_words_spec(status_line@) is None ==> r == Result::<
            TimestampStatus,
            CorruptionError,
        >::Err(CorruptionError::UnknownStatus),
        (two_words_spec(status_line@) matches Some(w) && w.0 != cfg.open_timestamp_keyword@ && w.0
            != cfg.closed_timestamp_keyword@) ==> r == Result::<
            TimestampStatus,
            CorruptionError,
        >::Err(CorruptionError::UnknownStatus),
{
    match get_two_words_from_line(status_line) {
        None => Err(CorruptionError::UnknownStatus),
        Some((status, payload)) => {
            let status_owned = String::from_str(status);
            if status_owned == cfg.open_timestamp_keyword {
                match datetime_from_string(payload) {
                    Some(dt) => Ok(TimestampStatus::Open(dt)),
                    None => Err(CorruptionError::BadTimestamp),
                }
            } else if status_owned == cfg.closed_timestamp_keyword {
                Ok(TimestampStatus::Closed)
            } else {
                Err(CorruptionError::UnknownStatus)
            }
        },
    }
}

/// The status line to write when opening a session at `now`.
pub fn open_timestamp(cfg: &Config, now: DateTime) -> (line: String)
    requires
        now.wf(),
    ensures
        line@ == encode_open_spec(*cfg, now),
{
    let mut line = cfg.open_timestamp_keyword.clone();
    line.append(" ");
    let rendered = datetime_to_string(now);
    line.append(rendered.as_str());
    proof {
        reveal_strlit(" ");
        assert(line@ =~= encode_open_spec(*cfg, now));
    }
    line
}

/// The status line to write when no session is open.
pub fn set_timestamp_status_closed(cfg: &Config) -> (line: String)
    ensures
        line@ == encode_closed_spec(*cfg),
{
    let mut line = cfg.closed_timestamp_keyword.clone();
    line.append(" TIMESTAMP");
    proof {
        reveal_strlit(" TIMESTAMP");
        reveal_strlit("TIMESTAMP");
        assert(" TIMESTAMP"@ =~= seq![' '] + "TIMESTAMP"@);
        assert(line@ =~= encode_closed_spec(*cfg));
    }
    line
}

/// The placeholder payload of a closed status line holds no space.
proof fn lemma_placeholder_no_space()
    ensures
        no_space_chars("TIMESTAMP"@),
{
    reveal_strlit("TIMESTAMP");
    assert("TIMESTAMP"@ =~= seq!['T', 'I', 'M', 'E', 'S', 'T', 'A', 'M', 'P']);
    assert forall|i: int| 0 <= i < "TIMESTAMP"@.len() implies #[trigger] "TIMESTAMP"@[i] != ' ' by {
        assert(seq!['T', 'I', 'M', 'E', 'S', 'T', 'A', 'M', 'P'][i] != ' ');
    }
}

/// Round trip: every valid session state decodes back from its own
/// status line, under any configuration with usable keywords.
pub proof fn lemma_status_round_trip(cfg: Config, state: TimestampStatus)
    requires
        cfg.wf(),
        state.wf(),
    ensures
        decode_status_spec(cfg, encode_status_spec(cfg, state)) == Result::<
            TimestampStatus,
            CorruptionError,
        >::Ok(state),
{
    match state {
        TimestampStatus::Open(dt) => {
            lemma_datetime_round_trip(dt);
            lemma_two_words_of_join(cfg.open_timestamp_keyword@, datetime_chars(dt));
        },
        TimestampStatus::Closed => {
            lemma_placeholder_no_space();
            lemma_two_words_of_join(cfg.closed_timestamp_keyword@, "TIMESTAMP"@);
        },
    }
}

} // verus!
