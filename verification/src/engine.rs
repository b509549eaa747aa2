//! Session engine: the state machine driven once per invocation.
//!
//! Given the stored session state and the current moment, the engine
//! decides whether to open, close, discard or keep the session, and says
//! exactly what must be persisted.  It performs no I/O itself: the caller
//! reads the status line beforehand and carries out the returned writes.
//! Transitions are deliberately not idempotent — running twice performs
//! the described effect twice — and there is no cancel or pause state.

use vstd::prelude::*;
use crate::config::Config;
use crate::datetime::{minutes_between, minutes_between_of, Date, DateTime};
use crate::history::Timestamp;
use crate::status::TimestampStatus;

verus! {

/// What one engine step did, for the caller's presentation layer.
#[derive(Clone, Copy, Debug, PartialEq, Eq, Structural)]
pub enum SessionEvent {
    /// No session was open; one was opened at the current moment.
    SessionOpened,
    /// An open session had lasted at least the daily goal, so it was
    /// discarded as abandoned — without recording history — and a fresh
    /// session was opened at the current moment.
    StaleSessionDiscarded { elapsed: i64 },
    /// The open session is still shorter than the minimum block; nothing
    /// was persisted.  The caller may ask the user and then force the
    /// close with [`force_close`].
    BlockTooShort { elapsed: i64 },
    /// The open session closed normally.
    SessionClosed { elapsed: i64 },
}

/// The outcome of one engine step: the event to report, and what the
/// caller must persist.
#[derive(Clone, Copy, Debug, PartialEq, Eq, Structural)]
pub struct StepOutcome {
    /// The event to report.
    pub event: SessionEvent,
    /// New session state to encode into the status file, if it changes.
    pub status_write: Option<TimestampStatus>,
    /// Completed session to append to the history file, if any.
    pub history_append: Option<Timestamp>,
}

/// One step of the state machine at moment `now`.
///
/// From `Closed` the engine always opens a session at `now`.  From
/// `Open(t)` it computes the elapsed whole minutes and takes the first
/// matching branch: at or past the daily goal the session is stale and
/// replaced by a fresh one; under the minimum block nothing happens;
/// otherwise the session closes, attributed to the date of `now` — the
/// closing day — even when it was opened before midnight.
pub fn step(state: &TimestampStatus, now: DateTime, cfg: &Config) -> (r: StepOutcome)
    requires
        state.wf(),
        now.wf(),
        cfg.wf(),
    ensures
        r.status_write matches Some(st) ==> st.wf(),
        r.history_append matches Some(rec) ==> rec.wf(),
        match *state {
            TimestampStatus::Closed => r == (StepOutcome {
                event: SessionEvent::SessionOpened,
                status_write: Some(TimestampStatus::Open(now)),
                history_append: None,
            }),
            TimestampStatus::Open(t) => {
                let e = minutes_between_of(now@, t@);
                if e >= cfg.daily_work_goal_in_minutes {
                    &&& r.event matches SessionEvent::StaleSessionDiscarded { elapsed } && elapsed
                        == e
                    &&& r.status_write == Some(TimestampStatus::Open(now))
                    &&& r.history_append is None
                } else if e < cfg.minimum_work_block_duration_in_minutes {
                    &&& r.event matches SessionEvent::BlockTooShort { elapsed } && elapsed == e
                    &&& r.status_write is None
                    &&& r.history_append is None
                } else {
                    &&& r.event matches SessionEvent::SessionClosed { elapsed } && elapsed == e
                    &&& r.status_write == Some(TimestampStatus::Closed)
                    &&& r.history_append matches Some(rec) && rec.date == now.date && rec.duration
                        == e
                }
            },
        },
{
    match state {
        TimestampStatus::Closed => StepOutcome {
            event: SessionEvent::SessionOpened,
            status_write: Some(TimestampStatus::Open(now)),
            history_append: None,
        },
        TimestampStatus::Open(started_at) => {
            let elapsed = minutes_between(now, *started_at);
            if elapsed >= cfg.daily_work_goal_in_minutes {
                StepOutcome {
                    event: SessionEvent::StaleSessionDiscarded { elapsed },
                    status_write: Some(TimestampStatus::Open(now)),
                    history_append: None,
                }
            } else if elapsed < cfg.minimum_work_block_duration_in_minutes {
                StepOutcome {
                    event: SessionEvent::BlockTooShort { elapsed },
                    status_write: None,
                    history_append: None,
                }
            } else {
                StepOutcome {
                    event: SessionEvent::SessionClosed { elapsed },
                    status_write: Some(TimestampStatus::Closed),
                    history_append: Some(Timestamp { date: now.date, duration: elapsed }),
                }
            }
        },
    }
}

/// Closes a too-short block anyway, after the caller — typically an
/// interactive prompt — obtained consent.  Same effect as a normal close
/// of `elapsed` minutes attributed to `today`.
pub fn force_close(today: Date, elapsed: i64) -> (r: StepOutcome)
    requires
        today.wf(),
        elapsed >= 0,
    ensures
        r.event == (SessionEvent::SessionClosed { elapsed }),
        r.status_write == Some(TimestampStatus::Closed),
        r.history_append == Some((Timestamp { date: today, duration: elapsed })),
        r.history_append matches Some(rec) ==> rec.wf(),
{
    StepOutcome {
        event: SessionEvent::SessionClosed { elapsed },
        status_write: Some(TimestampStatus::Closed),
        history_append: Some(Timestamp { date: today, duration: elapsed }),
    }
}

} // verus!
