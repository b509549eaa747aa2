use rodomopo::config::Config;
use rodomopo::datetime::{Date, DateTime};
use rodomopo::engine::{force_close, step, SessionEvent};
use rodomopo::history::Timestamp;
use rodomopo::status::TimestampStatus;

fn test_config() -> Config {
    Config::new(
        String::from("status.txt"),
        String::from("timestamps.dat"),
        String::from("config.yaml"),
    )
}

fn moment(year: u32, month: u32, day: u32, hour: u32, minute: u32, second: u32) -> DateTime {
    DateTime::new(Date::new(year, month, day).unwrap(), hour, minute, second).unwrap()
}

#[test]
fn from_closed_always_opens() {
    let cfg = test_config();
    let now = moment(2024, 3, 14, 10, 28, 1);
    let r = step(&TimestampStatus::Closed, now, &cfg);
    assert_eq!(r.event, SessionEvent::SessionOpened);
    assert_eq!(r.status_write, Some(TimestampStatus::Open(now)));
    assert_eq!(r.history_append, None);
}

#[test]
fn normal_close_records_history() {
    let cfg = test_config();
    let opened = moment(2024, 3, 14, 10, 0, 0);
    let now = moment(2024, 3, 14, 10, 30, 0);
    let r = step(&TimestampStatus::Open(opened), now, &cfg);
    assert_eq!(r.event, SessionEvent::SessionClosed { elapsed: 30 });
    assert_eq!(r.status_write, Some(TimestampStatus::Closed));
    assert_eq!(
        r.history_append,
        Some(Timestamp {
            date: Date::new(2024, 3, 14).unwrap(),
            duration: 30,
        })
    );
}

#[test]
fn too_short_changes_nothing() {
    let cfg = test_config();
    let opened = moment(2024, 3, 14, 10, 0, 0);
    let now = moment(2024, 3, 14, 10, 10, 0);
    let r = step(&TimestampStatus::Open(opened), now, &cfg);
    assert_eq!(r.event, SessionEvent::BlockTooShort { elapsed: 10 });
    assert_eq!(r.status_write, None);
    assert_eq!(r.history_append, None);
}

#[test]
fn stale_session_discarded_and_reopened() {
    let cfg = test_config();
    let opened = moment(2024, 3, 14, 10, 0, 0);
    let now = moment(2024, 3, 14, 13, 20, 0);
    let r = step(&TimestampStatus::Open(opened), now, &cfg);
    assert_eq!(r.event, SessionEvent::StaleSessionDiscarded { elapsed: 200 });
    assert_eq!(r.status_write, Some(TimestampStatus::Open(now)));
    assert_eq!(r.history_append, None);
}

#[test]
fn elapsed_minutes_truncate() {
    let cfg = test_config();
    let opened = moment(2024, 3, 14, 10, 0, 0);
    // One second short of thirty minutes counts as twenty-nine.
    let now = moment(2024, 3, 14, 10, 29, 59);
    let r = step(&TimestampStatus::Open(opened), now, &cfg);
    assert_eq!(r.event, SessionEvent::SessionClosed { elapsed: 29 });
}

#[test]
fn close_after_midnight_belongs_to_closing_day() {
    let cfg = test_config();
    let opened = moment(2024, 3, 14, 23, 50, 0);
    let now = moment(2024, 3, 15, 0, 20, 0);
    let r = step(&TimestampStatus::Open(opened), now, &cfg);
    assert_eq!(r.event, SessionEvent::SessionClosed { elapsed: 30 });
    assert_eq!(
        r.history_append,
        Some(Timestamp {
            date: Date::new(2024, 3, 15).unwrap(),
            duration: 30,
        })
    );
}

#[test]
fn elapsed_crosses_leap_day() {
    let cfg = test_config();
    let opened = moment(2024, 2, 28, 23, 50, 0);
    let now = moment(2024, 2, 29, 0, 20, 0);
    let r = step(&TimestampStatus::Open(opened), now, &cfg);
    assert_eq!(r.event, SessionEvent::SessionClosed { elapsed: 30 });
}

#[test]
fn clock_gone_backwards_is_too_short() {
    let cfg = test_config();
    let opened = moment(2024, 3, 14, 11, 0, 0);
    let now = moment(2024, 3, 14, 10, 0, 0);
    let r = step(&TimestampStatus::Open(opened), now, &cfg);
    assert_eq!(r.event, SessionEvent::BlockTooShort { elapsed: -60 });
    assert_eq!(r.status_write, None);
    assert_eq!(r.history_append, None);
}

#[test]
fn force_close_acts_like_normal_close() {
    let today = Date::new(2024, 3, 14).unwrap();
    let r = force_close(today, 10);
    assert_eq!(r.event, SessionEvent::SessionClosed { elapsed: 10 });
    assert_eq!(r.status_write, Some(TimestampStatus::Closed));
    assert_eq!(
        r.history_append,
        Some(Timestamp {
            date: today,
            duration: 10,
        })
    );
}
