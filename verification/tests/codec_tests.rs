use rodomopo::config::Config;
use rodomopo::datetime::{date_from_string, date_to_string, datetime_from_string, datetime_to_string, Date, DateTime};
use rodomopo::errors::CorruptionError;
use rodomopo::history::{encode_timestamp, get_timestamp_from_line, Timestamp};
use rodomopo::status::{get_current_status, open_timestamp, set_timestamp_status_closed, TimestampStatus};
use rodomopo::words::get_two_words_from_line;

fn test_config() -> Config {
    Config::new(
        String::from("status.txt"),
        String::from("timestamps.dat"),
        String::from("config.yaml"),
    )
}

#[test]
fn lib_it_gets_two_words() {
    let line = "two words";
    let (first, second) = get_two_words_from_line(line).unwrap();
    assert_eq!(first, "two");
    assert_eq!(second, "words");
}

#[test]
fn timestamping_it_gets_two_words() {
    let line = "two words";
    let (first, second) = get_two_words_from_line(line).unwrap();
    assert_eq!(first, "two");
    assert_eq!(second, "words");
}

#[test]
fn two_words_edge_cases() {
    assert!(get_two_words_from_line("oneword").is_none());
    assert!(get_two_words_from_line("").is_none());
    let (first, second) = get_two_words_from_line("a b c").unwrap();
    assert_eq!(first, "a");
    assert_eq!(second, "b");
    let (first, second) = get_two_words_from_line("tail ").unwrap();
    assert_eq!(first, "tail");
    assert_eq!(second, "");
}

#[test]
fn lib_gets_timestamp_from_line() {
    let line: String = String::from("21/02/2024 67");
    let ts = get_timestamp_from_line(&line).unwrap();

    let date: Date = date_from_string("21/02/2024").unwrap();

    assert_eq!(date, ts.date);
    assert_eq!(67, ts.duration);
}

#[test]
fn timestamping_gets_timestamp_from_line() {
    let line: String = String::from("21/02/2024 67");
    let ts = get_timestamp_from_line(&line).unwrap();

    let date: Date = date_from_string("21/02/2024").unwrap();

    assert_eq!(date, ts.date);
    assert_eq!(67, ts.duration);
}

#[test]
fn gets_status_from_line() {
    let line: String = String::from("OPEN 14/03/2024--10:28:01");
    let (_status, datetime_string) = get_two_words_from_line(&line).unwrap();
    let datetime: DateTime = datetime_from_string(datetime_string).unwrap();

    let dt = DateTime::new(Date::new(2024, 3, 14).unwrap(), 10, 28, 1).unwrap();

    assert_eq!(datetime, dt);
}

#[test]
fn gets_datetime_from_string() {
    let s_datetime: String = String::from("14/03/2024--10:28:01");
    let s_date: String = String::from("14/03/2024");
    let d = Date::new(2024, 3, 14).unwrap();
    let dt = DateTime::new(d, 10, 28, 1).unwrap();

    assert_eq!(date_from_string(&s_date).unwrap(), d);
    assert_eq!(datetime_from_string(&s_datetime).unwrap(), dt);
}

#[test]
fn status_round_trip_open() {
    let cfg = test_config();
    let dt = DateTime::new(Date::new(2024, 3, 14).unwrap(), 10, 28, 1).unwrap();
    let line = open_timestamp(&cfg, dt);
    assert_eq!(line, "OPEN 14/03/2024--10:28:01");
    assert_eq!(
        get_current_status(&line, &cfg).unwrap(),
        TimestampStatus::Open(dt)
    );
}

#[test]
fn status_round_trip_closed() {
    let cfg = test_config();
    let line = set_timestamp_status_closed(&cfg);
    assert_eq!(line, "CLOSED TIMESTAMP");
    assert_eq!(
        get_current_status(&line, &cfg).unwrap(),
        TimestampStatus::Closed
    );
}

#[test]
fn status_corruption_rejected() {
    let cfg = test_config();
    // Missing second token: corruption, never a default state.
    assert_eq!(
        get_current_status("OPEN", &cfg),
        Err(CorruptionError::UnknownStatus)
    );
    assert_eq!(
        get_current_status("", &cfg),
        Err(CorruptionError::UnknownStatus)
    );
    // Unknown keyword.
    assert_eq!(
        get_current_status("PAUSED 14/03/2024--10:28:01", &cfg),
        Err(CorruptionError::UnknownStatus)
    );
    // Open keyword with an unparseable payload.
    assert_eq!(
        get_current_status("OPEN yesterday", &cfg),
        Err(CorruptionError::BadTimestamp)
    );
    assert_eq!(
        get_current_status("OPEN 14/03/2024", &cfg),
        Err(CorruptionError::BadTimestamp)
    );
    // Closed keyword ignores its payload.
    assert_eq!(
        get_current_status("CLOSED whatever", &cfg).unwrap(),
        TimestampStatus::Closed
    );
}

#[test]
fn history_round_trip() {
    let t = Timestamp {
        date: Date::new(2024, 2, 21).unwrap(),
        duration: 67,
    };
    let line = encode_timestamp(&t);
    assert_eq!(line, "21/02/2024 67");
    assert_eq!(get_timestamp_from_line(&line).unwrap(), t);
}

#[test]
fn history_round_trip_zero() {
    let t = Timestamp {
        date: Date::new(2024, 12, 31).unwrap(),
        duration: 0,
    };
    let line = encode_timestamp(&t);
    assert_eq!(line, "31/12/2024 0");
    assert_eq!(get_timestamp_from_line(&line).unwrap(), t);
}

#[test]
fn history_corruption_rejected() {
    // Unparseable date.
    assert_eq!(
        get_timestamp_from_line("xx/yy/zzzz 10"),
        Err(CorruptionError::BadDate)
    );
    // Not a calendar date.
    assert_eq!(
        get_timestamp_from_line("31/02/2024 10"),
        Err(CorruptionError::BadDate)
    );
    // Missing duration token.
    assert_eq!(
        get_timestamp_from_line("21/02/2024"),
        Err(CorruptionError::BadDuration)
    );
    // Negative and non-numeric durations.
    assert_eq!(
        get_timestamp_from_line("21/02/2024 -5"),
        Err(CorruptionError::BadDuration)
    );
    assert_eq!(
        get_timestamp_from_line("21/02/2024 abc"),
        Err(CorruptionError::BadDuration)
    );
    assert_eq!(
        get_timestamp_from_line("21/02/2024 +5"),
        Err(CorruptionError::BadDuration)
    );
    // A duration beyond the type is corruption, not wraparound.
    assert_eq!(
        get_timestamp_from_line("21/02/2024 99999999999999999999"),
        Err(CorruptionError::BadDuration)
    );
}

#[test]
fn history_tolerates_leading_zeros_and_extra_tokens() {
    let ts = get_timestamp_from_line("21/02/2024 007").unwrap();
    assert_eq!(ts.duration, 7);
    let ts = get_timestamp_from_line("21/02/2024 67 trailing junk").unwrap();
    assert_eq!(ts.duration, 67);
}

#[test]
fn date_validity() {
    assert!(date_from_string("29/02/2024").is_some());
    assert!(date_from_string("29/02/2023").is_none());
    assert!(date_from_string("00/01/2024").is_none());
    assert!(date_from_string("31/04/2024").is_none());
    assert!(date_from_string("1/03/2024").is_none());
    assert!(date_from_string("01/03/24").is_none());
    assert!(datetime_from_string("14/03/2024--24:00:00").is_none());
    assert!(datetime_from_string("14/03/2024--23:60:00").is_none());
    assert!(datetime_from_string("14/03/2024--23:59:60").is_none());
    assert!(datetime_from_string("14/03/2024 10:28:01").is_none());
}

#[test]
fn formatting_pads_fixed_width() {
    let d = Date::new(99, 1, 5).unwrap();
    assert_eq!(date_to_string(d), "05/01/0099");
    let dt = DateTime::new(Date::new(2024, 3, 4).unwrap(), 9, 8, 7).unwrap();
    assert_eq!(datetime_to_string(dt), "04/03/2024--09:08:07");
}
