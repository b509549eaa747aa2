use rodomopo::datetime::Date;
use rodomopo::errors::CorruptionError;
use rodomopo::history::{
    close_timestamp, get_all_timestamps_in_a_day, sum_minutes_in_timestamps,
    total_minutes_for_date, Timestamp,
};
use rodomopo::config::Config;

fn test_config() -> Config {
    Config::new(
        String::from("status.txt"),
        String::from("timestamps.dat"),
        String::from("config.yaml"),
    )
}

fn lines(ls: &[&str]) -> Vec<String> {
    ls.iter().map(|l| l.to_string()).collect()
}

#[test]
fn lib_sums_mins_in_timestamps() {
    let day = Date::new(2024, 2, 21).unwrap();
    let ts1 = Timestamp {
        date: day,
        duration: 30,
    };
    let ts2 = Timestamp {
        date: day,
        duration: 40,
    };
    let timestamps = vec![ts1, ts2];
    assert_eq!(sum_minutes_in_timestamps(&timestamps), 70);

    let timestamps = Vec::new();
    assert_eq!(sum_minutes_in_timestamps(&timestamps), 0);
}

#[test]
fn timestamping_sums_mins_in_timestamps() {
    let day = Date::new(2024, 2, 21).unwrap();
    let ts1 = Timestamp {
        date: day,
        duration: 30,
    };
    let ts2 = Timestamp {
        date: day,
        duration: 40,
    };
    let timestamps = vec![ts1, ts2];
    assert_eq!(sum_minutes_in_timestamps(&timestamps), 70);

    let timestamps = Vec::new();
    assert_eq!(sum_minutes_in_timestamps(&timestamps), 0);
}

#[test]
fn totals_only_the_matching_date() {
    let ls = lines(&["21/02/2024 30", "22/02/2024 10", "21/02/2024 40"]);
    let day = Date::new(2024, 2, 21).unwrap();
    assert_eq!(total_minutes_for_date(&ls, day), Ok(70));
    let other = Date::new(2024, 2, 22).unwrap();
    assert_eq!(total_minutes_for_date(&ls, other), Ok(10));
}

#[test]
fn empty_match_sums_to_zero() {
    let ls = lines(&["21/02/2024 30"]);
    let day = Date::new(2024, 2, 23).unwrap();
    assert_eq!(total_minutes_for_date(&ls, day), Ok(0));
    assert_eq!(total_minutes_for_date(&Vec::new(), day), Ok(0));
}

#[test]
fn total_is_order_insensitive() {
    let day = Date::new(2024, 2, 21).unwrap();
    let a = lines(&["21/02/2024 30", "22/02/2024 10", "21/02/2024 40"]);
    let b = lines(&["21/02/2024 40", "21/02/2024 30", "22/02/2024 10"]);
    assert_eq!(
        total_minutes_for_date(&a, day),
        total_minutes_for_date(&b, day)
    );
}

#[test]
fn corrupt_line_is_fatal_even_off_date() {
    let day = Date::new(2024, 2, 21).unwrap();
    // The corrupt line's date would not match the query; it is fatal anyway.
    let ls = lines(&["21/02/2024 30", "nonsense", "21/02/2024 40"]);
    assert_eq!(total_minutes_for_date(&ls, day), Err(CorruptionError::BadDate));
    // The first error wins.
    let ls = lines(&["21/02/2024 ten", "nonsense"]);
    assert_eq!(
        total_minutes_for_date(&ls, day),
        Err(CorruptionError::BadDuration)
    );
}

#[test]
fn total_beyond_the_type_is_reported() {
    let day = Date::new(2024, 2, 21).unwrap();
    let ls = lines(&[
        "21/02/2024 9223372036854775807",
        "21/02/2024 9223372036854775807",
    ]);
    assert_eq!(total_minutes_for_date(&ls, day), Err(CorruptionError::Overflow));
    // A single maximal record still fits.
    let ls = lines(&["21/02/2024 9223372036854775807"]);
    assert_eq!(total_minutes_for_date(&ls, day), Ok(i64::MAX));
}

#[test]
fn filters_records_of_one_day() {
    let ls = lines(&["21/02/2024 30", "22/02/2024 10", "21/02/2024 40"]);
    let day = Date::new(2024, 2, 21).unwrap();
    let ts = get_all_timestamps_in_a_day(&ls, day).unwrap();
    assert_eq!(ts.len(), 2);
    assert_eq!(ts[0].duration, 30);
    assert_eq!(ts[1].duration, 40);
    assert!(ts.iter().all(|t| t.date == day));
}

#[test]
fn close_timestamp_yields_both_lines() {
    let cfg = test_config();
    let today = Date::new(2024, 2, 21).unwrap();
    let (status_line, history_line) = close_timestamp(&cfg, today, 67);
    assert_eq!(status_line, "CLOSED TIMESTAMP");
    assert_eq!(history_line, "21/02/2024 67");
}
