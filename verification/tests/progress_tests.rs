use rodomopo::config::internal::InternalConfig;
use rodomopo::config::user::UserConfig;
use rodomopo::config::Config;
use rodomopo::errors::ConfigError;
use rodomopo::progress::{create_progress_bar, render};

#[test]
fn empty_bar_has_cursor_at_position_zero() {
    let bar = render(0, 180, 20).unwrap();
    assert_eq!(bar, "[>--------------------]");
    assert_eq!(create_progress_bar(0, 20), "[>--------------------]");
}

#[test]
fn full_bar_has_no_track_after_cursor() {
    let bar = render(180, 180, 20).unwrap();
    assert_eq!(bar, "[===================>]");
}

#[test]
fn overshooting_the_goal_clamps_to_full() {
    assert_eq!(render(360, 180, 20).unwrap(), "[===================>]");
    assert_eq!(render(i64::MAX, 180, 20).unwrap(), "[===================>]");
}

#[test]
fn negative_progress_clamps_to_empty() {
    assert_eq!(render(-30, 180, 20).unwrap(), "[>--------------------]");
}

#[test]
fn halfway_rounds_to_the_nearest_cell() {
    // 90 of 180 minutes on 20 cells is exactly 10 cells.
    assert_eq!(render(90, 180, 20).unwrap(), "[=========>----------]");
    // 85 of 180 minutes is 9.44 cells, rounding to 9.
    assert_eq!(render(85, 180, 20).unwrap(), "[========>-----------]");
    // 86 of 180 minutes is 9.56 cells, rounding to 10.
    assert_eq!(render(86, 180, 20).unwrap(), "[=========>----------]");
}

#[test]
fn non_positive_goal_is_a_config_error() {
    assert_eq!(render(10, 0, 20), Err(ConfigError::NonPositiveGoal));
    assert_eq!(render(10, -5, 20), Err(ConfigError::NonPositiveGoal));
}

#[test]
fn one_cell_bar() {
    assert_eq!(create_progress_bar(1, 1), "[>]");
    assert_eq!(create_progress_bar(0, 0), "[>]");
}

#[test]
fn config_defaults() {
    let cfg = Config::new(
        String::from("status.txt"),
        String::from("timestamps.dat"),
        String::from("config.yaml"),
    );
    assert_eq!(cfg.status_filepath, "status.txt");
    assert_eq!(cfg.timestamps_filepath, "timestamps.dat");
    assert_eq!(cfg.config_filepath, "config.yaml");
    assert_eq!(cfg.datetime_format, "%d/%m/%Y--%H:%M:%S");
    assert_eq!(cfg.date_format, "%d/%m/%Y");
    assert_eq!(cfg.open_timestamp_keyword, "OPEN");
    assert_eq!(cfg.closed_timestamp_keyword, "CLOSED");
    assert_eq!(cfg.minimum_work_block_duration_in_minutes, 25);
    assert_eq!(cfg.daily_work_goal_in_minutes, 180);
}

#[test]
fn internal_config_defaults() {
    let cfg = InternalConfig::new(
        String::from("status.txt"),
        String::from("timestamps.dat"),
        String::from("config.yaml"),
    );
    assert_eq!(cfg.open_timestamp_keyword, "OPEN");
    assert_eq!(cfg.closed_timestamp_keyword, "CLOSED");
    assert_eq!(cfg.datetime_format, "%d/%m/%Y--%H:%M:%S");
    assert_eq!(cfg.date_format, "%d/%m/%Y");
}

#[test]
fn user_config_defaults() {
    let cfg = UserConfig::default_values();
    assert_eq!(cfg.minimum_work_block_duration_in_minutes, 25);
    assert_eq!(cfg.daily_work_goal_in_minutes, 180);
}
