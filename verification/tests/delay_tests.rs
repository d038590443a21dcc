//! The delay calculator on concrete instants.

use chrono::{DateTime, NaiveDate, NaiveDateTime, NaiveTime, Utc};
use nadoeda::delay::get_target_delay;
use nadoeda::fire_time::ReminderFireTime;

fn epoch_secs(dt: NaiveDateTime) -> u64 {
    DateTime::<Utc>::from_naive_utc_and_offset(dt, Utc).timestamp() as u64
}

fn noon_2025_05_31() -> u64 {
    epoch_secs(NaiveDateTime::new(
        NaiveDate::from_ymd_opt(2025, 05, 31).unwrap(),
        NaiveTime::from_hms_opt(12, 0, 0).unwrap(),
    ))
}

#[test]
fn target_datetime_tests_when_firing_time_is_yet_to_come_target_delay_should_be_less_than_day() {
    let now = noon_2025_05_31();
    let fire_at = ReminderFireTime::new(13, 0, 0);

    let delay = get_target_delay(&fire_at, now);

    assert_eq!(
        delay / 3600,
        1,
        "With given constraints the delay should be 1 hour."
    );
}

#[test]
fn target_datetime_tests_when_firing_time_is_passed_target_delay_should_be_next_day() {
    let now = noon_2025_05_31();
    let fire_at = ReminderFireTime::new(11, 0, 0);

    let delay = get_target_delay(&fire_at, now);

    assert_eq!(
        delay / 3600,
        23,
        "With given constraints, the delay should be 23 hours"
    );
}

#[test]
fn simple_reminder_scheduler_when_firing_time_is_yet_to_come_target_delay_should_be_less_than_day()
{
    let now = noon_2025_05_31();
    let fire_at = ReminderFireTime::new(13, 0, 0);

    let delay = get_target_delay(&fire_at, now);

    assert_eq!(
        delay / 3600,
        1,
        "With given constraints the delay should be 1 hour."
    );
}

#[test]
fn simple_reminder_scheduler_when_firing_time_is_passed_target_delay_should_be_next_day() {
    let now = noon_2025_05_31();
    let fire_at = ReminderFireTime::new(11, 0, 0);

    let delay = get_target_delay(&fire_at, now);

    assert_eq!(
        delay / 3600,
        23,
        "With given constraints, the delay should be 23 hours"
    );
}

#[test]
fn scheduler_when_firing_time_is_yet_to_come_target_delay_should_be_less_than_day() {
    let now = noon_2025_05_31();
    let fire_at = ReminderFireTime::new(13, 0, 0);

    let delay = get_target_delay(&fire_at, now);

    assert_eq!(
        delay / 3600,
        1,
        "With given constraints the delay should be 1 hour."
    );
}

#[test]
fn scheduler_when_firing_time_is_passed_target_delay_should_be_next_day() {
    let now = noon_2025_05_31();
    let fire_at = ReminderFireTime::new(11, 0, 0);

    let delay = get_target_delay(&fire_at, now);

    assert_eq!(
        delay / 3600,
        23,
        "With given constraints, the delay should be 23 hours"
    );
}

#[test]
fn exact_delay_one_hour_ahead() {
    let now = noon_2025_05_31();
    let delay = get_target_delay(&ReminderFireTime::new(13, 0, 0), now);
    assert_eq!(delay, 3600);
}

#[test]
fn exact_delay_passed_time_lands_tomorrow() {
    let now = noon_2025_05_31();
    let delay = get_target_delay(&ReminderFireTime::new(11, 0, 0), now);
    assert_eq!(delay, 23 * 3600);
}

#[test]
fn delay_lands_exactly_on_fire_time() {
    let now = noon_2025_05_31();
    let fire_at = ReminderFireTime::new(6, 30, 15);
    let delay = get_target_delay(&fire_at, now);
    let landed = now + delay;
    assert!(delay > 0);
    assert_eq!(landed % 86400, 6 * 3600 + 30 * 60 + 15);
}

#[test]
fn grace_window_pushes_near_target_to_tomorrow() {
    // Target five seconds ahead: within the ten-second grace window, so
    // the delay is a full day plus those five seconds.
    let now = noon_2025_05_31();
    let delay = get_target_delay(&ReminderFireTime::new(12, 0, 5), now);
    assert_eq!(delay, 86400 + 5);
}

#[test]
fn grace_window_is_one_sided() {
    // Eleven seconds ahead: outside the grace window, fires today.
    let now = noon_2025_05_31();
    let delay = get_target_delay(&ReminderFireTime::new(12, 0, 11), now);
    assert_eq!(delay, 11);
}

#[test]
fn target_equal_to_now_lands_tomorrow() {
    let now = noon_2025_05_31();
    let delay = get_target_delay(&ReminderFireTime::new(12, 0, 0), now);
    assert_eq!(delay, 86400);
}
