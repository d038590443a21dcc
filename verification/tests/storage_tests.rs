//! Flattening reminders, users and states into rows and reading them
//! back.

use nadoeda::fire_time::ReminderFireTime;
use nadoeda::noop::NoopReminderScheduler;
use nadoeda::registry::{ScheduleRequest, ScheduledReminder};
use nadoeda::reminder::{Reminder, ReminderState};
use nadoeda::settings::Settings;
use nadoeda::storage_model::{convert_state, parse_state, ReminderStorageModel};
use nadoeda::user::{NewUser, User, UserStorageModel};

#[test]
fn convert_state_writes_tag_and_counter() {
    assert_eq!(
        convert_state(ReminderState::Pending),
        ("Pending".to_string(), None)
    );
    assert_eq!(
        convert_state(ReminderState::Scheduled),
        ("Scheduled".to_string(), None)
    );
    assert_eq!(
        convert_state(ReminderState::Nagging { attempts_left: 4 }),
        ("Nagging".to_string(), Some(4))
    );
    assert_eq!(
        convert_state(ReminderState::Confirming { attempts_left: 9 }),
        ("Confirming".to_string(), Some(9))
    );
}

#[test]
fn parse_state_reads_tags_back() {
    assert_eq!(parse_state("Pending", None), ReminderState::Pending);
    assert_eq!(parse_state("Scheduled", None), ReminderState::Scheduled);
    assert_eq!(
        parse_state("Nagging", Some(6)),
        ReminderState::Nagging { attempts_left: 6 }
    );
    assert_eq!(
        parse_state("Confirming", Some(2)),
        ReminderState::Confirming { attempts_left: 2 }
    );
}

#[test]
fn parse_state_defaults_missing_counter() {
    assert_eq!(
        parse_state("Nagging", None),
        ReminderState::Nagging { attempts_left: 3 }
    );
    assert_eq!(
        parse_state("Confirming", None),
        ReminderState::Confirming { attempts_left: 3 }
    );
}

#[test]
fn parse_state_defaults_unknown_tags_to_pending() {
    assert_eq!(parse_state("", Some(5)), ReminderState::Pending);
    assert_eq!(parse_state("Sleeping", Some(5)), ReminderState::Pending);
    assert_eq!(parse_state("pending", None), ReminderState::Pending);
}

#[test]
fn state_roundtrip_on_every_variant() {
    for state in [
        ReminderState::Pending,
        ReminderState::Scheduled,
        ReminderState::Nagging { attempts_left: 0 },
        ReminderState::Nagging { attempts_left: 10 },
        ReminderState::Confirming { attempts_left: 1 },
        ReminderState::Confirming { attempts_left: 10 },
    ] {
        let (kind, attempts) = convert_state(state);
        assert_eq!(parse_state(&kind, attempts), state);
    }
}

#[test]
fn reminder_roundtrip_through_row() {
    let before = Reminder {
        id: 11,
        user_id: 12,
        state: ReminderState::Nagging { attempts_left: 7 },
        fire_at: ReminderFireTime::new(12, 30, 0),
        text: "stretch".to_string(),
    };
    let row = ReminderStorageModel::from_reminder(before.clone());
    assert_eq!(row.id, 11);
    assert_eq!(row.user_id, 12);
    assert_eq!(row.state_kind, "Nagging");
    assert_eq!(row.attempts_left, Some(7));
    assert_eq!(row.fire_at, "12:30:00");
    assert_eq!(row.text, "stretch");
    let restored = row.into_reminder().unwrap();
    assert_eq!(restored, before);
}

#[test]
fn row_with_bad_fire_time_does_not_become_a_reminder() {
    let row = ReminderStorageModel {
        id: 1,
        user_id: 2,
        state_kind: "Pending".to_string(),
        attempts_left: None,
        fire_at: "25:00:00".to_string(),
        text: "".to_string(),
    };
    assert!(row.into_reminder().is_none());
}

#[test]
fn fire_time_renders_two_digits_apiece() {
    assert_eq!(ReminderFireTime::new(7, 5, 9).into_string(), "07:05:09");
    assert_eq!(ReminderFireTime::new(23, 59, 59).into_string(), "23:59:59");
    assert_eq!(ReminderFireTime::new(0, 0, 0).into_string(), "00:00:00");
}

#[test]
fn fire_time_parses_its_own_rendering() {
    let t = ReminderFireTime::new(18, 45, 30);
    assert_eq!(ReminderFireTime::from_string("18:45:30"), Some(t));
    assert_eq!(ReminderFireTime::from_string(&t.into_string()), Some(t));
}

#[test]
fn fire_time_rejects_malformed_renderings() {
    for bad in [
        "", "12:30", "1:2:3", "12-30-00", "24:00:00", "12:60:00", "12:00:60", "aa:bb:cc",
        "12:30:00 ", "112:30:00",
    ] {
        assert_eq!(ReminderFireTime::from_string(bad), None, "accepted {bad:?}");
    }
}

#[test]
fn user_roundtrip_keeps_known_timezone() {
    let user = User {
        id: 5,
        timezone: "Europe/Prague".to_string(),
        tg_chat_id: Some(77),
    };
    let row = UserStorageModel::from_user(user);
    assert_eq!(row.timezone, "Europe/Prague");
    let restored = row.into_user();
    assert_eq!(restored.id, 5);
    assert_eq!(restored.tg_chat_id, Some(77));
    assert_eq!(restored.timezone, "Europe/Prague");
}

#[test]
fn unknown_timezone_falls_back_to_utc() {
    let row = UserStorageModel {
        id: 1,
        timezone: "Random Text".to_string(),
        tg_chat_id: None,
    };
    assert_eq!(row.into_user().timezone, "UTC");
}

#[test]
fn new_user_carries_its_fields() {
    let n = NewUser {
        timezone: "Asia/Tokyo".to_string(),
        tg_chat_id: Some(3),
    };
    assert_eq!(n.timezone, "Asia/Tokyo");
    assert_eq!(n.tg_chat_id, Some(3));
}

#[test]
fn settings_hold_the_token() {
    let s = Settings::new("example-token".to_string());
    assert_eq!(s.telegram.token, "example-token");
}

#[test]
fn noop_scheduler_accepts_everything() {
    let scheduler = NoopReminderScheduler;
    let r = Reminder {
        id: 9,
        user_id: 1,
        state: ReminderState::Pending,
        fire_at: ReminderFireTime::new(12, 0, 0),
        text: "".to_string(),
    };
    let handle = scheduler.schedule_reminder(ScheduleRequest::new(r)).unwrap();
    assert_eq!(handle.id, 1);
    assert!(scheduler.cancel_reminder(&handle).is_ok());
    assert!(scheduler.acknowledge_reminder(&handle).is_ok());
    assert!(scheduler.confirm_reminder(&handle).is_ok());
    assert!(scheduler
        .cancel_reminder(&ScheduledReminder::new(1234))
        .is_ok());
}

#[test]
fn local_time_converts_to_utc_in_fixed_offset_zone() {
    // Etc/GMT-1 is one hour ahead of UTC the whole year round.
    let t = ReminderFireTime::new_utc_from_local(13, 0, 0, "Etc/GMT-1").unwrap();
    assert_eq!((t.hour(), t.minute(), t.second()), (12, 0, 0));
    let back = t.to_local_time("Etc/GMT-1").unwrap();
    assert_eq!((back.hour(), back.minute(), back.second()), (13, 0, 0));
}

#[test]
fn unknown_zone_converts_to_nothing() {
    assert!(ReminderFireTime::new_utc_from_local(13, 0, 0, "Nowhere/AtAll").is_none());
    assert!(ReminderFireTime::new(12, 0, 0)
        .to_local_time("Nowhere/AtAll")
        .is_none());
}
