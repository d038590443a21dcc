//! The runner state machine, one step and whole runs.

use nadoeda::fire_time::ReminderFireTime;
use nadoeda::reminder::{Reminder, ReminderState};
use nadoeda::runner::{handle_event, run_reminder, ReminderEvent, ReminderMessageType};

fn reminder_at(hour: u8, minute: u8) -> Reminder {
    Reminder {
        id: 1,
        state: ReminderState::Pending,
        fire_at: ReminderFireTime::new(hour, minute, 0),
        text: "".to_string(),
        user_id: 7,
    }
}

#[test]
fn schedule_from_pending_emits_scheduled_and_arms_fire_timer() {
    // Submit at 11:00:00 UTC for a 12:00:00 fire time: one hour out.
    let r = reminder_at(12, 0);
    let now: u64 = 11 * 3600;
    let o = handle_event(&r, &ReminderState::Pending, &ReminderEvent::Schedule, now);
    assert_eq!(o.state, ReminderState::Scheduled);
    assert_eq!(o.emit, Some(ReminderMessageType::Scheduled));
    assert_eq!(o.timer_secs, Some(3600));
    assert!(!o.stop);
}

#[test]
fn trigger_from_scheduled_fires_and_enters_nagging() {
    let r = reminder_at(12, 0);
    let o = handle_event(&r, &ReminderState::Scheduled, &ReminderEvent::Trigger, 0);
    assert_eq!(o.state, ReminderState::Nagging { attempts_left: 10 });
    assert_eq!(o.emit, Some(ReminderMessageType::Fired));
    assert_eq!(o.timer_secs, Some(30));
}

#[test]
fn trigger_in_nagging_nags_and_counts_down() {
    let r = reminder_at(12, 0);
    let o = handle_event(
        &r,
        &ReminderState::Nagging { attempts_left: 4 },
        &ReminderEvent::Trigger,
        0,
    );
    assert_eq!(o.state, ReminderState::Nagging { attempts_left: 3 });
    assert_eq!(o.emit, Some(ReminderMessageType::Nag));
    assert_eq!(o.timer_secs, Some(30));
}

#[test]
fn trigger_in_exhausted_nagging_times_out() {
    let r = reminder_at(12, 0);
    let o = handle_event(
        &r,
        &ReminderState::Nagging { attempts_left: 0 },
        &ReminderEvent::Trigger,
        0,
    );
    assert_eq!(o.state, ReminderState::Pending);
    assert_eq!(o.emit, Some(ReminderMessageType::Timeout));
    assert_eq!(o.timer_secs, None);
}

#[test]
fn acknowledge_enters_confirming() {
    let r = reminder_at(12, 0);
    let o = handle_event(
        &r,
        &ReminderState::Nagging { attempts_left: 6 },
        &ReminderEvent::Acknowledge,
        0,
    );
    assert_eq!(o.state, ReminderState::Confirming { attempts_left: 10 });
    assert_eq!(o.emit, Some(ReminderMessageType::Acknowledge));
    assert_eq!(o.timer_secs, Some(120));
}

#[test]
fn trigger_in_confirming_reminds_and_counts_down() {
    let r = reminder_at(12, 0);
    let o = handle_event(
        &r,
        &ReminderState::Confirming { attempts_left: 2 },
        &ReminderEvent::Trigger,
        0,
    );
    assert_eq!(o.state, ReminderState::Confirming { attempts_left: 1 });
    assert_eq!(o.emit, Some(ReminderMessageType::Confirmation));
    assert_eq!(o.timer_secs, Some(120));
}

#[test]
fn trigger_in_exhausted_confirming_times_out() {
    let r = reminder_at(12, 0);
    let o = handle_event(
        &r,
        &ReminderState::Confirming { attempts_left: 0 },
        &ReminderEvent::Trigger,
        0,
    );
    assert_eq!(o.state, ReminderState::Pending);
    assert_eq!(o.emit, Some(ReminderMessageType::Timeout));
}

#[test]
fn confirm_finishes_the_dialogue() {
    let r = reminder_at(12, 0);
    let o = handle_event(
        &r,
        &ReminderState::Confirming { attempts_left: 9 },
        &ReminderEvent::Confirm,
        0,
    );
    assert_eq!(o.state, ReminderState::Pending);
    assert_eq!(o.emit, Some(ReminderMessageType::Finished));
}

#[test]
fn stop_emits_farewell_from_any_state() {
    let r = reminder_at(12, 0);
    for state in [
        ReminderState::Pending,
        ReminderState::Scheduled,
        ReminderState::Nagging { attempts_left: 5 },
        ReminderState::Confirming { attempts_left: 5 },
    ] {
        let o = handle_event(&r, &state, &ReminderEvent::Stop, 0);
        assert_eq!(o.state, ReminderState::Pending);
        assert_eq!(o.emit, Some(ReminderMessageType::Stopped));
        assert!(o.stop);
    }
}

#[test]
fn unknown_combinations_are_no_ops() {
    let r = reminder_at(12, 0);
    // A stale trigger in Pending, a second schedule in Scheduled, a
    // confirm before any acknowledgement.
    let o = handle_event(&r, &ReminderState::Pending, &ReminderEvent::Trigger, 0);
    assert_eq!(o.state, ReminderState::Pending);
    assert_eq!(o.emit, None);
    let o = handle_event(&r, &ReminderState::Scheduled, &ReminderEvent::Schedule, 0);
    assert_eq!(o.state, ReminderState::Scheduled);
    assert_eq!(o.emit, None);
    let o = handle_event(&r, &ReminderState::Scheduled, &ReminderEvent::Confirm, 0);
    assert_eq!(o.state, ReminderState::Scheduled);
    assert_eq!(o.emit, None);
}

#[test]
fn run_full_happy_path() {
    // Schedule, fire, acknowledge, confirm: the full dialogue.
    let mut r = reminder_at(12, 0);
    let events = vec![
        ReminderEvent::Schedule,
        ReminderEvent::Trigger,
        ReminderEvent::Acknowledge,
        ReminderEvent::Confirm,
    ];
    let emissions = run_reminder(&mut r, &events, 11 * 3600);
    assert_eq!(
        emissions,
        vec![
            ReminderMessageType::Scheduled,
            ReminderMessageType::Fired,
            ReminderMessageType::Acknowledge,
            ReminderMessageType::Finished,
        ]
    );
    assert_eq!(r.state, ReminderState::Pending);
}

#[test]
fn run_stops_at_stop_and_ignores_the_rest() {
    let mut r = reminder_at(12, 0);
    let events = vec![
        ReminderEvent::Schedule,
        ReminderEvent::Stop,
        ReminderEvent::Trigger,
        ReminderEvent::Trigger,
    ];
    let emissions = run_reminder(&mut r, &events, 11 * 3600);
    assert_eq!(
        emissions,
        vec![ReminderMessageType::Scheduled, ReminderMessageType::Stopped]
    );
}

#[test]
fn run_nagging_exhaustion_counts_nags() {
    // Fired, then eleven timer expiries: ten nags, then a timeout.
    let mut r = reminder_at(12, 0);
    let mut events = vec![ReminderEvent::Schedule, ReminderEvent::Trigger];
    for _ in 0..11 {
        events.push(ReminderEvent::Trigger);
    }
    let emissions = run_reminder(&mut r, &events, 11 * 3600);
    let nags = emissions
        .iter()
        .filter(|m| **m == ReminderMessageType::Nag)
        .count();
    assert_eq!(nags, 10);
    assert_eq!(emissions.last(), Some(&ReminderMessageType::Timeout));
    assert_eq!(r.state, ReminderState::Pending);
}

#[test]
fn run_confirmation_exhaustion_counts_confirmations() {
    let mut r = reminder_at(12, 0);
    let mut events = vec![
        ReminderEvent::Schedule,
        ReminderEvent::Trigger,
        ReminderEvent::Acknowledge,
    ];
    for _ in 0..11 {
        events.push(ReminderEvent::Trigger);
    }
    let emissions = run_reminder(&mut r, &events, 11 * 3600);
    let confirmations = emissions
        .iter()
        .filter(|m| **m == ReminderMessageType::Confirmation)
        .count();
    assert_eq!(confirmations, 10);
    assert_eq!(emissions.last(), Some(&ReminderMessageType::Timeout));
}

#[test]
fn run_emissions_grow_by_prefix() {
    // Consuming a prefix of the events emits a prefix of the messages.
    let mut full = reminder_at(12, 0);
    let events = vec![
        ReminderEvent::Schedule,
        ReminderEvent::Trigger,
        ReminderEvent::Trigger,
        ReminderEvent::Acknowledge,
        ReminderEvent::Trigger,
        ReminderEvent::Confirm,
    ];
    let whole = run_reminder(&mut full, &events, 11 * 3600);
    for i in 0..events.len() {
        let mut part = reminder_at(12, 0);
        let head = run_reminder(&mut part, &events[..i].to_vec(), 11 * 3600);
        assert_eq!(head[..], whole[..head.len()]);
    }
}
