//! The reminder record and its reflected state.

use vstd::prelude::*;
use crate::fire_time::ReminderFireTime;

verus! {

/// Stable identity of a reminder, unique within the process.
pub type ReminderId = i64;

/// Identity of the user a reminder belongs to; an opaque routing key for
/// the delivery sink.
pub type UserId = i64;

/// Upper bound on nag repeats after a reminder fires.
pub const NAGGING_ATTEMPTS: u8 = 10;

/// Seconds between nag repeats.
pub const NAGGING_TIMEOUT_SECS: u64 = 30;

/// Upper bound on confirmation repeats after an acknowledgement.
pub const CONFIRMATION_ATTEMPTS: u8 = 10;

/// Seconds between confirmation repeats.
pub const CONFIRMATION_TIMEOUT_SECS: u64 = 120;

/// Where a reminder stands in its daily dialogue.
///
/// The authoritative state lives inside the runner while the reminder is
/// scheduled; the record's field merely reflects it.
#[derive(Clone, Copy, Debug, PartialEq, Eq, Structural)]
pub enum ReminderState {
    /// No active timer, no pending dialogue.
    Pending,
    /// Awaiting the initial fire timer.
    Scheduled,
    /// Fired; awaiting acknowledgement or the nag timer.
    Nagging { attempts_left: u8 },
    /// Acknowledged; awaiting confirmation of completion or the timer.
    Confirming { attempts_left: u8 },
}

impl ReminderState {
    /// Retry counters never exceed their bounds.
    pub open spec fn wf(self) -> bool {
        match self {
            ReminderState::Nagging { attempts_left } => attempts_left <= NAGGING_ATTEMPTS,
            ReminderState::Confirming { attempts_left } => attempts_left <= CONFIRMATION_ATTEMPTS,
            _ => true,
        }
    }
}

/// How often a reminder fires.
pub enum ReminderFiringPeriod {
    OneOff,
    Daily,
}

/// A user-authored reminder: identity, daily fire time, and the opaque
/// payload forwarded to the delivery sink.
#[derive(Clone, Debug, PartialEq, Eq)]
pub struct Reminder {
    pub id: ReminderId,
    pub state: ReminderState,
    pub fire_at: ReminderFireTime,
    pub text: String,
    pub user_id: UserId,
}

impl Reminder {
    pub open spec fn wf(self) -> bool {
        self.state.wf() && self.fire_at.wf()
    }
}

} // verus!
