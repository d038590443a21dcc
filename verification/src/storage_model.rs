//! The flat shape a reminder takes in a row store: plain columns for the
//! state tag, the retry counter and the fire time, with conversions to and
//! from the live record.

use vstd::prelude::*;
use crate::fire_time::ReminderFireTime;
use crate::fire_time::spec_parse_time;
use crate::fire_time::spec_time_string;
use crate::fire_time::lemma_time_string_roundtrip;
use crate::reminder::Reminder;
use crate::reminder::ReminderState;
use crate::text::str_eq;

verus! {

/// A reminder as a row of plain columns.
pub struct ReminderStorageModel {
    pub id: i64,
    pub user_id: i64,
    pub state_kind: String,
    pub attempts_left: Option<i64>,
    pub fire_at: String,
    pub text: String,
}

/// The tag column a state is stored under.
pub open spec fn state_kind_name(state: ReminderState) -> Seq<char> {
    match state {
        ReminderState::Pending => "Pending"@,
        ReminderState::Scheduled => "Scheduled"@,
        ReminderState::Nagging { .. } => "Nagging"@,
        ReminderState::Confirming { .. } => "Confirming"@,
    }
}

/// The retry-counter column a state is stored under.
pub open spec fn state_attempts(state: ReminderState) -> Option<i64> {
    match state {
        ReminderState::Nagging { attempts_left } => Some(attempts_left as i64),
        ReminderState::Confirming { attempts_left } => Some(attempts_left as i64),
        _ => None,
    }
}

/// The retry counter read back from its column; a missing value falls
/// back to a small default.
pub open spec fn spec_attempts_or_default(attempts: Option<i64>) -> u8 {
    match attempts {
        Some(v) => v as u8,
        None => 3u8,
    }
}

/// The state a tag and counter column denote.  An unknown tag falls back
/// to `Pending`.
pub open spec fn spec_parse_state(kind: Seq<char>, attempts: Option<i64>) -> ReminderState {
    if kind == "Pending"@ {
        ReminderState::Pending
    } else if kind == "Scheduled"@ {
        ReminderState::Scheduled
    } else if kind == "Nagging"@ {
        ReminderState::Nagging { attempts_left: spec_attempts_or_default(attempts) }
    } else if kind == "Confirming"@ {
        ReminderState::Confirming { attempts_left: spec_attempts_or_default(attempts) }
    } else {
        ReminderState::Pending
    }
}

/// Flatten a state into its tag and retry-counter columns.
pub fn convert_state(state: ReminderState) -> (r: (String, Option<i64>))
    ensures
        r.0@ == state_kind_name(state),
        r.1 == state_attempts(state),
{
    match state {
        ReminderState::Pending => ("Pending".to_owned(), None),
        ReminderState::Scheduled => ("Scheduled".to_owned(), None),
        ReminderState::Nagging { attempts_left } => (
            "Nagging".to_owned(),
            Some(attempts_left as i64),
        ),
        ReminderState::Confirming { attempts_left } => (
            "Confirming".to_owned(),
            Some(attempts_left as i64),
        ),
    }
}

/// Read a state back from its tag and retry-counter columns.
pub fn parse_state(state: &str, attempts_left: Option<i64>) -> (r: ReminderState)
    ensures
        r == spec_parse_state(state@, attempts_left),
{
    let attempts: u8 = match attempts_left {
        Some(v) => v as u8,
        None => 3,
    };
    if str_eq(state, "Pending") {
        ReminderState::Pending
    } else if str_eq(state, "Scheduled") {
        ReminderState::Scheduled
    } else if str_eq(state, "Nagging") {
        ReminderState::Nagging { attempts_left: attempts }
    } else if str_eq(state, "Confirming") {
        ReminderState::Confirming { attempts_left: attempts }
    } else {
        ReminderState::Pending
    }
}

/// Flattening a state and reading it back returns the same state, except
/// that the reflected retry counter survives only up to the width of its
/// column read-back.
pub proof fn lemma_state_roundtrip(state: ReminderState)
    ensures
        spec_parse_state(state_kind_name(state), state_attempts(state)) == state,
{
    reveal_strlit("Pending");
    reveal_strlit("Scheduled");
    reveal_strlit("Nagging");
    reveal_strlit("Confirming");
    assert("Nagging"@ != "Pending"@) by {
        assert("Nagging"@[0] != "Pending"@[0]);
    }
    assert("Nagging"@ != "Scheduled"@) by {
        assert("Nagging"@.len() != "Scheduled"@.len());
    }
    assert("Scheduled"@ != "Pending"@) by {
        assert("Scheduled"@.len() != "Pending"@.len());
    }
    assert("Confirming"@ != "Pending"@) by {
        assert("Confirming"@.len() != "Pending"@.len());
    }
    assert("Confirming"@ != "Scheduled"@) by {
        assert("Confirming"@.len() != "Scheduled"@.len());
    }
    assert("Confirming"@ != "Nagging"@) by {
        assert("Confirming"@.len() != "Nagging"@.len());
    }
}

impl ReminderStorageModel {
    /// Flatten a reminder into its row.
    pub fn from_reminder(value: Reminder) -> (r: Self)
        requires
            value.fire_at.wf(),
        ensures
            r.id == value.id,
            r.user_id == value.user_id,
            r.state_kind@ == state_kind_name(value.state),
            r.attempts_left == state_attempts(value.state),
            r.fire_at@ == spec_time_string(value.fire_at),
            r.text == value.text,
    {
        let (state_kind, attempts_left) = convert_state(value.state);
        ReminderStorageModel {
            id: value.id,
            user_id: value.user_id,
            state_kind,
            attempts_left,
            fire_at: value.fire_at.into_string(),
            text: value.text,
        }
    }

    /// Read a reminder back from its row.  `None` reports a fire-time
    /// column that does not spell a time of day.
    pub fn into_reminder(self) -> (r: Option<Reminder>)
        ensures
            r is Some <==> spec_parse_time(self.fire_at@) is Some,
            r matches Some(reminder) ==> {
                &&& reminder.id == self.id
                &&& reminder.user_id == self.user_id
                &&& reminder.state == spec_parse_state(self.state_kind@, self.attempts_left)
                &&& Some(reminder.fire_at) == spec_parse_time(self.fire_at@)
                &&& reminder.text == self.text
            },
    {
        let state = parse_state(self.state_kind.as_str(), self.attempts_left);
        let fire_at = match ReminderFireTime::from_string(self.fire_at.as_str()) {
            Some(t) => t,
            None => {
                return None;
            },
        };
        Some(
            Reminder {
                id: self.id,
                user_id: self.user_id,
                fire_at,
                text: self.text,
                state,
            },
        )
    }
}

/// A reminder survives the trip through its row unchanged.
pub proof fn lemma_reminder_roundtrip(value: Reminder, row: ReminderStorageModel)
    requires
        value.fire_at.wf(),
        row.id == value.id,
        row.user_id == value.user_id,
        row.state_kind@ == state_kind_name(value.state),
        row.attempts_left == state_attempts(value.state),
        row.fire_at@ == spec_time_string(value.fire_at),
        row.text == value.text,
    ensures
        spec_parse_state(row.state_kind@, row.attempts_left) == value.state,
        spec_parse_time(row.fire_at@) == Some(value.fire_at),
{
    lemma_state_roundtrip(value.state);
    lemma_time_string_roundtrip(value.fire_at);
}

} // verus!
