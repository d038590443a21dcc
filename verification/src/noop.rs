//! A scheduler that accepts every request and schedules nothing: a
//! stand-in where wiring needs a scheduler but no reminders should run.

use vstd::prelude::*;
use crate::registry::ScheduleRequest;
use crate::registry::ScheduledReminder;
use crate::registry::SchedulerError;

verus! {

/// Accepts every request, schedules nothing.
pub struct NoopReminderScheduler;

impl NoopReminderScheduler {
    /// Pretends to schedule; the returned handle carries a fixed id.
    pub fn schedule_reminder(&self, schedule_request: ScheduleRequest) -> (r: Result<
        ScheduledReminder,
        SchedulerError,
    >)
        ensures
            r matches Ok(h) && h.id == 1,
    {
        let _ = schedule_request;
        Ok(ScheduledReminder::new(1))
    }

    /// Pretends to cancel; never fails.
    pub fn cancel_reminder(&self, scheduled_reminder: &ScheduledReminder) -> (r: Result<
        (),
        SchedulerError,
    >)
        ensures
            r is Ok,
    {
        let _ = scheduled_reminder;
        Ok(())
    }

    /// Pretends to acknowledge; never fails.
    pub fn acknowledge_reminder(&self, scheduled_reminder: &ScheduledReminder) -> (r: Result<
        (),
        SchedulerError,
    >)
        ensures
            r is Ok,
    {
        let _ = scheduled_reminder;
        Ok(())
    }

    /// Pretends to confirm; never fails.
    pub fn confirm_reminder(&self, scheduled_reminder: &ScheduledReminder) -> (r: Result<
        (),
        SchedulerError,
    >)
        ensures
            r is Ok,
    {
        let _ = scheduled_reminder;
        Ok(())
    }
}

} // verus!
