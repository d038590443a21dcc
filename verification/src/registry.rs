//! The scheduler registry: the id-keyed table of live runners.
//!
//! One entry per live reminder, with at-most-one-entry-per-id semantics:
//! scheduling an id that is already present fails, cancelling removes the
//! entry and stops its runner, acknowledgements and confirmations are
//! routed to the runner when present and silently succeed when not.  The
//! registry is modelled as a map from reminder id to runner entry; every
//! operation's contract states the map it leaves behind.

use vstd::prelude::*;
use crate::reminder::Reminder;
use crate::reminder::ReminderId;
use crate::reminder::ReminderState;
use crate::runner::ReminderEvent;
use crate::runner::ReminderMessageType;
use crate::runner::StepOutcome;
use crate::runner::handle_event;
use crate::runner::spec_step_emit;
use crate::runner::spec_step_state;
use crate::runner::spec_step_timer;

verus! {

/// Why a registry operation was refused.
#[derive(Clone, Copy, Debug, PartialEq, Eq, Structural)]
pub enum SchedulerError {
    /// The id already has a live runner.
    AlreadyScheduled,
    /// The id has no entry to cancel.
    NoSuchReminder,
}

/// A request to schedule one reminder.
pub struct ScheduleRequest {
    pub reminder: Reminder,
}

impl ScheduleRequest {
    pub fn new(reminder: Reminder) -> (r: Self)
        ensures
            r.reminder == reminder,
    {
        ScheduleRequest { reminder }
    }
}

/// The id-carrying handle returned to the caller of `schedule_reminder`.
#[derive(Clone, Copy, Debug, PartialEq, Eq, Structural)]
pub struct ScheduledReminder {
    pub id: ReminderId,
}

impl ScheduledReminder {
    pub fn new(id: ReminderId) -> (r: Self)
        ensures
            r.id == id,
    {
        ScheduledReminder { id }
    }
}

/// A registry entry: the runner's reminder record (its `state` field is
/// the authoritative state) and whether the runner has terminated.
pub struct RunnerEntry {
    pub reminder: Reminder,
    pub finished: bool,
}

impl RunnerEntry {
    pub open spec fn wf(self) -> bool {
        self.reminder.wf()
    }
}

/// Does some entry of `s` carry the id?
spec fn seq_has_id(s: Seq<RunnerEntry>, id: int) -> bool {
    exists|j: int| 0 <= j < s.len() && s[j].reminder.id == id
}

/// The index of the entry carrying the id (unique when ids are unique).
spec fn seq_index_of(s: Seq<RunnerEntry>, id: int) -> int {
    choose|j: int| 0 <= j < s.len() && s[j].reminder.id == id
}

/// The entry of `s` carrying the id.
spec fn seq_entry(s: Seq<RunnerEntry>, id: int) -> RunnerEntry {
    s[seq_index_of(s, id)]
}

/// No two entries carry the same id.
spec fn unique_ids(s: Seq<RunnerEntry>) -> bool {
    forall|i: int, j: int|
        0 <= i < j < s.len() ==> (#[trigger] s[i].reminder.id) != (#[trigger] s[j].reminder.id)
}

/// The map the entries denote.
spec fn seq_as_map(s: Seq<RunnerEntry>) -> Map<int, RunnerEntry> {
    Map::new(|id: int| seq_has_id(s, id), |id: int| seq_entry(s, id))
}

/// With unique ids, the entry at any index is the one its id maps to.
proof fn lemma_entry_at_index(s: Seq<RunnerEntry>, j: int)
    requires
        unique_ids(s),
        0 <= j < s.len(),
    ensures
        seq_has_id(s, s[j].reminder.id as int),
        seq_index_of(s, s[j].reminder.id as int) == j,
        seq_entry(s, s[j].reminder.id as int) == s[j],
{
    let id = s[j].reminder.id as int;
    assert(0 <= j < s.len() && s[j].reminder.id == id);
    let k = seq_index_of(s, id);
    assert(0 <= k < s.len() && s[k].reminder.id == id);
    if k != j {
        assert(s[k].reminder.id != s[j].reminder.id);
    }
}

/// Appending an entry with a fresh id inserts it into the denoted map.
proof fn lemma_push_view(s: Seq<RunnerEntry>, e: RunnerEntry)
    requires
        unique_ids(s),
        !seq_has_id(s, e.reminder.id as int),
    ensures
        unique_ids(s.push(e)),
        seq_as_map(s.push(e)) =~= seq_as_map(s).insert(e.reminder.id as int, e),
{
    let s2 = s.push(e);
    let id = e.reminder.id as int;
    assert forall|i: int, j: int| 0 <= i < j < s2.len() implies (#[trigger] s2[i].reminder.id)
        != (#[trigger] s2[j].reminder.id) by {
        if j == s.len() {
            if s2[i].reminder.id == e.reminder.id {
                assert(0 <= i < s.len() && s[i].reminder.id == id);
            }
        }
    }
    assert forall|x: int| seq_has_id(s2, x) implies seq_has_id(s, x) || x == id by {
        let k = seq_index_of(s2, x);
        if k < s.len() {
            assert(0 <= k < s.len() && s[k].reminder.id == x);
        }
    }
    assert forall|x: int| seq_has_id(s, x) implies seq_has_id(s2, x) by {
        let k = seq_index_of(s, x);
        assert(0 <= k < s2.len() && s2[k].reminder.id == x);
    }
    assert(seq_has_id(s2, id)) by {
        assert(s2[s.len() as int].reminder.id == id);
    }
    assert(seq_entry(s2, id) == e) by {
        lemma_entry_at_index(s2, s.len() as int);
    }
    assert forall|x: int| seq_has_id(s, x) && x != id implies seq_entry(s2, x) == seq_entry(
        s,
        x,
    ) by {
        let k = seq_index_of(s, x);
        assert(0 <= k < s.len() && s[k].reminder.id == x);
        assert(s2[k] == s[k]);
        lemma_entry_at_index(s2, k);
        lemma_entry_at_index(s, k);
    }
}

/// Replacing the entry at an index, keeping its id, updates the denoted
/// map at that id.
proof fn lemma_update_view(s: Seq<RunnerEntry>, j: int, e: RunnerEntry)
    requires
        unique_ids(s),
        0 <= j < s.len(),
        e.reminder.id == s[j].reminder.id,
    ensures
        unique_ids(s.update(j, e)),
        seq_as_map(s.update(j, e)) =~= seq_as_map(s).insert(e.reminder.id as int, e),
{
    let s2 = s.update(j, e);
    let id = e.reminder.id as int;
    assert forall|i: int, k: int| 0 <= i < k < s2.len() implies (#[trigger] s2[i].reminder.id)
        != (#[trigger] s2[k].reminder.id) by {
        assert(s[i].reminder.id != s[k].reminder.id);
    }
    assert forall|x: int| seq_has_id(s2, x) implies seq_has_id(s, x) by {
        let k = seq_index_of(s2, x);
        if k == j {
            assert(s[j].reminder.id == x);
        } else {
            assert(s[k].reminder.id == x);
        }
    }
    assert forall|x: int| seq_has_id(s, x) implies seq_has_id(s2, x) by {
        let k = seq_index_of(s, x);
        if k == j {
            assert(s2[j].reminder.id == x);
        } else {
            assert(s2[k].reminder.id == x);
        }
    }
    assert(seq_entry(s2, id) == e) by {
        lemma_entry_at_index(s2, j);
    }
    assert forall|x: int| seq_has_id(s, x) && x != id implies seq_entry(s2, x) == seq_entry(
        s,
        x,
    ) by {
        let k = seq_index_of(s, x);
        assert(0 <= k < s.len() && s[k].reminder.id == x);
        assert(k != j);
        assert(s2[k] == s[k]);
        lemma_entry_at_index(s2, k);
        lemma_entry_at_index(s, k);
    }
}

/// Removing the entry at an index removes its id from the denoted map.
proof fn lemma_remove_view(s: Seq<RunnerEntry>, j: int)
    requires
        unique_ids(s),
        0 <= j < s.len(),
    ensures
        unique_ids(s.remove(j)),
        seq_as_map(s.remove(j)) =~= seq_as_map(s).remove(s[j].reminder.id as int),
{
    let s2 = s.remove(j);
    let id = s[j].reminder.id as int;
    assert forall|i: int, k: int| 0 <= i < k < s2.len() implies (#[trigger] s2[i].reminder.id)
        != (#[trigger] s2[k].reminder.id) by {
        let i0 = if i < j {
            i
        } else {
            i + 1
        };
        let k0 = if k < j {
            k
        } else {
            k + 1
        };
        assert(s2[i] == s[i0] && s2[k] == s[k0]);
        assert(s[i0].reminder.id != s[k0].reminder.id);
    }
    assert forall|x: int| seq_has_id(s2, x) implies seq_has_id(s, x) && x != id by {
        let k = seq_index_of(s2, x);
        let k0 = if k < j {
            k
        } else {
            k + 1
        };
        assert(s2[k] == s[k0]);
        assert(0 <= k0 < s.len() && s[k0].reminder.id == x);
        if x == id {
            assert(s[k0].reminder.id == s[j].reminder.id && k0 != j);
        }
    }
    assert forall|x: int| seq_has_id(s, x) && x != id implies seq_has_id(s2, x) by {
        let k = seq_index_of(s, x);
        assert(0 <= k < s.len() && s[k].reminder.id == x);
        assert(k != j);
        let k2 = if k < j {
            k
        } else {
            k - 1
        };
        assert(s2[k2] == s[k]);
        assert(0 <= k2 < s2.len() && s2[k2].reminder.id == x);
    }
    assert forall|x: int| seq_has_id(s, x) && x != id implies seq_entry(s2, x) == seq_entry(
        s,
        x,
    ) by {
        let k = seq_index_of(s, x);
        assert(0 <= k < s.len() && s[k].reminder.id == x);
        assert(k != j);
        let k2 = if k < j {
            k
        } else {
            k - 1
        };
        assert(s2[k2] == s[k]);
        lemma_entry_at_index(s2, k2);
        lemma_entry_at_index(s, k);
    }
}

/// The entry a fresh runner presents once the seeded `Schedule` event has
/// been consumed.
pub open spec fn scheduled_entry(reminder: Reminder) -> RunnerEntry {
    RunnerEntry {
        reminder: Reminder {
            id: reminder.id,
            state: spec_step_state(reminder.state, ReminderEvent::Schedule),
            fire_at: reminder.fire_at,
            text: reminder.text,
            user_id: reminder.user_id,
        },
        finished: false,
    }
}

/// An entry after its runner consumed one event: the state steps through
/// the transition table, and `Stop` terminates the runner.
pub open spec fn delivered_entry(e: RunnerEntry, ev: ReminderEvent) -> RunnerEntry {
    RunnerEntry {
        reminder: Reminder {
            id: e.reminder.id,
            state: spec_step_state(e.reminder.state, ev),
            fire_at: e.reminder.fire_at,
            text: e.reminder.text,
            user_id: e.reminder.user_id,
        },
        finished: e.finished || ev is Stop,
    }
}

/// What scheduling a reminder does to the registry map: nothing when its
/// id is taken, otherwise insert a fresh runner.
pub open spec fn spec_schedule(m: Map<int, RunnerEntry>, reminder: Reminder) -> Map<
    int,
    RunnerEntry,
> {
    if m.dom().contains(reminder.id as int) {
        m
    } else {
        m.insert(reminder.id as int, scheduled_entry(reminder))
    }
}

/// What cancelling an id does to the registry map: drop its entry.
pub open spec fn spec_cancel(m: Map<int, RunnerEntry>, id: int) -> Map<int, RunnerEntry> {
    if m.dom().contains(id) {
        m.remove(id)
    } else {
        m
    }
}

/// What routing one event to a runner does to the registry map: step the
/// entry when the runner is live, nothing when it is absent or finished.
pub open spec fn spec_deliver(m: Map<int, RunnerEntry>, id: int, ev: ReminderEvent) -> Map<
    int,
    RunnerEntry,
> {
    if m.dom().contains(id) && !m[id].finished {
        m.insert(id, delivered_entry(m[id], ev))
    } else {
        m
    }
}

/// What reclaiming does to the registry map: keep exactly the entries
/// whose runner has not finished.
pub open spec fn spec_reclaim(m: Map<int, RunnerEntry>) -> Map<int, RunnerEntry> {
    Map::new(|id: int| m.dom().contains(id) && !m[id].finished, |id: int| m[id])
}

/// What shutting down does to the registry map: every runner's mailbox
/// closes, so every runner finishes; entries stay until reclaimed.
pub open spec fn spec_shutdown(m: Map<int, RunnerEntry>) -> Map<int, RunnerEntry> {
    Map::new(
        |id: int| m.dom().contains(id),
        |id: int|
            RunnerEntry { reminder: m[id].reminder, finished: true },
    )
}

/// What routing an event reports back: `Some` carries the step the live
/// runner took; `None` says the runner was absent or already finished, so
/// nothing happened.
pub open spec fn outcome_matches(
    m: Map<int, RunnerEntry>,
    id: int,
    ev: ReminderEvent,
    now: int,
    r: Option<StepOutcome>,
) -> bool {
    match r {
        Some(o) => m.dom().contains(id) && !m[id].finished && {
            let st = m[id].reminder.state;
            &&& o.state == spec_step_state(st, ev)
            &&& o.emit == spec_step_emit(st, ev)
            &&& o.timer_secs == spec_step_timer(
                st,
                ev,
                m[id].reminder.fire_at.spec_secs_of_day(),
                now,
            )
            &&& o.stop == (ev is Stop)
        },
        None => !(m.dom().contains(id) && !m[id].finished),
    }
}

/// The registry of live runners, keyed by reminder id.
pub struct DeliveryReminderScheduler {
    tasks: Vec<RunnerEntry>,
}

impl DeliveryReminderScheduler {
    /// The registry as a map from reminder id to its entry.
    pub closed spec fn view(&self) -> Map<int, RunnerEntry> {
        seq_as_map(self.tasks@)
    }

    /// Ids are unique and every entry is well-formed.
    pub closed spec fn wf(&self) -> bool {
        unique_ids(self.tasks@) && (forall|j: int|
            0 <= j < self.tasks@.len() ==> (#[trigger] self.tasks@[j]).wf())
    }

    /// Every entry of a well-formed registry is well-formed.
    pub proof fn lemma_wf_entries(&self)
        requires
            self.wf(),
        ensures
            forall|id: int| self@.dom().contains(id) ==> (#[trigger] self@[id]).wf(),
    {
        assert forall|id: int| self@.dom().contains(id) implies (#[trigger] self@[id]).wf() by {
            let j = seq_index_of(self.tasks@, id);
            assert(self.tasks@[j].wf());
        }
    }

    /// An empty registry.
    pub fn new() -> (s: Self)
        ensures
            s.wf(),
            s@ == Map::<int, RunnerEntry>::empty(),
    {
        let s = DeliveryReminderScheduler { tasks: Vec::new() };
        proof {
            assert(s@ =~= Map::<int, RunnerEntry>::empty());
        }
        s
    }

    /// The index of the entry for `id`, if one is present.
    fn find_index(&self, id: ReminderId) -> (r: Option<usize>)
        ensures
            match r {
                Some(j) => j < self.tasks@.len() && self.tasks@[j as int].reminder.id == id,
                None => !seq_has_id(self.tasks@, id as int),
            },
    {
        let mut j: usize = 0;
        while j < self.tasks.len()
            invariant
                j <= self.tasks@.len(),
                forall|k: int| 0 <= k < j ==> (#[trigger] self.tasks@[k]).reminder.id != id,
            decreases self.tasks@.len() - j,
        {
            if self.tasks[j].reminder.id == id {
                return Some(j);
            }
            j = j + 1;
        }
        None
    }

    /// Whether `id` has an entry (live or finished) in the registry.
    pub fn is_scheduled(&self, id: ReminderId) -> (r: bool)
        requires
            self.wf(),
        ensures
            r == self@.dom().contains(id as int),
    {
        self.find_index(id).is_some()
    }

    /// The authoritative state of the runner for `id`, if one is present.
    pub fn reminder_state(&self, id: ReminderId) -> (r: Option<ReminderState>)
        requires
            self.wf(),
        ensures
            match r {
                Some(st) => self@.dom().contains(id as int) && st == self@[id as int].reminder.state,
                None => !self@.dom().contains(id as int),
            },
    {
        match self.find_index(id) {
            Some(j) => {
                proof {
                    lemma_entry_at_index(self.tasks@, j as int);
                }
                Some(self.tasks[j].reminder.state)
            },
            None => None,
        }
    }

    /// Start a runner for the request's reminder, unless its id already
    /// has one.
    ///
    /// On success the new entry has consumed the seeded `Schedule` event:
    /// the returned outcome carries the `Scheduled` notification to
    /// deliver and the initial fire timer to arm.
    pub fn schedule_reminder(&mut self, schedule_request: ScheduleRequest, now_secs: u64) -> (r:
        Result<(ScheduledReminder, StepOutcome), SchedulerError>)
        requires
            old(self).wf(),
            schedule_request.reminder.wf(),
        ensures
            final(self).wf(),
            final(self)@ == spec_schedule(old(self)@, schedule_request.reminder),
            r is Err <==> old(self)@.dom().contains(schedule_request.reminder.id as int),
            r matches Err(e) ==> e == SchedulerError::AlreadyScheduled,
            r matches Ok((h, o)) ==> {
                let st = schedule_request.reminder.state;
                &&& h.id == schedule_request.reminder.id
                &&& o.state == spec_step_state(st, ReminderEvent::Schedule)
                &&& o.emit == spec_step_emit(st, ReminderEvent::Schedule)
                &&& o.timer_secs == spec_step_timer(
                    st,
                    ReminderEvent::Schedule,
                    schedule_request.reminder.fire_at.spec_secs_of_day(),
                    now_secs as int,
                )
                &&& !o.stop
            },
    {
        let reminder = schedule_request.reminder;
        let id = reminder.id;
        match self.find_index(id) {
            Some(j) => {
                proof {
                    lemma_entry_at_index(self.tasks@, j as int);
                }
                Err(SchedulerError::AlreadyScheduled)
            },
            None => {
                let cur = reminder.state;
                let o = handle_event(&reminder, &cur, &ReminderEvent::Schedule, now_secs);
                let st = o.state;
                let entry = RunnerEntry {
                    reminder: Reminder { state: st, ..reminder },
                    finished: false,
                };
                proof {
                    lemma_push_view(self.tasks@, entry);
                }
                self.tasks.push(entry);
                proof {
                    assert(self@ =~= spec_schedule(old(self)@, schedule_request.reminder));
                }
                Ok((ScheduledReminder { id }, o))
            },
        }
    }

    /// Remove the entry for the handle's id and stop its runner.
    ///
    /// On success the returned outcome carries the runner's `Stopped`
    /// farewell; the id is free to be scheduled again.
    pub fn cancel_reminder(&mut self, scheduled_reminder: &ScheduledReminder) -> (r: Result<
        StepOutcome,
        SchedulerError,
    >)
        requires
            old(self).wf(),
        ensures
            final(self).wf(),
            final(self)@ == spec_cancel(old(self)@, scheduled_reminder.id as int),
            r is Ok <==> old(self)@.dom().contains(scheduled_reminder.id as int),
            r matches Err(e) ==> e == SchedulerError::NoSuchReminder,
            r matches Ok(o) ==> {
                let st = old(self)@[scheduled_reminder.id as int].reminder.state;
                &&& o.state == spec_step_state(st, ReminderEvent::Stop)
                &&& o.emit == Some(ReminderMessageType::Stopped)
                &&& o.stop
            },
    {
        let id = scheduled_reminder.id;
        match self.find_index(id) {
            Some(j) => {
                proof {
                    lemma_entry_at_index(self.tasks@, j as int);
                    lemma_remove_view(self.tasks@, j as int);
                }
                let entry = self.tasks.remove(j);
                let cur = entry.reminder.state;
                let o = handle_event(&entry.reminder, &cur, &ReminderEvent::Stop, 0);
                proof {
                    assert(self@ =~= spec_cancel(old(self)@, id as int));
                }
                Ok(o)
            },
            None => Err(SchedulerError::NoSuchReminder),
        }
    }

    /// Route one event to the runner for `id`: a no-op when the runner is
    /// absent or finished.
    fn deliver_event(&mut self, id: ReminderId, event: ReminderEvent, now_secs: u64) -> (r:
        Option<StepOutcome>)
        requires
            old(self).wf(),
        ensures
            final(self).wf(),
            final(self)@ == spec_deliver(old(self)@, id as int, event),
            outcome_matches(old(self)@, id as int, event, now_secs as int, r),
    {
        match self.find_index(id) {
            Some(j) => {
                proof {
                    lemma_entry_at_index(self.tasks@, j as int);
                }
                if self.tasks[j].finished {
                    return None;
                }
                let cur = self.tasks[j].reminder.state;
                let o = handle_event(&self.tasks[j].reminder, &cur, &event, now_secs);
                let mut entry = self.tasks.remove(j);
                entry.reminder.state = o.state;
                if o.stop {
                    entry.finished = true;
                }
                proof {
                    assert(self.tasks@.insert(j as int, entry) =~= old(self).tasks@.update(
                        j as int,
                        entry,
                    ));
                    lemma_update_view(old(self).tasks@, j as int, entry);
                }
                self.tasks.insert(j, entry);
                proof {
                    assert(self@ =~= spec_deliver(old(self)@, id as int, event));
                }
                Some(o)
            },
            None => None,
        }
    }

    /// Tell the runner for the handle's id that the user saw the
    /// reminder.  Always succeeds; `None` reports that no live runner was
    /// there, which is as good as done.
    pub fn acknowledge_reminder(
        &mut self,
        scheduled_reminder: &ScheduledReminder,
        now_secs: u64,
    ) -> (r: Option<StepOutcome>)
        requires
            old(self).wf(),
        ensures
            final(self).wf(),
            final(self)@ == spec_deliver(
                old(self)@,
                scheduled_reminder.id as int,
                ReminderEvent::Acknowledge,
            ),
            outcome_matches(
                old(self)@,
                scheduled_reminder.id as int,
                ReminderEvent::Acknowledge,
                now_secs as int,
                r,
            ),
    {
        self.deliver_event(scheduled_reminder.id, ReminderEvent::Acknowledge, now_secs)
    }

    /// Tell the runner for the handle's id that the user did the thing.
    /// Always succeeds; `None` reports that no live runner was there.
    pub fn confirm_reminder(&mut self, scheduled_reminder: &ScheduledReminder, now_secs: u64) -> (
        r: Option<StepOutcome>)
        requires
            old(self).wf(),
        ensures
            final(self).wf(),
            final(self)@ == spec_deliver(
                old(self)@,
                scheduled_reminder.id as int,
                ReminderEvent::Confirm,
            ),
            outcome_matches(
                old(self)@,
                scheduled_reminder.id as int,
                ReminderEvent::Confirm,
                now_secs as int,
                r,
            ),
    {
        self.deliver_event(scheduled_reminder.id, ReminderEvent::Confirm, now_secs)
    }

    /// Deliver a timer expiry to the runner for `id`.  Stale timers whose
    /// runner is gone, finished, or in a phase that the trigger does not
    /// concern are absorbed harmlessly.
    pub fn trigger_reminder(&mut self, id: ReminderId, now_secs: u64) -> (r: Option<StepOutcome>)
        requires
            old(self).wf(),
        ensures
            final(self).wf(),
            final(self)@ == spec_deliver(old(self)@, id as int, ReminderEvent::Trigger),
            outcome_matches(old(self)@, id as int, ReminderEvent::Trigger, now_secs as int, r),
    {
        self.deliver_event(id, ReminderEvent::Trigger, now_secs)
    }

    /// Sweep out the entries whose runner has finished.  Purely hygienic:
    /// nothing else depends on when, or whether, this runs.
    pub fn clean_finished_tasks(&mut self)
        requires
            old(self).wf(),
        ensures
            final(self).wf(),
            final(self)@ == spec_reclaim(old(self)@),
    {
        let mut j: usize = 0;
        while j < self.tasks.len()
            invariant
                self.wf(),
                j <= self.tasks@.len(),
                forall|k: int| 0 <= k < j ==> !(#[trigger] self.tasks@[k]).finished,
                spec_reclaim(seq_as_map(self.tasks@)) == spec_reclaim(old(self)@),
            decreases self.tasks@.len() - j,
        {
            if self.tasks[j].finished {
                proof {
                    lemma_entry_at_index(self.tasks@, j as int);
                    lemma_remove_view(self.tasks@, j as int);
                    let m = seq_as_map(self.tasks@);
                    let id = self.tasks@[j as int].reminder.id as int;
                    assert(spec_reclaim(m.remove(id)) =~= spec_reclaim(m));
                }
                self.tasks.remove(j);
            } else {
                j = j + 1;
            }
        }
        proof {
            let m = seq_as_map(self.tasks@);
            assert forall|x: int| m.dom().contains(x) implies !(#[trigger] m[x]).finished by {
                let k = seq_index_of(self.tasks@, x);
                assert(!self.tasks@[k].finished);
            }
            assert(spec_reclaim(m) =~= m);
        }
    }

    /// Shut the registry down: every runner's mailbox closes, so every
    /// runner finishes.  Entries stay behind, finished, until reclaimed.
    pub fn shutdown(&mut self)
        requires
            old(self).wf(),
        ensures
            final(self).wf(),
            final(self)@ == spec_shutdown(old(self)@),
    {
        let ghost s0 = self.tasks@;
        let mut j: usize = 0;
        while j < self.tasks.len()
            invariant
                self.wf(),
                j <= self.tasks@.len(),
                self.tasks@.len() == s0.len(),
                forall|k: int|
                    0 <= k < s0.len() ==> (#[trigger] self.tasks@[k]).reminder == s0[k].reminder,
                forall|k: int| 0 <= k < j ==> (#[trigger] self.tasks@[k]).finished,
                forall|k: int|
                    j <= k < s0.len() ==> (#[trigger] self.tasks@[k]).finished == s0[k].finished,
            decreases self.tasks@.len() - j,
        {
            let ghost before = self.tasks@;
            let mut e = self.tasks.remove(j);
            e.finished = true;
            self.tasks.insert(j, e);
            proof {
                assert(self.tasks@ =~= before.update(j as int, e));
            }
            j = j + 1;
        }
        proof {
            let s2 = self.tasks@;
            let m0 = seq_as_map(s0);
            let m2 = seq_as_map(s2);
            assert forall|x: int| seq_has_id(s0, x) implies seq_has_id(s2, x) by {
                let k = seq_index_of(s0, x);
                assert(s2[k].reminder.id == x);
            }
            assert forall|x: int| seq_has_id(s2, x) implies seq_has_id(s0, x) by {
                let k = seq_index_of(s2, x);
                assert(s0[k].reminder.id == x);
            }
            assert forall|x: int| seq_has_id(s0, x) implies seq_entry(s2, x)
                == (RunnerEntry { reminder: seq_entry(s0, x).reminder, finished: true }) by {
                let k = seq_index_of(s0, x);
                assert(0 <= k < s0.len() && s0[k].reminder.id == x);
                assert(s2[k].reminder.id == x);
                lemma_entry_at_index(s0, k);
                lemma_entry_at_index(s2, k);
            }
            assert(m2 =~= spec_shutdown(m0));
        }
    }
}

/// A registry operation, as it acts on the map model.  Each public
/// operation of [`DeliveryReminderScheduler`] ensures that its effect on
/// the view is the corresponding case here.
pub enum RegistryOp {
    Schedule(Reminder),
    Cancel(ReminderId),
    Deliver(ReminderId, ReminderEvent),
    Reclaim,
    Shutdown,
}

/// The map an operation leaves behind.
pub open spec fn apply_op(m: Map<int, RunnerEntry>, op: RegistryOp) -> Map<int, RunnerEntry> {
    match op {
        RegistryOp::Schedule(r) => spec_schedule(m, r),
        RegistryOp::Cancel(id) => spec_cancel(m, id as int),
        RegistryOp::Deliver(id, ev) => spec_deliver(m, id as int, ev),
        RegistryOp::Reclaim => spec_reclaim(m),
        RegistryOp::Shutdown => spec_shutdown(m),
    }
}

/// The map a whole sequence of operations leaves behind, applied in order.
pub open spec fn apply_ops(m: Map<int, RunnerEntry>, ops: Seq<RegistryOp>) -> Map<
    int,
    RunnerEntry,
>
    decreases ops.len(),
{
    if ops.len() == 0 {
        m
    } else {
        apply_ops(apply_op(m, ops[0]), ops.drop_first())
    }
}

/// Does the operation schedule a runner for id `x`?
pub open spec fn schedules_id(op: RegistryOp, x: int) -> bool {
    op matches RegistryOp::Schedule(r) && r.id == x
}

/// Id `x` has no live runner: no entry, or a finished one.
pub open spec fn absent_or_finished(m: Map<int, RunnerEntry>, x: int) -> bool {
    !m.dom().contains(x) || m[x].finished
}

/// Once id `x` has no live runner, no sequence of operations that does
/// not schedule `x` brings one back: events for `x` find nothing to act
/// on, cancels and reclaims only remove, and shutdown only finishes.
pub proof fn lemma_no_resurrection(m: Map<int, RunnerEntry>, ops: Seq<RegistryOp>, x: int)
    requires
        absent_or_finished(m, x),
        forall|i: int| 0 <= i < ops.len() ==> !schedules_id(#[trigger] ops[i], x),
    ensures
        absent_or_finished(apply_ops(m, ops), x),
    decreases ops.len(),
{
    if ops.len() > 0 {
        let op = ops[0];
        assert(!schedules_id(ops[0], x));
        let m1 = apply_op(m, op);
        assert(absent_or_finished(m1, x));
        assert forall|i: int| 0 <= i < ops.drop_first().len() implies !schedules_id(
            #[trigger] ops.drop_first()[i],
            x,
        ) by {
            assert(ops.drop_first()[i] == ops[i + 1]);
        }
        lemma_no_resurrection(m1, ops.drop_first(), x);
    }
}

/// Callbacks a scheduling front end supplies to hear how a background
/// request ended; for the caller to implement.
pub trait ReminderSchedulerHandle {
    fn notify_success();

    fn notify_error(e: SchedulerError);
}

/// Cancelling id `x` and then running any operations that do not schedule
/// `x` leaves the registry with `x` absent or its runner finished.
pub proof fn lemma_cancel_then_absent(m: Map<int, RunnerEntry>, ops: Seq<RegistryOp>, x: int)
    requires
        forall|i: int| 0 <= i < ops.len() ==> !schedules_id(#[trigger] ops[i], x),
    ensures
        absent_or_finished(apply_ops(spec_cancel(m, x), ops), x),
{
    lemma_no_resurrection(spec_cancel(m, x), ops, x);
}

} // verus!
