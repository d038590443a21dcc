//! The reminder runner: one state machine per live reminder.
//!
//! The runner consumes events (schedule, timer trigger, acknowledge,
//! confirm, stop) and on each step may emit one notification and ask for
//! one timer.  The caller owns the mailbox, the timers and the delivery
//! sink: it feeds events into [`handle_event`] and performs the returned
//! [`StepOutcome`].  Unknown state/event combinations are no-ops, which is
//! what makes stale timer firings harmless.

use vstd::prelude::*;
use crate::delay::get_target_delay;
use crate::delay::spec_target_delay;
use crate::reminder::CONFIRMATION_ATTEMPTS;
use crate::reminder::CONFIRMATION_TIMEOUT_SECS;
use crate::reminder::NAGGING_ATTEMPTS;
use crate::reminder::NAGGING_TIMEOUT_SECS;
use crate::reminder::Reminder;
use crate::reminder::ReminderState;

verus! {

/// An input to a runner's state machine.
#[derive(Clone, Copy, Debug, PartialEq, Eq, Structural)]
pub enum ReminderEvent {
    /// Seeded into the mailbox when the reminder is scheduled.
    Schedule,
    /// A timer expired.
    Trigger,
    /// The user signalled "I saw it".
    Acknowledge,
    /// The user signalled "I did the thing".
    Confirm,
    /// The runner must emit a farewell and terminate.
    Stop,
}

/// A typed notification handed to the delivery sink.
#[derive(Clone, Copy, Debug, PartialEq, Eq, Structural)]
pub enum ReminderMessageType {
    Scheduled,
    Fired,
    Nag,
    Acknowledge,
    Confirmation,
    Timeout,
    Finished,
    Stopped,
}

/// What one step of the state machine asks of its caller: the successor
/// state, at most one notification to deliver, at most one timer to arm
/// (its expiry delivers `Trigger`), and whether the runner terminates.
pub struct StepOutcome {
    pub state: ReminderState,
    pub emit: Option<ReminderMessageType>,
    pub timer_secs: Option<u64>,
    pub stop: bool,
}

/// The successor state of the transition table.  Combinations outside the
/// table leave the state unchanged.
pub open spec fn spec_step_state(s: ReminderState, e: ReminderEvent) -> ReminderState {
    match (s, e) {
        (ReminderState::Pending, ReminderEvent::Schedule) => ReminderState::Scheduled,
        (ReminderState::Scheduled, ReminderEvent::Trigger) => ReminderState::Nagging {
            attempts_left: NAGGING_ATTEMPTS,
        },
        (ReminderState::Nagging { attempts_left }, ReminderEvent::Trigger) => {
            if attempts_left == 0 {
                ReminderState::Pending
            } else {
                ReminderState::Nagging { attempts_left: (attempts_left - 1) as u8 }
            }
        },
        (ReminderState::Nagging { .. }, ReminderEvent::Acknowledge) => ReminderState::Confirming {
            attempts_left: CONFIRMATION_ATTEMPTS,
        },
        (ReminderState::Confirming { attempts_left }, ReminderEvent::Trigger) => {
            if attempts_left == 0 {
                ReminderState::Pending
            } else {
                ReminderState::Confirming { attempts_left: (attempts_left - 1) as u8 }
            }
        },
        (ReminderState::Confirming { .. }, ReminderEvent::Confirm) => ReminderState::Pending,
        (_, ReminderEvent::Stop) => ReminderState::Pending,
        _ => s,
    }
}

/// The notification emitted by the transition, if any.  Exactly the
/// combinations inside the table emit one.
pub open spec fn spec_step_emit(s: ReminderState, e: ReminderEvent) -> Option<
    ReminderMessageType,
> {
    match (s, e) {
        (ReminderState::Pending, ReminderEvent::Schedule) => Some(ReminderMessageType::Scheduled),
        (ReminderState::Scheduled, ReminderEvent::Trigger) => Some(ReminderMessageType::Fired),
        (ReminderState::Nagging { attempts_left }, ReminderEvent::Trigger) => {
            if attempts_left == 0 {
                Some(ReminderMessageType::Timeout)
            } else {
                Some(ReminderMessageType::Nag)
            }
        },
        (ReminderState::Nagging { .. }, ReminderEvent::Acknowledge) => Some(
            ReminderMessageType::Acknowledge,
        ),
        (ReminderState::Confirming { attempts_left }, ReminderEvent::Trigger) => {
            if attempts_left == 0 {
                Some(ReminderMessageType::Timeout)
            } else {
                Some(ReminderMessageType::Confirmation)
            }
        },
        (ReminderState::Confirming { .. }, ReminderEvent::Confirm) => Some(
            ReminderMessageType::Finished,
        ),
        (_, ReminderEvent::Stop) => Some(ReminderMessageType::Stopped),
        _ => None,
    }
}

/// The timer the transition arms, in seconds, if any.  `fire` is the
/// reminder's time of day in seconds since midnight; `now` the present
/// instant in seconds since the epoch.
pub open spec fn spec_step_timer(
    s: ReminderState,
    e: ReminderEvent,
    fire: int,
    now: int,
) -> Option<u64> {
    match (s, e) {
        (ReminderState::Pending, ReminderEvent::Schedule) => Some(
            spec_target_delay(fire, now) as u64,
        ),
        (ReminderState::Scheduled, ReminderEvent::Trigger) => Some(NAGGING_TIMEOUT_SECS),
        (ReminderState::Nagging { attempts_left }, ReminderEvent::Trigger) => {
            if attempts_left == 0 {
                None
            } else {
                Some(NAGGING_TIMEOUT_SECS)
            }
        },
        (ReminderState::Nagging { .. }, ReminderEvent::Acknowledge) => Some(
            CONFIRMATION_TIMEOUT_SECS,
        ),
        (ReminderState::Confirming { attempts_left }, ReminderEvent::Trigger) => {
            if attempts_left == 0 {
                None
            } else {
                Some(CONFIRMATION_TIMEOUT_SECS)
            }
        },
        _ => None,
    }
}

/// A step preserves well-formedness of the state.
pub proof fn lemma_step_state_wf(s: ReminderState, e: ReminderEvent)
    requires
        s.wf(),
    ensures
        spec_step_state(s, e).wf(),
{
}

/// One step of the runner's state machine.
///
/// The caller delivers `o.emit` to the sink (best effort: sink errors do
/// not change state), arms a `Trigger` timer of `o.timer_secs` seconds if
/// asked to, and terminates the runner when `o.stop` holds.
pub fn handle_event(
    reminder: &Reminder,
    current: &ReminderState,
    event: &ReminderEvent,
    now_secs: u64,
) -> (o: StepOutcome)
    requires
        reminder.fire_at.wf(),
    ensures
        o.state == spec_step_state(*current, *event),
        o.emit == spec_step_emit(*current, *event),
        o.timer_secs == spec_step_timer(
            *current,
            *event,
            reminder.fire_at.spec_secs_of_day(),
            now_secs as int,
        ),
        o.stop == (*event is Stop),
{
    match (current, event) {
        (ReminderState::Pending, ReminderEvent::Schedule) => {
            let delay = get_target_delay(&reminder.fire_at, now_secs);
            StepOutcome {
                state: ReminderState::Scheduled,
                emit: Some(ReminderMessageType::Scheduled),
                timer_secs: Some(delay),
                stop: false,
            }
        },
        (ReminderState::Scheduled, ReminderEvent::Trigger) => StepOutcome {
            state: ReminderState::Nagging { attempts_left: NAGGING_ATTEMPTS },
            emit: Some(ReminderMessageType::Fired),
            timer_secs: Some(NAGGING_TIMEOUT_SECS),
            stop: false,
        },
        (ReminderState::Nagging { attempts_left }, ReminderEvent::Trigger) => {
            if *attempts_left == 0 {
                StepOutcome {
                    state: ReminderState::Pending,
                    emit: Some(ReminderMessageType::Timeout),
                    timer_secs: None,
                    stop: false,
                }
            } else {
                StepOutcome {
                    state: ReminderState::Nagging { attempts_left: *attempts_left - 1 },
                    emit: Some(ReminderMessageType::Nag),
                    timer_secs: Some(NAGGING_TIMEOUT_SECS),
                    stop: false,
                }
            }
        },
        (ReminderState::Nagging { .. }, ReminderEvent::Acknowledge) => StepOutcome {
            state: ReminderState::Confirming { attempts_left: CONFIRMATION_ATTEMPTS },
            emit: Some(ReminderMessageType::Acknowledge),
            timer_secs: Some(CONFIRMATION_TIMEOUT_SECS),
            stop: false,
        },
        (ReminderState::Confirming { attempts_left }, ReminderEvent::Trigger) => {
            if *attempts_left == 0 {
                StepOutcome {
                    state: ReminderState::Pending,
                    emit: Some(ReminderMessageType::Timeout),
                    timer_secs: None,
                    stop: false,
                }
            } else {
                StepOutcome {
                    state: ReminderState::Confirming { attempts_left: *attempts_left - 1 },
                    emit: Some(ReminderMessageType::Confirmation),
                    timer_secs: Some(CONFIRMATION_TIMEOUT_SECS),
                    stop: false,
                }
            }
        },
        (ReminderState::Confirming { .. }, ReminderEvent::Confirm) => StepOutcome {
            state: ReminderState::Pending,
            emit: Some(ReminderMessageType::Finished),
            timer_secs: None,
            stop: false,
        },
        (_, ReminderEvent::Stop) => StepOutcome {
            state: ReminderState::Pending,
            emit: Some(ReminderMessageType::Stopped),
            timer_secs: None,
            stop: true,
        },
        (_, _) => StepOutcome { state: *current, emit: None, timer_secs: None, stop: false },
    }
}

/// The emission of one step as a sequence: empty or a single message.
pub open spec fn emit_seq(o: Option<ReminderMessageType>) -> Seq<ReminderMessageType> {
    match o {
        Some(m) => seq![m],
        None => Seq::empty(),
    }
}

/// The state a runner reaches after consuming `events` in order, stopping
/// at the first `Stop` (whose transition is still taken).
pub open spec fn spec_run_state(s: ReminderState, events: Seq<ReminderEvent>) -> ReminderState
    decreases events.len(),
{
    if events.len() == 0 {
        s
    } else {
        let e = events[0];
        if e is Stop {
            spec_step_state(s, e)
        } else {
            spec_run_state(spec_step_state(s, e), events.drop_first())
        }
    }
}

/// The notifications a runner emits, in order, while consuming `events`,
/// stopping at the first `Stop` (whose farewell is still emitted).
pub open spec fn spec_run_emissions(s: ReminderState, events: Seq<ReminderEvent>) -> Seq<
    ReminderMessageType,
>
    decreases events.len(),
{
    if events.len() == 0 {
        Seq::empty()
    } else {
        let e = events[0];
        if e is Stop {
            emit_seq(spec_step_emit(s, e))
        } else {
            emit_seq(spec_step_emit(s, e)) + spec_run_emissions(
                spec_step_state(s, e),
                events.drop_first(),
            )
        }
    }
}

/// Drive one runner through a queue of events, synchronously.
///
/// This is the mailbox loop with the concurrency stripped away: events are
/// handled in order, the reflected state is updated after each step, and
/// processing ends with the first `Stop`.  The emitted notifications are
/// returned in order; timers are not re-armed (the caller arms them one
/// step at a time through [`handle_event`]).
pub fn run_reminder(
    reminder: &mut Reminder,
    events: &Vec<ReminderEvent>,
    now_secs: u64,
) -> (emissions: Vec<ReminderMessageType>)
    requires
        old(reminder).fire_at.wf(),
    ensures
        final(reminder).state == spec_run_state(old(reminder).state, events@),
        emissions@ == spec_run_emissions(old(reminder).state, events@),
        final(reminder).id == old(reminder).id,
        final(reminder).fire_at == old(reminder).fire_at,
        final(reminder).text == old(reminder).text,
        final(reminder).user_id == old(reminder).user_id,
{
    let ghost s0 = reminder.state;
    let mut out: Vec<ReminderMessageType> = Vec::new();
    let mut stopped = false;
    let mut i: usize = 0;
    proof {
        assert(events@.skip(0) =~= events@);
        assert(out@ + spec_run_emissions(s0, events@) =~= spec_run_emissions(s0, events@));
    }
    while i < events.len() && !stopped
        invariant
            reminder.fire_at.wf(),
            reminder.id == old(reminder).id,
            reminder.fire_at == old(reminder).fire_at,
            reminder.text == old(reminder).text,
            reminder.user_id == old(reminder).user_id,
            0 <= i <= events@.len(),
            !stopped ==> spec_run_state(reminder.state, events@.skip(i as int)) == spec_run_state(
                s0,
                events@,
            ),
            !stopped ==> out@ + spec_run_emissions(reminder.state, events@.skip(i as int))
                == spec_run_emissions(s0, events@),
            stopped ==> reminder.state == spec_run_state(s0, events@),
            stopped ==> out@ == spec_run_emissions(s0, events@),
        decreases events@.len() - i,
    {
        let event = &events[i];
        let cur = reminder.state;
        let o = handle_event(reminder, &cur, event, now_secs);
        let ghost out_before = out@;
        proof {
            assert(events@.skip(i as int)[0] == events@[i as int]);
            assert(events@.skip(i as int).drop_first() =~= events@.skip(i as int + 1));
        }
        reminder.state = o.state;
        match o.emit {
            Some(m) => {
                out.push(m);
            },
            None => {},
        }
        stopped = o.stop;
        i = i + 1;
        proof {
            let e = events@[i - 1];
            let head = emit_seq(spec_step_emit(cur, e));
            assert(out@ =~= out_before + head);
            if stopped {
                assert(out@ =~= spec_run_emissions(s0, events@));
            } else {
                let rest = spec_run_emissions(reminder.state, events@.skip(i as int));
                assert(out@ + rest =~= out_before + (head + rest));
            }
        }
    }
    proof {
        if !stopped {
            assert(events@.skip(i as int) =~= Seq::<ReminderEvent>::empty());
            assert(out@ + spec_run_emissions(reminder.state, events@.skip(i as int)) =~= out@);
        }
    }
    out
}

/// Consuming only a prefix of the events emits a prefix of the
/// notifications: later events extend the emission sequence, they never
/// rewrite what was already emitted.
pub proof fn lemma_run_emissions_prefix(s: ReminderState, events: Seq<ReminderEvent>, i: int)
    requires
        0 <= i <= events.len(),
    ensures
        spec_run_emissions(s, events.take(i)).is_prefix_of(spec_run_emissions(s, events)),
    decreases events.len(),
{
    let part = spec_run_emissions(s, events.take(i));
    let whole = spec_run_emissions(s, events);
    if i == 0 {
        assert(events.take(0) =~= Seq::<ReminderEvent>::empty());
        assert(part =~= whole.subrange(0, 0));
    } else {
        let e = events[0];
        assert(events.take(i)[0] == e);
        let head = emit_seq(spec_step_emit(s, e));
        if e is Stop {
            assert(part =~= whole.subrange(0, part.len() as int));
        } else {
            let s2 = spec_step_state(s, e);
            assert(events.take(i).drop_first() =~= events.drop_first().take(i - 1));
            lemma_run_emissions_prefix(s2, events.drop_first(), i - 1);
            let a = spec_run_emissions(s2, events.drop_first().take(i - 1));
            let b = spec_run_emissions(s2, events.drop_first());
            assert(part =~= head + a);
            assert(whole =~= head + b);
            assert(a =~= b.subrange(0, a.len() as int));
            assert(part =~= whole.subrange(0, part.len() as int));
        }
    }
}

/// The language of the state machine: `msgs` can be produced from state
/// `s` by some sequence of transitions of the table, one message per
/// emitting transition.
pub open spec fn machine_generates(s: ReminderState, msgs: Seq<ReminderMessageType>) -> bool
    decreases msgs.len(),
{
    if msgs.len() == 0 {
        true
    } else {
        exists|e: ReminderEvent|
            #[trigger] spec_step_emit(s, e) == Some(msgs[0]) && machine_generates(
                spec_step_state(s, e),
                msgs.drop_first(),
            )
    }
}

/// Whatever events arrive, the notifications a runner emits form a word of
/// the language generated by the state machine: every emission is produced
/// by a transition of the table, taken in order from the start state.
pub proof fn lemma_run_in_language(s: ReminderState, events: Seq<ReminderEvent>)
    ensures
        machine_generates(s, spec_run_emissions(s, events)),
    decreases events.len(),
{
    if events.len() > 0 {
        let e = events[0];
        let s2 = spec_step_state(s, e);
        let msgs = spec_run_emissions(s, events);
        match spec_step_emit(s, e) {
            Some(m) => {
                assert(msgs[0] == m);
                if e is Stop {
                    assert(msgs.drop_first() =~= Seq::<ReminderMessageType>::empty());
                } else {
                    lemma_run_in_language(s2, events.drop_first());
                    assert(msgs.drop_first() =~= spec_run_emissions(s2, events.drop_first()));
                }
                assert(spec_step_emit(s, e) == Some(msgs[0]) && machine_generates(
                    s2,
                    msgs.drop_first(),
                ));
            },
            None => {
                // A combination outside the table emits nothing and leaves
                // the state unchanged, so the trace is that of the rest.
                assert(s2 == s);
                lemma_run_in_language(s, events.drop_first());
                assert(msgs =~= spec_run_emissions(s, events.drop_first()));
            },
        }
    }
}

/// How many copies of `m` stand at the front of `msgs` before a message of
/// another kind appears.
pub open spec fn leading_count(msgs: Seq<ReminderMessageType>, m: ReminderMessageType) -> int
    decreases msgs.len(),
{
    if msgs.len() == 0 {
        0
    } else if msgs[0] == m {
        1 + leading_count(msgs.drop_first(), m)
    } else {
        0
    }
}

/// The nagging phase is bounded: `Fired` enters `Nagging` with
/// `NAGGING_ATTEMPTS` attempts, and from `Nagging { n }` at most `n`
/// consecutive `Nag` messages are emitted before a message of another kind
/// (the next phase transition) appears, whatever events arrive.
pub proof fn lemma_nagging_bounded(n: u8, events: Seq<ReminderEvent>)
    requires
        n <= NAGGING_ATTEMPTS,
    ensures
        spec_step_state(ReminderState::Scheduled, ReminderEvent::Trigger) == (ReminderState::Nagging {
            attempts_left: NAGGING_ATTEMPTS,
        }),
        spec_step_emit(ReminderState::Scheduled, ReminderEvent::Trigger) == Some(
            ReminderMessageType::Fired,
        ),
        leading_count(
            spec_run_emissions(ReminderState::Nagging { attempts_left: n }, events),
            ReminderMessageType::Nag,
        ) <= n,
    decreases events.len(),
{
    let s = ReminderState::Nagging { attempts_left: n };
    if events.len() > 0 {
        let e = events[0];
        let msgs = spec_run_emissions(s, events);
        match spec_step_emit(s, e) {
            Some(m) => {
                if !(e is Stop) {
                    let s2 = spec_step_state(s, e);
                    let rest = spec_run_emissions(s2, events.drop_first());
                    assert(msgs.drop_first() =~= rest);
                    if e is Trigger && n > 0 {
                        lemma_nagging_bounded((n - 1) as u8, events.drop_first());
                    }
                }
            },
            None => {
                assert(spec_step_state(s, e) == s);
                lemma_nagging_bounded(n, events.drop_first());
                assert(msgs =~= spec_run_emissions(s, events.drop_first()));
            },
        }
    }
}

/// The confirming phase is bounded in the same way: `Acknowledge` enters
/// `Confirming` with `CONFIRMATION_ATTEMPTS` attempts, and from
/// `Confirming { n }` at most `n` consecutive `Confirmation` messages are
/// emitted before a message of another kind appears.
pub proof fn lemma_confirming_bounded(n: u8, events: Seq<ReminderEvent>)
    requires
        n <= CONFIRMATION_ATTEMPTS,
    ensures
        forall|k: u8|
            #![auto]
            spec_step_state(
                ReminderState::Nagging { attempts_left: k },
                ReminderEvent::Acknowledge,
            ) == (ReminderState::Confirming { attempts_left: CONFIRMATION_ATTEMPTS }),
        forall|k: u8|
            #![auto]
            spec_step_emit(
                ReminderState::Nagging { attempts_left: k },
                ReminderEvent::Acknowledge,
            ) == Some(ReminderMessageType::Acknowledge),
        leading_count(
            spec_run_emissions(ReminderState::Confirming { attempts_left: n }, events),
            ReminderMessageType::Confirmation,
        ) <= n,
    decreases events.len(),
{
    let s = ReminderState::Confirming { attempts_left: n };
    if events.len() > 0 {
        let e = events[0];
        let msgs = spec_run_emissions(s, events);
        match spec_step_emit(s, e) {
            Some(m) => {
                if !(e is Stop) {
                    let s2 = spec_step_state(s, e);
                    let rest = spec_run_emissions(s2, events.drop_first());
                    assert(msgs.drop_first() =~= rest);
                    if e is Trigger && n > 0 {
                        lemma_confirming_bounded((n - 1) as u8, events.drop_first());
                    }
                }
            },
            None => {
                assert(spec_step_state(s, e) == s);
                lemma_confirming_bounded(n, events.drop_first());
                assert(msgs =~= spec_run_emissions(s, events.drop_first()));
            },
        }
    }
}

} // verus!
