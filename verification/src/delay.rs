//! The delay calculator: how long to sleep until the next daily occurrence
//! of a reminder's fire time.
//!
//! Instants are counted in whole seconds since an epoch midnight, in UTC.
//! The target is today's occurrence of the fire time, unless that occurrence
//! is in the past or within a small grace window of the present, in which
//! case it is tomorrow's.

use vstd::prelude::*;
use crate::fire_time::ReminderFireTime;
use crate::fire_time::SECS_PER_DAY;
use vstd::arithmetic::div_mod::lemma_fundamental_div_mod;
use vstd::arithmetic::div_mod::lemma_mod_multiples_vanish;
use vstd::arithmetic::div_mod::lemma_small_mod;

verus! {

/// Width of the grace window, in seconds: a target this close in the
/// future is pushed to tomorrow.
pub const GRACE_SECS: u64 = 10;

/// The time of day, in seconds since midnight, of an instant counted in
/// seconds since an epoch midnight.
pub open spec fn spec_time_of_day(instant: int) -> int {
    instant % (SECS_PER_DAY as int)
}

/// The delay, in seconds, from `now` until the next occurrence of the time
/// of day `fire`: today's occurrence when that is more than the grace
/// window away, otherwise tomorrow's.
pub open spec fn spec_target_delay(fire: int, now: int) -> int {
    let delta = fire - spec_time_of_day(now);
    if delta <= GRACE_SECS {
        delta + SECS_PER_DAY
    } else {
        delta
    }
}

/// How long to sleep from `now_secs` until the reminder is next due.
pub fn get_target_delay(fire_at: &ReminderFireTime, now_secs: u64) -> (delay: u64)
    requires
        fire_at.wf(),
    ensures
        delay == spec_target_delay(fire_at.spec_secs_of_day(), now_secs as int),
        0 < delay <= SECS_PER_DAY + GRACE_SECS,
{
    let fire: u64 = fire_at.secs_of_day();
    let today_elapsed: u64 = now_secs % SECS_PER_DAY;
    if fire <= today_elapsed + GRACE_SECS {
        fire + SECS_PER_DAY - today_elapsed
    } else {
        fire - today_elapsed
    }
}

/// The delay lands exactly on the fire time: adding it to `now` yields an
/// instant whose time of day is `fire`, strictly in the future.  The delay
/// stays within one day whenever today's occurrence is not inside the grace
/// window `(0, GRACE_SECS]`; a target a few seconds ahead is pushed a full
/// day out and then exceeds one day by at most the grace width.
pub proof fn lemma_delay_until_next(fire: int, now: int)
    requires
        0 <= fire < SECS_PER_DAY,
        0 <= now,
    ensures
        0 < spec_target_delay(fire, now) <= SECS_PER_DAY + GRACE_SECS,
        spec_time_of_day(now + spec_target_delay(fire, now)) == fire,
        !(0 < fire - spec_time_of_day(now) <= GRACE_SECS) ==> spec_target_delay(fire, now)
            <= SECS_PER_DAY,
{
    let day = SECS_PER_DAY as int;
    let q = now / day;
    let r = now % day;
    lemma_fundamental_div_mod(now, day);
    lemma_small_mod(fire as nat, SECS_PER_DAY as nat);
    let delay = spec_target_delay(fire, now);
    if fire - r <= GRACE_SECS {
        assert(now + delay == day * (q + 1) + fire);
        lemma_mod_multiples_vanish(q + 1, fire, day);
    } else {
        assert(now + delay == day * q + fire);
        lemma_mod_multiples_vanish(q, fire, day);
    }
}

} // verus!
