//! The wall-clock time of day, in UTC and at second precision, at which a
//! reminder fires each day.

use vstd::prelude::*;
use chrono::TimeZone;
use chrono::Timelike;
use crate::text::ascii_to_string;
use vstd::arithmetic::div_mod::lemma_fundamental_div_mod;

verus! {

/// Number of seconds in one day.
pub const SECS_PER_DAY: u64 = 86400;

/// A time of day in UTC with second precision.
///
/// Invariant: `hour < 24`, `minute < 60`, `second < 60`.  Construction via
/// [`ReminderFireTime::new`] enforces it; every method keeps it.
#[derive(Clone, Copy, Debug, PartialEq, Eq, Structural)]
pub struct ReminderFireTime {
    pub hour: u8,
    pub minute: u8,
    pub second: u8,
}

impl ReminderFireTime {
    /// Well-formedness: the fields denote a valid time of day.
    pub open spec fn wf(self) -> bool {
        self.hour < 24 && self.minute < 60 && self.second < 60
    }

    /// The time of day as a count of seconds since midnight.
    pub open spec fn spec_secs_of_day(self) -> int {
        self.hour * 3600 + self.minute * 60 + self.second
    }

    pub open spec fn spec_hour(self) -> u8 {
        self.hour
    }

    pub open spec fn spec_minute(self) -> u8 {
        self.minute
    }

    pub open spec fn spec_second(self) -> u8 {
        self.second
    }

    pub fn new(hour: u8, minute: u8, second: u8) -> (r: Self)
        requires
            hour < 24,
            minute < 60,
            second < 60,
        ensures
            r.wf(),
            r.spec_hour() == hour,
            r.spec_minute() == minute,
            r.spec_second() == second,
    {
        ReminderFireTime { hour, minute, second }
    }

    pub fn hour(&self) -> (r: u8)
        ensures
            r == self.spec_hour(),
    {
        self.hour
    }

    pub fn minute(&self) -> (r: u8)
        ensures
            r == self.spec_minute(),
    {
        self.minute
    }

    pub fn second(&self) -> (r: u8)
        ensures
            r == self.spec_second(),
    {
        self.second
    }

    /// The time of day as seconds since midnight, always below one day.
    pub fn secs_of_day(&self) -> (r: u64)
        requires
            self.wf(),
        ensures
            r == self.spec_secs_of_day(),
            r < SECS_PER_DAY,
    {
        self.hour as u64 * 3600 + self.minute as u64 * 60 + self.second as u64
    }
}

/// The character of a decimal digit.
pub open spec fn digit_char(d: int) -> char {
    ((48 + d) as u8) as char
}

/// Is the character a decimal digit?
pub open spec fn is_digit(c: char) -> bool {
    48 <= c as u32 <= 57
}

/// The value of a decimal digit character.
pub open spec fn digit_val(c: char) -> int {
    c as u32 - 48
}

/// The `HH:MM:SS` rendering of a time of day.
pub open spec fn spec_time_string(t: ReminderFireTime) -> Seq<char> {
    seq![
        digit_char(t.hour as int / 10),
        digit_char(t.hour as int % 10),
        ':',
        digit_char(t.minute as int / 10),
        digit_char(t.minute as int % 10),
        ':',
        digit_char(t.second as int / 10),
        digit_char(t.second as int % 10),
    ]
}

/// Does the character sequence spell a valid `HH:MM:SS` time of day?
pub open spec fn valid_time_chars(s: Seq<char>) -> bool {
    &&& s.len() == 8
    &&& s[2] == ':'
    &&& s[5] == ':'
    &&& is_digit(s[0]) && is_digit(s[1]) && is_digit(s[3]) && is_digit(s[4]) && is_digit(s[6])
        && is_digit(s[7])
    &&& digit_val(s[0]) * 10 + digit_val(s[1]) < 24
    &&& digit_val(s[3]) * 10 + digit_val(s[4]) < 60
    &&& digit_val(s[6]) * 10 + digit_val(s[7]) < 60
}

/// The time of day an `HH:MM:SS` character sequence denotes, if any.
pub open spec fn spec_parse_time(s: Seq<char>) -> Option<ReminderFireTime> {
    if valid_time_chars(s) {
        Some(
            ReminderFireTime {
                hour: (digit_val(s[0]) * 10 + digit_val(s[1])) as u8,
                minute: (digit_val(s[3]) * 10 + digit_val(s[4])) as u8,
                second: (digit_val(s[6]) * 10 + digit_val(s[7])) as u8,
            },
        )
    } else {
        None
    }
}

impl ReminderFireTime {
    /// Render the time as `HH:MM:SS`, two digits apiece.
    pub fn into_string(self) -> (r: String)
        requires
            self.wf(),
        ensures
            r@ == spec_time_string(self),
    {
        let mut bytes: Vec<u8> = Vec::new();
        bytes.push(48 + self.hour / 10);
        bytes.push(48 + self.hour % 10);
        bytes.push(58);
        bytes.push(48 + self.minute / 10);
        bytes.push(48 + self.minute % 10);
        bytes.push(58);
        bytes.push(48 + self.second / 10);
        bytes.push(48 + self.second % 10);
        let r = ascii_to_string(bytes);
        proof {
            assert(r@ =~= spec_time_string(self));
        }
        r
    }

    /// Parse an `HH:MM:SS` rendering back into a time of day: exactly
    /// eight characters, two digits apiece, fields in range.
    pub fn from_string(input: &str) -> (r: Option<Self>)
        ensures
            r == spec_parse_time(input@),
    {
        if input.unicode_len() != 8 {
            return None;
        }
        if input.get_char(2) != ':' || input.get_char(5) != ':' {
            return None;
        }
        let hour = match two_digits(input.get_char(0), input.get_char(1)) {
            Some(v) => v,
            None => {
                return None;
            },
        };
        let minute = match two_digits(input.get_char(3), input.get_char(4)) {
            Some(v) => v,
            None => {
                return None;
            },
        };
        let second = match two_digits(input.get_char(6), input.get_char(7)) {
            Some(v) => v,
            None => {
                return None;
            },
        };
        if hour >= 24 || minute >= 60 || second >= 60 {
            return None;
        }
        Some(ReminderFireTime { hour, minute, second })
    }
}

/// The value of a two-digit decimal field, if both characters are digits.
fn two_digits(hi: char, lo: char) -> (r: Option<u8>)
    ensures
        r is Some <==> is_digit(hi) && is_digit(lo),
        r matches Some(v) ==> v == digit_val(hi) * 10 + digit_val(lo),
{
    let h = hi as u32;
    let l = lo as u32;
    if h < 48 || h > 57 || l < 48 || l > 57 {
        return None;
    }
    Some(((h - 48) * 10 + (l - 48)) as u8)
}

/// Relies on chrono's `TimeZone` conversion through `chrono_tz`: today's
/// wall-clock reading in the named zone, mapped to the UTC time of day it
/// denotes.  `None` when the zone is unknown or the reading is skipped by
/// a daylight-saving jump.  The result depends on the zone database and
/// on today's date, so only its shape is promised.
#[verifier::external_body]
fn local_time_to_utc(timezone: &str, hour: u8, minute: u8, second: u8) -> (r: Option<
    (u8, u8, u8),
>)
    requires
        hour < 24,
        minute < 60,
        second < 60,
    ensures
        r matches Some((h, m, s)) ==> h < 24 && m < 60 && s < 60,
{
    let tz: chrono_tz::Tz = timezone.parse().ok()?;
    let today = tz.from_utc_datetime(&chrono::Utc::now().naive_utc()).date_naive();
    let time = chrono::NaiveTime::from_hms_opt(hour as u32, minute as u32, second as u32)?;
    let local = tz.from_local_datetime(&today.and_time(time)).single()?;
    let utc = local.with_timezone(&chrono::Utc).time();
    Some((utc.hour() as u8, utc.minute() as u8, utc.second() as u8))
}

/// Relies on chrono's `TimeZone` conversion through `chrono_tz`: the
/// wall-clock reading, in the named zone and on today's date, of a UTC
/// time of day.  `None` when the zone is unknown.  The result depends on
/// the zone database and on today's date, so only its shape is promised.
#[verifier::external_body]
fn utc_time_to_local(timezone: &str, hour: u8, minute: u8, second: u8) -> (r: Option<
    (u8, u8, u8),
>)
    requires
        hour < 24,
        minute < 60,
        second < 60,
    ensures
        r matches Some((h, m, s)) ==> h < 24 && m < 60 && s < 60,
{
    let tz: chrono_tz::Tz = timezone.parse().ok()?;
    let today = chrono::Utc::now().date_naive();
    let time = chrono::NaiveTime::from_hms_opt(hour as u32, minute as u32, second as u32)?;
    let local = tz.from_utc_datetime(&today.and_time(time));
    Some((local.hour() as u8, local.minute() as u8, local.second() as u8))
}

impl ReminderFireTime {
    /// The fire time a user states on their local wall clock, stored as
    /// the UTC time of day it denotes today.  `None` when the zone is
    /// unknown or the reading falls into a daylight-saving jump.
    pub fn new_utc_from_local(hour: u8, minute: u8, second: u8, timezone: &str) -> (r: Option<
        Self,
    >)
        requires
            hour < 24,
            minute < 60,
            second < 60,
        ensures
            r matches Some(t) ==> t.wf(),
    {
        match local_time_to_utc(timezone, hour, minute, second) {
            Some((h, m, s)) => Some(ReminderFireTime::new(h, m, s)),
            None => None,
        }
    }

    /// This fire time on the user's local wall clock, today.  `None` when
    /// the zone is unknown.
    pub fn to_local_time(&self, timezone: &str) -> (r: Option<Self>)
        requires
            self.wf(),
        ensures
            r matches Some(t) ==> t.wf(),
    {
        match utc_time_to_local(timezone, self.hour, self.minute, self.second) {
            Some((h, m, s)) => Some(ReminderFireTime::new(h, m, s)),
            None => None,
        }
    }
}

/// Rendering a time of day and parsing it back returns the same time.
pub proof fn lemma_time_string_roundtrip(t: ReminderFireTime)
    requires
        t.wf(),
    ensures
        spec_parse_time(spec_time_string(t)) == Some(t),
{
    let s = spec_time_string(t);
    lemma_fundamental_div_mod(t.hour as int, 10);
    lemma_fundamental_div_mod(t.minute as int, 10);
    lemma_fundamental_div_mod(t.second as int, 10);
    assert(valid_time_chars(s));
}

} // verus!
