//! Users and their flat storage shape.  A user's time zone is held by its
//! IANA name; what only the zone database can compute stays behind the
//! wrappers in [`crate::fire_time`].

use vstd::prelude::*;
use crate::reminder::UserId;

verus! {

/// A user of the service.
pub struct User {
    pub id: UserId,
    /// IANA name of the user's time zone.
    pub timezone: String,
    pub tg_chat_id: Option<i64>,
}

/// A user yet to be stored: everything but the id.
pub struct NewUser {
    pub timezone: String,
    pub tg_chat_id: Option<i64>,
}

/// A user as a row of plain columns.
pub struct UserStorageModel {
    pub id: i64,
    pub timezone: String,
    pub tg_chat_id: Option<i64>,
}

/// Whether the zone database knows a zone by this name.  The table is
/// compiled in, so the answer depends on the name alone.
pub uninterp spec fn tz_valid(name: Seq<char>) -> bool;

/// Relies on `chrono_tz::Tz::from_str`: the compiled-in zone table either
/// knows the name or it does not.
#[verifier::external_body]
pub fn tz_name_is_valid(name: &str) -> (r: bool)
    ensures
        r == tz_valid(name@),
{
    name.parse::<chrono_tz::Tz>().is_ok()
}

impl UserStorageModel {
    /// Flatten a user into its row.
    pub fn from_user(value: User) -> (r: Self)
        ensures
            r.id == value.id,
            r.timezone == value.timezone,
            r.tg_chat_id == value.tg_chat_id,
    {
        UserStorageModel { id: value.id, timezone: value.timezone, tg_chat_id: value.tg_chat_id }
    }

    /// Read a user back from its row.  A time zone name the zone database
    /// does not know falls back to UTC.
    pub fn into_user(self) -> (r: User)
        ensures
            r.id == self.id,
            r.tg_chat_id == self.tg_chat_id,
            r.timezone@ == if tz_valid(self.timezone@) {
                self.timezone@
            } else {
                "UTC"@
            },
            tz_valid(r.timezone@) || r.timezone@ == "UTC"@,
    {
        let timezone = if tz_name_is_valid(self.timezone.as_str()) {
            self.timezone
        } else {
            "UTC".to_owned()
        };
        User { id: self.id, timezone, tg_chat_id: self.tg_chat_id }
    }
}

} // verus!
