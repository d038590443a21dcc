//! Process settings, as plain values.  Loading them from configuration
//! files and the environment is the caller's business.

use vstd::prelude::*;

verus! {

/// Settings of the chat transport.
pub struct TelegramSettings {
    pub token: String,
}

/// All settings of the process.
pub struct Settings {
    pub telegram: TelegramSettings,
}

impl Settings {
    pub fn new(token: String) -> (r: Self)
        ensures
            r.telegram.token == token,
    {
        Settings { telegram: TelegramSettings { token } }
    }
}

} // verus!
