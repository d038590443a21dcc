//! A per-user daily-reminder scheduler.
//!
//! The core is a collection of per-reminder state machines that fire a
//! reminder at a user-chosen wall-clock time each day and then drive a
//! bounded nag/confirm dialogue until the user confirms completion or the
//! dialogue times out.  The crate holds the pure logic: the delay
//! calculator, the reminder state machine, and the registry of live
//! runners.  Timers, channels and delivery transports live with the
//! caller, which feeds events in and carries the requested effects out.

pub mod delay;
pub mod fire_time;
pub mod registry;
pub mod reminder;
pub mod noop;
pub mod runner;
pub mod settings;
pub mod storage_model;
pub mod text;
pub mod user;
