//! A verified one-shot web-page scheduler core.
//!
//! The library keeps a set of pending (trigger instant, URL) entries sorted
//! ascending by trigger time.  It validates and normalizes user input (a
//! 24-hour `HH:MM` time of day and a URL), computes the next occurrence of
//! the requested time of day as an absolute instant, fires and removes the
//! entries that are due on each tick, and reports a single human-readable
//! status line.  A host shell supplies the clock readings and performs the
//! browser launches; every decision the scheduler makes is verified here.
//!
//! Two policy choices are deliberate.  The core keeps any number of pending
//! entries, so a new request never overwrites an existing one.  The status
//! is one line, overwritten by every operation: when several entries fire
//! on the same tick, only the last outcome's line survives the tick.

pub mod schedule;
pub mod scheduler;
pub mod strings;
pub mod timeofday;
pub mod url;
