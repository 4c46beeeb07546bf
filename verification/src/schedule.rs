//! The schedule entry and its construction: validating raw user input and
//! turning a requested time of day into an absolute trigger instant.

use crate::timeofday::hhmm_shape;
use crate::timeofday::parse_hhmm;
use crate::timeofday::parse_ok;
use crate::timeofday::spec_hour;
use crate::timeofday::spec_minute;
use crate::url::has_scheme;
use crate::url::lemma_normalized_has_scheme;
use crate::url::normalize_spec;
use crate::url::normalize_url;
use vstd::prelude::*;

verus! {

/// Upper bound on the clock readings the scheduler accepts, in seconds of
/// absolute time; far beyond any realistic wall clock, it only keeps the
/// second arithmetic away from the integer limits.
pub const MAX_EPOCH: i64 = 4_000_000_000_000;

/// Seconds in one calendar day.
pub const DAY_SECONDS: i64 = 86400;

/// A reading of the local clock: an absolute instant in whole seconds
/// together with the local wall-clock time of day it shows.  The scheduler
/// treats the local offset as constant over the following day, so a target
/// time of day becomes an absolute instant by counting seconds within the
/// day of this reading.
#[derive(Clone, Copy)]
pub struct LocalStamp {
    pub epoch: i64,
    pub hour: u8,
    pub minute: u8,
    pub second: u8,
}

/// A well-formed clock reading: wall-clock fields in range and the instant
/// within the supported span.
pub open spec fn wf_stamp(st: LocalStamp) -> bool {
    st.hour < 24 && st.minute < 60 && st.second < 60 && 0 <= st.epoch <= MAX_EPOCH
}

/// One pending entry: the absolute instant to fire at, the requested time
/// of day it renders as, and the normalized URL to open.
pub struct Schedule {
    pub trigger_at: i64,
    pub hour: u8,
    pub minute: u8,
    pub target: String,
}

/// A well-formed entry: clock fields in range, a normalized target, and a
/// trigger instant within the supported span.
pub open spec fn wf_schedule(s: Schedule) -> bool {
    s.hour < 24 && s.minute < 60 && has_scheme(s.target@) && 0 <= s.trigger_at <= MAX_EPOCH
        + DAY_SECONDS
}

/// The ways a request can fail.  Each failure only replaces the status
/// line; none ever corrupts the pending entries.
#[derive(Debug)]
pub enum ScheduleError {
    /// The URL text was empty after trimming.
    EmptyUrl,
    /// The time text did not parse as `HH:MM`; carries the parser's detail.
    InvalidTimeFormat(String),
    /// The computed trigger instant was not in the future.  Defensive:
    /// construction proves this cannot happen for a well-formed clock
    /// reading.
    TimeCalculationError,
    /// The host shell could not open a URL; carries the URL and detail.
    BrowserLaunchFailed(String, String),
}

/// The status line that reports an error.
pub open spec fn status_text_spec(e: ScheduleError) -> Seq<char> {
    match e {
        ScheduleError::EmptyUrl => "Please enter a valid URL"@,
        ScheduleError::InvalidTimeFormat(d) => "Invalid time format (HH:MM): "@ + d@,
        ScheduleError::TimeCalculationError => "Time calculation error"@,
        ScheduleError::BrowserLaunchFailed(u, d) => "Failed to open URL "@ + u@ + ": "@ + d@,
    }
}

/// Renders the status line that reports an error.
pub fn status_text_of(e: &ScheduleError) -> (r: String)
    ensures
        r@ == status_text_spec(*e),
{
    match e {
        ScheduleError::EmptyUrl => String::from_str("Please enter a valid URL"),
        ScheduleError::InvalidTimeFormat(d) => {
            let mut out = String::from_str("Invalid time format (HH:MM): ");
            out.append(d.as_str());
            out
        },
        ScheduleError::TimeCalculationError => String::from_str("Time calculation error"),
        ScheduleError::BrowserLaunchFailed(u, d) => {
            let mut out = String::from_str("Failed to open URL ");
            out.append(u.as_str());
            out.append(": ");
            out.append(d.as_str());
            out
        },
    }
}

/// The candidate instant: the day of the clock reading, at `h:m:00` local
/// time.
pub open spec fn candidate_spec(now: LocalStamp, h: nat, m: nat) -> int {
    now.epoch - ((now.hour as int) * 3600 + (now.minute as int) * 60 + (now.second as int)) + (
    h as int) * 3600 + (m as int) * 60
}

/// The trigger instant for a requested time of day: the candidate, shifted
/// one day later when it is not strictly in the future.
pub open spec fn trigger_spec(now: LocalStamp, h: nat, m: nat) -> int {
    if candidate_spec(now, h, m) <= now.epoch {
        candidate_spec(now, h, m) + DAY_SECONDS
    } else {
        candidate_spec(now, h, m)
    }
}

/// Computes the trigger instant for the requested time of day: the next
/// occurrence of `h:m` by this clock reading, strictly in the future and
/// at most one day away.
pub fn compute_trigger(now: LocalStamp, h: u8, m: u8) -> (t: i64)
    requires
        wf_stamp(now),
        h < 24,
        m < 60,
    ensures
        t == trigger_spec(now, h as nat, m as nat),
        now.epoch < t <= now.epoch + DAY_SECONDS,
{
    let sod_now: i64 = now.hour as i64 * 3600 + now.minute as i64 * 60 + now.second as i64;
    let cand: i64 = now.epoch - sod_now + (h as i64 * 3600 + m as i64 * 60);
    if cand <= now.epoch {
        cand + DAY_SECONDS
    } else {
        cand
    }
}

/// Validates raw time and URL text against the current clock reading and
/// builds the schedule entry, or reports why the request is rejected: an
/// empty URL first, then an unparsable time.
pub fn validate(now: LocalStamp, time_text: &str, url_text: &str) -> (r: Result<
    Schedule,
    ScheduleError,
>)
    requires
        wf_stamp(now),
    ensures
        r is Ok <==> (normalize_spec(url_text@) is Some && parse_ok(time_text@)),
        r matches Ok(s) ==> {
            &&& wf_schedule(s)
            &&& (normalize_spec(url_text@) matches Some(v) && s.target@ == v)
            &&& s.hour == spec_hour(time_text@)
            &&& s.minute == spec_minute(time_text@)
            &&& s.trigger_at == trigger_spec(now, spec_hour(time_text@), spec_minute(time_text@))
            &&& now.epoch < s.trigger_at <= now.epoch + DAY_SECONDS
        },
        r matches Err(e) ==> (match e {
            ScheduleError::EmptyUrl => normalize_spec(url_text@) is None,
            ScheduleError::InvalidTimeFormat(d) => {
                &&& normalize_spec(url_text@) is Some
                &&& !parse_ok(time_text@)
                &&& (!hhmm_shape(time_text@) ==> d@ == "expected HH:MM"@)
                &&& (hhmm_shape(time_text@) ==> d@ == "value out of range"@)
            },
            _ => false,
        }),
{
    let url = match normalize_url(url_text) {
        Some(u) => u,
        None => {
            return Err(ScheduleError::EmptyUrl);
        },
    };
    let (h, m) = match parse_hhmm(time_text) {
        Ok(hm) => hm,
        Err(d) => {
            return Err(ScheduleError::InvalidTimeFormat(d));
        },
    };
    let t = compute_trigger(now, h, m);
    let secs = t - now.epoch;
    if secs <= 0 {
        return Err(ScheduleError::TimeCalculationError);
    }
    proof {
        lemma_normalized_has_scheme(url_text@);
    }
    Ok(Schedule { trigger_at: t, hour: h, minute: m, target: url })
}

} // verus!
