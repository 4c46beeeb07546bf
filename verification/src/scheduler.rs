//! The scheduler core: a set of pending entries kept sorted ascending by
//! trigger instant, and the single status line every operation overwrites.

use crate::schedule::status_text_of;
use crate::schedule::status_text_spec;
use crate::schedule::validate;
use crate::schedule::wf_schedule;
use crate::schedule::wf_stamp;
use crate::schedule::LocalStamp;
use crate::schedule::Schedule;
use crate::schedule::ScheduleError;
use crate::schedule::trigger_spec;
use crate::schedule::MAX_EPOCH;
use crate::schedule::DAY_SECONDS;
use crate::strings::dec_of;
use crate::strings::push_two_dec;
use crate::strings::push_u64_dec;
use crate::strings::seq_starts_with;
use crate::strings::str_starts_with;
use crate::timeofday::format_hhmm;
use crate::timeofday::hhmm_shape;
use crate::timeofday::hhmm_text;
use crate::timeofday::parse_ok;
use crate::timeofday::plus_minutes_hour;
use crate::timeofday::plus_minutes_minute;
use crate::timeofday::quick_time_text;
use crate::timeofday::spec_hour;
use crate::timeofday::spec_minute;
use crate::url::normalize_spec;
use vstd::prelude::*;

verus! {

/// Entries sorted ascending by trigger instant.
pub open spec fn sorted_by_trigger(s: Seq<Schedule>) -> bool {
    forall|i: int, j: int| 0 <= i < j < s.len() ==> s[i].trigger_at <= s[j].trigger_at
}

/// The entries of `s` that are due at `now`: trigger instant at or before
/// `now`, in their original order.
pub open spec fn due_entries(s: Seq<Schedule>, now: i64) -> Seq<Schedule> {
    s.filter(|x: Schedule| x.trigger_at <= now)
}

/// The entries of `s` that are not yet due at `now`, in their original
/// order.
pub open spec fn live_entries(s: Seq<Schedule>, now: i64) -> Seq<Schedule> {
    s.filter(|x: Schedule| x.trigger_at > now)
}

/// Appending one entry extends the due or the live selection, never both.
proof fn lemma_due_split_push(s: Seq<Schedule>, x: Schedule, now: i64)
    ensures
        due_entries(s.push(x), now) == if x.trigger_at <= now {
            due_entries(s, now).push(x)
        } else {
            due_entries(s, now)
        },
        live_entries(s.push(x), now) == if x.trigger_at > now {
            live_entries(s, now).push(x)
        } else {
            live_entries(s, now)
        },
{
    reveal(Seq::filter);
    assert(s.push(x).drop_last() =~= s);
    assert(s.push(x).last() == x);
}

/// Law: a due sweep is exhaustive.  The entries it leaves behind are not
/// due, so an immediately repeated sweep at the same instant returns
/// nothing.
pub proof fn lemma_due_twice_empty(s: Seq<Schedule>, now: i64)
    ensures
        due_entries(live_entries(s, now), now) == Seq::<Schedule>::empty(),
    decreases s.len(),
{
    reveal(Seq::filter);
    if s.len() == 0 {
        assert(live_entries(s, now) =~= s);
        assert(due_entries(s, now) =~= Seq::<Schedule>::empty());
    } else {
        let d = s.drop_last();
        let x = s.last();
        lemma_due_twice_empty(d, now);
        assert(d.push(x) =~= s);
        lemma_due_split_push(d, x, now);
        if x.trigger_at > now {
            lemma_due_split_push(live_entries(d, now), x, now);
        }
    }
}

/// Law: a due sweep fires every entry exactly once.  Each entry goes to
/// the fired or to the remaining selection, so the two lengths add up to
/// the whole.
pub proof fn lemma_due_partition(s: Seq<Schedule>, now: i64)
    ensures
        due_entries(s, now).len() + live_entries(s, now).len() == s.len(),
    decreases s.len(),
{
    if s.len() > 0 {
        let d = s.drop_last();
        lemma_due_partition(d, now);
        assert(d.push(s.last()) =~= s);
        lemma_due_split_push(d, s.last(), now);
    }
}

/// The outcome the host shell reports for one fired entry: the URL it
/// tried to open, and the error description when the launch failed.
pub struct OpenOutcome {
    pub target: String,
    pub error: Option<String>,
}

/// The status line recorded for one firing outcome.
pub open spec fn outcome_text_spec(o: OpenOutcome) -> Seq<char> {
    match o.error {
        Some(e) => "Failed to open URL "@ + o.target@ + ": "@ + e@,
        None => "Opened URL: "@ + o.target@,
    }
}

/// The status line after the firing loop: that of the last outcome, or
/// the previous line when nothing fired.
pub open spec fn fired_status_spec(prev: Seq<char>, os: Seq<OpenOutcome>) -> Seq<char> {
    if os.len() == 0 {
        prev
    } else {
        outcome_text_spec(os.last())
    }
}

/// The countdown status line shown while entries remain pending.
pub open spec fn next_text(remaining: nat) -> Seq<char> {
    "Next opening in "@ + dec_of(remaining) + " seconds"@
}

/// The status line at the end of one tick: the countdown to the earliest
/// remaining entry; or, with nothing left pending, the completion line
/// when the firing loop last reported an opened URL, else that loop's
/// line.
pub open spec fn tick_status_spec(
    entries: Seq<Schedule>,
    prev: Seq<char>,
    os: Seq<OpenOutcome>,
    now: i64,
) -> Seq<char> {
    let fired = fired_status_spec(prev, os);
    if entries.len() > 0 {
        next_text((entries[0].trigger_at - now) as nat)
    } else if seq_starts_with(fired, "Opened URL: "@) {
        "All schedules completed!"@
    } else {
        fired
    }
}

/// The status line recorded on a successful submit.
pub open spec fn added_text(h: nat, m: nat, secs: nat) -> Seq<char> {
    "Added schedule for "@ + hhmm_text(h, m) + " ("@ + dec_of(secs) + " seconds)"@
}

/// The display label of one pending entry.
pub open spec fn label_text(s: Schedule) -> Seq<char> {
    hhmm_text(s.hour as nat, s.minute as nat) + " - "@ + s.target@
}

/// The scheduler core state.
pub struct Scheduler {
    schedules: Vec<Schedule>,
    status: String,
}

impl Scheduler {
    /// The pending entries, ascending by trigger instant.
    pub closed spec fn entries(self) -> Seq<Schedule> {
        self.schedules@
    }

    /// The current status line.
    pub closed spec fn status_view(self) -> Seq<char> {
        self.status@
    }

    /// Well-formed: the entries are sorted ascending by trigger instant
    /// and each is itself well formed.
    pub open spec fn wf(self) -> bool {
        sorted_by_trigger(self.entries()) && (forall|i: int|
            0 <= i < self.entries().len() ==> wf_schedule(self.entries()[i]))
    }

    /// An empty scheduler with an empty status line.
    pub fn new() -> (r: Scheduler)
        ensures
            r.wf(),
            r.entries().len() == 0,
            r.status_view().len() == 0,
    {
        Scheduler { schedules: Vec::new(), status: String::new() }
    }

    /// The number of pending entries.
    pub fn len(&self) -> (n: usize)
        ensures
            n == self.entries().len(),
    {
        self.schedules.len()
    }

    /// A reference to the entry at `index`.
    pub fn entry(&self, index: usize) -> (r: &Schedule)
        requires
            index < self.entries().len(),
        ensures
            *r == self.entries()[index as int],
    {
        &self.schedules[index]
    }

    /// The current status line.
    pub fn status_line(&self) -> (r: &String)
        ensures
            r@ == self.status_view(),
    {
        &self.status
    }

    /// Inserts a validated entry before the first strictly later trigger,
    /// keeping the entries sorted; an entry with an equal trigger goes
    /// after the existing ones.  Returns the position taken.
    pub fn insert(&mut self, s: Schedule) -> (pos: usize)
        requires
            old(self).wf(),
            wf_schedule(s),
        ensures
            final(self).wf(),
            pos <= old(self).entries().len(),
            final(self).entries() == old(self).entries().insert(pos as int, s),
            forall|i: int| 0 <= i < pos ==> old(self).entries()[i].trigger_at <= s.trigger_at,
            pos < old(self).entries().len() ==> old(self).entries()[pos as int].trigger_at
                > s.trigger_at,
            final(self).status_view() == old(self).status_view(),
    {
        let n = self.schedules.len();
        let mut pos: usize = 0;
        while pos < n && self.schedules[pos].trigger_at <= s.trigger_at
            invariant
                0 <= pos <= n,
                n == self.schedules@.len(),
                forall|i: int| 0 <= i < pos ==> self.schedules@[i].trigger_at <= s.trigger_at,
            decreases n - pos,
        {
            pos = pos + 1;
        }
        proof {
            self.schedules@.insert_ensures(pos as int, s);
        }
        self.schedules.insert(pos, s);
        proof {
            let new = self.schedules@;
            let orig = old(self).schedules@;
            assert forall|i: int, j: int| 0 <= i < j < new.len() implies new[i].trigger_at
                <= new[j].trigger_at by {
                if j < pos {
                    assert(new[i] == orig[i] && new[j] == orig[j]);
                } else if i < pos && j == pos {
                    assert(new[i] == orig[i] && new[j] == s);
                } else if i < pos && j > pos {
                    assert(new[i] == orig[i] && new[j] == orig[j - 1]);
                    assert(orig[i].trigger_at <= orig[j - 1].trigger_at);
                } else if i == pos {
                    assert(new[i] == s && new[j] == orig[j - 1]);
                    assert(orig[pos as int].trigger_at <= orig[j - 1].trigger_at);
                } else {
                    assert(new[i] == orig[i - 1] && new[j] == orig[j - 1]);
                }
            }
        }
        pos
    }

    /// Removes the entry at `index` and reports success; an out-of-range
    /// index leaves the scheduler unchanged and reports failure.
    pub fn cancel(&mut self, index: usize) -> (ok: bool)
        requires
            old(self).wf(),
        ensures
            final(self).wf(),
            ok <==> index < old(self).entries().len(),
            index < old(self).entries().len() ==> final(self).entries() == old(
                self,
            ).entries().remove(index as int) && final(self).status_view() == "Schedule removed"@,
            index >= old(self).entries().len() ==> *final(self) == *old(self),
    {
        if index < self.schedules.len() {
            proof {
                self.schedules@.remove_ensures(index as int);
            }
            self.schedules.remove(index);
            self.status = String::from_str("Schedule removed");
            proof {
                let new = self.schedules@;
                let orig = old(self).schedules@;
                assert forall|i: int, j: int| 0 <= i < j < new.len() implies new[i].trigger_at
                    <= new[j].trigger_at by {
                    if j < index {
                        assert(new[i] == orig[i] && new[j] == orig[j]);
                    } else if i < index {
                        assert(new[i] == orig[i] && new[j] == orig[j + 1]);
                    } else {
                        assert(new[i] == orig[i + 1] && new[j] == orig[j + 1]);
                    }
                }
            }
            true
        } else {
            false
        }
    }

    /// Removes and returns the entries that are due at `now`, in their
    /// original order; the rest stay, in order, and the status line is
    /// untouched.
    pub fn due(&mut self, now: i64) -> (fired: Vec<Schedule>)
        requires
            old(self).wf(),
        ensures
            final(self).wf(),
            fired@ == due_entries(old(self).entries(), now),
            final(self).entries() == live_entries(old(self).entries(), now),
            final(self).status_view() == old(self).status_view(),
    {
        let ghost orig = self.schedules@;
        let ghost mut k: int = 0;
        let mut fired: Vec<Schedule> = Vec::new();
        let mut kept: Vec<Schedule> = Vec::new();
        proof {
            assert(orig.subrange(0, 0) =~= Seq::<Schedule>::empty());
            assert(due_entries(orig.subrange(0, 0), now) =~= Seq::<Schedule>::empty());
            assert(live_entries(orig.subrange(0, 0), now) =~= Seq::<Schedule>::empty());
        }
        while self.schedules.len() > 0
            invariant
                0 <= k <= orig.len(),
                orig == old(self).schedules@,
                sorted_by_trigger(orig),
                forall|i: int| 0 <= i < orig.len() ==> wf_schedule(orig[i]),
                self.schedules@ == orig.subrange(k, orig.len() as int),
                self.status@ == old(self).status@,
                fired@ == due_entries(orig.subrange(0, k), now),
                kept@ == live_entries(orig.subrange(0, k), now),
                sorted_by_trigger(kept@),
                forall|i: int| 0 <= i < kept@.len() ==> wf_schedule(kept@[i]),
                forall|i: int, j: int|
                    0 <= i < kept@.len() && k <= j < orig.len() ==> kept@[i].trigger_at
                        <= orig[j].trigger_at,
            decreases self.schedules@.len(),
        {
            proof {
                assert(self.schedules@[0] == orig[k]);
            }
            let x = self.schedules.remove(0);
            proof {
                assert(self.schedules@ =~= orig.subrange(k + 1, orig.len() as int));
                assert(orig.subrange(0, k + 1) =~= orig.subrange(0, k).push(orig[k]));
                lemma_due_split_push(orig.subrange(0, k), orig[k], now);
            }
            if x.trigger_at <= now {
                fired.push(x);
            } else {
                kept.push(x);
            }
            proof {
                k = k + 1;
            }
        }
        proof {
            assert(orig.subrange(0, orig.len() as int) =~= orig);
        }
        self.schedules = kept;
        fired
    }

    /// Records the status of one tick after the host shell has acted on
    /// the fired entries: each outcome's line in order, the last one
    /// winning; then the countdown when entries remain; the completion
    /// line when none remain and the firing loop last reported an opened
    /// URL.
    pub fn finish_tick(&mut self, now: i64, outcomes: &Vec<OpenOutcome>)
        requires
            old(self).wf(),
            0 <= now <= MAX_EPOCH,
            old(self).entries().len() > 0 ==> old(self).entries()[0].trigger_at > now,
        ensures
            final(self).wf(),
            final(self).entries() == old(self).entries(),
            final(self).status_view() == tick_status_spec(
                old(self).entries(),
                old(self).status_view(),
                outcomes@,
                now,
            ),
    {
        let n = outcomes.len();
        let mut i: usize = 0;
        while i < n
            invariant
                0 <= i <= n,
                n == outcomes@.len(),
                self.schedules@ == old(self).schedules@,
                self.status@ == fired_status_spec(old(self).status@, outcomes@.subrange(0, i as int)),
            decreases n - i,
        {
            let o = &outcomes[i];
            match &o.error {
                Some(e) => {
                    let mut msg = String::from_str("Failed to open URL ");
                    msg.append(o.target.as_str());
                    msg.append(": ");
                    msg.append(e.as_str());
                    self.status = msg;
                },
                None => {
                    let mut msg = String::from_str("Opened URL: ");
                    msg.append(o.target.as_str());
                    self.status = msg;
                },
            }
            i = i + 1;
            proof {
                assert(outcomes@.subrange(0, i as int).last() == outcomes@[i - 1]);
            }
        }
        proof {
            assert(outcomes@.subrange(0, n as int) =~= outcomes@);
        }
        if self.schedules.len() > 0 {
            let remaining = self.schedules[0].trigger_at - now;
            let mut msg = String::from_str("Next opening in ");
            push_u64_dec(&mut msg, remaining as u64);
            msg.append(" seconds");
            self.status = msg;
        } else if str_starts_with(self.status.as_str(), "Opened URL: ") {
            self.status = String::from_str("All schedules completed!");
        }
    }

    /// Handles a submitted (time, URL) request: validates and normalizes
    /// the input, inserts the new entry in trigger order, and records the
    /// status line; a rejected request records its error's line and leaves
    /// the entries unchanged.
    pub fn submit(&mut self, now: LocalStamp, time_text: &str, url_text: &str) -> (r: Result<
        usize,
        ScheduleError,
    >)
        requires
            old(self).wf(),
            wf_stamp(now),
        ensures
            final(self).wf(),
            r is Ok <==> (normalize_spec(url_text@) is Some && parse_ok(time_text@)),
            r matches Ok(pos) ==> ({
                let h = spec_hour(time_text@);
                let m = spec_minute(time_text@);
                let t = trigger_spec(now, h, m);
                let s = final(self).entries()[pos as int];
                &&& pos <= old(self).entries().len()
                &&& s.trigger_at == t && s.hour == h && s.minute == m
                &&& (normalize_spec(url_text@) matches Some(v) && s.target@ == v)
                &&& final(self).entries() == old(self).entries().insert(pos as int, s)
                &&& forall|i: int| 0 <= i < pos ==> old(self).entries()[i].trigger_at <= t
                &&& (pos < old(self).entries().len() ==> old(self).entries()[pos as int].trigger_at
                    > t)
                &&& now.epoch < t <= now.epoch + DAY_SECONDS
                &&& final(self).status_view() == added_text(h, m, (t - now.epoch) as nat)
            }),
            r matches Err(e) ==> ({
                &&& final(self).entries() == old(self).entries()
                &&& final(self).status_view() == status_text_spec(e)
                &&& (match e {
                    ScheduleError::EmptyUrl => normalize_spec(url_text@) is None,
                    ScheduleError::InvalidTimeFormat(d) => {
                        &&& normalize_spec(url_text@) is Some
                        &&& !parse_ok(time_text@)
                        &&& (!hhmm_shape(time_text@) ==> d@ == "expected HH:MM"@)
                        &&& (hhmm_shape(time_text@) ==> d@ == "value out of range"@)
                    },
                    _ => false,
                })
            }),
    {
        match validate(now, time_text, url_text) {
            Ok(s) => {
                let h = s.hour;
                let m = s.minute;
                let secs = s.trigger_at - now.epoch;
                let pos = self.insert(s);
                let mut msg = String::from_str("Added schedule for ");
                push_two_dec(&mut msg, h as u64);
                msg.append(":");
                push_two_dec(&mut msg, m as u64);
                msg.append(" (");
                push_u64_dec(&mut msg, secs as u64);
                msg.append(" seconds)");
                proof {
                    assert(msg@ =~= added_text(h as nat, m as nat, secs as nat));
                }
                self.status = msg;
                Ok(pos)
            },
            Err(e) => {
                self.status = status_text_of(&e);
                Err(e)
            },
        }
    }

    /// Handles a quick-add request: returns the `HH:MM` text of the clock
    /// time `add` minutes from now, for the host shell to place in the
    /// time field, and records the status line.
    pub fn quick_add(&mut self, now: LocalStamp, add: u64) -> (text: String)
        requires
            old(self).wf(),
            wf_stamp(now),
        ensures
            final(self).wf(),
            final(self).entries() == old(self).entries(),
            text@ == hhmm_text(
                plus_minutes_hour(now.hour as nat, now.minute as nat, add as nat),
                plus_minutes_minute(now.hour as nat, now.minute as nat, add as nat),
            ),
            final(self).status_view() == "Set time to "@ + dec_of(add as nat)
                + " minutes from now"@,
    {
        let text = quick_time_text(now.hour, now.minute, add);
        let mut msg = String::from_str("Set time to ");
        push_u64_dec(&mut msg, add);
        msg.append(" minutes from now");
        self.status = msg;
        text
    }

    /// Renders the display label of the entry at `index`: `HH:MM - url`.
    pub fn entry_label(&self, index: usize) -> (r: String)
        requires
            self.wf(),
            index < self.entries().len(),
        ensures
            r@ == label_text(self.entries()[index as int]),
    {
        let s = &self.schedules[index];
        let mut out = format_hhmm(s.hour, s.minute);
        out.append(" - ");
        out.append(s.target.as_str());
        out
    }
}

} // verus!
