//! Debouncing of change triggers.
//!
//! A burst of file-change events must collapse into a single delivery: the
//! debouncer arms itself on every event and re-sets its deadline to one full
//! delay after the latest event, and it fires only once the deadline has
//! passed with no further event. Time is a millisecond count supplied by the
//! caller, so the state machine itself is pure.

use vstd::prelude::*;

verus! {

/// A single debounce window.
pub struct Debouncer {
    /// The quiet period an event burst must end with, in milliseconds.
    pub delay_ms: u64,
    /// An undelivered burst is waiting.
    pub armed: bool,
    /// The moment the waiting burst becomes deliverable.
    pub deadline_ms: u64,
}

/// The state after an event arrives at `now_ms`.
pub open spec fn spec_note(s: Debouncer, now_ms: u64) -> Debouncer {
    Debouncer { armed: true, deadline_ms: (now_ms + s.delay_ms) as u64, ..s }
}

/// Whether a waiting burst is deliverable at `now_ms`.
pub open spec fn spec_ready(s: Debouncer, now_ms: u64) -> bool {
    s.armed && now_ms >= s.deadline_ms
}

/// The state after a delivery attempt at `now_ms`, and whether it fired.
pub open spec fn spec_take(s: Debouncer, now_ms: u64) -> (Debouncer, bool) {
    if spec_ready(s, now_ms) {
        (Debouncer { armed: false, ..s }, true)
    } else {
        (s, false)
    }
}

impl Debouncer {
    /// A quiet debouncer with the given delay.
    pub fn new(delay_ms: u64) -> (r: Debouncer)
        ensures
            r.delay_ms == delay_ms,
            !r.armed,
    {
        Debouncer { delay_ms, armed: false, deadline_ms: 0 }
    }

    /// An event arrived: arm the window and push the deadline one full delay
    /// past it. Repeated events within the window only move the deadline, so
    /// a burst is coalesced into whatever single delivery follows it.
    pub fn note_event(&mut self, now_ms: u64)
        requires
            now_ms + old(self).delay_ms <= u64::MAX,
        ensures
            *final(self) == spec_note(*old(self), now_ms),
    {
        self.armed = true;
        self.deadline_ms = now_ms + self.delay_ms;
    }

    /// Whether a waiting burst is deliverable.
    pub fn ready(&self, now_ms: u64) -> (r: bool)
        ensures
            r == spec_ready(*self, now_ms),
    {
        self.armed && now_ms >= self.deadline_ms
    }

    /// Deliver the waiting burst if its quiet period has passed: returns
    /// `true` and disarms on delivery, changes nothing otherwise.
    pub fn take_delivery(&mut self, now_ms: u64) -> (fired: bool)
        ensures
            (*final(self), fired) == spec_take(*old(self), now_ms),
    {
        if self.armed && now_ms >= self.deadline_ms {
            self.armed = false;
            true
        } else {
            false
        }
    }
}

/// The state after a whole sequence of events, arriving in order.
pub open spec fn spec_note_all(s: Debouncer, times: Seq<u64>) -> Debouncer
    decreases times.len(),
{
    if times.len() == 0 {
        s
    } else {
        spec_note_all(spec_note(s, times[0]), times.skip(1))
    }
}

proof fn lemma_note_all_last(s: Debouncer, times: Seq<u64>)
    requires
        times.len() >= 1,
    ensures
        spec_note_all(s, times).armed,
        spec_note_all(s, times).delay_ms == s.delay_ms,
        spec_note_all(s, times).deadline_ms == (times.last() + s.delay_ms) as u64,
    decreases times.len(),
{
    if times.len() == 1 {
        assert(times.skip(1) =~= Seq::<u64>::empty());
        assert(spec_note_all(spec_note(s, times[0]), times.skip(1)) == spec_note(s, times[0]));
        assert(times.last() == times[0]);
    } else {
        lemma_note_all_last(spec_note(s, times[0]), times.skip(1));
        assert(times.skip(1).last() == times.last());
    }
}

/// A burst of events collapses into exactly one delivery: after any
/// non-empty sequence of events ending at time `t`, a delivery attempt
/// before `t` plus the delay fires nothing; one at or past it fires exactly
/// once; and a repeated attempt fires nothing further until a new event
/// arrives.
pub proof fn lemma_burst_coalesces(s: Debouncer, times: Seq<u64>, early_ms: u64, due_ms: u64)
    requires
        times.len() >= 1,
        times.last() + s.delay_ms <= u64::MAX,
        early_ms < times.last() + s.delay_ms,
        due_ms >= times.last() + s.delay_ms,
    ensures
        !spec_take(spec_note_all(s, times), early_ms).1,
        spec_take(spec_note_all(s, times), early_ms).0 == spec_note_all(s, times),
        spec_take(spec_note_all(s, times), due_ms).1,
        !spec_take(spec_take(spec_note_all(s, times), due_ms).0, due_ms).1,
{
    lemma_note_all_last(s, times);
}

} // verus!
