//! Change-signal debouncing for the directory watcher, and the
//! modification-timestamp baseline.
//!
//! The OS observation loop itself is outside the library; it hands each
//! filesystem event's kind and arrival time (in milliseconds) to the
//! debouncer, which decides whether the event triggers a reload.

use vstd::prelude::*;

verus! {

/// The debounce window: the minimum quiet time between accepted change
/// signals, in milliseconds.
pub const DEBOUNCE_WINDOW_MS: u64 = 2000;

/// The kind of a filesystem event, as the library classifies it.
#[derive(Clone, Copy, PartialEq, Eq, Structural, Debug)]
pub enum FsEventKind {
    Create,
    Modify,
    Remove,
    Access,
    Other,
}

/// Only creations and modifications count as changes: the goal is to catch
/// new or updated reference images, not arbitrary churn.
pub open spec fn qualifying(kind: FsEventKind) -> bool {
    kind == FsEventKind::Create || kind == FsEventKind::Modify
}

/// One debounce decision: a qualifying event arriving strictly more than
/// `window` after the last accepted one triggers and resets the clock; any
/// other event is suppressed. An event timed before the last trigger counts
/// as zero elapsed time.
pub open spec fn debounce_step(window: u64, last: u64, kind: FsEventKind, now: u64) -> (bool, u64) {
    let elapsed: int = if now >= last {
        now - last
    } else {
        0
    };
    if qualifying(kind) && elapsed > window {
        (true, now)
    } else {
        (false, last)
    }
}

/// How many of a run of timed events trigger, processed in order.
pub open spec fn trigger_count(window: u64, last: u64, events: Seq<(FsEventKind, u64)>) -> nat
    decreases events.len(),
{
    if events.len() == 0 {
        0
    } else {
        let step = debounce_step(window, last, events[0].0, events[0].1);
        (if step.0 {
            1nat
        } else {
            0nat
        }) + trigger_count(window, step.1, events.drop_first())
    }
}

/// The debouncer: collapses a burst of change events into a single trigger
/// and caps trigger frequency under sustained activity.
pub struct Debouncer {
    window_ms: u64,
    last_trigger_ms: u64,
}

impl Debouncer {
    /// The configured window.
    pub closed spec fn window(&self) -> u64 {
        self.window_ms
    }

    /// The time of the last accepted trigger (or of construction).
    pub closed spec fn last(&self) -> u64 {
        self.last_trigger_ms
    }

    /// A debouncer whose clock starts now: events within the first window
    /// after construction are suppressed.
    pub fn new(window_ms: u64, now_ms: u64) -> (r: Self)
        ensures
            r.window() == window_ms,
            r.last() == now_ms,
    {
        Debouncer { window_ms, last_trigger_ms: now_ms }
    }

    /// A debouncer with the standard two-second window.
    pub fn standard(now_ms: u64) -> (r: Self)
        ensures
            r.window() == DEBOUNCE_WINDOW_MS,
            r.last() == now_ms,
    {
        Debouncer { window_ms: DEBOUNCE_WINDOW_MS, last_trigger_ms: now_ms }
    }

    /// Decides whether this event triggers a reload, advancing the clock
    /// exactly when it does.
    pub fn on_event(&mut self, kind: FsEventKind, now_ms: u64) -> (trigger: bool)
        ensures
            final(self).window() == old(self).window(),
            trigger == debounce_step(old(self).window(), old(self).last(), kind, now_ms).0,
            final(self).last() == debounce_step(old(self).window(), old(self).last(), kind, now_ms).1,
    {
        let qualifies = match kind {
            FsEventKind::Create => true,
            FsEventKind::Modify => true,
            _ => false,
        };
        let elapsed: u64 = if now_ms >= self.last_trigger_ms {
            now_ms - self.last_trigger_ms
        } else {
            0
        };
        if qualifies && elapsed > self.window_ms {
            self.last_trigger_ms = now_ms;
            true
        } else {
            false
        }
    }
}

/// Events at or before `last + window` never trigger, whatever their kind.
pub proof fn lemma_debounce_suppresses(window: u64, last: u64, events: Seq<(FsEventKind, u64)>)
    requires
        forall|i: int| 0 <= i < events.len() ==> (#[trigger] events[i]).1 <= last + window,
    ensures
        trigger_count(window, last, events) == 0,
    decreases events.len(),
{
    if events.len() > 0 {
        let step = debounce_step(window, last, events[0].0, events[0].1);
        assert(events[0].1 <= last + window);
        assert(!step.0);
        assert(forall|i: int|
            0 <= i < events.drop_first().len() ==> (#[trigger] events.drop_first()[i]).1
                == events[i + 1].1);
        lemma_debounce_suppresses(window, last, events.drop_first());
    }
}

/// Debounce under a burst: qualifying events whose first arrives past the
/// window and whose rest all arrive within the window of the first produce
/// exactly one trigger.
pub proof fn lemma_debounce_burst(window: u64, last: u64, events: Seq<(FsEventKind, u64)>)
    requires
        events.len() > 0,
        qualifying(events[0].0),
        events[0].1 > last + window,
        forall|i: int|
            1 <= i < events.len() ==> (#[trigger] events[i]).1 <= events[0].1 + window,
    ensures
        trigger_count(window, last, events) == 1,
{
    let step = debounce_step(window, last, events[0].0, events[0].1);
    assert(step.0);
    assert(step.1 == events[0].1);
    assert(forall|i: int|
        0 <= i < events.drop_first().len() ==> (#[trigger] events.drop_first()[i])
            == events[i + 1]);
    lemma_debounce_suppresses(window, events[0].1, events.drop_first());
}

/// Debounce under spaced events: qualifying events that each arrive strictly
/// more than the window after the one before (the first more than the window
/// after the last accepted trigger) every one triggers.
pub proof fn lemma_debounce_spaced(window: u64, last: u64, events: Seq<(FsEventKind, u64)>)
    requires
        forall|i: int| 0 <= i < events.len() ==> qualifying((#[trigger] events[i]).0),
        events.len() > 0 ==> events[0].1 > last + window,
        forall|i: int|
            0 <= i < events.len() - 1 ==> (#[trigger] events[i + 1]).1 > events[i].1 + window,
    ensures
        trigger_count(window, last, events) == events.len(),
    decreases events.len(),
{
    if events.len() > 0 {
        let step = debounce_step(window, last, events[0].0, events[0].1);
        assert(step.0);
        assert(forall|i: int|
            0 <= i < events.drop_first().len() ==> (#[trigger] events.drop_first()[i])
                == events[i + 1]);
        assert(forall|i: int|
            0 <= i < events.drop_first().len() - 1 ==> (#[trigger] events.drop_first()[i + 1]).1
                > events.drop_first()[i].1 + window);
        lemma_debounce_spaced(window, events[0].1, events.drop_first());
    }
}

/// The largest of the gathered file-modification timestamps, zero when there
/// are none — the watcher's baseline for recognizing out-of-band change.
pub fn get_latest_mod_time(times: &Vec<u64>) -> (r: u64)
    ensures
        forall|i: int| 0 <= i < times@.len() ==> (#[trigger] times@[i]) <= r,
        r == 0 || exists|i: int| 0 <= i < times@.len() && (#[trigger] times@[i]) == r,
{
    let mut latest: u64 = 0;
    let n = times.len();
    let mut i: usize = 0;
    while i < n
        invariant
            n == times@.len(),
            i <= n,
            forall|j: int| 0 <= j < i ==> (#[trigger] times@[j]) <= latest,
            latest == 0 || exists|j: int| 0 <= j < i && (#[trigger] times@[j]) == latest,
        decreases n - i,
    {
        if times[i] > latest {
            latest = times[i];
        }
        i += 1;
    }
    latest
}

} // verus!
