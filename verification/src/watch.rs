//! The change watcher's decision logic: debouncing of filesystem event
//! bursts, and the delivery policy for watcher-triggered re-scans.
//!
//! The blocking loop itself lives with the caller: it reports raw events
//! and the current time in milliseconds, polls for a settled change, and
//! performs the re-scan when told to.

use vstd::prelude::*;
use crate::scan::ScanRootError;
use crate::record::TradeRecord;

verus! {

/// Coalesces a burst of filesystem events: each event pushes the pending
/// deadline to its arrival time plus the quiet window, and a poll fires
/// only once the deadline has passed.
#[derive(Clone, Copy, Debug)]
pub struct Debouncer {
    pub window_ms: u64,
    pub deadline: Option<u64>,
}

/// When a burst whose last event arrived at `t` settles: `t` plus the
/// quiet window, saturating.
pub open spec fn spec_deadline_after(t: u64, window: u64) -> u64 {
    if t + window > u64::MAX {
        u64::MAX
    } else {
        (t + window) as u64
    }
}

impl Debouncer {
    pub open spec fn spec_new(window_ms: u64) -> Debouncer {
        Debouncer { window_ms, deadline: None }
    }

    /// A fresh debouncer with the given quiet window; nothing is pending.
    pub fn new(window_ms: u64) -> (d: Debouncer)
        ensures
            d == Debouncer::spec_new(window_ms),
    {
        Debouncer { window_ms, deadline: None }
    }

    pub open spec fn spec_note(self, now_ms: u64) -> Debouncer {
        Debouncer { deadline: Some(spec_deadline_after(now_ms, self.window_ms)), ..self }
    }

    /// Record one filesystem event: the pending deadline becomes the
    /// event's time plus the quiet window, whatever was pending before.
    pub fn note_event(&mut self, now_ms: u64)
        ensures
            *final(self) == (*old(self)).spec_note(now_ms),
    {
        let dl: u64 = if now_ms > u64::MAX - self.window_ms {
            u64::MAX
        } else {
            now_ms + self.window_ms
        };
        self.deadline = Some(dl);
    }

    pub open spec fn spec_poll_fires(self, now_ms: u64) -> bool {
        self.deadline matches Some(d) && now_ms >= d
    }

    /// The same debouncer with nothing pending.
    pub open spec fn spec_cleared(self) -> Debouncer {
        Debouncer { deadline: None, ..self }
    }

    /// Ask whether the pending burst has settled: fires exactly when a
    /// deadline is pending and has passed, and clears it, so one settled
    /// burst triggers one re-scan.
    pub fn poll(&mut self, now_ms: u64) -> (fired: bool)
        ensures
            fired == (*old(self)).spec_poll_fires(now_ms),
            fired ==> *final(self) == (*old(self)).spec_cleared(),
            !fired ==> *final(self) == *old(self),
    {
        match self.deadline {
            Some(d) => {
                if now_ms >= d {
                    self.deadline = None;
                    true
                } else {
                    false
                }
            },
            None => false,
        }
    }
}

/// The state after a run of events, in arrival order.
pub open spec fn spec_run(d: Debouncer, times: Seq<u64>) -> Debouncer
    decreases times.len(),
{
    if times.len() == 0 {
        d
    } else {
        spec_run(d, times.drop_last()).spec_note(times.last())
    }
}

proof fn lemma_run_window(d: Debouncer, times: Seq<u64>)
    ensures
        spec_run(d, times).window_ms == d.window_ms,
    decreases times.len(),
{
    if times.len() > 0 {
        lemma_run_window(d, times.drop_last());
    }
}

/// A burst of events within the debounce window triggers exactly one
/// re-scan, not one per event: after the burst one deadline is pending,
/// the last event's time plus the window; no poll before it fires; the
/// first poll at or past it fires; and once it fired, no further poll
/// fires until another event arrives.
pub proof fn lemma_burst_single_rescan(d0: Debouncer, times: Seq<u64>, settle_ms: u64)
    requires
        d0.deadline is None,
        times.len() > 0,
        settle_ms >= spec_deadline_after(times.last(), d0.window_ms),
    ensures
        spec_run(d0, times).deadline == Some(spec_deadline_after(times.last(), d0.window_ms)),
        forall|t: u64|
            t < spec_deadline_after(times.last(), d0.window_ms) ==> !spec_run(
                d0,
                times,
            ).spec_poll_fires(t),
        spec_run(d0, times).spec_poll_fires(settle_ms),
        forall|t: u64|
            !(#[trigger] spec_run(d0, times).spec_cleared().spec_poll_fires(t)),
{
    lemma_run_window(d0, times.drop_last());
}

/// What a watcher-triggered re-scan delivers to the subscriber: the
/// records on success, and the empty snapshot on failure, never the error.
pub fn deliver_after_rescan(result: Result<Vec<TradeRecord>, ScanRootError>) -> (r: Vec<
    TradeRecord,
>)
    ensures
        result matches Ok(v) ==> r.deep_view() == v.deep_view(),
        result matches Err(_) ==> r.len() == 0,
{
    match result {
        Ok(records) => records,
        Err(_) => Vec::new(),
    }
}

} // verus!
