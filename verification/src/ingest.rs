//! The ingestion front-end's bookkeeping.
//!
//! The host program receives events from the kernel source, writes each to
//! the telemetry sink best-effort, and forwards it to the detector
//! pipeline.  The core decides which events are admissible and counts what
//! was dropped or lost: a malformed event is dropped with a counter
//! increment, and a failed sink write is swallowed with a counter
//! increment, so that no single event can stop the pipeline.

use vstd::prelude::*;
use crate::events::FileEvent;
use crate::stats::{sat_add, saturating_add_u64};

verus! {

/// Admission control and loss counters of the ingestion front-end.
pub struct EventIngestion {
    /// Events that passed the schema check and were forwarded.
    pub events_accepted: u64,
    /// Events dropped for violating the schema invariants.
    pub malformed_dropped: u64,
    /// Telemetry writes that failed and were swallowed.
    pub sink_errors: u64,
}

impl EventIngestion {
    pub fn new() -> (e: EventIngestion)
        ensures
            e.events_accepted == 0,
            e.malformed_dropped == 0,
            e.sink_errors == 0,
    {
        EventIngestion { events_accepted: 0, malformed_dropped: 0, sink_errors: 0 }
    }

    /// Screens one event: a well-formed event is admitted and counted, a
    /// malformed one is refused and counted as dropped.
    pub fn screen_event(&mut self, event: &FileEvent) -> (ok: bool)
        ensures
            ok == event.wf(),
            final(self).events_accepted == if event.wf() {
                sat_add(old(self).events_accepted, 1)
            } else {
                old(self).events_accepted
            },
            final(self).malformed_dropped == if event.wf() {
                old(self).malformed_dropped
            } else {
                sat_add(old(self).malformed_dropped, 1)
            },
            final(self).sink_errors == old(self).sink_errors,
    {
        if event.is_well_formed() {
            self.events_accepted = saturating_add_u64(self.events_accepted, 1);
            true
        } else {
            self.malformed_dropped = saturating_add_u64(self.malformed_dropped, 1);
            false
        }
    }

    /// Notes the outcome of one best-effort sink write; a failure is
    /// swallowed and only counted.
    pub fn note_sink_result(&mut self, ok: bool)
        ensures
            final(self).sink_errors == if ok {
                old(self).sink_errors
            } else {
                sat_add(old(self).sink_errors, 1)
            },
            final(self).events_accepted == old(self).events_accepted,
            final(self).malformed_dropped == old(self).malformed_dropped,
    {
        if !ok {
            self.sink_errors = saturating_add_u64(self.sink_errors, 1);
        }
    }
}

} // verus!
