//! Counters over what the agent has reported.

use vstd::prelude::*;
use crate::stats::{sat_add, saturating_add_u64};

verus! {

/// Counts the detections and quarantines that were reported.
pub struct TelemetryLogger {
    pub detections_logged: u64,
    pub quarantines_logged: u64,
}

impl TelemetryLogger {
    pub fn new() -> (t: TelemetryLogger)
        ensures
            t.detections_logged == 0,
            t.quarantines_logged == 0,
    {
        TelemetryLogger { detections_logged: 0, quarantines_logged: 0 }
    }

    /// Notes one detection of `process_id` with the given fused score.
    pub fn log_detection(&mut self, process_id: u32, score: u32)
        ensures
            final(self).detections_logged == sat_add(old(self).detections_logged, 1),
            final(self).quarantines_logged == old(self).quarantines_logged,
    {
        self.detections_logged = saturating_add_u64(self.detections_logged, 1);
    }

    /// Notes one quarantine of `process_id`.
    pub fn log_quarantine(&mut self, process_id: u32)
        ensures
            final(self).quarantines_logged == sat_add(old(self).quarantines_logged, 1),
            final(self).detections_logged == old(self).detections_logged,
    {
        self.quarantines_logged = saturating_add_u64(self.quarantines_logged, 1);
    }
}

} // verus!
