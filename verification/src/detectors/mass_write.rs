//! The mass-write detector.

use vstd::prelude::*;
use crate::SCORE_ONE;
use crate::config::DetectorConfig;
use crate::detectors::Detector;
use crate::events::{EventType, FileEvent};
use crate::stats::ProcessStats;

verus! {

/// A score for how far a counter overshoots its threshold: zero below the
/// threshold, then `(count - threshold) / threshold`, capped at one.
pub open spec fn spec_overshoot_score(count: int, threshold: int) -> int {
    if count >= threshold {
        let raw = (count - threshold) * (SCORE_ONE as int) / threshold;
        if raw > SCORE_ONE as int {
            SCORE_ONE as int
        } else {
            raw
        }
    } else {
        0
    }
}

/// On a write event inside the configured window, the write counter is
/// scored against the mass-write threshold; a stale window or another
/// event kind scores zero.
pub open spec fn spec_mass_write_score(
    cfg: DetectorConfig,
    ev: FileEvent,
    writes: u64,
    last_update: i64,
) -> int {
    if ev.event_type != EventType::FileWrite {
        0
    } else if last_update < ev.timestamp - cfg.mass_write_window_seconds {
        0
    } else {
        spec_overshoot_score(writes as int, cfg.mass_write_threshold as int)
    }
}

/// Flags processes that rewrite files in bulk.
pub struct MassWriteDetector {
    pub config: DetectorConfig,
}

impl MassWriteDetector {
    pub fn new(config: &DetectorConfig) -> (d: MassWriteDetector)
        ensures
            d.config.equiv(config),
            d.config.wf() == config.wf(),
    {
        MassWriteDetector { config: config.duplicate() }
    }
}

/// The capped overshoot of `count` past `threshold`, in millionths.
pub fn overshoot_score(count: u64, threshold: u64) -> (s: u32)
    requires
        threshold >= 1,
    ensures
        s as int == spec_overshoot_score(count as int, threshold as int),
        s <= SCORE_ONE,
{
    if count >= threshold {
        let excess = count - threshold;
        proof {
            let ew = excess as u128;
            assert(ew * (SCORE_ONE as u128) <= 0xFFFF_FFFF_FFFF_FFFFu128 * 1000000u128)
                by (nonlinear_arith)
                requires ew <= 0xFFFF_FFFF_FFFF_FFFFu128 && (SCORE_ONE as u128) == 1000000u128;
        }
        let raw: u128 = (excess as u128) * (SCORE_ONE as u128) / (threshold as u128);
        if raw > SCORE_ONE as u128 {
            SCORE_ONE
        } else {
            raw as u32
        }
    } else {
        0
    }
}

impl Detector for MassWriteDetector {
    open spec fn wf(&self) -> bool {
        self.config.wf()
    }

    fn name(&self) -> (n: &'static str)
        ensures
            n@ == "MassWriteDetector"@,
    {
        "MassWriteDetector"
    }

    fn analyze(&self, event: &FileEvent, stats: &ProcessStats) -> (s: u32)
        ensures
            s as int == spec_mass_write_score(self.config, *event, stats.file_writes, stats.last_update),
    {
        if event.event_type != EventType::FileWrite {
            return 0;
        }
        let window = self.config.mass_write_window_seconds;
        if (stats.last_update as i128) < (event.timestamp as i128) - (window as i128) {
            return 0;
        }
        overshoot_score(stats.file_writes, self.config.mass_write_threshold)
    }
}

} // verus!
