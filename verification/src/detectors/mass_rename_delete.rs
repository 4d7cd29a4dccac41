//! The mass-rename/delete detector.

use vstd::prelude::*;
use crate::config::DetectorConfig;
use crate::detectors::mass_write::{overshoot_score, spec_overshoot_score};
use crate::detectors::Detector;
use crate::events::{EventType, FileEvent};
use crate::stats::{sat_add, saturating_add_u64, ProcessStats};

verus! {

/// On a rename or delete event inside the configured window, the combined
/// rename and delete count is scored against the rename/delete threshold;
/// a stale window or another event kind scores zero.
pub open spec fn spec_mass_rename_delete_score(
    cfg: DetectorConfig,
    ev: FileEvent,
    renames: u64,
    deletes: u64,
    last_update: i64,
) -> int {
    if ev.event_type != EventType::FileRename && ev.event_type != EventType::FileDelete {
        0
    } else if last_update < ev.timestamp - cfg.rename_delete_window_seconds {
        0
    } else {
        spec_overshoot_score(sat_add(renames, deletes) as int, cfg.rename_delete_threshold as int)
    }
}

/// Flags processes that rename or delete files in bulk.
pub struct MassRenameDeleteDetector {
    pub config: DetectorConfig,
}

impl MassRenameDeleteDetector {
    pub fn new(config: &DetectorConfig) -> (d: MassRenameDeleteDetector)
        ensures
            d.config.equiv(config),
            d.config.wf() == config.wf(),
    {
        MassRenameDeleteDetector { config: config.duplicate() }
    }
}

impl Detector for MassRenameDeleteDetector {
    open spec fn wf(&self) -> bool {
        self.config.wf()
    }

    fn name(&self) -> (n: &'static str)
        ensures
            n@ == "MassRenameDeleteDetector"@,
    {
        "MassRenameDeleteDetector"
    }

    fn analyze(&self, event: &FileEvent, stats: &ProcessStats) -> (s: u32)
        ensures
            s as int == spec_mass_rename_delete_score(self.config, *event, stats.file_renames, stats.file_deletes, stats.last_update),
    {
        let is_rename = event.event_type == EventType::FileRename;
        let is_delete = event.event_type == EventType::FileDelete;
        if !is_rename && !is_delete {
            return 0;
        }
        let window = self.config.rename_delete_window_seconds;
        if (stats.last_update as i128) < (event.timestamp as i128) - (window as i128) {
            return 0;
        }
        let total_ops = saturating_add_u64(stats.file_renames, stats.file_deletes);
        overshoot_score(total_ops, self.config.rename_delete_threshold)
    }
}

} // verus!
