//! The shadow-copy deletion detector.

use vstd::prelude::*;
use vstd::string::StrSliceExecFns;
use vstd::utf8::encode_utf8;
use crate::SCORE_ONE;
use crate::config::DetectorConfig;
use crate::detectors::Detector;
use crate::events::{EventType, FileEvent};
use crate::stats::ProcessStats;
use crate::text::{contains_bytes, is_substring_of, spec_lower, to_lower_bytes};

verus! {

/// A volume-shadow-copy deletion event, or a process path that names one
/// of the shadow-copy administration tools, scores full; anything else
/// scores zero.  The path match is an ASCII case-insensitive substring
/// match on the UTF-8 bytes.
pub open spec fn spec_shadow_copy_score(ev: FileEvent) -> int {
    if ev.event_type == EventType::VSSDelete {
        SCORE_ONE as int
    } else {
        let lp = spec_lower(encode_utf8(ev.process_path@));
        if is_substring_of(encode_utf8("vssadmin"@), lp) || is_substring_of(
            encode_utf8("wmic"@),
            lp,
        ) || is_substring_of(encode_utf8("shadowcopy"@), lp) {
            SCORE_ONE as int
        } else {
            0
        }
    }
}

/// Flags bulk deletion of operating-system snapshots, a strong ransomware
/// signal.
pub struct ShadowCopyDetector {
    pub config: DetectorConfig,
}

impl ShadowCopyDetector {
    pub fn new(config: &DetectorConfig) -> (d: ShadowCopyDetector)
        ensures
            d.config.equiv(config),
    {
        ShadowCopyDetector { config: config.duplicate() }
    }
}

impl Detector for ShadowCopyDetector {
    open spec fn wf(&self) -> bool {
        true
    }

    fn name(&self) -> (n: &'static str)
        ensures
            n@ == "ShadowCopyDetector"@,
    {
        "ShadowCopyDetector"
    }

    fn analyze(&self, event: &FileEvent, stats: &ProcessStats) -> (s: u32)
        ensures
            s as int == spec_shadow_copy_score(*event),
    {
        if event.event_type == EventType::VSSDelete {
            return SCORE_ONE;
        }
        let pb = event.process_path.as_str().as_bytes_vec();
        let lp = to_lower_bytes(pb.as_slice());
        let hit = contains_bytes(lp.as_slice(), "vssadmin".as_bytes_vec().as_slice())
            || contains_bytes(lp.as_slice(), "wmic".as_bytes_vec().as_slice())
            || contains_bytes(lp.as_slice(), "shadowcopy".as_bytes_vec().as_slice());
        if hit {
            SCORE_ONE
        } else {
            0
        }
    }
}

} // verus!
