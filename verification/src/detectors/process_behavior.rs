//! The process-behavior detector.

use vstd::prelude::*;
use vstd::string::StrSliceExecFns;
use vstd::utf8::encode_utf8;
use crate::config::DetectorConfig;
use crate::detectors::Detector;
use crate::events::FileEvent;
use crate::stats::ProcessStats;
use crate::text::{
    contains_bytes,
    ends_with_bytes,
    is_substring_of,
    is_suffix_of,
    spec_lower,
    to_lower_bytes,
};

verus! {

/// A process running out of a temporary or download directory scores 0.3;
/// otherwise an executable outside the usual program directories scores
/// 0.2; anything else scores zero.  All matching is ASCII
/// case-insensitive on the UTF-8 bytes of the process path.
pub open spec fn spec_process_behavior_score(ev: FileEvent) -> int {
    let lp = spec_lower(encode_utf8(ev.process_path@));
    if is_substring_of(encode_utf8("temp"@), lp) || is_substring_of(
        encode_utf8("appdata\\local\\temp"@),
        lp,
    ) || is_substring_of(encode_utf8("downloads"@), lp) {
        300_000
    } else if is_suffix_of(encode_utf8(".exe"@), lp) && !is_substring_of(
        encode_utf8("program files"@),
        lp,
    ) && !is_substring_of(encode_utf8("windows\\system32"@), lp) {
        200_000
    } else {
        0
    }
}

/// Flags processes whose location on disk is itself suspicious.
pub struct ProcessBehaviorDetector {
    pub config: DetectorConfig,
}

impl ProcessBehaviorDetector {
    pub fn new(config: &DetectorConfig) -> (d: ProcessBehaviorDetector)
        ensures
            d.config.equiv(config),
    {
        ProcessBehaviorDetector { config: config.duplicate() }
    }
}

impl Detector for ProcessBehaviorDetector {
    open spec fn wf(&self) -> bool {
        true
    }

    fn name(&self) -> (n: &'static str)
        ensures
            n@ == "ProcessBehaviorDetector"@,
    {
        "ProcessBehaviorDetector"
    }

    fn analyze(&self, event: &FileEvent, stats: &ProcessStats) -> (s: u32)
        ensures
            s as int == spec_process_behavior_score(*event),
    {
        let pb = event.process_path.as_str().as_bytes_vec();
        let lp = to_lower_bytes(pb.as_slice());
        if contains_bytes(lp.as_slice(), "temp".as_bytes_vec().as_slice()) || contains_bytes(
            lp.as_slice(),
            "appdata\\local\\temp".as_bytes_vec().as_slice(),
        ) || contains_bytes(lp.as_slice(), "downloads".as_bytes_vec().as_slice()) {
            return 300_000;
        }
        if ends_with_bytes(lp.as_slice(), ".exe".as_bytes_vec().as_slice()) {
            if !contains_bytes(lp.as_slice(), "program files".as_bytes_vec().as_slice())
                && !contains_bytes(lp.as_slice(), "windows\\system32".as_bytes_vec().as_slice()) {
                return 200_000;
            }
        }
        0
    }
}

} // verus!
