//! The ransom-note detector.

use vstd::prelude::*;
use vstd::string::StrSliceExecFns;
use vstd::utf8::encode_utf8;
use crate::SCORE_ONE;
use crate::config::DetectorConfig;
use crate::detectors::Detector;
use crate::events::FileEvent;
use crate::stats::ProcessStats;
use crate::text::{contains_bytes, is_substring_of, spec_upper, to_upper_bytes};

verus! {

/// Some configured pattern occurs in `text`, compared ASCII
/// case-insensitively on the UTF-8 bytes.  An empty pattern matches every
/// text.
pub open spec fn spec_matches_any(patterns: Seq<String>, text: Seq<char>) -> bool {
    exists|i: int|
        0 <= i < patterns.len() && is_substring_of(
            spec_upper(encode_utf8((#[trigger] patterns[i])@)),
            spec_upper(encode_utf8(text)),
        )
}

/// A file path that holds a ransom-note pattern scores full; otherwise a
/// matching process path scores 0.8; anything else scores zero.
pub open spec fn spec_ransom_note_score(patterns: Seq<String>, ev: FileEvent) -> int {
    if spec_matches_any(patterns, ev.file_path@) {
        SCORE_ONE as int
    } else if spec_matches_any(patterns, ev.process_path@) {
        800_000
    } else {
        0
    }
}

/// Flags paths that look like the note a ransomware drops for its victim.
pub struct RansomNoteDetector {
    pub config: DetectorConfig,
}

impl RansomNoteDetector {
    pub fn new(config: &DetectorConfig) -> (d: RansomNoteDetector)
        ensures
            d.config.equiv(config),
    {
        RansomNoteDetector { config: config.duplicate() }
    }

    /// Whether any configured pattern occurs in `text`, ASCII
    /// case-insensitively.
    pub fn check_patterns(&self, text: &str) -> (r: bool)
        ensures
            r == spec_matches_any(self.config.ransom_note_patterns@, text@),
    {
        let tb = text.as_bytes_vec();
        let up_text = to_upper_bytes(tb.as_slice());
        let n = self.config.ransom_note_patterns.len();
        for i in 0..n
            invariant
                n == self.config.ransom_note_patterns@.len(),
                up_text@ == spec_upper(encode_utf8(text@)),
                forall|j: int|
                    0 <= j < i ==> !is_substring_of(
                        spec_upper(encode_utf8((#[trigger] self.config.ransom_note_patterns@[j])@)),
                        spec_upper(encode_utf8(text@)),
                    ),
        {
            let pb = self.config.ransom_note_patterns[i].as_str().as_bytes_vec();
            let up_pat = to_upper_bytes(pb.as_slice());
            if contains_bytes(up_text.as_slice(), up_pat.as_slice()) {
                return true;
            }
        }
        false
    }
}

impl Detector for RansomNoteDetector {
    open spec fn wf(&self) -> bool {
        true
    }

    fn name(&self) -> (n: &'static str)
        ensures
            n@ == "RansomNoteDetector"@,
    {
        "RansomNoteDetector"
    }

    fn analyze(&self, event: &FileEvent, stats: &ProcessStats) -> (s: u32)
        ensures
            s as int == spec_ransom_note_score(self.config.ransom_note_patterns@, *event),
    {
        if self.check_patterns(event.file_path.as_str()) {
            return SCORE_ONE;
        }
        if self.check_patterns(event.process_path.as_str()) {
            return 800_000;
        }
        0
    }
}

} // verus!
