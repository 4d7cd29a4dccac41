//! The correlation engine: feature assembly, classifier output
//! interpretation, and the deterministic fallback.
//!
//! The engine itself does not run the classifier: model inference is an
//! outside effect that the host program performs.  The engine assembles
//! the feature vector handed to the model, interprets whatever the model
//! returned — handed in as fixed-point millionths — and falls back to a
//! fixed weighted average of the detector scores whenever there is no
//! usable model output.  A failed inference therefore never propagates:
//! every path ends in a score.

use vstd::prelude::*;
use crate::SCORE_ONE;
use crate::detectors::DetectorScores;

verus! {

/// The width of the model's feature vector.
pub const FEATURE_COUNT: usize = 15;

/// The feature vector of one score snapshot, in millionths: the seven
/// detector scores, an event-rate placeholder, doubled entropy, the
/// rename/delete score scaled by ten, a constant burst-interval
/// placeholder of one, three more placeholders, and the mass-write score
/// scaled by a thousand.
pub open spec fn spec_features(s: DetectorScores) -> Seq<u64> {
    seq![
        s.entropy_score as u64,
        s.mass_write_score as u64,
        s.mass_rename_delete_score as u64,
        s.ransom_note_score as u64,
        s.shadow_copy_score as u64,
        s.process_behavior_score as u64,
        s.file_extension_score as u64,
        0u64,
        (2 * s.entropy_score) as u64,
        (10 * s.mass_rename_delete_score) as u64,
        SCORE_ONE as u64,
        0u64,
        0u64,
        (1000 * s.mass_write_score) as u64,
        0u64,
    ]
}

/// The fallback score: the weighted average of the seven detector scores
/// with weights 0.20, 0.25, 0.20, 0.15, 0.10, 0.05 and 0.05, which sum to
/// one.
pub open spec fn spec_fallback(s: DetectorScores) -> int {
    (200_000 * s.entropy_score + 250_000 * s.mass_write_score + 200_000
        * s.mass_rename_delete_score + 150_000 * s.ransom_note_score + 100_000
        * s.shadow_copy_score + 50_000 * s.process_behavior_score + 50_000
        * s.file_extension_score) / (SCORE_ONE as int)
}

/// What a raw model output means: nothing when the output is empty;
/// otherwise the positive-class entry — index one when there are two or
/// more values, else index zero — clamped into `0 ..= SCORE_ONE`.
pub open spec fn spec_interpret_output(out: Seq<i64>) -> Option<u32> {
    if out.len() == 0 {
        None
    } else {
        let v = if out.len() >= 2 {
            out[1]
        } else {
            out[0]
        };
        if v < 0 {
            Some(0u32)
        } else if v > SCORE_ONE as i64 {
            Some(SCORE_ONE)
        } else {
            Some(v as u32)
        }
    }
}

/// The fused risk score: the interpreted model output when there is one,
/// and the weighted fallback otherwise.
pub open spec fn spec_infer(s: DetectorScores, model_out: Option<Seq<i64>>) -> int {
    match model_out {
        Some(o) => match spec_interpret_output(o) {
            Some(v) => v as int,
            None => spec_fallback(s),
        },
        None => spec_fallback(s),
    }
}

/// Fuses the seven detector scores into one risk value.
pub struct CorrelationEngine {
    /// The feature width the loaded model expects.
    pub feature_count: usize,
}

impl CorrelationEngine {
    /// An engine for the fixed feature width.
    pub fn new() -> (e: CorrelationEngine)
        ensures
            e.feature_count == FEATURE_COUNT,
    {
        CorrelationEngine { feature_count: FEATURE_COUNT }
    }

    /// Assembles the feature vector of a snapshot: always exactly
    /// `FEATURE_COUNT` entries, in the fixed order.
    pub fn build_features(&self, scores: &DetectorScores) -> (f: Vec<u64>)
        requires
            scores.wf(),
        ensures
            f@ == spec_features(*scores),
            f@.len() == FEATURE_COUNT,
    {
        let mut f: Vec<u64> = Vec::new();
        f.push(scores.entropy_score as u64);
        f.push(scores.mass_write_score as u64);
        f.push(scores.mass_rename_delete_score as u64);
        f.push(scores.ransom_note_score as u64);
        f.push(scores.shadow_copy_score as u64);
        f.push(scores.process_behavior_score as u64);
        f.push(scores.file_extension_score as u64);
        f.push(0);
        f.push(2 * (scores.entropy_score as u64));
        f.push(10 * (scores.mass_rename_delete_score as u64));
        f.push(SCORE_ONE as u64);
        f.push(0);
        f.push(0);
        f.push(1000 * (scores.mass_write_score as u64));
        f.push(0);
        proof {
            assert(f@ =~= spec_features(*scores));
        }
        f
    }

    /// The weighted-average fallback over the seven detector scores.
    pub fn fallback_score(&self, scores: &DetectorScores) -> (ml: u32)
        requires
            scores.wf(),
        ensures
            ml as int == spec_fallback(*scores),
            ml <= SCORE_ONE,
    {
        let sum: u64 = 200_000 * (scores.entropy_score as u64) + 250_000 * (
        scores.mass_write_score as u64) + 200_000 * (scores.mass_rename_delete_score as u64)
            + 150_000 * (scores.ransom_note_score as u64) + 100_000 * (
        scores.shadow_copy_score as u64) + 50_000 * (scores.process_behavior_score as u64) + 50_000
            * (scores.file_extension_score as u64);
        let ml = sum / (SCORE_ONE as u64);
        proof {
            assert(sum <= 1_000_000_000_000u64);
            assert(sum / 1_000_000u64 <= 1_000_000u64);
        }
        ml as u32
    }

    /// Reads a raw model output: the positive-class entry clamped to a
    /// score, or nothing when the model returned no values.
    pub fn interpret_model_output(&self, out: &Vec<i64>) -> (r: Option<u32>)
        ensures
            r == spec_interpret_output(out@),
            (match r {
                Some(v) => v <= SCORE_ONE,
                None => true,
            }),
    {
        if out.len() == 0 {
            return None;
        }
        let v: i64 = if out.len() >= 2 {
            out[1]
        } else {
            out[0]
        };
        if v < 0 {
            Some(0)
        } else if v > SCORE_ONE as i64 {
            Some(SCORE_ONE)
        } else {
            Some(v as u32)
        }
    }

    /// Fuses one snapshot with whatever the classifier produced: the
    /// clamped model output when one is there, the weighted fallback when
    /// the model is absent or its output is empty.
    pub fn infer(&self, scores: &DetectorScores, model_out: Option<&Vec<i64>>) -> (ml: u32)
        requires
            scores.wf(),
        ensures
            ml as int == spec_infer(
                *scores,
                match model_out {
                    Some(o) => Some(o@),
                    None => None,
                },
            ),
            ml <= SCORE_ONE,
    {
        match model_out {
            Some(o) => match self.interpret_model_output(o) {
                Some(v) => v,
                None => self.fallback_score(scores),
            },
            None => self.fallback_score(scores),
        }
    }
}

} // verus!
