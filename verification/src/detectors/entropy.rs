//! The entropy-spike detector.

use vstd::prelude::*;
use crate::SCORE_ONE;
use crate::config::DetectorConfig;
use crate::detectors::Detector;
use crate::events::{EventType, FileEvent};
use crate::shannon::{shannon_entropy, spec_entropy};
use crate::stats::{ProcessStats, ENTROPY_SAMPLE_CAP};

verus! {

/// The sum of a sequence of samples.
pub open spec fn sum_seq(s: Seq<u32>) -> int
    decreases s.len(),
{
    if s.len() == 0 {
        0
    } else {
        sum_seq(s.drop_last()) + s.last()
    }
}

/// The floor mean of a non-empty sequence of samples.
pub open spec fn spec_avg(s: Seq<u32>) -> int {
    sum_seq(s) / s.len() as int
}

/// On a write with a non-empty payload preview: full score when the
/// preview's entropy both spikes more than 0.3 above the mean of the
/// recorded samples (two or more) and clears the entropy threshold; the
/// entropy itself when it only clears the threshold; zero otherwise.
pub open spec fn spec_entropy_analyze(cfg: DetectorConfig, ev: FileEvent, samples: Seq<u32>) -> int {
    if ev.event_type != EventType::FileWrite {
        0
    } else if ev.entropy_preview@.len() == 0 {
        0
    } else {
        let e = spec_entropy(ev.entropy_preview@);
        if samples.len() >= 2 && e > spec_avg(samples) + 300_000 && e > cfg.entropy_threshold {
            SCORE_ONE as int
        } else if e > cfg.entropy_threshold {
            e
        } else {
            0
        }
    }
}

/// Flags writes whose payload suddenly looks much more random than the
/// process's recent writes.
pub struct EntropyDetector {
    pub config: DetectorConfig,
}

impl EntropyDetector {
    pub fn new(config: &DetectorConfig) -> (d: EntropyDetector)
        ensures
            d.config.equiv(config),
            d.config.wf() == config.wf(),
    {
        EntropyDetector { config: config.duplicate() }
    }

    /// The normalized Shannon entropy of a buffer, in millionths.
    pub fn calculate_shannon_entropy(&self, data: &[u8]) -> (e: u32)
        ensures
            e as int == spec_entropy(data@),
            e <= SCORE_ONE,
    {
        shannon_entropy(data)
    }
}

/// The floor mean of the recorded samples.
fn mean_samples(samples: &Vec<u32>) -> (avg: u32)
    requires
        1 <= samples@.len() <= ENTROPY_SAMPLE_CAP,
        forall|i: int| 0 <= i < samples@.len() ==> #[trigger] samples@[i] <= SCORE_ONE,
    ensures
        avg as int == spec_avg(samples@),
        avg <= SCORE_ONE,
{
    let n = samples.len();
    let mut sum: u64 = 0;
    for i in 0..n
        invariant
            n == samples@.len(),
            1 <= n <= ENTROPY_SAMPLE_CAP,
            forall|j: int| 0 <= j < n ==> #[trigger] samples@[j] <= SCORE_ONE,
            sum == sum_seq(samples@.subrange(0, i as int)),
            sum <= i * 1_000_000,
    {
        proof {
            assert(samples@.subrange(0, i + 1).drop_last() =~= samples@.subrange(0, i as int));
            assert(samples@[i as int] <= 1_000_000);
        }
        sum = sum + samples[i] as u64;
    }
    proof {
        assert(samples@.subrange(0, n as int) =~= samples@);
        assert(sum_seq(samples@) >= 0) by {
            lemma_sum_seq_bounds(samples@);
        }
        assert(sum as int / n as int <= SCORE_ONE as int) by {
            lemma_sum_seq_bounds(samples@);
            vstd::arithmetic::div_mod::lemma_multiply_divide_le(
                sum as int,
                n as int,
                SCORE_ONE as int,
            );
            vstd::arithmetic::mul::lemma_mul_is_commutative(n as int, SCORE_ONE as int);
        }
        vstd::arithmetic::div_mod::lemma_div_pos_is_pos(sum as int, n as int);
    }
    (sum / n as u64) as u32
}

/// A sequence of valid samples sums to something between zero and the
/// length times the top score.
proof fn lemma_sum_seq_bounds(s: Seq<u32>)
    requires
        forall|i: int| 0 <= i < s.len() ==> #[trigger] s[i] <= SCORE_ONE,
    ensures
        0 <= sum_seq(s) <= s.len() * (SCORE_ONE as int),
    decreases s.len(),
{
    if s.len() == 0 {
    } else {
        assert forall|i: int| 0 <= i < s.len() - 1 implies #[trigger] s.drop_last()[i]
            <= SCORE_ONE by {
            assert(s.drop_last()[i] == s[i]);
        }
        lemma_sum_seq_bounds(s.drop_last());
        assert((s.len() - 1) * (SCORE_ONE as int) + (SCORE_ONE as int) == s.len() * (
        SCORE_ONE as int)) by (nonlinear_arith);
    }
}

impl Detector for EntropyDetector {
    open spec fn wf(&self) -> bool {
        self.config.wf()
    }

    fn name(&self) -> (n: &'static str)
        ensures
            n@ == "EntropyDetector"@,
    {
        "EntropyDetector"
    }

    fn analyze(&self, event: &FileEvent, stats: &ProcessStats) -> (s: u32)
        ensures
            s as int == spec_entropy_analyze(self.config, *event, stats.entropy_samples@),
    {
        if event.event_type != EventType::FileWrite {
            return 0;
        }
        if event.entropy_preview.len() == 0 {
            return 0;
        }
        let e = shannon_entropy(event.entropy_preview.as_slice());
        if stats.entropy_samples.len() >= 2 {
            let avg = mean_samples(&stats.entropy_samples);
            if (e as u64) > (avg as u64) + 300_000 && e > self.config.entropy_threshold {
                return SCORE_ONE;
            }
        }
        if e > self.config.entropy_threshold {
            return e;
        }
        0
    }
}

} // verus!
