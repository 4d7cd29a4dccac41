//! Per-process activity statistics.

use vstd::prelude::*;
use crate::SCORE_ONE;
use crate::events::{EventType, FileEvent};
use crate::shannon::{shannon_entropy, spec_entropy};

verus! {

/// How many recent entropy samples are kept per process.
pub const ENTROPY_SAMPLE_CAP: usize = 64;

/// The per-PID accumulator: counters, recent entropy samples, and the
/// timestamp of the last event applied.
#[derive(Clone, Debug)]
pub struct ProcessStats {
    pub file_writes: u64,
    pub file_renames: u64,
    pub file_deletes: u64,
    pub total_bytes_written: u64,
    /// Recent normalized entropy values in millionths, oldest first.
    pub entropy_samples: Vec<u32>,
    pub last_update: i64,
}

/// Saturating 64-bit addition: counters stick at the top instead of
/// wrapping.
pub open spec fn sat_add(a: u64, b: u64) -> u64 {
    if a + b > u64::MAX {
        u64::MAX
    } else {
        (a + b) as u64
    }
}

/// The sample ring after pushing `e`: bounded FIFO with the oldest value
/// evicted at the cap.
pub open spec fn spec_push_sample(samples: Seq<u32>, e: u32) -> Seq<u32> {
    if samples.len() >= ENTROPY_SAMPLE_CAP {
        samples.drop_first().push(e)
    } else {
        samples.push(e)
    }
}

impl ProcessStats {
    /// Bounded ring of valid scores.
    pub open spec fn wf(&self) -> bool {
        &&& self.entropy_samples@.len() <= ENTROPY_SAMPLE_CAP
        &&& forall|i: int|
            0 <= i < self.entropy_samples@.len() ==> #[trigger] self.entropy_samples@[i]
                <= SCORE_ONE
    }

    /// A fresh accumulator, created on the first event of a PID.
    pub fn new(timestamp: i64) -> (s: ProcessStats)
        ensures
            s.wf(),
            s.file_writes == 0,
            s.file_renames == 0,
            s.file_deletes == 0,
            s.total_bytes_written == 0,
            s.entropy_samples@ == Seq::<u32>::empty(),
            s.last_update == timestamp,
    {
        ProcessStats {
            file_writes: 0,
            file_renames: 0,
            file_deletes: 0,
            total_bytes_written: 0,
            entropy_samples: Vec::new(),
            last_update: timestamp,
        }
    }

    /// Applies one event: the counter of the event's kind moves up exactly
    /// once (saturating at the type bound), a write's non-empty entropy
    /// preview adds one sample to the ring, and the last-update stamp
    /// follows the event.  Events of other kinds leave the accumulators
    /// alone.
    pub fn apply_event(&mut self, event: &FileEvent)
        requires
            old(self).wf(),
        ensures
            final(self).wf(),
            final(self).last_update == event.timestamp,
            final(self).file_writes == if event.event_type == EventType::FileWrite {
                sat_add(old(self).file_writes, 1)
            } else {
                old(self).file_writes
            },
            final(self).file_renames == if event.event_type == EventType::FileRename {
                sat_add(old(self).file_renames, 1)
            } else {
                old(self).file_renames
            },
            final(self).file_deletes == if event.event_type == EventType::FileDelete {
                sat_add(old(self).file_deletes, 1)
            } else {
                old(self).file_deletes
            },
            final(self).total_bytes_written == if event.event_type == EventType::FileWrite {
                sat_add(old(self).total_bytes_written, event.bytes_written)
            } else {
                old(self).total_bytes_written
            },
            final(self).entropy_samples@ == if event.event_type == EventType::FileWrite
                && event.entropy_preview@.len() > 0 {
                spec_push_sample(
                    old(self).entropy_samples@,
                    spec_entropy(event.entropy_preview@) as u32,
                )
            } else {
                old(self).entropy_samples@
            },
    {
        match event.event_type {
            EventType::FileWrite => {
                self.file_writes = saturating_add_u64(self.file_writes, 1);
                self.total_bytes_written = saturating_add_u64(
                    self.total_bytes_written,
                    event.bytes_written,
                );
                if event.entropy_preview.len() > 0 {
                    let e = shannon_entropy(event.entropy_preview.as_slice());
                    self.push_sample(e);
                }
            },
            EventType::FileRename => {
                self.file_renames = saturating_add_u64(self.file_renames, 1);
            },
            EventType::FileDelete => {
                self.file_deletes = saturating_add_u64(self.file_deletes, 1);
            },
            _ => {},
        }
        self.last_update = event.timestamp;
    }

    /// Pushes one entropy sample into the bounded FIFO ring.
    fn push_sample(&mut self, e: u32)
        requires
            old(self).wf(),
            e <= SCORE_ONE,
        ensures
            final(self).wf(),
            final(self).entropy_samples@ == spec_push_sample(old(self).entropy_samples@, e),
            final(self).file_writes == old(self).file_writes,
            final(self).file_renames == old(self).file_renames,
            final(self).file_deletes == old(self).file_deletes,
            final(self).total_bytes_written == old(self).total_bytes_written,
            final(self).last_update == old(self).last_update,
    {
        if self.entropy_samples.len() >= ENTROPY_SAMPLE_CAP {
            self.entropy_samples.remove(0);
        }
        self.entropy_samples.push(e);
        proof {
            assert(self.entropy_samples@ =~= spec_push_sample(old(self).entropy_samples@, e));
        }
    }
}

/// `a + b`, sticking at `u64::MAX` instead of wrapping.
pub fn saturating_add_u64(a: u64, b: u64) -> (r: u64)
    ensures
        r == sat_add(a, b),
{
    if a <= u64::MAX - b {
        a + b
    } else {
        u64::MAX
    }
}

} // verus!
