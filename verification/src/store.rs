//! The shared per-process statistics store.
//!
//! The store is the one piece of state that the pipeline mutates: a sharded
//! concurrent map from PID to [`ProcessStats`].  The map itself comes from
//! the `dashmap` crate and is held behind a small trusted surface; its
//! contents are modelled as a ghost [`Map`] from PID to the plain values of
//! the accumulator, and everything computed over the contents is verified.

use vstd::prelude::*;
use crate::stats::ProcessStats;

verus! {

/// The plain values of one accumulator: write, rename and delete counters,
/// total bytes written, the entropy sample ring, and the last-update stamp.
pub open spec fn stats_view(s: ProcessStats) -> (u64, u64, u64, u64, Seq<u32>, i64) {
    (
        s.file_writes,
        s.file_renames,
        s.file_deletes,
        s.total_bytes_written,
        s.entropy_samples@,
        s.last_update,
    )
}

/// The per-process store owned by the detector pipeline, backed by a
/// sharded concurrent map.
#[verifier::external_body]
pub struct StatsStore {
    inner: dashmap::DashMap<u32, ProcessStats>,
}

/// What the store holds, keyed by PID.
pub uninterp spec fn stats_contents(m: StatsStore) -> Map<u32, (u64, u64, u64, u64, Seq<u32>, i64)>;

/// The contents of a store that tracks no process.
pub open spec fn stats_empty() -> Map<u32, (u64, u64, u64, u64, Seq<u32>, i64)> {
    Map::empty()
}

impl StatsStore {
    /// What the store holds, keyed by PID.
    pub open spec fn contents(&self) -> Map<u32, (u64, u64, u64, u64, Seq<u32>, i64)> {
        stats_contents(*self)
    }

    /// Relies on dashmap::DashMap::new: a fresh map is empty.
    #[verifier::external_body]
    pub fn new() -> (s: StatsStore)
        ensures
            stats_contents(s) == stats_empty(),
    {
        StatsStore { inner: dashmap::DashMap::new() }
    }

    /// Relies on dashmap::DashMap::get: the value stored under the key, if
    /// any, here handed out as a clone.
    #[verifier::external_body]
    pub fn get(&self, pid: u32) -> (r: Option<ProcessStats>)
        ensures
            match r {
                Some(s) => stats_contents(*self).contains_key(pid) && stats_view(s)
                    == stats_contents(*self)[pid],
                None => !stats_contents(*self).contains_key(pid),
            },
    {
        self.inner.get(&pid).map(|entry| entry.value().clone())
    }

    /// Relies on dashmap::DashMap::insert: the key now maps to the given
    /// value and every other key is untouched.
    #[verifier::external_body]
    pub fn put(&mut self, pid: u32, s: ProcessStats)
        ensures
            stats_contents(*final(self)) == stats_contents(*old(self)).insert(
                pid,
                stats_view(s),
            ),
    {
        self.inner.insert(pid, s);
    }

    /// Relies on dashmap::DashMap::remove: the key is gone and every
    /// other key is untouched.
    #[verifier::external_body]
    pub fn remove(&mut self, pid: u32)
        ensures
            stats_contents(*final(self)) == stats_contents(*old(self)).remove(pid),
    {
        self.inner.remove(&pid);
    }

    /// Relies on dashmap::DashMap::iter: every entry is yielded exactly
    /// once, in no promised order.
    #[verifier::external_body]
    pub fn entries(&self) -> (r: Vec<(u32, ProcessStats)>)
        ensures
            forall|i: int|
                0 <= i < r@.len() ==> stats_contents(*self).contains_key(#[trigger] r@[i].0)
                    && stats_view(r@[i].1) == stats_contents(*self)[r@[i].0],
            forall|i: int, j: int| 0 <= i < j < r@.len() ==> r@[i].0 != r@[j].0,
            forall|k: u32|
                stats_contents(*self).contains_key(k) ==> exists|i: int|
                    0 <= i < r@.len() && (#[trigger] r@[i]).0 == k,
    {
        self.inner.iter().map(|entry| (*entry.key(), entry.value().clone())).collect()
    }
}

} // verus!
