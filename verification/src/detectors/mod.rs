//! The seven heuristic detectors and their manager.
//!
//! Every detector scores one event against the accumulated statistics of
//! the event's process and returns a fixed-point score in
//! `0 ..= SCORE_ONE`.  The manager owns the per-process store, feeds every
//! event through it, runs all detectors, and remembers the latest scores
//! per PID for the aggregation step.

pub mod entropy;
pub mod mass_write;
pub mod mass_rename_delete;
pub mod ransom_note;
pub mod shadow_copy;
pub mod process_behavior;
pub mod file_extension;

use vstd::prelude::*;
use crate::SCORE_ONE;
use crate::config::Config;
use crate::events::{EventType, FileEvent};
use crate::stats::ProcessStats;
use crate::store::{stats_view, StatsStore};

verus! {

/// The uniform detector interface: a name, and a pure scoring function of
/// the event and the process statistics.
pub trait Detector: Sized {
    /// The precondition a detector asks of its own configuration.
    spec fn wf(&self) -> bool;

    /// The detector's display name.
    fn name(&self) -> (n: &'static str);

    /// Scores one event; every score is a fixed-point value in
    /// `0 ..= SCORE_ONE`.
    fn analyze(&self, event: &FileEvent, stats: &ProcessStats) -> (s: u32)
        requires
            self.wf(),
            stats.wf(),
        ensures
            s <= SCORE_ONE,
    ;
}

/// The most recent score of each detector for one PID.
#[derive(Clone, Copy, Debug)]
pub struct ScoreSet {
    pub entropy: u32,
    pub mass_write: u32,
    pub mass_rename_delete: u32,
    pub ransom_note: u32,
    pub shadow_copy: u32,
    pub process_behavior: u32,
    pub file_extension: u32,
}

impl ScoreSet {
    pub open spec fn wf(&self) -> bool {
        &&& self.entropy <= SCORE_ONE
        &&& self.mass_write <= SCORE_ONE
        &&& self.mass_rename_delete <= SCORE_ONE
        &&& self.ransom_note <= SCORE_ONE
        &&& self.shadow_copy <= SCORE_ONE
        &&& self.process_behavior <= SCORE_ONE
        &&& self.file_extension <= SCORE_ONE
    }

    /// All-zero scores, used for untracked processes.
    pub fn zero() -> (s: ScoreSet)
        ensures
            s.wf(),
            s.entropy == 0 && s.mass_write == 0 && s.mass_rename_delete == 0,
            s.ransom_note == 0 && s.shadow_copy == 0 && s.process_behavior == 0,
            s.file_extension == 0,
    {
        ScoreSet {
            entropy: 0,
            mass_write: 0,
            mass_rename_delete: 0,
            ransom_note: 0,
            shadow_copy: 0,
            process_behavior: 0,
            file_extension: 0,
        }
    }
}

/// A per-PID snapshot of the seven detector scores, never mutated after it
/// is produced.
#[derive(Clone, Debug)]
pub struct DetectorScores {
    pub process_id: u32,
    pub entropy_score: u32,
    pub mass_write_score: u32,
    pub mass_rename_delete_score: u32,
    pub ransom_note_score: u32,
    pub shadow_copy_score: u32,
    pub process_behavior_score: u32,
    pub file_extension_score: u32,
    pub timestamp: i64,
}

impl DetectorScores {
    pub open spec fn wf(&self) -> bool {
        &&& self.entropy_score <= SCORE_ONE
        &&& self.mass_write_score <= SCORE_ONE
        &&& self.mass_rename_delete_score <= SCORE_ONE
        &&& self.ransom_note_score <= SCORE_ONE
        &&& self.shadow_copy_score <= SCORE_ONE
        &&& self.process_behavior_score <= SCORE_ONE
        &&& self.file_extension_score <= SCORE_ONE
    }
}

/// The latest recorded scores for `pid` in the score book, youngest entry
/// first from the back.
pub open spec fn book_lookup(book: Seq<(u32, ScoreSet)>, pid: u32) -> Option<ScoreSet>
    decreases book.len(),
{
    if book.len() == 0 {
        None
    } else if book.last().0 == pid {
        Some(book.last().1)
    } else {
        book_lookup(book.drop_last(), pid)
    }
}

/// Each PID appears at most once in the book.
pub open spec fn book_unique(book: Seq<(u32, ScoreSet)>) -> bool {
    forall|i: int, j: int| 0 <= i < j < book.len() ==> (#[trigger] book[i]).0 != (#[trigger] book[j]).0
}

/// In a book with unique keys, the lookup finds exactly the entry that
/// carries the key.
proof fn lemma_book_lookup_at(book: Seq<(u32, ScoreSet)>, i: int)
    requires
        book_unique(book),
        0 <= i < book.len(),
    ensures
        book_lookup(book, book[i].0) == Some(book[i].1),
    decreases book.len(),
{
    if i == book.len() - 1 {
    } else {
        assert(book.last().0 != book[i].0);
        assert(book.drop_last()[i] == book[i]);
        lemma_book_lookup_at(book.drop_last(), i);
    }
}

/// A key held by no entry is not found.
proof fn lemma_book_lookup_absent(book: Seq<(u32, ScoreSet)>, pid: u32)
    requires
        forall|i: int| 0 <= i < book.len() ==> (#[trigger] book[i]).0 != pid,
    ensures
        book_lookup(book, pid) == None::<ScoreSet>,
    decreases book.len(),
{
    if book.len() > 0 {
        assert(forall|i: int|
            0 <= i < book.len() - 1 ==> (#[trigger] book.drop_last()[i]).0 != pid);
        lemma_book_lookup_absent(book.drop_last(), pid);
    }
}

/// Replacing the entry of one key leaves every other lookup alone.
proof fn lemma_book_update_other(book: Seq<(u32, ScoreSet)>, i: int, s: ScoreSet, q: u32)
    requires
        0 <= i < book.len(),
        q != book[i].0,
    ensures
        book_lookup(book.update(i, (book[i].0, s)), q) == book_lookup(book, q),
    decreases book.len(),
{
    let upd = book.update(i, (book[i].0, s));
    if i == book.len() - 1 {
        assert(upd.drop_last() =~= book.drop_last());
    } else {
        assert(upd.last() == book.last());
        assert(upd.drop_last() =~= book.drop_last().update(i, (book[i].0, s)));
        assert(book.drop_last()[i] == book[i]);
        lemma_book_update_other(book.drop_last(), i, s, q);
    }
}

/// Pushing a fresh entry leaves every other lookup alone.
proof fn lemma_book_push_other(book: Seq<(u32, ScoreSet)>, e: (u32, ScoreSet), q: u32)
    requires
        q != e.0,
    ensures
        book_lookup(book.push(e), q) == book_lookup(book, q),
{
    assert(book.push(e).drop_last() =~= book);
}

/// A well-formed stored accumulator: a bounded ring of valid entropy
/// samples.
pub open spec fn view_wf(t: (u64, u64, u64, u64, Seq<u32>, i64)) -> bool {
    &&& t.4.len() <= crate::stats::ENTROPY_SAMPLE_CAP
    &&& forall|i: int| 0 <= i < t.4.len() ==> #[trigger] t.4[i] <= SCORE_ONE
}

/// The stored accumulator after one event, mirroring
/// [`ProcessStats::apply_event`] on the plain values.
pub open spec fn spec_apply_view(
    t: (u64, u64, u64, u64, Seq<u32>, i64),
    ev: FileEvent,
) -> (u64, u64, u64, u64, Seq<u32>, i64) {
    let writes = if ev.event_type == EventType::FileWrite {
        crate::stats::sat_add(t.0, 1)
    } else {
        t.0
    };
    let renames = if ev.event_type == EventType::FileRename {
        crate::stats::sat_add(t.1, 1)
    } else {
        t.1
    };
    let deletes = if ev.event_type == EventType::FileDelete {
        crate::stats::sat_add(t.2, 1)
    } else {
        t.2
    };
    let bytes = if ev.event_type == EventType::FileWrite {
        crate::stats::sat_add(t.3, ev.bytes_written)
    } else {
        t.3
    };
    let samples = if ev.event_type == EventType::FileWrite && ev.entropy_preview@.len() > 0 {
        crate::stats::spec_push_sample(
            t.4,
            crate::shannon::spec_entropy(ev.entropy_preview@) as u32,
        )
    } else {
        t.4
    };
    (writes, renames, deletes, bytes, samples, ev.timestamp)
}

/// A fresh accumulator, as stored for a PID seen for the first time.
pub open spec fn spec_fresh_view(timestamp: i64) -> (u64, u64, u64, u64, Seq<u32>, i64) {
    (0u64, 0u64, 0u64, 0u64, Seq::<u32>::empty(), timestamp)
}

/// The composite activity of one stored accumulator, scaled by ten:
/// `0.1 * writes + 0.2 * renames + 0.2 * deletes`, an ordering that the
/// aggregator uses to pick the busiest process.
pub open spec fn spec_composite(t: (u64, u64, u64, u64, Seq<u32>, i64)) -> int {
    t.0 + 2 * t.1 + 2 * t.2
}

/// Replaces or inserts the book entry of one PID.
fn book_update(book: &mut Vec<(u32, ScoreSet)>, pid: u32, s: ScoreSet)
    requires
        book_unique(old(book)@),
        forall|i: int| 0 <= i < old(book)@.len() ==> (#[trigger] old(book)@[i]).1.wf(),
        s.wf(),
    ensures
        book_unique(final(book)@),
        book_lookup(final(book)@, pid) == Some(s),
        forall|q: u32| q != pid ==> book_lookup(final(book)@, q) == book_lookup(old(book)@, q),
        forall|i: int| 0 <= i < final(book)@.len() ==> (#[trigger] final(book)@[i]).1.wf(),
{
    proof {
        assert(forall|i: int| 0 <= i < old(book)@.len() ==> (#[trigger] old(book)@[i]).1.wf());
    }
    let n = book.len();
    for i in 0..n
        invariant
            n == book@.len(),
            book_unique(book@),
            book@ == old(book)@,
            forall|j: int| 0 <= j < i ==> (#[trigger] book@[j]).0 != pid,
            forall|j: int| 0 <= j < n ==> (#[trigger] book@[j]).1.wf(),
            s.wf(),
    {
        if book[i].0 == pid {
            book.set(i, (pid, s));
            proof {
                let ob = old(book)@;
                assert(book@ =~= ob.update(i as int, (pid, s)));
                assert forall|a: int, b: int|
                    0 <= a < b < book@.len() implies (#[trigger] book@[a]).0 != (
                #[trigger] book@[b]).0 by {
                    assert(ob[a].0 != ob[b].0);
                }
                lemma_book_lookup_at(book@, i as int);
                assert forall|q: u32| q != pid implies book_lookup(book@, q) == book_lookup(
                    ob,
                    q,
                ) by {
                    lemma_book_update_other(ob, i as int, s, q);
                }
                assert forall|j: int| 0 <= j < book@.len() implies (#[trigger] book@[j]).1.wf() by {
                    if j != i {
                        assert(book@[j] == ob[j]);
                        assert(ob[j].1.wf());
                        assert(book@[j].1.wf());
                    } else {
                        assert(book@[j].1 == s);
                        assert(s.wf());
                        assert(book@[j].1.wf());
                    }
                }
            }
            return ;
        }
    }
    book.push((pid, s));
    proof {
        let ob = old(book)@;
        assert(book@.drop_last() =~= ob);
        assert forall|a: int, b: int|
            0 <= a < b < book@.len() implies (#[trigger] book@[a]).0 != (#[trigger] book@[b]).0 by {
            if b == book@.len() - 1 {
                assert(book@[a] == ob[a]);
            } else {
                assert(book@[a] == ob[a] && book@[b] == ob[b]);
            }
        }
        assert forall|q: u32| q != pid implies book_lookup(book@, q) == book_lookup(ob, q) by {
            lemma_book_push_other(ob, (pid, s), q);
        }
    }
}

/// A lookup in a book of well-formed entries hands back well-formed
/// scores.
proof fn lemma_book_lookup_wf(book: Seq<(u32, ScoreSet)>, pid: u32)
    requires
        forall|i: int| 0 <= i < book.len() ==> (#[trigger] book[i]).1.wf(),
    ensures
        match book_lookup(book, pid) {
            Some(s) => s.wf(),
            None => true,
        },
    decreases book.len(),
{
    if book.len() > 0 {
        if book.last().0 == pid {
            assert(book[book.len() - 1].1.wf());
        } else {
            assert forall|i: int|
                0 <= i < book.len() - 1 implies (#[trigger] book.drop_last()[i]).1.wf() by {
                assert(book.drop_last()[i] == book[i]);
            }
            lemma_book_lookup_wf(book.drop_last(), pid);
        }
    }
}

/// The book entry of one PID, if any.
fn book_get(book: &Vec<(u32, ScoreSet)>, pid: u32) -> (r: Option<ScoreSet>)
    requires
        book_unique(book@),
    ensures
        r == book_lookup(book@, pid),
{
    let n = book.len();
    for i in 0..n
        invariant
            n == book@.len(),
            book_unique(book@),
            forall|j: int| 0 <= j < i ==> (#[trigger] book@[j]).0 != pid,
    {
        if book[i].0 == pid {
            proof {
                lemma_book_lookup_at(book@, i as int);
            }
            return Some(book[i].1);
        }
    }
    proof {
        lemma_book_lookup_absent(book@, pid);
    }
    None
}

/// Relies on chrono::Utc::now: the clock's idea of the current Unix
/// second, stamped onto aggregated snapshots.
#[verifier::external_body]
fn now_timestamp() -> i64 {
    chrono::Utc::now().timestamp()
}

/// Owns the per-process store, the seven detectors and the score book.
pub struct DetectorManager {
    pub config: Config,
    /// Mutated only through [`DetectorManager::process_event`].
    pub process_stats: StatsStore,
    /// The latest detector scores per PID.
    pub latest: Vec<(u32, ScoreSet)>,
    pub entropy: entropy::EntropyDetector,
    pub mass_write: mass_write::MassWriteDetector,
    pub mass_rename_delete: mass_rename_delete::MassRenameDeleteDetector,
    pub ransom_note: ransom_note::RansomNoteDetector,
    pub shadow_copy: shadow_copy::ShadowCopyDetector,
    pub process_behavior: process_behavior::ProcessBehaviorDetector,
    pub file_extension: file_extension::FileExtensionDetector,
}

impl DetectorManager {
    /// Every stored accumulator is well formed.
    pub open spec fn store_wf(&self) -> bool {
        forall|k: u32|
            self.process_stats.contents().contains_key(k) ==> view_wf(
                #[trigger] self.process_stats.contents()[k],
            )
    }

    pub open spec fn wf(&self) -> bool {
        &&& self.config.wf()
        &&& self.entropy.wf()
        &&& self.mass_write.wf()
        &&& self.mass_rename_delete.wf()
        &&& self.store_wf()
        &&& book_unique(self.latest@)
        &&& forall|i: int| 0 <= i < self.latest@.len() ==> (#[trigger] self.latest@[i]).1.wf()
    }

    /// Builds the seven detectors over one configuration, with an empty
    /// store and an empty score book.
    pub fn new(config: Config) -> (m: DetectorManager)
        requires
            config.wf(),
        ensures
            m.wf(),
            m.config == config,
            m.process_stats.contents() == crate::store::stats_empty(),
            m.latest@ == Seq::<(u32, ScoreSet)>::empty(),
    {
        let entropy = entropy::EntropyDetector::new(&config.detector_config);
        let mass_write = mass_write::MassWriteDetector::new(&config.detector_config);
        let mass_rename_delete = mass_rename_delete::MassRenameDeleteDetector::new(
            &config.detector_config,
        );
        let ransom_note = ransom_note::RansomNoteDetector::new(&config.detector_config);
        let shadow_copy = shadow_copy::ShadowCopyDetector::new(&config.detector_config);
        let process_behavior = process_behavior::ProcessBehaviorDetector::new(
            &config.detector_config,
        );
        let file_extension = file_extension::FileExtensionDetector::new(&config.detector_config);
        DetectorManager {
            config,
            process_stats: StatsStore::new(),
            latest: Vec::new(),
            entropy,
            mass_write,
            mass_rename_delete,
            ransom_note,
            shadow_copy,
            process_behavior,
            file_extension,
        }
    }

    /// Feeds one event through the store and all seven detectors.  The
    /// event's process gets exactly one per-kind counter update, and the
    /// score book then holds the fresh scores of all seven detectors for
    /// that PID, computed over the updated accumulator; every other PID
    /// keeps its stored state and scores.
    pub fn process_event(&mut self, event: &FileEvent)
        requires
            old(self).wf(),
        ensures
            final(self).wf(),
            final(self).config == old(self).config,
            final(self).entropy == old(self).entropy,
            final(self).mass_write == old(self).mass_write,
            final(self).mass_rename_delete == old(self).mass_rename_delete,
            final(self).ransom_note == old(self).ransom_note,
            final(self).shadow_copy == old(self).shadow_copy,
            final(self).process_behavior == old(self).process_behavior,
            final(self).file_extension == old(self).file_extension,
            final(self).process_stats.contents() == old(self).process_stats.contents().insert(
                event.process_id,
                spec_apply_view(old(self).prior_view(*event), *event),
            ),
            book_lookup(final(self).latest@, event.process_id) == Some(
                old(self).spec_event_scores(*event),
            ),
            forall|q: u32|
                q != event.process_id ==> book_lookup(final(self).latest@, q) == book_lookup(
                    old(self).latest@,
                    q,
                ),
    {
        let pid = event.process_id;
        let mut st = match self.process_stats.get(pid) {
            Some(s) => s,
            None => ProcessStats::new(event.timestamp),
        };
        proof {
            let cm = old(self).process_stats.contents();
            if cm.contains_key(pid) {
                assert(view_wf(cm[pid]));
                assert(st.entropy_samples@ == cm[pid].4);
            }
            assert(st.wf());
            assert(stats_view(st) == self.prior_view(*event));
        }
        st.apply_event(event);
        proof {
            assert(stats_view(st) =~= spec_apply_view(old(self).prior_view(*event), *event));
        }
        let s_entropy = self.entropy.analyze(event, &st);
        let s_mass_write = self.mass_write.analyze(event, &st);
        let s_mass_rename_delete = self.mass_rename_delete.analyze(event, &st);
        let s_ransom_note = self.ransom_note.analyze(event, &st);
        let s_shadow_copy = self.shadow_copy.analyze(event, &st);
        let s_process_behavior = self.process_behavior.analyze(event, &st);
        let s_file_extension = self.file_extension.analyze(event, &st);
        let scores = ScoreSet {
            entropy: s_entropy,
            mass_write: s_mass_write,
            mass_rename_delete: s_mass_rename_delete,
            ransom_note: s_ransom_note,
            shadow_copy: s_shadow_copy,
            process_behavior: s_process_behavior,
            file_extension: s_file_extension,
        };
        book_update(&mut self.latest, pid, scores);
        self.process_stats.put(pid, st);
        proof {
            assert forall|k: u32|
                final(self).process_stats.contents().contains_key(k) implies view_wf(
                #[trigger] final(self).process_stats.contents()[k],
            ) by {
                if k != pid {
                    assert(old(self).process_stats.contents().contains_key(k));
                }
            }
        }
    }

    /// Evicts every process whose last event is older than `horizon`
    /// seconds before `now`: exactly the recently active PIDs stay, with
    /// their accumulators untouched.
    pub fn prune_idle(&mut self, now: i64, horizon: i64)
        requires
            old(self).wf(),
        ensures
            final(self).wf(),
            final(self).config == old(self).config,
            final(self).latest@ == old(self).latest@,
            forall|k: u32|
                final(self).process_stats.contents().contains_key(k) == (old(self).process_stats.contents().contains_key(k)
                    && now - (#[trigger] old(self).process_stats.contents()[k]).5 <= horizon),
            forall|k: u32|
                final(self).process_stats.contents().contains_key(k)
                    ==> (#[trigger] final(self).process_stats.contents()[k]) == old(self).process_stats.contents()[k],
    {
        let entries = self.process_stats.entries();
        let n = entries.len();
        let ghost cm0 = old(self).process_stats.contents();
        for i in 0..n
            invariant
                n == entries@.len(),
                self.config == old(self).config,
                self.latest@ == old(self).latest@,
                self.entropy == old(self).entropy,
                self.mass_write == old(self).mass_write,
                self.mass_rename_delete == old(self).mass_rename_delete,
                self.ransom_note == old(self).ransom_note,
                self.shadow_copy == old(self).shadow_copy,
                self.process_behavior == old(self).process_behavior,
                self.file_extension == old(self).file_extension,
                old(self).wf(),
                cm0 == old(self).process_stats.contents(),
                forall|j: int|
                    0 <= j < n ==> cm0.contains_key((#[trigger] entries@[j]).0) && stats_view(
                        entries@[j].1,
                    ) == cm0[entries@[j].0],
                forall|j1: int, j2: int|
                    0 <= j1 < j2 < n ==> (#[trigger] entries@[j1]).0 != (
                    #[trigger] entries@[j2]).0,
                forall|k: u32|
                    cm0.contains_key(k) ==> exists|j: int|
                        0 <= j < n && (#[trigger] entries@[j]).0 == k,
                forall|k: u32|
                    #[trigger] self.process_stats.contents().contains_key(k) ==> cm0.contains_key(
                        k,
                    ) && self.process_stats.contents()[k] == cm0[k],
                forall|k: u32|
                    cm0.contains_key(k) && !(exists|j: int|
                        0 <= j < i && (#[trigger] entries@[j]).0 == k && now - cm0[k].5
                            > horizon) ==> self.process_stats.contents().contains_key(k),
                forall|k: u32|
                    (exists|j: int|
                        0 <= j < i && (#[trigger] entries@[j]).0 == k && now - cm0[k].5
                            > horizon) ==> !self.process_stats.contents().contains_key(k),
        {
            let e = &entries[i];
            let stale = {
                let last = e.1.last_update;
                (now as i128) - (last as i128) > (horizon as i128)
            };
            proof {
                assert(stats_view(entries@[i as int].1) == cm0[entries@[i as int].0]);
                assert(cm0[entries@[i as int].0].5 == entries@[i as int].1.last_update);
            }
            let ghost pre = self.process_stats.contents();
            let ghost epid = entries@[i as int].0;
            if stale {
                self.process_stats.remove(e.0);
            }
            proof {
                if stale {
                    assert(self.process_stats.contents() == pre.remove(epid));
                } else {
                    assert(self.process_stats.contents() == pre);
                }
                assert forall|k: u32|
                    #[trigger] self.process_stats.contents().contains_key(k) implies cm0.contains_key(
                    k,
                ) && self.process_stats.contents()[k] == cm0[k] by {
                    if stale {
                        assert(k != epid);
                        assert(self.process_stats.contents()[k] == pre[k]);
                    }
                    assert(pre.contains_key(k) && pre[k] == cm0[k]);
                }
                assert forall|k: u32|
                    cm0.contains_key(k) && !(exists|j: int|
                        0 <= j < i + 1 && (#[trigger] entries@[j]).0 == k && now - cm0[k].5
                            > horizon) implies self.process_stats.contents().contains_key(k) by {
                    assert(!(exists|j: int|
                        0 <= j < i && entries@[j].0 == k && now - cm0[k].5 > horizon));
                    assert(pre.contains_key(k));
                    if stale {
                        assert(entries@[i as int].0 != k || now - cm0[k].5 <= horizon);
                        assert(k != epid);
                    }
                }
                assert forall|k: u32|
                    (exists|j: int|
                        0 <= j < i + 1 && (#[trigger] entries@[j]).0 == k && now - cm0[k].5
                            > horizon) implies !self.process_stats.contents().contains_key(k) by {
                    let j = choose|j: int|
                        0 <= j < i + 1 && (#[trigger] entries@[j]).0 == k && now - cm0[k].5
                            > horizon;
                    if j < i {
                        assert(exists|j2: int|
                            0 <= j2 < i && (#[trigger] entries@[j2]).0 == k && now - cm0[k].5
                                > horizon);
                        assert(!pre.contains_key(k));
                    } else {
                        assert(k == epid);
                        assert(now - cm0[k].5 > horizon);
                        assert(stale);
                    }
                }
            }
        }
        proof {
            assert forall|k: u32|
                self.process_stats.contents().contains_key(k) == (cm0.contains_key(k) && now - (
            #[trigger] cm0[k]).5 <= horizon) by {
                if cm0.contains_key(k) {
                    let j = choose|j: int| 0 <= j < n && (#[trigger] entries@[j]).0 == k;
                    if now - cm0[k].5 > horizon {
                        assert(stats_view(entries@[j].1) == cm0[k]);
                    }
                }
            }
            assert forall|k: u32|
                final(self).process_stats.contents().contains_key(k) implies view_wf(
                #[trigger] final(self).process_stats.contents()[k],
            ) by {
                assert(cm0.contains_key(k));
            }
        }
    }

    /// The stored accumulator that an event meets: the existing one of its
    /// PID, or a fresh one stamped with the event's own time.
    pub open spec fn prior_view(&self, ev: FileEvent) -> (u64, u64, u64, u64, Seq<u32>, i64) {
        if self.process_stats.contents().contains_key(ev.process_id) {
            self.process_stats.contents()[ev.process_id]
        } else {
            spec_fresh_view(ev.timestamp)
        }
    }

    /// Picks the busiest tracked process — the one with the highest
    /// composite activity — and returns its latest detector scores as a
    /// snapshot stamped with the current time.  When nothing has been
    /// active the snapshot is all zero with PID zero.
    pub fn get_aggregated_scores(&self) -> (r: DetectorScores)
        requires
            self.wf(),
        ensures
            r.wf(),
            (r.process_id == 0 && (forall|k: u32|
                self.process_stats.contents().contains_key(k) ==> spec_composite(
                    #[trigger] self.process_stats.contents()[k],
                ) == 0)) || (self.process_stats.contents().contains_key(r.process_id)
                && spec_composite(self.process_stats.contents()[r.process_id]) > 0 && (forall|
                k: u32,
            |
                self.process_stats.contents().contains_key(k) ==> spec_composite(
                    #[trigger] self.process_stats.contents()[k],
                ) <= spec_composite(self.process_stats.contents()[r.process_id]))),
            (match book_lookup(self.latest@, r.process_id) {
                Some(s) => r.entropy_score == s.entropy && r.mass_write_score == s.mass_write
                    && r.mass_rename_delete_score == s.mass_rename_delete && r.ransom_note_score
                    == s.ransom_note && r.shadow_copy_score == s.shadow_copy
                    && r.process_behavior_score == s.process_behavior && r.file_extension_score
                    == s.file_extension,
                None => r.entropy_score == 0 && r.mass_write_score == 0
                    && r.mass_rename_delete_score == 0 && r.ransom_note_score == 0
                    && r.shadow_copy_score == 0 && r.process_behavior_score == 0
                    && r.file_extension_score == 0,
            }),
    {
        let entries = self.process_stats.entries();
        let n = entries.len();
        let ghost cm = self.process_stats.contents();
        let mut best_pid: u32 = 0;
        let mut best: u128 = 0;
        for i in 0..n
            invariant
                n == entries@.len(),
                cm == self.process_stats.contents(),
                forall|j: int|
                    0 <= j < n ==> cm.contains_key((#[trigger] entries@[j]).0) && stats_view(
                        entries@[j].1,
                    ) == cm[entries@[j].0],
                forall|k: u32|
                    cm.contains_key(k) ==> exists|j: int|
                        0 <= j < n && (#[trigger] entries@[j]).0 == k,
                best <= 0xFFFF_FFFF_FFFF_FFFF * 5,
                (best == 0 && best_pid == 0 && (forall|j: int|
                    0 <= j < i ==> spec_composite(stats_view((#[trigger] entries@[j]).1)) == 0))
                    || (best > 0 && cm.contains_key(best_pid) && best == spec_composite(
                    cm[best_pid],
                ) && (forall|j: int|
                    0 <= j < i ==> spec_composite(stats_view((#[trigger] entries@[j]).1))
                        <= best)),
        {
            let e = &entries[i];
            let comp: u128 = (e.1.file_writes as u128) + 2 * (e.1.file_renames as u128) + 2 * (
            e.1.file_deletes as u128);
            if comp > best {
                best = comp;
                best_pid = e.0;
            }
        }
        proof {
            if best == 0 {
                assert forall|k: u32| cm.contains_key(k) implies spec_composite(
                    #[trigger] cm[k],
                ) == 0 by {
                    let j = choose|j: int| 0 <= j < n && (#[trigger] entries@[j]).0 == k;
                    assert(spec_composite(stats_view(entries@[j].1)) == 0);
                }
            } else {
                assert forall|k: u32| cm.contains_key(k) implies spec_composite(
                    #[trigger] cm[k],
                ) <= spec_composite(cm[best_pid]) by {
                    let j = choose|j: int| 0 <= j < n && (#[trigger] entries@[j]).0 == k;
                    assert(spec_composite(stats_view(entries@[j].1)) <= best);
                }
            }
        }
        proof {
            lemma_book_lookup_wf(self.latest@, best_pid);
        }
        let ss = match book_get(&self.latest, best_pid) {
            Some(s) => s,
            None => ScoreSet::zero(),
        };
        DetectorScores {
            process_id: best_pid,
            entropy_score: ss.entropy,
            mass_write_score: ss.mass_write,
            mass_rename_delete_score: ss.mass_rename_delete,
            ransom_note_score: ss.ransom_note,
            shadow_copy_score: ss.shadow_copy,
            process_behavior_score: ss.process_behavior,
            file_extension_score: ss.file_extension,
            timestamp: now_timestamp(),
        }
    }

    /// The seven scores that one event earns, computed over the
    /// accumulator as updated by that event.
    pub open spec fn spec_event_scores(&self, ev: FileEvent) -> ScoreSet {
        let t = spec_apply_view(self.prior_view(ev), ev);
        ScoreSet {
            entropy: spec_entropy_score_u32(self.entropy.config, ev, t.4),
            mass_write: spec_score_u32(
                mass_write::spec_mass_write_score(self.mass_write.config, ev, t.0, t.5),
            ),
            mass_rename_delete: spec_score_u32(
                mass_rename_delete::spec_mass_rename_delete_score(
                    self.mass_rename_delete.config,
                    ev,
                    t.1,
                    t.2,
                    t.5,
                ),
            ),
            ransom_note: spec_score_u32(
                ransom_note::spec_ransom_note_score(
                    self.ransom_note.config.ransom_note_patterns@,
                    ev,
                ),
            ),
            shadow_copy: spec_score_u32(shadow_copy::spec_shadow_copy_score(ev)),
            process_behavior: spec_score_u32(process_behavior::spec_process_behavior_score(ev)),
            file_extension: spec_score_u32(file_extension::spec_file_extension_score(ev)),
        }
    }
}

/// A detector score, stated as an integer, read back as a machine word.
pub open spec fn spec_score_u32(s: int) -> u32 {
    s as u32
}

/// The entropy score of one event over a sample ring.
pub open spec fn spec_entropy_score_u32(
    cfg: crate::config::DetectorConfig,
    ev: FileEvent,
    samples: Seq<u32>,
) -> u32 {
    entropy::spec_entropy_analyze(cfg, ev, samples) as u32
}

} // verus!
