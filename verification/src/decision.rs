//! The decision loop's gating logic: the threshold test and the per-PID
//! quarantine cool-down.
//!
//! The host program drives the loop on a fixed cadence; every tick it
//! hands the current snapshot, the fused risk score and the clock to
//! [`DecisionState::decide`], performs the quarantine when told to, and
//! reports the outcome back.  A PID enters the cool-down set only after a
//! quarantine actually succeeded, so a failed helper call may be retried
//! on the next tick.

use vstd::prelude::*;
use crate::detectors::DetectorScores;

verus! {

/// The decision task's own state: the threshold, the cool-down width, and
/// the recently actioned PIDs with their action times.
pub struct DecisionState {
    /// A fused score above this triggers quarantine.
    pub quarantine_threshold: u32,
    /// How long a quarantined PID is left alone, in seconds.
    pub cooldown_seconds: i64,
    /// PIDs recently quarantined, each with its action time.
    pub recent_actions: Vec<(u32, i64)>,
}

impl DecisionState {
    /// Some recorded action on `pid` still covers the time `now`.
    pub open spec fn in_cooldown(&self, pid: u32, now: i64) -> bool {
        exists|i: int|
            0 <= i < self.recent_actions@.len() && (#[trigger] self.recent_actions@[i]).0 == pid
                && now - self.recent_actions@[i].1 < self.cooldown_seconds
    }

    pub fn new(quarantine_threshold: u32, cooldown_seconds: i64) -> (s: DecisionState)
        ensures
            s.quarantine_threshold == quarantine_threshold,
            s.cooldown_seconds == cooldown_seconds,
            s.recent_actions@ == Seq::<(u32, i64)>::empty(),
    {
        DecisionState {
            quarantine_threshold,
            cooldown_seconds,
            recent_actions: Vec::new(),
        }
    }

    /// The decision of one tick: quarantine exactly when the fused score clears
    /// the threshold, the snapshot names a real process, and that process
    /// is not inside its cool-down window.
    pub fn decide(&self, scores: &DetectorScores, ml: u32, now: i64) -> (act: bool)
        ensures
            act == (ml > self.quarantine_threshold && scores.process_id != 0 && !self.in_cooldown(
                scores.process_id,
                now,
            )),
    {
        if ml <= self.quarantine_threshold {
            return false;
        }
        if scores.process_id == 0 {
            return false;
        }
        !self.check_cooldown(scores.process_id, now)
    }

    /// Whether `pid` is inside its cool-down window at `now`.
    pub fn check_cooldown(&self, pid: u32, now: i64) -> (r: bool)
        ensures
            r == self.in_cooldown(pid, now),
    {
        let n = self.recent_actions.len();
        for i in 0..n
            invariant
                n == self.recent_actions@.len(),
                forall|j: int|
                    0 <= j < i ==> !((#[trigger] self.recent_actions@[j]).0 == pid && now
                        - self.recent_actions@[j].1 < self.cooldown_seconds),
        {
            let e = self.recent_actions[i];
            if e.0 == pid && (now as i128) - (e.1 as i128) < (self.cooldown_seconds as i128) {
                return true;
            }
        }
        false
    }

    /// Records a successful quarantine of `pid` at `now`; the PID is then
    /// in cool-down for the configured window.
    pub fn mark_actioned(&mut self, pid: u32, now: i64)
        ensures
            final(self).recent_actions@ == old(self).recent_actions@.push((pid, now)),
            final(self).quarantine_threshold == old(self).quarantine_threshold,
            final(self).cooldown_seconds == old(self).cooldown_seconds,
    {
        self.recent_actions.push((pid, now));
    }

    /// Drops every action record whose cool-down window has passed; the
    /// records still covering some time are all kept.
    pub fn prune_expired(&mut self, now: i64)
        ensures
            final(self).quarantine_threshold == old(self).quarantine_threshold,
            final(self).cooldown_seconds == old(self).cooldown_seconds,
            forall|i: int|
                0 <= i < final(self).recent_actions@.len() ==> old(self).recent_actions@.contains(
                    #[trigger] final(self).recent_actions@[i],
                ) && now - final(self).recent_actions@[i].1 < final(self).cooldown_seconds,
            forall|j: int|
                0 <= j < old(self).recent_actions@.len() && now - (#[trigger] old(self).recent_actions@[j]).1 < old(self).cooldown_seconds
                    ==> final(self).recent_actions@.contains(old(self).recent_actions@[j]),
    {
        let n = self.recent_actions.len();
        let mut kept: Vec<(u32, i64)> = Vec::new();
        for i in 0..n
            invariant
                n == self.recent_actions@.len(),
                self.recent_actions@ == old(self).recent_actions@,
                self.cooldown_seconds == old(self).cooldown_seconds,
                self.quarantine_threshold == old(self).quarantine_threshold,
                forall|k: int|
                    0 <= k < kept@.len() ==> self.recent_actions@.contains(#[trigger] kept@[k])
                        && now - kept@[k].1 < self.cooldown_seconds,
                forall|j: int|
                    0 <= j < i && now - (#[trigger] self.recent_actions@[j]).1
                        < self.cooldown_seconds ==> kept@.contains(self.recent_actions@[j]),
        {
            let e = self.recent_actions[i];
            if (now as i128) - (e.1 as i128) < (self.cooldown_seconds as i128) {
                let ghost kp = kept@;
                kept.push(e);
                proof {
                    assert(kept@.drop_last() =~= kp);
                    assert forall|j: int|
                        0 <= j < i + 1 && now - (#[trigger] self.recent_actions@[j]).1
                            < self.cooldown_seconds implies kept@.contains(
                        self.recent_actions@[j],
                    ) by {
                        if j < i {
                            assert(kp.contains(self.recent_actions@[j]));
                            let k = choose|k: int|
                                0 <= k < kp.len() && kp[k] == self.recent_actions@[j];
                            assert(kept@[k] == self.recent_actions@[j]);
                        } else {
                            assert(kept@[kept@.len() - 1] == self.recent_actions@[j]);
                        }
                    }
                }
            }
        }
        self.recent_actions = kept;
    }
}

/// The law of the cool-down: once a PID was actioned at `t0`, every tick
/// inside the window `t0 .. t0 + cooldown` sees it in cool-down, and
/// [`DecisionState::decide`] therefore refuses to quarantine it again.
pub proof fn lemma_quarantine_once(s: DecisionState, pid: u32, t0: i64, now: i64)
    requires
        s.recent_actions@.contains((pid, t0)),
        now - t0 < s.cooldown_seconds,
    ensures
        s.in_cooldown(pid, now),
{
    let i = choose|i: int| 0 <= i < s.recent_actions@.len() && s.recent_actions@[i] == (pid, t0);
    assert((s.recent_actions@[i]).0 == pid);
}

} // verus!
