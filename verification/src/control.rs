//! Read-through state for the local control plane.
//!
//! The transport that serves these values is outside the core; this
//! module owns the data it reads: the alert log, filtered by time, and
//! the per-process risk overview, sorted by falling risk.

use vstd::prelude::*;
use vstd::multiset::Multiset;
use vstd::seq_lib::group_to_multiset_ensures;

verus! {

/// One alert as shown to the operator.
#[derive(Clone, Copy, Debug)]
pub struct Alert {
    pub id: i64,
    pub process_id: u32,
    /// The fused risk score, in millionths.
    pub ml_score: u32,
    pub quarantined: bool,
    pub timestamp: i64,
}

/// The current risk standing of one process.
#[derive(Clone, Copy, Debug)]
pub struct ProcessRisk {
    pub process_id: u32,
    /// The fused risk score, in millionths.
    pub risk_score: u32,
    pub last_updated: i64,
}

/// The alerts at or after `since`, oldest kept order.
pub open spec fn spec_alerts_since(alerts: Seq<Alert>, since: i64) -> Seq<Alert>
    decreases alerts.len(),
{
    if alerts.len() == 0 {
        Seq::empty()
    } else {
        let rest = spec_alerts_since(alerts.drop_last(), since);
        if alerts.last().timestamp >= since {
            rest.push(alerts.last())
        } else {
            rest
        }
    }
}

/// Risk entries in falling order of risk score.
pub open spec fn sorted_desc(s: Seq<ProcessRisk>) -> bool {
    forall|i: int, j: int|
        0 <= i <= j < s.len() ==> (#[trigger] s[i]).risk_score >= (#[trigger] s[j]).risk_score
}

/// The state the control plane reads: alerts and per-process risks.
pub struct ControlPlane {
    /// Alerts in arrival order.
    pub alerts: Vec<Alert>,
    /// The current risk of each tracked process; PIDs are unique.
    pub risks: Vec<ProcessRisk>,
}

impl ControlPlane {
    /// Each PID holds one risk entry.
    pub open spec fn wf(&self) -> bool {
        forall|i: int, j: int|
            0 <= i < j < self.risks@.len() ==> (#[trigger] self.risks@[i]).process_id != (
            #[trigger] self.risks@[j]).process_id
    }

    pub fn new() -> (c: ControlPlane)
        ensures
            c.wf(),
            c.alerts@ == Seq::<Alert>::empty(),
            c.risks@ == Seq::<ProcessRisk>::empty(),
    {
        ControlPlane { alerts: Vec::new(), risks: Vec::new() }
    }

    /// Appends one alert to the log.
    pub fn add_alert(&mut self, alert: Alert)
        requires
            old(self).wf(),
        ensures
            final(self).wf(),
            final(self).alerts@ == old(self).alerts@.push(alert),
            final(self).risks@ == old(self).risks@,
    {
        self.alerts.push(alert);
    }

    /// The alerts stamped at or after `since`, in arrival order.
    pub fn get_alerts(&self, since_timestamp: i64) -> (r: Vec<Alert>)
        ensures
            r@ == spec_alerts_since(self.alerts@, since_timestamp),
    {
        let n = self.alerts.len();
        let mut r: Vec<Alert> = Vec::new();
        for i in 0..n
            invariant
                n == self.alerts@.len(),
                r@ == spec_alerts_since(self.alerts@.subrange(0, i as int), since_timestamp),
        {
            proof {
                assert(self.alerts@.subrange(0, i + 1).drop_last() =~= self.alerts@.subrange(
                    0,
                    i as int,
                ));
                assert(self.alerts@.subrange(0, i + 1).last() == self.alerts@[i as int]);
            }
            let a = self.alerts[i];
            if a.timestamp >= since_timestamp {
                r.push(a);
            }
        }
        proof {
            assert(self.alerts@.subrange(0, n as int) =~= self.alerts@);
        }
        r
    }

    /// Sets or replaces the risk entry of one process.
    pub fn update_process_risk(&mut self, process_id: u32, risk: ProcessRisk)
        requires
            old(self).wf(),
            risk.process_id == process_id,
        ensures
            final(self).wf(),
            final(self).alerts@ == old(self).alerts@,
            final(self).risks@.contains(risk),
            forall|i: int|
                0 <= i < final(self).risks@.len() ==> #[trigger] final(self).risks@[i] == risk
                    || old(self).risks@.contains(final(self).risks@[i]),
            forall|i: int|
                0 <= i < old(self).risks@.len() && (#[trigger] old(self).risks@[i]).process_id
                    != process_id ==> final(self).risks@.contains(old(self).risks@[i]),
    {
        let n = self.risks.len();
        for i in 0..n
            invariant
                n == self.risks@.len(),
                self.risks@ == old(self).risks@,
                self.alerts@ == old(self).alerts@,
                old(self).wf(),
                risk.process_id == process_id,
                forall|j: int| 0 <= j < i ==> (#[trigger] self.risks@[j]).process_id != process_id,
        {
            if self.risks[i].process_id == process_id {
                let ghost or = self.risks@;
                self.risks.set(i, risk);
                proof {
                    assert(self.risks@ =~= or.update(i as int, risk));
                    assert forall|a: int, b: int|
                        0 <= a < b < self.risks@.len() implies (
                    #[trigger] self.risks@[a]).process_id != (
                    #[trigger] self.risks@[b]).process_id by {
                        assert(or[a].process_id != or[b].process_id);
                    }
                    assert(self.risks@[i as int] == risk);
                    assert forall|j: int|
                        0 <= j < or.len() && (#[trigger] or[j]).process_id
                            != process_id implies self.risks@.contains(or[j]) by {
                        assert(self.risks@[j] == or[j]);
                    }
                    assert forall|j: int|
                        0 <= j < self.risks@.len() implies #[trigger] self.risks@[j] == risk
                            || or.contains(self.risks@[j]) by {
                        if j != i {
                            assert(self.risks@[j] == or[j]);
                        }
                    }
                }
                return ;
            }
        }
        let ghost or = self.risks@;
        self.risks.push(risk);
        proof {
            assert(self.risks@.drop_last() =~= or);
            assert(self.risks@[self.risks@.len() - 1] == risk);
            assert forall|a: int, b: int|
                0 <= a < b < self.risks@.len() implies (#[trigger] self.risks@[a]).process_id != (
            #[trigger] self.risks@[b]).process_id by {
                if b < self.risks@.len() - 1 {
                    assert(self.risks@[a] == or[a] && self.risks@[b] == or[b]);
                } else {
                    assert(self.risks@[a] == or[a]);
                }
            }
            assert forall|j: int|
                0 <= j < or.len() && (#[trigger] or[j]).process_id != process_id implies self.risks@.contains(
                or[j],
            ) by {
                assert(self.risks@[j] == or[j]);
            }
            assert forall|j: int|
                0 <= j < self.risks@.len() implies #[trigger] self.risks@[j] == risk
                    || or.contains(self.risks@[j]) by {
                if j < self.risks@.len() - 1 {
                    assert(self.risks@[j] == or[j]);
                }
            }
        }
    }

    /// The tracked risks, highest risk first: the same entries as stored,
    /// in falling order of risk score.
    pub fn get_process_risk_overview(&self) -> (r: Vec<ProcessRisk>)
        ensures
            sorted_desc(r@),
            r@.to_multiset() == self.risks@.to_multiset(),
    {
        let n = self.risks.len();
        let mut rest: Vec<ProcessRisk> = Vec::new();
        for i in 0..n
            invariant
                n == self.risks@.len(),
                rest@ =~= self.risks@.subrange(0, i as int),
        {
            rest.push(self.risks[i]);
            proof {
                assert(rest@ =~= self.risks@.subrange(0, i + 1));
            }
        }
        proof {
            assert(rest@ =~= self.risks@);
        }
        let mut out: Vec<ProcessRisk> = Vec::new();
        proof {
            broadcast use group_to_multiset_ensures;

            assert(out@ =~= Seq::<ProcessRisk>::empty());
            assert(out@.to_multiset() =~= Multiset::<ProcessRisk>::empty());
            assert(out@.to_multiset().add(rest@.to_multiset()) =~= rest@.to_multiset());
        }
        while rest.len() > 0
            invariant
                out@.to_multiset().add(rest@.to_multiset()) =~= self.risks@.to_multiset(),
                sorted_desc(out@),
                forall|a: int, b: int|
                    0 <= a < out@.len() && 0 <= b < rest@.len() ==> (
                    #[trigger] out@[a]).risk_score >= (#[trigger] rest@[b]).risk_score,
            decreases rest@.len(),
        {
            let m = rest.len();
            let mut max_idx: usize = 0;
            for j in 1..m
                invariant
                    m == rest@.len(),
                    max_idx < m,
                    forall|k: int| 0 <= k < j ==> (#[trigger] rest@[k]).risk_score <= rest@[
                        max_idx as int
                    ].risk_score,
            {
                if rest[j].risk_score > rest[max_idx].risk_score {
                    max_idx = j;
                }
            }
            let ghost or = rest@;
            let ghost oo = out@;
            let x = rest.remove(max_idx);
            out.push(x);
            proof {
                broadcast use group_to_multiset_ensures;

                assert(rest@ =~= or.remove(max_idx as int));
                assert(rest@.to_multiset() =~= or.to_multiset().remove(x));
                assert(out@.to_multiset() =~= oo.to_multiset().insert(x));
                assert(or.to_multiset().count(x) > 0) by {
                    assert(or[max_idx as int] == x);
                    assert(or.contains(x));
                }
                assert(out@.to_multiset().add(rest@.to_multiset()) =~= oo.to_multiset().add(
                    or.to_multiset(),
                ));
                assert forall|a: int, b: int|
                    0 <= a < out@.len() && 0 <= b < rest@.len() implies (
                #[trigger] out@[a]).risk_score >= (#[trigger] rest@[b]).risk_score by {
                    let ob = if b < max_idx {
                        b
                    } else {
                        b + 1
                    };
                    assert(rest@[b] == or[ob]);
                    if a < oo.len() {
                        assert(out@[a] == oo[a]);
                    } else {
                        assert(out@[a] == x);
                        assert(or[ob].risk_score <= or[max_idx as int].risk_score);
                    }
                }
                assert forall|a: int, b: int|
                    0 <= a <= b < out@.len() implies (#[trigger] out@[a]).risk_score >= (
                #[trigger] out@[b]).risk_score by {
                    if b < oo.len() {
                        assert(out@[a] == oo[a] && out@[b] == oo[b]);
                    } else if a < oo.len() {
                        assert(out@[a] == oo[a] && out@[b] == x);
                        assert(or[max_idx as int] == x);
                    }
                }
            }
        }
        proof {
            broadcast use group_to_multiset_ensures;

            assert(rest@ =~= Seq::<ProcessRisk>::empty());
            assert(rest@.to_multiset() =~= Multiset::<ProcessRisk>::empty());
            assert(out@.to_multiset().add(rest@.to_multiset()) =~= out@.to_multiset());
        }
        out
    }
}

} // verus!
