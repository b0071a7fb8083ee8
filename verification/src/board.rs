//! The in-memory table of target statuses that the scheduler and the HTTP
//! interface share.

use std::collections::HashMap;

use vstd::prelude::*;
use vstd::std_specs::iter::IteratorSpec;

use crate::models::{ProbeResult, TargetState};
use crate::status::TargetStatus;

verus! {

broadcast use vstd::std_specs::hash::group_hash_axioms;

/// What starting a target calls for.
#[derive(Clone, Copy, Debug, PartialEq, Eq, Structural)]
pub enum StartAction {
    /// The target is disabled: publish this status and run no probe.
    Idle(TargetStatus),
    /// The target is enabled: run its probe loop.
    Run,
}

/// Statuses of the targets, by target id.
#[derive(Debug)]
pub struct StatusBoard {
    statuses: HashMap<i64, TargetStatus>,
}

/// Status of `id` on which the next outcome builds: the stored one, or a fresh one.
pub open spec fn base_status(m: Map<i64, TargetStatus>, id: i64) -> TargetStatus {
    if m.contains_key(id) {
        m[id]
    } else {
        TargetStatus::fresh(id, TargetState::Healthy)
    }
}

impl View for StatusBoard {
    type V = Map<i64, TargetStatus>;

    closed spec fn view(&self) -> Map<i64, TargetStatus> {
        self.statuses@
    }
}

impl StatusBoard {
    /// Every status is filed under its own target id and is well formed.
    pub open spec fn wf(&self) -> bool {
        forall|id: i64| #[trigger]
            self@.contains_key(id) ==> self@[id].target_id == id && self@[id].wf()
    }

    /// An empty board.
    pub fn new() -> (r: Self)
        ensures
            r@ == Map::<i64, TargetStatus>::empty(),
            r.wf(),
    {
        StatusBoard { statuses: HashMap::new() }
    }

    /// The status of target `id`, if it has one.
    pub fn get(&self, id: i64) -> (r: Option<TargetStatus>)
        ensures
            r == (if self@.contains_key(id) {
                Some(self@[id])
            } else {
                None
            }),
    {
        match self.statuses.get(&id) {
            Some(s) => Some(*s),
            None => None,
        }
    }

    /// Number of targets with a status.
    pub fn len(&self) -> (r: usize)
        ensures
            r == self@.len(),
    {
        self.statuses.len()
    }

    /// Prepares target `id` for monitoring. A disabled target gets a fresh
    /// disabled status, which is returned for publication; an enabled one keeps
    /// its status, or gets a fresh healthy one, and is to be probed.
    pub fn start_target(&mut self, id: i64, enabled: bool) -> (r: StartAction)
        ensures
            enabled ==> r == StartAction::Run && final(self)@ == old(self)@.insert(
                id,
                base_status(old(self)@, id),
            ),
            !enabled ==> r == StartAction::Idle(TargetStatus::fresh(id, TargetState::Disabled))
                && final(self)@ == old(self)@.insert(
                id,
                TargetStatus::fresh(id, TargetState::Disabled),
            ),
            old(self).wf() ==> final(self).wf(),
    {
        if !enabled {
            let status = TargetStatus::disabled(id);
            self.statuses.insert(id, status);
            return StartAction::Idle(status);
        }
        if !self.statuses.contains_key(&id) {
            self.statuses.insert(id, TargetStatus::new(id));
        } else {
            proof {
                assert(old(self)@.insert(id, old(self)@[id]) =~= old(self)@);
            }
        }
        StartAction::Run
    }

    /// Whether the status of `id` can take `result` without a counter overflowing.
    pub fn can_record(&self, id: i64, result: &ProbeResult) -> (r: bool)
        ensures
            r == base_status(self@, id).spec_can_record(result.success, result.latency_ns),
    {
        let status = match self.statuses.get(&id) {
            Some(s) => *s,
            None => TargetStatus::new(id),
        };
        status.can_apply(result)
    }

    /// Folds a probe outcome into the status of target `id` (creating a fresh
    /// one first if it has none) and returns the updated status.
    pub fn record(&mut self, id: i64, result: &ProbeResult) -> (r: TargetStatus)
        requires
            base_status(old(self)@, id).spec_can_record(result.success, result.latency_ns),
        ensures
            r == base_status(old(self)@, id).recorded(
                result.success,
                result.finished_at,
                result.latency_ns,
            ),
            final(self)@ == old(self)@.insert(id, r),
            old(self).wf() ==> final(self).wf(),
    {
        let mut status = match self.statuses.get(&id) {
            Some(s) => *s,
            None => TargetStatus::new(id),
        };
        status.apply_result(result);
        self.statuses.insert(id, status);
        status
    }

    /// Starts the statistics of target `id` afresh (after its history was
    /// cleared): healthy when enabled, disabled otherwise. Returns the new status.
    pub fn reset(&mut self, id: i64, enabled: bool) -> (r: TargetStatus)
        ensures
            r == TargetStatus::fresh(
                id,
                if enabled {
                    TargetState::Healthy
                } else {
                    TargetState::Disabled
                },
            ),
            final(self)@ == old(self)@.insert(id, r),
            old(self).wf() ==> final(self).wf(),
    {
        let status = if enabled {
            TargetStatus::new(id)
        } else {
            TargetStatus::disabled(id)
        };
        self.statuses.insert(id, status);
        status
    }

    /// Drops the status of target `id`.
    pub fn remove(&mut self, id: i64)
        ensures
            final(self)@ == old(self)@.remove(id),
            old(self).wf() ==> final(self).wf(),
    {
        self.statuses.remove(&id);
    }

    /// The statuses, in no particular order.
    pub fn statuses(&self) -> (r: Vec<TargetStatus>)
        ensures
            r@.len() == self@.len(),
            r@.to_set() == self@.values(),
            self.wf() ==> r@.no_duplicates(),
    {
        let ghost values = vstd::std_specs::hash::spec_values_iter(&self.statuses).remaining();
        let mut out: Vec<TargetStatus> = Vec::new();
        for s in it: self.statuses.values()
            invariant
                it.seq() == values,
                out@ == values.take(it.index() as int).unref(),
        {
            proof {
                assert(values.take(it.index() + 1).unref() =~= values.take(it.index() as int).unref().push(*s));
            }
            out.push(*s);
        }
        proof {
            assert(values.take(values.len() as int) =~= values);
            if self.wf() {
                let m = self@;
                let f = |k: i64| m[k];
                assert(m.dom().finite());
                assert(m.values() =~= m.dom().map(f)) by {
                    assert forall|v: TargetStatus| m.values().contains(v) implies m.dom().map(
                        f,
                    ).contains(v) by {
                        let k = choose|k: i64| #[trigger] m.contains_key(k) && m[k] == v;
                        assert(f(k) == v);
                    }
                }
                assert(vstd::relations::injective_on(f, m.dom())) by {
                    assert forall|a: i64, b: i64|
                        m.dom().contains(a) && m.dom().contains(b) && #[trigger] f(a) == #[trigger] f(b)
                            implies a == b by {
                        assert(m.contains_key(a) && m.contains_key(b));
                    }
                }
                vstd::set_lib::lemma_map_size(m.dom(), m.values(), f);
                out@.lemma_no_dup_set_cardinality();
            }
        }
        out
    }
}


/// Recording an outcome for, resetting, starting or removing one target leaves
/// every other target's status as it was.
pub proof fn lemma_other_targets_untouched(
    before: Map<i64, TargetStatus>,
    id: i64,
    other: i64,
    status: TargetStatus,
)
    requires
        id != other,
    ensures
        before.insert(id, status).contains_key(other) == before.contains_key(other),
        before.remove(id).contains_key(other) == before.contains_key(other),
        before.contains_key(other) ==> before.insert(id, status)[other] == before[other]
            && before.remove(id)[other] == before[other],
{
}

/// After a reset the target reads back as fresh statistics, healthy when enabled
/// and disabled otherwise, whatever it had recorded before.
pub proof fn lemma_reset_reads_back_fresh(before: Map<i64, TargetStatus>, id: i64, enabled: bool)
    ensures
        ({
            let fresh = TargetStatus::fresh(
                id,
                if enabled {
                    TargetState::Healthy
                } else {
                    TargetState::Disabled
                },
            );
            let after = before.insert(id, fresh);
            &&& after.contains_key(id)
            &&& after[id].success_count == 0
            &&& after[id].failure_count == 0
            &&& after[id].consecutive_failures == 0
            &&& after[id].last_success_at is None
            &&& after[id].last_failure_at is None
            &&& after[id].wf()
        }),
{
}

} // verus!
