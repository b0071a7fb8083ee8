//! Running health statistics of one target, updated by each probe outcome.

use vstd::prelude::*;

use crate::models::{ProbeResult, TargetState};
use crate::time::Timestamp;

verus! {

/// Number of consecutive failures from which a target counts as down.
pub const DOWN_AFTER_FAILURES: u64 = 3u64;

/// State that follows from the failure counters.
pub open spec fn classify(consecutive_failures: u64, failure_count: u64) -> TargetState {
    if consecutive_failures >= DOWN_AFTER_FAILURES {
        TargetState::Down
    } else if failure_count > 0 && consecutive_failures > 0 {
        TargetState::Warning
    } else {
        TargetState::Healthy
    }
}

/// Health statistics of one target. Latencies are whole nanoseconds; the
/// running sum of successful latencies backs the average.
#[derive(Clone, Copy, Debug, PartialEq, Eq, Structural)]
pub struct TargetStatus {
    pub target_id: i64,
    pub state: TargetState,
    pub success_count: u64,
    pub failure_count: u64,
    pub consecutive_failures: u64,
    pub last_latency_ns: Option<u64>,
    pub min_latency_ns: Option<u64>,
    pub max_latency_ns: Option<u64>,
    pub last_success_at: Option<Timestamp>,
    pub last_failure_at: Option<Timestamp>,
    pub total_latency_ns: u128,
    /// Success count at the last measured latency: the divisor of the average.
    pub average_divisor: u64,
}

/// The smaller of a running minimum and a new sample.
pub open spec fn lower(current: Option<u64>, sample: u64) -> u64 {
    match current {
        Some(v) => if v <= sample { v } else { sample },
        None => sample,
    }
}

/// The larger of a running maximum and a new sample.
pub open spec fn higher(current: Option<u64>, sample: u64) -> u64 {
    match current {
        Some(v) => if v >= sample { v } else { sample },
        None => sample,
    }
}

impl TargetStatus {
    /// Sum of the latencies of successful probes, in nanoseconds.
    pub open spec fn total_latency(self) -> int {
        self.total_latency_ns as int
    }

    /// Counters and state agree, the latency extremes are consistent and the
    /// latency sum is bounded by what the successes could contribute.
    pub open spec fn wf(self) -> bool {
        &&& self.consecutive_failures <= self.failure_count
        &&& (self.state == classify(self.consecutive_failures, self.failure_count) || (self.state
            == TargetState::Disabled && self.success_count == 0 && self.failure_count == 0))
        &&& (self.min_latency_ns is Some <==> self.max_latency_ns is Some)
        &&& (self.min_latency_ns matches Some(lo) ==> lo <= self.max_latency_ns->0)
        &&& 0 <= self.total_latency() <= self.success_count * 0xffff_ffff_ffff_ffff
        &&& self.average_divisor <= self.success_count
        &&& (self.min_latency_ns is Some ==> self.average_divisor > 0)
    }

    /// Fresh statistics with nothing recorded.
    pub open spec fn fresh(target_id: i64, state: TargetState) -> TargetStatus {
        TargetStatus {
            target_id,
            state,
            success_count: 0,
            failure_count: 0,
            consecutive_failures: 0,
            last_latency_ns: None,
            min_latency_ns: None,
            max_latency_ns: None,
            last_success_at: None,
            last_failure_at: None,
            total_latency_ns: 0,
            average_divisor: 0,
        }
    }

    /// Statistics of a monitored target before its first probe.
    pub fn new(target_id: i64) -> (r: Self)
        ensures
            r == Self::fresh(target_id, TargetState::Healthy),
            r.total_latency() == 0,
            r.wf(),
    {
        TargetStatus {
            target_id,
            state: TargetState::Healthy,
            success_count: 0,
            failure_count: 0,
            consecutive_failures: 0,
            last_latency_ns: None,
            min_latency_ns: None,
            max_latency_ns: None,
            last_success_at: None,
            last_failure_at: None,
            total_latency_ns: 0,
            average_divisor: 0,
        }
    }

    /// Statistics of a target that is not being probed.
    pub fn disabled(target_id: i64) -> (r: Self)
        ensures
            r == Self::fresh(target_id, TargetState::Disabled),
            r.total_latency() == 0,
            r.wf(),
    {
        TargetStatus { state: TargetState::Disabled, ..Self::new(target_id) }
    }

    /// The counters can take one more outcome (`success`, with `latency`) without overflowing.
    pub open spec fn spec_can_record(self, success: bool, latency: Option<u64>) -> bool {
        if success {
            &&& self.success_count < u64::MAX
            &&& (latency matches Some(l) ==> self.total_latency() + l <= u128::MAX)
        } else {
            self.failure_count < u64::MAX && self.consecutive_failures < u64::MAX
        }
    }

    /// Whether `result` can be recorded without a counter overflowing.
    pub fn can_apply(&self, result: &ProbeResult) -> (r: bool)
        ensures
            r == self.spec_can_record(result.success, result.latency_ns),
    {
        if result.success {
            self.success_count < u64::MAX && match result.latency_ns {
                Some(l) => self.total_latency_ns <= u128::MAX - l as u128,
                None => true,
            }
        } else {
            self.failure_count < u64::MAX && self.consecutive_failures < u64::MAX
        }
    }

    /// The statistics after one more outcome: a success (with its latency, if
    /// measured) or a failure, finished at `finished_at`.
    pub open spec fn recorded(
        self,
        success: bool,
        finished_at: Timestamp,
        latency: Option<u64>,
    ) -> TargetStatus {
        let counted = if success {
            let base = TargetStatus {
                success_count: (self.success_count + 1) as u64,
                consecutive_failures: 0,
                last_success_at: Some(finished_at),
                ..self
            };
            match latency {
                Some(l) => TargetStatus {
                    last_latency_ns: Some(l),
                    min_latency_ns: Some(lower(self.min_latency_ns, l)),
                    max_latency_ns: Some(higher(self.max_latency_ns, l)),
                    total_latency_ns: (self.total_latency_ns + l) as u128,
                    average_divisor: (self.success_count + 1) as u64,
                    ..base
                },
                None => base,
            }
        } else {
            TargetStatus {
                failure_count: (self.failure_count + 1) as u64,
                consecutive_failures: (self.consecutive_failures + 1) as u64,
                last_failure_at: Some(finished_at),
                last_latency_ns: None,
                ..self
            }
        };
        TargetStatus {
            state: classify(counted.consecutive_failures, counted.failure_count),
            ..counted
        }
    }

    /// Folds one probe outcome into the statistics: a success bumps the success
    /// count, clears the failure streak and updates the latency figures; a failure
    /// bumps both failure counters and clears the last latency. The state is then
    /// down from three consecutive failures, warning while a streak is shorter,
    /// and healthy otherwise.
    pub fn apply_result(&mut self, result: &ProbeResult)
        requires
            old(self).spec_can_record(result.success, result.latency_ns),
        ensures
            *final(self) == old(self).recorded(result.success, result.finished_at, result.latency_ns),
            old(self).wf() ==> final(self).wf(),
            result.success ==> final(self).last_success_at == Some(result.finished_at)
                && final(self).last_failure_at == old(self).last_failure_at
                && final(self).success_count == old(self).success_count + 1
                && final(self).failure_count == old(self).failure_count
                && final(self).consecutive_failures == 0,
            !result.success ==> final(self).last_failure_at == Some(result.finished_at)
                && final(self).last_success_at == old(self).last_success_at
                && final(self).failure_count == old(self).failure_count + 1
                && final(self).success_count == old(self).success_count
                && final(self).consecutive_failures == old(self).consecutive_failures + 1
                && final(self).last_latency_ns is None,
            final(self).target_id == old(self).target_id,
    {
        let ghost before = *self;
        if result.success {
            self.success_count = self.success_count + 1;
            self.consecutive_failures = 0;
            self.last_success_at = Some(result.finished_at);
            if let Some(latency) = result.latency_ns {
                self.last_latency_ns = Some(latency);
                self.min_latency_ns = Some(
                    match self.min_latency_ns {
                        Some(v) => if v <= latency { v } else { latency },
                        None => latency,
                    },
                );
                self.max_latency_ns = Some(
                    match self.max_latency_ns {
                        Some(v) => if v >= latency { v } else { latency },
                        None => latency,
                    },
                );
                self.total_latency_ns = self.total_latency_ns + latency as u128;
                self.average_divisor = self.success_count;
            }
        } else {
            self.failure_count = self.failure_count + 1;
            self.consecutive_failures = self.consecutive_failures + 1;
            self.last_failure_at = Some(result.finished_at);
            self.last_latency_ns = None;
        }
        self.state = if self.consecutive_failures >= DOWN_AFTER_FAILURES {
            TargetState::Down
        } else if self.failure_count > 0 && self.consecutive_failures > 0 {
            TargetState::Warning
        } else {
            TargetState::Healthy
        };
        proof {
            if before.wf() && result.success {
                if let Some(l) = result.latency_ns {
                    assert(self.total_latency() <= self.success_count * 0xffff_ffff_ffff_ffff)
                        by (nonlinear_arith)
                        requires
                            self.total_latency() == before.total_latency() + l,
                            before.total_latency() <= before.success_count
                                * 0xffff_ffff_ffff_ffff,
                            self.success_count == before.success_count + 1,
                            l <= 0xffff_ffff_ffff_ffff,
                    ;
                } else {
                    assert(self.total_latency() <= self.success_count * 0xffff_ffff_ffff_ffff)
                        by (nonlinear_arith)
                        requires
                            self.total_latency() == before.total_latency(),
                            before.total_latency() <= before.success_count
                                * 0xffff_ffff_ffff_ffff,
                            self.success_count == before.success_count + 1,
                    ;
                }
            }
        }
    }

    /// Sum of the latencies of successful probes, in nanoseconds.
    pub fn latency_total_ns(&self) -> (r: u128)
        ensures
            r == self.total_latency(),
    {
        self.total_latency_ns
    }
}

/// Well-formed statistics can always take another outcome while the counters
/// are below their maximum.
pub proof fn lemma_wf_can_record(s: TargetStatus, success: bool, latency: Option<u64>)
    requires
        s.wf(),
        s.success_count < u64::MAX,
        s.failure_count < u64::MAX,
    ensures
        s.spec_can_record(success, latency),
{
    if success {
        if let Some(l) = latency {
            assert(s.total_latency() + l <= u128::MAX) by (nonlinear_arith)
                requires
                    s.total_latency() <= s.success_count * 0xffff_ffff_ffff_ffff,
                    s.success_count < 0xffff_ffff_ffff_ffff,
                    l <= 0xffff_ffff_ffff_ffff,
            ;
        }
    }
}

/// Three failed probes in a row leave any target down, whatever it was before.
pub proof fn lemma_three_failures_mark_down(s: TargetStatus, t1: Timestamp, t2: Timestamp, t3: Timestamp)
    requires
        s.failure_count + 3 <= u64::MAX,
        s.consecutive_failures + 3 <= u64::MAX,
    ensures
        ({
            let after = s.recorded(false, t1, None).recorded(false, t2, None).recorded(false, t3, None);
            &&& after.state == TargetState::Down
            &&& after.consecutive_failures == s.consecutive_failures + 3
            &&& after.failure_count == s.failure_count + 3
            &&& after.success_count == s.success_count
        }),
{
}

/// A successful probe clears the failure streak and leaves the target healthy.
pub proof fn lemma_success_restores_health(s: TargetStatus, t: Timestamp, latency: Option<u64>)
    requires
        s.success_count < u64::MAX,
    ensures
        s.recorded(true, t, latency).state == TargetState::Healthy,
        s.recorded(true, t, latency).consecutive_failures == 0,
        s.recorded(true, t, latency).failure_count == s.failure_count,
{
}

/// Every recorded outcome adds exactly one to the total of successes and failures.
pub proof fn lemma_record_counts_once(s: TargetStatus, success: bool, t: Timestamp, latency: Option<u64>)
    requires
        s.spec_can_record(success, latency),
    ensures
        s.recorded(success, t, latency).success_count + s.recorded(success, t, latency).failure_count
            == s.success_count + s.failure_count + 1,
{
}

/// After any outcome the state follows the failure streak alone: down from three
/// consecutive failures, warning for a shorter streak, healthy without one, and
/// never disabled; a success always leaves the target healthy. (Only when the
/// failure counter is already at its maximum could one more failure not count.)
pub proof fn lemma_state_follows_streak(s: TargetStatus, success: bool, t: Timestamp, latency: Option<u64>)
    ensures
        ({
            let after = s.recorded(success, t, latency);
            &&& after.state == classify(after.consecutive_failures, after.failure_count)
            &&& after.state != TargetState::Disabled
            &&& success ==> after.state == TargetState::Healthy && after.consecutive_failures == 0
            &&& (after.state == TargetState::Down <==> after.consecutive_failures >= 3)
            &&& (s.failure_count < u64::MAX ==> {
                &&& (after.state == TargetState::Warning <==> 1 <= after.consecutive_failures < 3)
                &&& (after.state == TargetState::Healthy <==> after.consecutive_failures == 0)
            })
        }),
{
}

/// The statistics after recording `results` in order, starting from `s`.
pub open spec fn recorded_all(s: TargetStatus, results: Seq<ProbeResult>) -> TargetStatus
    decreases results.len(),
{
    if results.len() == 0 {
        s
    } else {
        let r = results.last();
        recorded_all(s, results.drop_last()).recorded(r.success, r.finished_at, r.latency_ns)
    }
}

/// Latencies of the successful results that measured one, in order.
pub open spec fn success_latencies(results: Seq<ProbeResult>) -> Seq<u64>
    decreases results.len(),
{
    if results.len() == 0 {
        Seq::empty()
    } else {
        let earlier = success_latencies(results.drop_last());
        let r = results.last();
        if r.success && r.latency_ns is Some {
            earlier.push(r.latency_ns->0)
        } else {
            earlier
        }
    }
}

/// Number of successful results.
pub open spec fn success_total(results: Seq<ProbeResult>) -> nat
    decreases results.len(),
{
    if results.len() == 0 {
        0
    } else {
        success_total(results.drop_last()) + if results.last().success {
            1nat
        } else {
            0nat
        }
    }
}

/// Smallest of a non-empty list of latencies.
pub open spec fn seq_min(l: Seq<u64>) -> u64
    decreases l.len(),
{
    if l.len() <= 1 {
        l[0]
    } else {
        lower(Some(seq_min(l.drop_last())), l.last())
    }
}

/// Largest of a non-empty list of latencies.
pub open spec fn seq_max(l: Seq<u64>) -> u64
    decreases l.len(),
{
    if l.len() <= 1 {
        l[0]
    } else {
        higher(Some(seq_max(l.drop_last())), l.last())
    }
}

/// Sum of a list of latencies.
pub open spec fn seq_sum(l: Seq<u64>) -> int
    decreases l.len(),
{
    if l.len() == 0 {
        0
    } else {
        seq_sum(l.drop_last()) + l.last()
    }
}

/// The extremes bound every element, and the sum lies between `len` times each.
pub proof fn lemma_latency_bounds(l: Seq<u64>)
    requires
        l.len() > 0,
    ensures
        forall|i: int| 0 <= i < l.len() ==> seq_min(l) <= #[trigger] l[i] <= seq_max(l),
        seq_min(l) * l.len() <= seq_sum(l) <= seq_max(l) * l.len(),
    decreases l.len(),
{
    if l.len() == 1 {
        assert(l.drop_last() =~= Seq::<u64>::empty());
        assert(seq_sum(l) == seq_sum(l.drop_last()) + l.last());
        assert(l.last() == l[0]);
        assert(seq_min(l) * l.len() == l[0] as int);
        assert(seq_max(l) * l.len() == l[0] as int);
    } else {
        let e = l.drop_last();
        lemma_latency_bounds(e);
        let x = l.last();
        let lo = seq_min(e);
        let hi = seq_max(e);
        let n = e.len();
        assert forall|i: int| 0 <= i < l.len() implies seq_min(l) <= #[trigger] l[i] <= seq_max(l) by {
            if i < l.len() - 1 {
                assert(l[i] == e[i]);
            }
        }
        assert(seq_min(l) * l.len() <= seq_sum(l) <= seq_max(l) * l.len()) by (nonlinear_arith)
            requires
                lo * n <= seq_sum(e) <= hi * n,
                seq_sum(l) == seq_sum(e) + x,
                seq_min(l) <= lo,
                seq_min(l) <= x,
                seq_max(l) >= hi,
                seq_max(l) >= x,
                l.len() == n + 1,
                n >= 1,
                0 <= seq_min(l),
        ;
    }
}

/// Replaying outcomes from fresh statistics: the successes are counted, the
/// latency total is the sum of the measured latencies, the minimum and maximum
/// are those of the measured latencies (both absent while none was measured),
/// so the average lies between them, and the last latency is that of the last
/// outcome when it measured one and absent after a failure.
pub proof fn lemma_latency_statistics(id: i64, state: TargetState, results: Seq<ProbeResult>)
    requires
        results.len() < u64::MAX,
    ensures
        ({
            let after = recorded_all(TargetStatus::fresh(id, state), results);
            let l = success_latencies(results);
            &&& after.success_count == success_total(results)
            &&& after.total_latency() == seq_sum(l)
            &&& (after.min_latency_ns is None <==> l.len() == 0)
            &&& (after.max_latency_ns is None <==> l.len() == 0)
            &&& l.len() > 0 ==> {
                &&& after.min_latency_ns == Some(seq_min(l))
                &&& after.max_latency_ns == Some(seq_max(l))
                &&& seq_min(l) * l.len() <= after.total_latency() <= seq_max(l) * l.len()
            }
            &&& results.len() > 0 && !results.last().success ==> after.last_latency_ns is None
            &&& results.len() > 0 && results.last().success && results.last().latency_ns is Some
                ==> after.last_latency_ns == results.last().latency_ns
        }),
    decreases results.len(),
{
    lemma_replay_counts(id, state, results);
    let l = success_latencies(results);
    if l.len() > 0 {
        lemma_latency_bounds(l);
    }
}

proof fn lemma_replay_counts(id: i64, state: TargetState, results: Seq<ProbeResult>)
    requires
        results.len() < u64::MAX,
    ensures
        ({
            let after = recorded_all(TargetStatus::fresh(id, state), results);
            let l = success_latencies(results);
            &&& after.success_count == success_total(results)
            &&& success_total(results) <= results.len()
            &&& l.len() <= success_total(results)
            &&& after.total_latency() == seq_sum(l)
            &&& 0 <= seq_sum(l) <= l.len() * 0xffff_ffff_ffff_ffff
            &&& (after.min_latency_ns is None <==> l.len() == 0)
            &&& (after.max_latency_ns is None <==> l.len() == 0)
            &&& l.len() > 0 ==> after.min_latency_ns == Some(seq_min(l)) && after.max_latency_ns
                == Some(seq_max(l))
            &&& results.len() > 0 && !results.last().success ==> after.last_latency_ns is None
            &&& results.len() > 0 && results.last().success && results.last().latency_ns is Some
                ==> after.last_latency_ns == results.last().latency_ns
        }),
    decreases results.len(),
{
    if results.len() > 0 {
        let rest = results.drop_last();
        lemma_replay_counts(id, state, rest);
        let prev = recorded_all(TargetStatus::fresh(id, state), rest);
        let r = results.last();
        let lp = success_latencies(rest);
        let l = success_latencies(results);
        if r.success && r.latency_ns is Some {
            let x = r.latency_ns->0;
            assert(l.drop_last() =~= lp);
            assert(l.last() == x);
            assert(seq_sum(l) == seq_sum(lp) + x);
            assert(0 <= seq_sum(l) <= l.len() * 0xffff_ffff_ffff_ffff) by (nonlinear_arith)
                requires
                    0 <= seq_sum(lp) <= lp.len() * 0xffff_ffff_ffff_ffff,
                    seq_sum(l) == seq_sum(lp) + x,
                    0 <= x <= 0xffff_ffff_ffff_ffff,
                    l.len() == lp.len() + 1,
            ;
            assert(prev.total_latency() + x <= u128::MAX) by (nonlinear_arith)
                requires
                    prev.total_latency() == seq_sum(lp),
                    0 <= seq_sum(lp) <= lp.len() * 0xffff_ffff_ffff_ffff,
                    lp.len() < 0xffff_ffff_ffff_ffff,
                    0 <= x <= 0xffff_ffff_ffff_ffff,
            ;
            if lp.len() == 0 {
                assert(l.len() == 1);
            }
        }
    }
}

/// Each outcome is remembered with its finish time: a failure sets the last
/// failure time and leaves the last success time, a success the other way
/// round; the success and failure counters move by exactly one on their side,
/// a failure lengthens the streak by one and forgets the last latency, and a
/// success measured with a latency makes it the last latency.
pub proof fn lemma_outcome_is_remembered(s: TargetStatus, t: Timestamp, latency: Option<u64>)
    requires
        s.success_count < u64::MAX,
        s.failure_count < u64::MAX,
        s.consecutive_failures < u64::MAX,
    ensures
        ({
            let failed = s.recorded(false, t, latency);
            &&& failed.last_failure_at == Some(t)
            &&& failed.last_success_at == s.last_success_at
            &&& failed.failure_count == s.failure_count + 1
            &&& failed.consecutive_failures == s.consecutive_failures + 1
            &&& failed.success_count == s.success_count
            &&& failed.last_latency_ns is None
            &&& failed.target_id == s.target_id
        }),
        ({
            let succeeded = s.recorded(true, t, latency);
            &&& succeeded.last_success_at == Some(t)
            &&& succeeded.last_failure_at == s.last_failure_at
            &&& succeeded.success_count == s.success_count + 1
            &&& succeeded.failure_count == s.failure_count
            &&& succeeded.consecutive_failures == 0
            &&& succeeded.target_id == s.target_id
            &&& (latency matches Some(l) ==> succeeded.last_latency_ns == Some(l))
        }),
{
}

} // verus!
