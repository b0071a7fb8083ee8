//! Grouping of failed probes into failure events.

use vstd::prelude::*;

use crate::models::{FailureEvent, ProbeResult};
use crate::time::{lemma_seconds_between_bounded, seconds_between, spec_seconds_between, Timestamp};

verus! {

/// Finish times of the failed results, in their order.
pub open spec fn failure_times(results: Seq<ProbeResult>) -> Seq<Timestamp>
    decreases results.len(),
{
    if results.len() == 0 {
        Seq::empty()
    } else {
        let earlier = failure_times(results.drop_last());
        if results.last().success {
            earlier
        } else {
            earlier.push(results.last().finished_at)
        }
    }
}

/// The gap actually allowed between failures of one event: at least one second.
pub open spec fn effective_gap(max_gap_seconds: i64) -> i64 {
    if max_gap_seconds < 1 {
        1
    } else {
        max_gap_seconds
    }
}

/// An event made of the single failure at `t`.
pub open spec fn opened_event(target_id: i64, t: Timestamp) -> FailureEvent {
    FailureEvent { target_id, started_at: t, ended_at: t, failure_count: 1, duration_seconds: 0 }
}

/// `e` extended by a further failure at `t`.
pub open spec fn extended_event(e: FailureEvent, t: Timestamp) -> FailureEvent {
    FailureEvent {
        ended_at: t,
        failure_count: (e.failure_count + 1) as u64,
        duration_seconds: spec_seconds_between(t, e.started_at) as i64,
        ..e
    }
}

/// Failure events of the failure times `times`, taken in order: a failure joins
/// the last event when it comes at most `gap` whole seconds after that event's
/// end, and opens a new event otherwise.
pub open spec fn group_failures(target_id: i64, times: Seq<Timestamp>, gap: i64) -> Seq<
    FailureEvent,
>
    decreases times.len(),
{
    if times.len() == 0 {
        Seq::empty()
    } else {
        let earlier = group_failures(target_id, times.drop_last(), gap);
        let t = times.last();
        if earlier.len() > 0 && spec_seconds_between(t, earlier.last().ended_at) <= gap {
            earlier.update(earlier.len() - 1, extended_event(earlier.last(), t))
        } else {
            earlier.push(opened_event(target_id, t))
        }
    }
}

/// Total of the failure counts of `events`.
pub open spec fn counted_failures(events: Seq<FailureEvent>) -> int
    decreases events.len(),
{
    if events.len() == 0 {
        0
    } else {
        counted_failures(events.drop_last()) + events.last().failure_count
    }
}

/// Every failure time is a representable instant.
pub open spec fn times_wf(times: Seq<Timestamp>) -> bool {
    forall|i: int| 0 <= i < times.len() ==> (#[trigger] times[i]).wf()
}

/// Shape of the events: each starts and ends at a failure time, holds between one
/// failure and all of them, and carries its length in whole seconds.
pub open spec fn events_shaped(events: Seq<FailureEvent>, target_id: i64, n: int) -> bool {
    forall|k: int|
        0 <= k < events.len() ==> {
            let e = #[trigger] events[k];
            &&& e.target_id == target_id
            &&& e.started_at.wf()
            &&& e.ended_at.wf()
            &&& 1 <= e.failure_count <= n
            &&& e.duration_seconds == spec_seconds_between(e.ended_at, e.started_at)
        }
}

proof fn lemma_group_shape(target_id: i64, times: Seq<Timestamp>, gap: i64)
    requires
        times_wf(times),
        times.len() <= u64::MAX,
    ensures
        events_shaped(group_failures(target_id, times, gap), target_id, times.len() as int),
        times.len() > 0 ==> group_failures(target_id, times, gap).len() > 0,
        counted_failures(group_failures(target_id, times, gap)) == times.len(),
    decreases times.len(),
{
    if times.len() > 0 {
        let rest = times.drop_last();
        assert(times_wf(rest)) by {
            assert forall|i: int| 0 <= i < rest.len() implies (#[trigger] rest[i]).wf() by {
                assert(rest[i] == times[i]);
            }
        }
        lemma_group_shape(target_id, rest, gap);
        let earlier = group_failures(target_id, rest, gap);
        let t = times.last();
        assert(t.wf()) by {
            assert(times[times.len() - 1] == t);
        }
        if earlier.len() > 0 && spec_seconds_between(t, earlier.last().ended_at) <= gap {
            let last = earlier.last();
            assert(earlier[earlier.len() - 1] == last);
            let ext = extended_event(last, t);
            let grouped = earlier.update(earlier.len() - 1, ext);
            assert(-20_000_000_000_000 <= spec_seconds_between(t, last.started_at)
                <= 20_000_000_000_000) by {
                lemma_seconds_between_bounded(t, last.started_at);
            }
            assert(grouped.drop_last() =~= earlier.drop_last());
            assert(grouped.last() == ext);
            assert(ext.failure_count == last.failure_count + 1);
            assert(counted_failures(grouped) == counted_failures(earlier) + 1);
        } else {
            let grouped = earlier.push(opened_event(target_id, t));
            assert(grouped.drop_last() =~= earlier);
        }
    }
}

/// Groups the failed results (taken in the given order, normally by finish time)
/// into failure events: a failure within `max_gap_seconds` (at least one) whole
/// seconds of the current event's end extends it, any other starts a new one.
pub fn failure_events(target_id: i64, results: &Vec<ProbeResult>, max_gap_seconds: i64) -> (r: Vec<
    FailureEvent,
>)
    requires
        forall|i: int| 0 <= i < results@.len() ==> (#[trigger] results@[i]).finished_at.wf(),
    ensures
        r@ == group_failures(target_id, failure_times(results@), effective_gap(max_gap_seconds)),
        max_gap_seconds >= 1 ==> r@ == group_failures(target_id, failure_times(results@), max_gap_seconds),
        max_gap_seconds < 1 ==> r@ == group_failures(target_id, failure_times(results@), 1),
{
    let gap: i64 = if max_gap_seconds < 1 {
        1
    } else {
        max_gap_seconds
    };
    let mut events: Vec<FailureEvent> = Vec::new();
    let n = results.len();
    let mut i: usize = 0;
    proof {
        assert(results@.take(0) =~= Seq::<ProbeResult>::empty());
    }
    while i < n
        invariant
            n == results@.len(),
            i <= n,
            gap == effective_gap(max_gap_seconds),
            forall|j: int| 0 <= j < results@.len() ==> (#[trigger] results@[j]).finished_at.wf(),
            n <= usize::MAX,
            times_wf(failure_times(results@.take(i as int))),
            failure_times(results@.take(i as int)).len() <= i,
            events@ == group_failures(target_id, failure_times(results@.take(i as int)), gap),
        decreases n - i,
    {
        let ghost before = results@.take(i as int);
        let ghost after = results@.take(i + 1);
        proof {
            assert(after.drop_last() =~= before);
            assert(after.last() == results@[i as int]);
        }
        let result = &results[i];
        if !result.success {
            let t = result.finished_at;
            let ghost times = failure_times(before);
            proof {
                lemma_group_shape(target_id, times, gap);
                assert(failure_times(after) == times.push(t));
                assert(times.push(t).drop_last() =~= times);
                assert(times.push(t).last() == t);
                assert(times_wf(times.push(t))) by {
                    assert forall|k: int| 0 <= k < times.push(t).len() implies (#[trigger] times.push(
                        t,
                    )[k]).wf() by {
                        if k < times.len() {
                            assert(times.push(t)[k] == times[k]);
                        }
                    }
                }
            }
            let len = events.len();
            if len > 0 && seconds_between(t, events[len - 1].ended_at) <= gap {
                let last = events[len - 1];
                proof {
                    assert(events@[len - 1] == events@.last());
                    assert(last.failure_count <= times.len());
                }
                let ext = FailureEvent {
                    ended_at: t,
                    failure_count: last.failure_count + 1,
                    duration_seconds: seconds_between(t, last.started_at),
                    ..last
                };
                events.set(len - 1, ext);
            } else {
                events.push(
                    FailureEvent {
                        target_id,
                        started_at: t,
                        ended_at: t,
                        failure_count: 1,
                        duration_seconds: 0,
                    },
                );
            }
        } else {
            proof {
                assert(failure_times(after) == failure_times(before));
            }
        }
        i = i + 1;
    }
    proof {
        assert(results@.take(n as int) =~= results@);
    }
    events
}

/// Every failed result is counted in exactly one event: the failure counts of the
/// events add up to the number of failures.
pub proof fn lemma_events_count_every_failure(target_id: i64, results: Seq<ProbeResult>, max_gap_seconds: i64)
    requires
        results.len() <= u64::MAX,
        forall|i: int| 0 <= i < results.len() ==> (#[trigger] results[i]).finished_at.wf(),
    ensures
        counted_failures(
            group_failures(target_id, failure_times(results), effective_gap(max_gap_seconds)),
        ) == failure_times(results).len(),
{
    lemma_failure_times_wf(results);
    lemma_group_shape(target_id, failure_times(results), effective_gap(max_gap_seconds));
}

proof fn lemma_failure_times_wf(results: Seq<ProbeResult>)
    requires
        forall|i: int| 0 <= i < results.len() ==> (#[trigger] results[i]).finished_at.wf(),
    ensures
        times_wf(failure_times(results)),
        failure_times(results).len() <= results.len(),
    decreases results.len(),
{
    if results.len() > 0 {
        let rest = results.drop_last();
        assert forall|i: int| 0 <= i < rest.len() implies (#[trigger] rest[i]).finished_at.wf() by {
            assert(rest[i] == results[i]);
        }
        lemma_failure_times_wf(rest);
        assert(results[results.len() - 1] == results.last());
        let earlier = failure_times(rest);
        if !results.last().success {
            assert forall|k: int| 0 <= k < earlier.push(results.last().finished_at).len() implies (
            #[trigger] earlier.push(results.last().finished_at)[k]).wf() by {
                if k < earlier.len() {
                    assert(earlier.push(results.last().finished_at)[k] == earlier[k]);
                }
            }
        }
    }
}

/// Consecutive events are separated by more than the allowed gap: the next event
/// starts more than `gap` whole seconds after the previous one ends.
pub proof fn lemma_events_separated(target_id: i64, times: Seq<Timestamp>, gap: i64)
    ensures
        ({
            let events = group_failures(target_id, times, gap);
            forall|k: int|
                0 <= k < events.len() - 1 ==> spec_seconds_between(
                    #[trigger] events[k + 1].started_at,
                    events[k].ended_at,
                ) > gap
        }),
    decreases times.len(),
{
    if times.len() > 0 {
        let rest = times.drop_last();
        lemma_events_separated(target_id, rest, gap);
        let earlier = group_failures(target_id, rest, gap);
        let t = times.last();
        let events = group_failures(target_id, times, gap);
        if earlier.len() > 0 && spec_seconds_between(t, earlier.last().ended_at) <= gap {
            assert forall|k: int| 0 <= k < events.len() - 1 implies spec_seconds_between(
                #[trigger] events[k + 1].started_at,
                events[k].ended_at,
            ) > gap by {
                assert(events[k] == earlier[k]);
                assert(events[k + 1].started_at == earlier[k + 1].started_at);
            }
        } else {
            assert forall|k: int| 0 <= k < events.len() - 1 implies spec_seconds_between(
                #[trigger] events[k + 1].started_at,
                events[k].ended_at,
            ) > gap by {
                assert(events[k] == earlier[k]);
                if k + 1 < earlier.len() {
                    assert(events[k + 1] == earlier[k + 1]);
                } else {
                    assert(earlier[k] == earlier.last());
                }
            }
        }
    }
}


proof fn lemma_group_last_end(target_id: i64, times: Seq<Timestamp>, gap: i64)
    requires
        times.len() > 0,
    ensures
        group_failures(target_id, times, gap).len() > 0,
        group_failures(target_id, times, gap).last().ended_at == times.last(),
    decreases times.len(),
{
    let rest = times.drop_last();
    if rest.len() > 0 {
        lemma_group_last_end(target_id, rest, gap);
    }
}

/// A wider gap only merges events: with `gap1 <= gap2` there are no more events
/// under `gap2` than under `gap1`, both count every failure, gaps below one
/// second act as one second, and without failures there is no event.
pub proof fn lemma_wider_gap_merges(target_id: i64, times: Seq<Timestamp>, gap1: i64, gap2: i64)
    requires
        gap1 <= gap2,
    ensures
        group_failures(target_id, times, gap2).len() <= group_failures(target_id, times, gap1).len(),
        times_wf(times) && times.len() <= u64::MAX ==> counted_failures(
            group_failures(target_id, times, gap1),
        ) == counted_failures(group_failures(target_id, times, gap2)),
        gap2 <= 1 ==> group_failures(target_id, times, effective_gap(gap2)) == group_failures(
            target_id,
            times,
            effective_gap(1),
        ),
        times.len() == 0 ==> group_failures(target_id, times, gap1).len() == 0,
    decreases times.len(),
{
    if times.len() > 0 {
        let rest = times.drop_last();
        lemma_wider_gap_merges(target_id, rest, gap1, gap2);
        if rest.len() > 0 {
            lemma_group_last_end(target_id, rest, gap1);
            lemma_group_last_end(target_id, rest, gap2);
        }
    }
    if times_wf(times) && times.len() <= u64::MAX {
        lemma_group_shape(target_id, times, gap1);
        lemma_group_shape(target_id, times, gap2);
    }
}


/// `a` is not after `b`, comparing seconds, then the sub-second part.
pub open spec fn not_after(a: Timestamp, b: Timestamp) -> bool {
    a.secs < b.secs || (a.secs == b.secs && a.nanos <= b.nanos)
}

/// The failure times are in ascending order.
pub open spec fn times_sorted(times: Seq<Timestamp>) -> bool {
    forall|i: int, j: int| 0 <= i <= j < times.len() ==> not_after(#[trigger] times[i], #[trigger] times[j])
}

/// From failures in ascending order come events in ascending order: each event
/// starts no later than it ends and ends no later than the next one starts.
pub proof fn lemma_events_in_order(target_id: i64, times: Seq<Timestamp>, gap: i64)
    requires
        times_sorted(times),
    ensures
        ({
            let events = group_failures(target_id, times, gap);
            &&& forall|k: int| 0 <= k < events.len() ==> not_after(
                (#[trigger] events[k]).started_at,
                events[k].ended_at,
            )
            &&& forall|k: int|
                0 <= k < events.len() - 1 ==> not_after(
                    (#[trigger] events[k]).ended_at,
                    events[k + 1].started_at,
                )
        }),
    decreases times.len(),
{
    if times.len() > 0 {
        let rest = times.drop_last();
        assert(times_sorted(rest)) by {
            assert forall|i: int, j: int| 0 <= i <= j < rest.len() implies not_after(
                #[trigger] rest[i],
                #[trigger] rest[j],
            ) by {
                assert(rest[i] == times[i] && rest[j] == times[j]);
            }
        }
        lemma_events_in_order(target_id, rest, gap);
        let earlier = group_failures(target_id, rest, gap);
        let events = group_failures(target_id, times, gap);
        let t = times.last();
        if rest.len() > 0 {
            lemma_group_last_end(target_id, rest, gap);
            assert(not_after(times[rest.len() - 1], times[times.len() - 1]));
            assert(earlier.last().ended_at == rest.last());
            assert(rest.last() == times[rest.len() - 1]);
        }
        if earlier.len() > 0 && spec_seconds_between(t, earlier.last().ended_at) <= gap {
            assert forall|k: int| 0 <= k < events.len() implies not_after(
                (#[trigger] events[k]).started_at,
                events[k].ended_at,
            ) by {
                if k < events.len() - 1 {
                    assert(events[k] == earlier[k]);
                } else {
                    assert(earlier[k] == earlier.last());
                }
            }
            assert forall|k: int| 0 <= k < events.len() - 1 implies not_after(
                (#[trigger] events[k]).ended_at,
                events[k + 1].started_at,
            ) by {
                assert(events[k] == earlier[k]);
                assert(events[k + 1].started_at == earlier[k + 1].started_at);
            }
        } else {
            assert forall|k: int| 0 <= k < events.len() implies not_after(
                (#[trigger] events[k]).started_at,
                events[k].ended_at,
            ) by {
                if k < earlier.len() {
                    assert(events[k] == earlier[k]);
                }
            }
            assert forall|k: int| 0 <= k < events.len() - 1 implies not_after(
                (#[trigger] events[k]).ended_at,
                events[k + 1].started_at,
            ) by {
                assert(events[k] == earlier[k]);
                if k + 1 < earlier.len() {
                    assert(events[k + 1] == earlier[k + 1]);
                } else {
                    assert(earlier[k] == earlier.last());
                }
            }
        }
    }
}


/// The allowed gap is the one asked for whenever it is at least one second;
/// smaller ones count as one second.
pub proof fn lemma_gap_is_kept(max_gap_seconds: i64)
    ensures
        max_gap_seconds >= 1 ==> effective_gap(max_gap_seconds) == max_gap_seconds,
        max_gap_seconds < 1 ==> effective_gap(max_gap_seconds) == 1,
{
}

/// Number of places where a failure comes more than `gap` whole seconds after
/// the failure before it.
pub open spec fn gaps_over(times: Seq<Timestamp>, gap: i64) -> nat
    decreases times.len(),
{
    if times.len() <= 1 {
        0
    } else {
        gaps_over(times.drop_last(), gap) + if spec_seconds_between(
            times.last(),
            times[times.len() - 2],
        ) > gap {
            1nat
        } else {
            0nat
        }
    }
}

/// Events split exactly where one failure comes more than `gap` whole seconds
/// after the previous failure: there is one event more than such places, so two
/// failures at most `gap` seconds apart always share an event.
pub proof fn lemma_events_split_at_long_gaps(target_id: i64, times: Seq<Timestamp>, gap: i64)
    ensures
        times.len() > 0 ==> group_failures(target_id, times, gap).len() == 1 + gaps_over(times, gap),
        times.len() == 0 ==> group_failures(target_id, times, gap).len() == 0,
    decreases times.len(),
{
    if times.len() > 0 {
        let rest = times.drop_last();
        lemma_events_split_at_long_gaps(target_id, rest, gap);
        if rest.len() > 0 {
            lemma_group_last_end(target_id, rest, gap);
            assert(rest.last() == times[times.len() - 2]);
        }
    }
}

/// A failure at most `gap` whole seconds after the end of the current event
/// joins it: the events keep their number and the last one counts one more failure.
pub proof fn lemma_close_failure_joins(target_id: i64, times: Seq<Timestamp>, t: Timestamp, gap: i64)
    requires
        times.len() > 0,
        spec_seconds_between(t, times.last()) <= gap,
    ensures
        group_failures(target_id, times.push(t), gap).len() == group_failures(target_id, times, gap).len(),
        group_failures(target_id, times.push(t), gap).last().failure_count == (group_failures(
            target_id,
            times,
            gap,
        ).last().failure_count + 1) as u64,
        group_failures(target_id, times.push(t), gap).last().ended_at == t,
        group_failures(target_id, times.push(t), gap).last().started_at == group_failures(
            target_id,
            times,
            gap,
        ).last().started_at,
{
    lemma_group_last_end(target_id, times, gap);
    assert(times.push(t).drop_last() =~= times);
}

} // verus!
