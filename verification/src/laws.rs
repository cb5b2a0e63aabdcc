//! Laws of the polling cycle: what one completed cycle records for each
//! target, how failures stay isolated, and how per-target history grows.

use vstd::prelude::*;

use crate::domain::{Observation, Target};
use crate::probe::{fields_of, probe_wf, ProbeOutcome};
use crate::query::{lemma_obs_for_concat, obs_for};
use crate::worker::cycle_log;

verus! {

/// How many rows one cycle records for the target id `tid`: one for each
/// position whose target carries that id and whose store write succeeds.
pub open spec fn count_recorded(targets: Seq<Target>, write_ok: Seq<bool>, tid: i32) -> int
    decreases targets.len(),
{
    if targets.len() == 0 {
        0
    } else {
        (if targets[0].id == tid && write_ok[0] {
            1int
        } else {
            0int
        }) + count_recorded(targets.drop_first(), write_ok.drop_first(), tid)
    }
}

/// A cycle's log splits at any position: the rows for the first `i`
/// targets, then the rows for the rest, with ids and times shifted by
/// how many rows the first part recorded.
pub proof fn lemma_cycle_log_split(
    targets: Seq<Target>,
    probes: Seq<ProbeOutcome>,
    write_ok: Seq<bool>,
    next_id: int,
    next_time: int,
    i: int,
)
    requires
        probes.len() == targets.len(),
        write_ok.len() == targets.len(),
        0 <= i <= targets.len(),
    ensures
        ({
            let front = cycle_log(targets.take(i), probes.take(i), write_ok.take(i), next_id, next_time);
            cycle_log(targets, probes, write_ok, next_id, next_time) =~= front + cycle_log(
                targets.skip(i),
                probes.skip(i),
                write_ok.skip(i),
                next_id + front.len(),
                next_time + front.len(),
            )
        }),
    decreases i,
{
    let front = cycle_log(targets.take(i), probes.take(i), write_ok.take(i), next_id, next_time);
    if i == 0 {
        assert(targets.take(0) =~= Seq::<Target>::empty());
        assert(front =~= Seq::<Observation>::empty());
        assert(targets.skip(0) =~= targets);
        assert(probes.skip(0) =~= probes);
        assert(write_ok.skip(0) =~= write_ok);
        assert(front + cycle_log(targets, probes, write_ok, next_id, next_time) =~= cycle_log(
            targets,
            probes,
            write_ok,
            next_id,
            next_time,
        ));
    } else {
        let d0: int = if write_ok[0] {
            1
        } else {
            0
        };
        let t_tail = targets.drop_first();
        let p_tail = probes.drop_first();
        let w_tail = write_ok.drop_first();
        lemma_cycle_log_split(t_tail, p_tail, w_tail, next_id + d0, next_time + d0, i - 1);
        assert(targets.take(i)[0] == targets[0]);
        assert(write_ok.take(i)[0] == write_ok[0]);
        assert(probes.take(i)[0] == probes[0]);
        assert(targets.take(i).drop_first() =~= t_tail.take(i - 1));
        assert(probes.take(i).drop_first() =~= p_tail.take(i - 1));
        assert(write_ok.take(i).drop_first() =~= w_tail.take(i - 1));
        assert(targets.skip(i) =~= t_tail.skip(i - 1));
        assert(probes.skip(i) =~= p_tail.skip(i - 1));
        assert(write_ok.skip(i) =~= w_tail.skip(i - 1));
        let tail_front = cycle_log(
            t_tail.take(i - 1),
            p_tail.take(i - 1),
            w_tail.take(i - 1),
            next_id + d0,
            next_time + d0,
        );
        let tail_rest = cycle_log(
            t_tail.skip(i - 1),
            p_tail.skip(i - 1),
            w_tail.skip(i - 1),
            next_id + d0 + tail_front.len(),
            next_time + d0 + tail_front.len(),
        );
        if write_ok[0] {
            let head = seq![
                (Observation {
                    id: next_id as i32,
                    target_id: targets[0].id,
                    checked_at: (next_time + 1) as i64,
                    status_code: fields_of(probes[0]).0,
                    response_time_ms: fields_of(probes[0]).1,
                }),
            ];
            assert(front =~= head + tail_front);
            assert(cycle_log(targets, probes, write_ok, next_id, next_time) =~= head + (tail_front
                + tail_rest));
            assert(head + (tail_front + tail_rest) =~= (head + tail_front) + tail_rest);
        } else {
            assert(front =~= tail_front);
        }
    }
}

/// The exact row a cycle records for target `i` when its store write
/// succeeds: it sits after the rows of the earlier targets, carries that
/// target's id, the next free observation id, the next clock tick, and
/// exactly the fields its probe outcome classifies to.
pub proof fn lemma_recorded_row(
    targets: Seq<Target>,
    probes: Seq<ProbeOutcome>,
    write_ok: Seq<bool>,
    next_id: int,
    next_time: int,
    i: int,
)
    requires
        probes.len() == targets.len(),
        write_ok.len() == targets.len(),
        0 <= i < targets.len(),
        write_ok[i],
    ensures
        ({
            let log = cycle_log(targets, probes, write_ok, next_id, next_time);
            let pos = cycle_log(
                targets.take(i),
                probes.take(i),
                write_ok.take(i),
                next_id,
                next_time,
            ).len() as int;
            &&& 0 <= pos < log.len()
            &&& log[pos] == (Observation {
                id: (next_id + pos) as i32,
                target_id: targets[i].id,
                checked_at: (next_time + pos + 1) as i64,
                status_code: fields_of(probes[i]).0,
                response_time_ms: fields_of(probes[i]).1,
            })
        }),
{
    lemma_cycle_log_split(targets, probes, write_ok, next_id, next_time, i);
    let front = cycle_log(targets.take(i), probes.take(i), write_ok.take(i), next_id, next_time);
    let pos = front.len() as int;
    let rest = cycle_log(
        targets.skip(i),
        probes.skip(i),
        write_ok.skip(i),
        next_id + pos,
        next_time + pos,
    );
    assert(targets.skip(i)[0] == targets[i]);
    assert(probes.skip(i)[0] == probes[i]);
    assert(write_ok.skip(i)[0] == write_ok[i]);
    assert(rest[0] == (Observation {
        id: (next_id + pos) as i32,
        target_id: targets[i].id,
        checked_at: (next_time + pos + 1) as i64,
        status_code: fields_of(probes[i]).0,
        response_time_ms: fields_of(probes[i]).1,
    }));
    assert(cycle_log(targets, probes, write_ok, next_id, next_time)[pos] == rest[0]);
}

/// Law: a target probed successfully has its stored observation carry
/// both a status code and a latency, and the latency is never negative.
pub proof fn lemma_successful_probe_recorded(
    targets: Seq<Target>,
    probes: Seq<ProbeOutcome>,
    write_ok: Seq<bool>,
    next_id: int,
    next_time: int,
    i: int,
)
    requires
        probes.len() == targets.len(),
        write_ok.len() == targets.len(),
        0 <= i < targets.len(),
        write_ok[i],
        probes[i] is Responded,
        probe_wf(probes[i]),
    ensures
        ({
            let log = cycle_log(targets, probes, write_ok, next_id, next_time);
            let pos = cycle_log(
                targets.take(i),
                probes.take(i),
                write_ok.take(i),
                next_id,
                next_time,
            ).len() as int;
            &&& 0 <= pos < log.len()
            &&& log[pos].target_id == targets[i].id
            &&& log[pos].status_code is Some
            &&& log[pos].response_time_ms is Some
            &&& log[pos].response_time_ms->0 >= 0
            &&& log[pos].status_code == Some(probes[i]->status_code)
            &&& log[pos].response_time_ms == Some(probes[i]->response_time_ms)
        }),
{
    lemma_recorded_row(targets, probes, write_ok, next_id, next_time, i);
}

/// Law: a target whose probe fails at the transport level still gets
/// exactly its own observation row, with both fields absent — the
/// failure is recorded, never dropped.
pub proof fn lemma_transport_failure_recorded(
    targets: Seq<Target>,
    probes: Seq<ProbeOutcome>,
    write_ok: Seq<bool>,
    next_id: int,
    next_time: int,
    i: int,
)
    requires
        probes.len() == targets.len(),
        write_ok.len() == targets.len(),
        0 <= i < targets.len(),
        write_ok[i],
        probes[i] is TransportFailed,
    ensures
        ({
            let log = cycle_log(targets, probes, write_ok, next_id, next_time);
            let pos = cycle_log(
                targets.take(i),
                probes.take(i),
                write_ok.take(i),
                next_id,
                next_time,
            ).len() as int;
            &&& 0 <= pos < log.len()
            &&& log[pos].target_id == targets[i].id
            &&& log[pos].status_code is None
            &&& log[pos].response_time_ms is None
        }),
{
    lemma_recorded_row(targets, probes, write_ok, next_id, next_time, i);
}

/// A cycle records for any target id exactly as many rows as
/// `count_recorded` says: one per position with that id and a
/// successful write.
pub proof fn lemma_cycle_count_per_target(
    targets: Seq<Target>,
    probes: Seq<ProbeOutcome>,
    write_ok: Seq<bool>,
    next_id: int,
    next_time: int,
    tid: i32,
)
    requires
        probes.len() == targets.len(),
        write_ok.len() == targets.len(),
    ensures
        obs_for(cycle_log(targets, probes, write_ok, next_id, next_time), tid).len()
            == count_recorded(targets, write_ok, tid),
    decreases targets.len(),
{
    if targets.len() == 0 {
    } else {
        let d0: int = if write_ok[0] {
            1
        } else {
            0
        };
        let rest = cycle_log(
            targets.drop_first(),
            probes.drop_first(),
            write_ok.drop_first(),
            next_id + d0,
            next_time + d0,
        );
        lemma_cycle_count_per_target(
            targets.drop_first(),
            probes.drop_first(),
            write_ok.drop_first(),
            next_id + d0,
            next_time + d0,
            tid,
        );
        if write_ok[0] {
            let head = Observation {
                id: next_id as i32,
                target_id: targets[0].id,
                checked_at: (next_time + 1) as i64,
                status_code: fields_of(probes[0]).0,
                response_time_ms: fields_of(probes[0]).1,
            };
            let s = seq![head] + rest;
            assert(cycle_log(targets, probes, write_ok, next_id, next_time) =~= s);
            assert(s[0] == head);
            assert(s.drop_first() =~= rest);
            if targets[0].id == tid {
                assert(obs_for(s, tid) =~= seq![head] + obs_for(rest, tid));
            } else {
                assert(obs_for(s, tid) =~= obs_for(rest, tid));
            }
        }
    }
}

/// A target id no position carries is never recorded for.
pub proof fn lemma_count_recorded_absent(targets: Seq<Target>, write_ok: Seq<bool>, tid: i32)
    requires
        write_ok.len() == targets.len(),
        forall|i: int| 0 <= i < targets.len() ==> (#[trigger] targets[i]).id != tid,
    ensures
        count_recorded(targets, write_ok, tid) == 0,
    decreases targets.len(),
{
    if targets.len() > 0 {
        assert(forall|i: int| 0 <= i < targets.drop_first().len() ==> #[trigger] targets.drop_first()[i]
            == targets[i + 1]);
        lemma_count_recorded_absent(targets.drop_first(), write_ok.drop_first(), tid);
    }
}

/// With unique target ids, a cycle records for target `j` exactly one
/// row if its write succeeds, and none if it fails — independent of
/// every other target's write.
pub proof fn lemma_count_recorded_unique(targets: Seq<Target>, write_ok: Seq<bool>, j: int)
    requires
        write_ok.len() == targets.len(),
        forall|a: int, b: int| 0 <= a < b < targets.len() ==> targets[a].id != targets[b].id,
        0 <= j < targets.len(),
    ensures
        count_recorded(targets, write_ok, targets[j].id) == if write_ok[j] {
            1int
        } else {
            0int
        },
    decreases targets.len(),
{
    assert(forall|i: int| 0 <= i < targets.drop_first().len() ==> #[trigger] targets.drop_first()[i]
        == targets[i + 1]);
    if j == 0 {
        assert(forall|i: int|
            0 <= i < targets.drop_first().len() ==> (#[trigger] targets.drop_first()[i]).id
                != targets[0].id);
        lemma_count_recorded_absent(targets.drop_first(), write_ok.drop_first(), targets[0].id);
    } else {
        lemma_count_recorded_unique(targets.drop_first(), write_ok.drop_first(), j - 1);
        assert(targets.drop_first()[j - 1] == targets[j]);
        assert(targets[0].id != targets[j].id);
    }
}

/// Law: one target's store-write failure does not prevent observations
/// being recorded for the other targets of the same cycle — the failed
/// target gets no row, every other written target gets exactly its one.
pub proof fn lemma_write_failure_isolated(
    targets: Seq<Target>,
    probes: Seq<ProbeOutcome>,
    write_ok: Seq<bool>,
    next_id: int,
    next_time: int,
    i: int,
    j: int,
)
    requires
        probes.len() == targets.len(),
        write_ok.len() == targets.len(),
        forall|a: int, b: int| 0 <= a < b < targets.len() ==> targets[a].id != targets[b].id,
        0 <= i < targets.len(),
        0 <= j < targets.len(),
        i != j,
        !write_ok[i],
        write_ok[j],
    ensures
        obs_for(cycle_log(targets, probes, write_ok, next_id, next_time), targets[j].id).len()
            == 1,
        obs_for(cycle_log(targets, probes, write_ok, next_id, next_time), targets[i].id).len()
            == 0,
{
    lemma_cycle_count_per_target(targets, probes, write_ok, next_id, next_time, targets[j].id);
    lemma_count_recorded_unique(targets, write_ok, j);
    lemma_cycle_count_per_target(targets, probes, write_ok, next_id, next_time, targets[i].id);
    lemma_count_recorded_unique(targets, write_ok, i);
}

/// Law: absent store-write failures, one completed cycle appended to any
/// existing log adds exactly one observation for each monitored target —
/// so after K completed cycles a target holds exactly K observations, no
/// duplicate and no missing row.
pub proof fn lemma_cycle_adds_exactly_one(
    log: Seq<Observation>,
    targets: Seq<Target>,
    probes: Seq<ProbeOutcome>,
    write_ok: Seq<bool>,
    next_id: int,
    next_time: int,
    j: int,
)
    requires
        probes.len() == targets.len(),
        write_ok.len() == targets.len(),
        forall|a: int, b: int| 0 <= a < b < targets.len() ==> targets[a].id != targets[b].id,
        0 <= j < targets.len(),
        forall|i: int| 0 <= i < write_ok.len() ==> write_ok[i],
    ensures
        obs_for(log + cycle_log(targets, probes, write_ok, next_id, next_time), targets[j].id).len()
            == obs_for(log, targets[j].id).len() + 1,
{
    lemma_obs_for_concat(
        log,
        cycle_log(targets, probes, write_ok, next_id, next_time),
        targets[j].id,
    );
    lemma_cycle_count_per_target(targets, probes, write_ok, next_id, next_time, targets[j].id);
    lemma_count_recorded_unique(targets, write_ok, j);
}

} // verus!
