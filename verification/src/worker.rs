//! The polling worker's cycle: enumerate the current targets, take each
//! one's probe outcome, and record one observation per target, isolating
//! failures so one bad target never blocks or corrupts results for
//! others.
//!
//! The cycle body is a pure function of the target list, the probe
//! outcomes, and the store: the loop and sleep around it, the network
//! calls, and the real database writes happen outside the library, which
//! is handed the outcome of each and decides what is recorded.

use vstd::prelude::*;

use crate::domain::{Observation, Target};
use crate::probe::{fields_of, probe_wf, ProbeOutcome};
use crate::store::Store;

verus! {

/// Seconds between the end of one polling cycle and the start of the
/// next.
pub const CYCLE_INTERVAL_SECS: u64 = 60;

/// The observations one cycle appends to a log, given the targets in
/// order, each target's probe outcome, and whether each target's store
/// write succeeded. `next_id` and `next_time` are the store's id counter
/// and clock when the cycle starts.
///
/// Each target with a successful write contributes exactly one row,
/// carrying that target's id and the fields its probe outcome classifies
/// to; a failed write contributes nothing and shifts neither ids nor
/// times for the targets after it.
pub open spec fn cycle_log(
    targets: Seq<Target>,
    probes: Seq<ProbeOutcome>,
    write_ok: Seq<bool>,
    next_id: int,
    next_time: int,
) -> Seq<Observation>
    decreases targets.len(),
{
    if targets.len() == 0 {
        Seq::empty()
    } else {
        let rest = cycle_log(
            targets.drop_first(),
            probes.drop_first(),
            write_ok.drop_first(),
            next_id + if write_ok[0] {
                1int
            } else {
                0int
            },
            next_time + if write_ok[0] {
                1int
            } else {
                0int
            },
        );
        if write_ok[0] {
            seq![
                Observation {
                    id: next_id as i32,
                    target_id: targets[0].id,
                    checked_at: (next_time + 1) as i64,
                    status_code: fields_of(probes[0]).0,
                    response_time_ms: fields_of(probes[0]).1,
                },
            ] + rest
        } else {
            rest
        }
    }
}

/// A cycle records at most one row per target, and exactly one per
/// target when every write succeeds.
pub proof fn lemma_cycle_log_len(
    targets: Seq<Target>,
    probes: Seq<ProbeOutcome>,
    write_ok: Seq<bool>,
    next_id: int,
    next_time: int,
)
    requires
        probes.len() == targets.len(),
        write_ok.len() == targets.len(),
    ensures
        cycle_log(targets, probes, write_ok, next_id, next_time).len() <= targets.len(),
        (forall|i: int| 0 <= i < write_ok.len() ==> write_ok[i]) ==> cycle_log(
            targets,
            probes,
            write_ok,
            next_id,
            next_time,
        ).len() == targets.len(),
    decreases targets.len(),
{
    if targets.len() > 0 {
        lemma_cycle_log_len(
            targets.drop_first(),
            probes.drop_first(),
            write_ok.drop_first(),
            next_id + if write_ok[0] {
                1int
            } else {
                0int
            },
            next_time + if write_ok[0] {
                1int
            } else {
                0int
            },
        );
        assert(forall|i: int| 0 <= i < write_ok.drop_first().len() ==> write_ok.drop_first()[i]
            == write_ok[i + 1]);
    }
}

/// Run one polling cycle against the store.
///
/// `load_ok` is whether loading the target list from the store
/// succeeded; on a failed load the whole cycle is skipped and the store
/// is untouched — the worker does not crash, it simply waits for the
/// next interval. Otherwise `probes@[i]` is the probe outcome for
/// `targets@[i]` and `write_ok@[i]` is whether that target's store
/// write succeeds; the observations appended are exactly
/// [`cycle_log`] of the store's state at the start of the cycle. The
/// target list itself is never changed, and every outcome — response or
/// transport failure — that is written lands as one explicit row.
pub fn run_cycle(
    store: &mut Store,
    load_ok: bool,
    probes: &Vec<ProbeOutcome>,
    write_ok: &Vec<bool>,
)
    requires
        old(store).wf(),
        probes@.len() == old(store).targets@.len(),
        write_ok@.len() == old(store).targets@.len(),
        forall|i: int| 0 <= i < probes@.len() ==> probe_wf(#[trigger] probes@[i]),
        old(store).next_observation_id + old(store).targets@.len() <= i32::MAX,
        old(store).clock + old(store).targets@.len() <= i64::MAX,
    ensures
        final(store).wf(),
        final(store).targets@ == old(store).targets@,
        final(store).next_target_id == old(store).next_target_id,
        !load_ok ==> *final(store) == *old(store),
        load_ok ==> final(store).observations@ =~= old(store).observations@ + cycle_log(
            old(store).targets@,
            probes@,
            write_ok@,
            old(store).next_observation_id as int,
            old(store).clock as int,
        ),
        load_ok ==> final(store).next_observation_id == old(store).next_observation_id + cycle_log(
            old(store).targets@,
            probes@,
            write_ok@,
            old(store).next_observation_id as int,
            old(store).clock as int,
        ).len(),
        load_ok ==> final(store).clock == old(store).clock + cycle_log(
            old(store).targets@,
            probes@,
            write_ok@,
            old(store).next_observation_id as int,
            old(store).clock as int,
        ).len(),
{
    if !load_ok {
        return ;
    }
    let ghost full = cycle_log(
        old(store).targets@,
        probes@,
        write_ok@,
        old(store).next_observation_id as int,
        old(store).clock as int,
    );
    let n = store.targets.len();
    let mut i: usize = 0;
    proof {
        assert(old(store).targets@.skip(0) =~= old(store).targets@);
        assert(probes@.skip(0) =~= probes@);
        assert(write_ok@.skip(0) =~= write_ok@);
    }
    while i < n
        invariant
            0 <= i <= n,
            store.wf(),
            n == store.targets@.len(),
            store.targets@ == old(store).targets@,
            store.next_target_id == old(store).next_target_id,
            probes@.len() == n,
            write_ok@.len() == n,
            forall|k: int| 0 <= k < probes@.len() ==> probe_wf(#[trigger] probes@[k]),
            old(store).next_observation_id + n <= i32::MAX,
            old(store).clock + n <= i64::MAX,
            store.observations@.len() - old(store).observations@.len() == store.next_observation_id
                - old(store).next_observation_id,
            store.observations@.len() - old(store).observations@.len() == store.clock - old(
                store,
            ).clock,
            store.observations@.len() - old(store).observations@.len() <= i,
            full == cycle_log(
                old(store).targets@,
                probes@,
                write_ok@,
                old(store).next_observation_id as int,
                old(store).clock as int,
            ),
            old(store).observations@ + full =~= store.observations@ + cycle_log(
                old(store).targets@.skip(i as int),
                probes@.skip(i as int),
                write_ok@.skip(i as int),
                store.next_observation_id as int,
                store.clock as int,
            ),
        decreases n - i,
    {
        let ghost t_rest = old(store).targets@.skip(i as int);
        let ghost p_rest = probes@.skip(i as int);
        let ghost w_rest = write_ok@.skip(i as int);
        proof {
            assert(t_rest[0] == old(store).targets@[i as int]);
            assert(p_rest[0] == probes@[i as int]);
            assert(w_rest[0] == write_ok@[i as int]);
            assert(t_rest.drop_first() =~= old(store).targets@.skip(i as int + 1));
            assert(p_rest.drop_first() =~= probes@.skip(i as int + 1));
            assert(w_rest.drop_first() =~= write_ok@.skip(i as int + 1));
        }
        if write_ok[i] {
            let tid = store.targets[i].id;
            let outcome = probes[i];
            let (status_code, response_time_ms) = crate::probe::classify(&outcome);
            proof {
                assert(store.targets@[i as int].id == tid);
            }
            store.insert_observation(tid, status_code, response_time_ms);
            proof {
                let appended = Observation {
                    id: (store.next_observation_id - 1) as i32,
                    target_id: tid,
                    checked_at: store.clock,
                    status_code: fields_of(probes@[i as int]).0,
                    response_time_ms: fields_of(probes@[i as int]).1,
                };
                assert(cycle_log(
                    t_rest,
                    p_rest,
                    w_rest,
                    store.next_observation_id - 1,
                    store.clock - 1,
                ) =~= seq![appended] + cycle_log(
                    old(store).targets@.skip(i as int + 1),
                    probes@.skip(i as int + 1),
                    write_ok@.skip(i as int + 1),
                    store.next_observation_id as int,
                    store.clock as int,
                ));
            }
        } else {
            proof {
                assert(cycle_log(
                    t_rest,
                    p_rest,
                    w_rest,
                    store.next_observation_id as int,
                    store.clock as int,
                ) =~= cycle_log(
                    old(store).targets@.skip(i as int + 1),
                    probes@.skip(i as int + 1),
                    write_ok@.skip(i as int + 1),
                    store.next_observation_id as int,
                    store.clock as int,
                ));
            }
        }
        i = i + 1;
    }
    proof {
        assert(old(store).targets@.skip(n as int) =~= Seq::<Target>::empty());
        assert(probes@.skip(n as int) =~= Seq::<ProbeOutcome>::empty());
        assert(write_ok@.skip(n as int) =~= Seq::<bool>::empty());
        assert(old(store).observations@ + full =~= store.observations@);
    }
}

} // verus!
