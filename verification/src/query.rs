//! Read-only history queries: the target list and the recent
//! observations for one target, newest first, capped at a fixed limit.

use vstd::prelude::*;

use crate::domain::{obs_wf, Observation, Target};
use crate::store::Store;

verus! {

/// Upper bound on the number of rows a recent-history query returns.
pub const RECENT_LIMIT: usize = 50;

/// The subsequence of an observation log owned by one target, in log
/// order (oldest first).
pub open spec fn obs_for(log: Seq<Observation>, tid: i32) -> Seq<Observation>
    decreases log.len(),
{
    if log.len() == 0 {
        Seq::empty()
    } else if log[0].target_id == tid {
        seq![log[0]] + obs_for(log.drop_first(), tid)
    } else {
        obs_for(log.drop_first(), tid)
    }
}

/// Every row selected by `obs_for` belongs to the queried target, comes
/// from the log, and the selection keeps the log's order; it is never
/// longer than the log.
pub proof fn lemma_obs_for_props(log: Seq<Observation>, tid: i32)
    ensures
        obs_for(log, tid).len() <= log.len(),
        forall|i: int|
            0 <= i < obs_for(log, tid).len() ==> (#[trigger] obs_for(log, tid)[i]).target_id
                == tid,
        forall|i: int|
            0 <= i < obs_for(log, tid).len() ==> exists|k: int|
                0 <= k < log.len() && #[trigger] obs_for(log, tid)[i] == log[k],
        (forall|a: int, b: int| 0 <= a < b < log.len() ==> log[a].checked_at < log[b].checked_at)
            ==> (forall|a: int, b: int|
            0 <= a < b < obs_for(log, tid).len() ==> obs_for(log, tid)[a].checked_at < obs_for(
                log,
                tid,
            )[b].checked_at),
    decreases log.len(),
{
    if log.len() == 0 {
    } else {
        let tail = log.drop_first();
        lemma_obs_for_props(tail, tid);
        assert forall|i: int|
            0 <= i < obs_for(log, tid).len() implies exists|k: int|
            0 <= k < log.len() && #[trigger] obs_for(log, tid)[i] == log[k] by {
            if log[0].target_id == tid && i == 0 {
                assert(obs_for(log, tid)[0] == log[0]);
            } else {
                let j = if log[0].target_id == tid {
                    i - 1
                } else {
                    i
                };
                assert(obs_for(log, tid)[i] == obs_for(tail, tid)[j]);
                let k = choose|k: int| 0 <= k < tail.len() && obs_for(tail, tid)[j] == tail[k];
                assert(tail[k] == log[k + 1]);
            }
        }
        if forall|a: int, b: int| 0 <= a < b < log.len() ==> log[a].checked_at < log[b].checked_at {
            assert(forall|a: int, b: int|
                0 <= a < b < tail.len() ==> tail[a].checked_at < tail[b].checked_at);
            if log[0].target_id == tid {
                assert forall|a: int, b: int|
                    0 <= a < b < obs_for(log, tid).len() implies obs_for(log, tid)[a].checked_at
                    < obs_for(log, tid)[b].checked_at by {
                    if a == 0 {
                        let j = b - 1;
                        assert(obs_for(log, tid)[b] == obs_for(tail, tid)[j]);
                        let k = choose|k: int|
                            0 <= k < tail.len() && obs_for(tail, tid)[j] == tail[k];
                        assert(tail[k] == log[k + 1]);
                        assert(log[0].checked_at < log[k + 1].checked_at);
                    } else {
                        assert(obs_for(log, tid)[a] == obs_for(tail, tid)[a - 1]);
                        assert(obs_for(log, tid)[b] == obs_for(tail, tid)[b - 1]);
                    }
                }
            }
        }
    }
}

/// `obs_for` distributes over concatenation of logs.
pub proof fn lemma_obs_for_concat(a: Seq<Observation>, b: Seq<Observation>, tid: i32)
    ensures
        obs_for(a + b, tid) =~= obs_for(a, tid) + obs_for(b, tid),
    decreases a.len(),
{
    if a.len() == 0 {
        assert(a + b =~= b);
        assert(obs_for(a, tid) + obs_for(b, tid) =~= obs_for(b, tid));
    } else {
        lemma_obs_for_concat(a.drop_first(), b, tid);
        assert((a + b).drop_first() =~= a.drop_first() + b);
        assert((a + b)[0] == a[0]);
        if a[0].target_id == tid {
            assert(seq![a[0]] + (obs_for(a.drop_first(), tid) + obs_for(b, tid)) =~= (seq![a[0]]
                + obs_for(a.drop_first(), tid)) + obs_for(b, tid));
        }
    }
}

/// All targets, ordered by id ascending. The store keeps them in that
/// order, so the query is the list itself.
pub fn list_targets(store: &Store) -> (r: &Vec<Target>)
    requires
        store.wf(),
    ensures
        r@ == store.targets@,
        forall|i: int, j: int| 0 <= i < j < r@.len() ==> r@[i].id < r@[j].id,
{
    &store.targets
}

/// Up to [`RECENT_LIMIT`] most recent observations for one target,
/// newest first.
///
/// The result is exactly the tail of the target's log, reversed: row `i`
/// is the `i`-th most recent. A target with no history yields an empty
/// sequence, and an id no target carries yields the same — the query
/// does not distinguish the two. Rows never number more than
/// [`RECENT_LIMIT`], are all owned by the queried target, are well
/// formed, and carry strictly decreasing `checked_at` times.
pub fn get_recent_observations(store: &Store, target_id: i32) -> (r: Vec<Observation>)
    requires
        store.wf(),
    ensures
        r@.len() == if obs_for(store.observations@, target_id).len() <= RECENT_LIMIT {
            obs_for(store.observations@, target_id).len() as int
        } else {
            RECENT_LIMIT as int
        },
        forall|i: int|
            0 <= i < r@.len() ==> r@[i] == obs_for(store.observations@, target_id)[obs_for(
                store.observations@,
                target_id,
            ).len() - 1 - i],
        r@.len() <= RECENT_LIMIT,
        forall|i: int| 0 <= i < r@.len() ==> (#[trigger] r@[i]).target_id == target_id,
        forall|i: int| 0 <= i < r@.len() ==> obs_wf(#[trigger] r@[i]),
        forall|i: int, j: int| 0 <= i < j < r@.len() ==> r@[i].checked_at > r@[j].checked_at,
{
    let log = &store.observations;
    let ghost sel = obs_for(log@, target_id);
    let mut matched: Vec<Observation> = Vec::new();
    let mut j: usize = 0;
    proof {
        assert(log@.skip(0) =~= log@);
        assert(matched@ + obs_for(log@, target_id) =~= obs_for(log@, target_id));
    }
    while j < log.len()
        invariant
            0 <= j <= log@.len(),
            sel == obs_for(log@, target_id),
            sel =~= matched@ + obs_for(log@.skip(j as int), target_id),
            matched@.len() <= j,
        decreases log@.len() - j,
    {
        let ghost rest = log@.skip(j as int);
        assert(rest[0] == log@[j as int]);
        assert(rest.drop_first() =~= log@.skip(j as int + 1));
        if log[j].target_id == target_id {
            matched.push(log[j]);
            proof {
                assert(obs_for(rest, target_id) =~= seq![rest[0]] + obs_for(
                    rest.drop_first(),
                    target_id,
                ));
                assert(sel =~= matched@ + obs_for(log@.skip(j as int + 1), target_id));
            }
        } else {
            proof {
                assert(obs_for(rest, target_id) =~= obs_for(rest.drop_first(), target_id));
            }
        }
        j = j + 1;
    }
    proof {
        assert(log@.skip(log@.len() as int) =~= Seq::<Observation>::empty());
        assert(matched@ + obs_for(log@.skip(log@.len() as int), target_id) =~= matched@);
        assert(matched@ == sel);
        lemma_obs_for_props(log@, target_id);
    }
    let n = matched.len();
    let count = if n <= RECENT_LIMIT {
        n
    } else {
        RECENT_LIMIT
    };
    let mut recent: Vec<Observation> = Vec::new();
    let mut i: usize = 0;
    while i < count
        invariant
            0 <= i <= count,
            count <= n,
            n == matched@.len(),
            recent@.len() == i,
            forall|k: int| 0 <= k < i ==> recent@[k] == matched@[n - 1 - k],
        decreases count - i,
    {
        recent.push(matched[n - 1 - i]);
        i = i + 1;
    }
    recent
}

} // verus!
