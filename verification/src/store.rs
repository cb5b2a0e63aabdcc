//! In-memory model of the durable stores: a create-once, read-many list
//! of targets and an append-only log of observations.
//!
//! The process-wide database behind the real monitor is modeled as an
//! explicitly passed handle so the worker's cycle and the history query
//! can be exercised against it in isolation. Identifiers and timestamps
//! are assigned here, at insertion, as the database does: ids from a
//! per-table counter, `checked_at` from a clock that advances on every
//! insert, so a target's observations carry strictly increasing times.

use vstd::prelude::*;

use crate::domain::{obs_wf, Observation, Target};

verus! {

/// The model store: all targets (ordered by id ascending) and the
/// append-only observation log, together with the id counters and the
/// insertion clock.
pub struct Store {
    pub targets: Vec<Target>,
    pub observations: Vec<Observation>,
    pub next_target_id: i32,
    pub next_observation_id: i32,
    pub clock: i64,
}

impl Store {
    /// Whether some target carries the given id.
    pub open spec fn has_target_id(self, tid: i32) -> bool {
        exists|i: int| 0 <= i < self.targets@.len() && self.targets@[i].id == tid
    }

    /// The store's invariant.
    ///
    /// Targets: ids strictly increasing (hence unique, and the list is
    /// ordered by id ascending), all below the id counter, urls unique.
    /// Observations: well formed, ids strictly increasing and below the
    /// id counter, `checked_at` strictly increasing and never ahead of
    /// the clock, and every row owned by an existing target.
    pub open spec fn wf(self) -> bool {
        &&& forall|i: int, j: int|
            0 <= i < j < self.targets@.len() ==> self.targets@[i].id < self.targets@[j].id
        &&& forall|i: int| 0 <= i < self.targets@.len() ==> self.targets@[i].id < self.next_target_id
        &&& forall|i: int, j: int|
            0 <= i < j < self.targets@.len() ==> self.targets@[i].url@ != self.targets@[j].url@
        &&& forall|i: int| 0 <= i < self.observations@.len() ==> obs_wf(#[trigger] self.observations@[i])
        &&& forall|i: int|
            0 <= i < self.observations@.len()
                ==> (#[trigger] self.observations@[i]).id < self.next_observation_id
        &&& forall|i: int, j: int|
            0 <= i < j < self.observations@.len()
                ==> self.observations@[i].id < self.observations@[j].id
        &&& forall|i: int|
            0 <= i < self.observations@.len()
                ==> (#[trigger] self.observations@[i]).checked_at <= self.clock
        &&& forall|i: int, j: int|
            0 <= i < j < self.observations@.len()
                ==> self.observations@[i].checked_at < self.observations@[j].checked_at
        &&& forall|i: int|
            0 <= i < self.observations@.len()
                ==> self.has_target_id((#[trigger] self.observations@[i]).target_id)
    }

    /// A fresh, empty store. Ids start at 1, as the database's serial
    /// columns do.
    pub fn new() -> (s: Store)
        ensures
            s.wf(),
            s.targets@ =~= Seq::<Target>::empty(),
            s.observations@ =~= Seq::<Observation>::empty(),
            s.next_target_id == 1,
            s.next_observation_id == 1,
            s.clock == 0,
    {
        Store {
            targets: Vec::new(),
            observations: Vec::new(),
            next_target_id: 1,
            next_observation_id: 1,
            clock: 0,
        }
    }

    /// Create a target for a url not yet monitored, returning its
    /// assigned id. Creation is the administrative insert of the wider
    /// system: targets are never mutated afterwards.
    pub fn add_target(&mut self, url: String) -> (r: i32)
        requires
            old(self).wf(),
            old(self).next_target_id < i32::MAX,
            forall|i: int| 0 <= i < old(self).targets@.len() ==> old(self).targets@[i].url@ != url@,
        ensures
            final(self).wf(),
            r == old(self).next_target_id,
            final(self).targets@ =~= old(self).targets@.push(
                Target { id: old(self).next_target_id, url },
            ),
            final(self).next_target_id == old(self).next_target_id + 1,
            final(self).observations@ == old(self).observations@,
            final(self).next_observation_id == old(self).next_observation_id,
            final(self).clock == old(self).clock,
            final(self).has_target_id(r),
    {
        let id = self.next_target_id;
        self.targets.push(Target { id, url });
        self.next_target_id = self.next_target_id + 1;
        proof {
            assert forall|i: int|
                0 <= i < self.observations@.len() implies self.has_target_id(
                (#[trigger] self.observations@[i]).target_id,
            ) by {
                let tid = self.observations@[i].target_id;
                let k = choose|k: int|
                    0 <= k < old(self).targets@.len() && old(self).targets@[k].id == tid;
                assert(self.targets@[k].id == tid);
            }
            assert(self.targets@[self.targets@.len() - 1].id == id);
        }
        id
    }

    /// Append one observation for an existing target. The store assigns
    /// the row's id and its `checked_at` timestamp: the clock advances by
    /// one and stamps the row, so later rows always carry later times.
    pub fn insert_observation(
        &mut self,
        target_id: i32,
        status_code: Option<i32>,
        response_time_ms: Option<i32>,
    ) -> (r: i32)
        requires
            old(self).wf(),
            old(self).has_target_id(target_id),
            status_code is Some <==> response_time_ms is Some,
            response_time_ms is Some ==> response_time_ms->0 >= 0,
            old(self).next_observation_id < i32::MAX,
            old(self).clock < i64::MAX,
        ensures
            final(self).wf(),
            r == old(self).next_observation_id,
            final(self).observations@ =~= old(self).observations@.push(
                Observation {
                    id: old(self).next_observation_id,
                    target_id,
                    checked_at: (old(self).clock + 1) as i64,
                    status_code,
                    response_time_ms,
                },
            ),
            final(self).next_observation_id == old(self).next_observation_id + 1,
            final(self).clock == old(self).clock + 1,
            final(self).targets@ == old(self).targets@,
            final(self).next_target_id == old(self).next_target_id,
    {
        let id = self.next_observation_id;
        self.clock = self.clock + 1;
        self.observations.push(Observation {
            id,
            target_id,
            checked_at: self.clock,
            status_code,
            response_time_ms,
        });
        self.next_observation_id = self.next_observation_id + 1;
        proof {
            let oldlog = old(self).observations@;
            let newlog = self.observations@;
            assert(forall|i: int| 0 <= i < oldlog.len() ==> newlog[i] == oldlog[i]);
            assert forall|i: int|
                0 <= i < newlog.len() implies self.has_target_id(
                (#[trigger] newlog[i]).target_id,
            ) by {
                let tid = newlog[i].target_id;
                let k = choose|k: int|
                    0 <= k < old(self).targets@.len() && old(self).targets@[k].id == tid;
                assert(self.targets@[k].id == tid);
            }
        }
        id
    }
}

} // verus!
