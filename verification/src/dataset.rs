//! The dataset actor: owns one dataset's snapshot list and hold set, appends
//! fresh snapshots, answers sender and holder requests, and runs retention
//! against the current holds. No snapshot whose id a hold pins is ever
//! returned for deletion.

use vstd::prelude::*;

use crate::actor::TerminalState;
use crate::holds::{held_seq, HoldSet};
use crate::ids::Uuid;
use crate::retention::{
    contains_record, keep_prefix, delete_prefix, keeps, lemma_prefix_membership,
    lemma_prune_hold_safety, prune, rec_lt, records_wf, sorted_strict, spec_delete, spec_keep,
    SnapshotRecord, MAX_RECORD_AT,
};
use crate::schedule::{next_delay, spec_next_delay};
use crate::time::lemma_epoch_secs_range;
use crate::volumes::{
    spec_handle_of, BtrfsDataset, BtrfsDatasetSnapshot, BtrfsDatasetSnapshotHandle,
};

verus! {

/// The records of a snapshot list, in order.
pub open spec fn records_of(s: Seq<BtrfsDatasetSnapshot>) -> Seq<SnapshotRecord> {
    s.map_values(|x: BtrfsDatasetSnapshot| x.spec_record())
}

/// A usable snapshot list: every snapshot well formed, local snapshots with
/// their parent recorded, strictly ordered by instant and id.
pub open spec fn snapshot_list_wf(s: Seq<BtrfsDatasetSnapshot>) -> bool {
    &&& forall|i: int|
        0 <= i < s.len() ==> (#[trigger] s[i]).wf() && (s[i].subvolume.received_uuid is None
            ==> s[i].subvolume.parent_uuid is Some)
    &&& forall|i: int, j: int|
        0 <= i < j < s.len() ==> rec_lt(
            (#[trigger] s[i]).spec_record(),
            (#[trigger] s[j]).spec_record(),
        )
}

/// What resolving snapshot ids against the list can report.
#[derive(Clone, Copy, PartialEq, Eq, Structural, Debug)]
pub enum ResolveError {
    /// The requested snapshot is not in the list.
    SnapshotNotFound,
    /// The requested incremental parent is not in the list.
    ParentNotFound,
}

/// What a granted sender or holder gets: the resolved paths of the snapshot
/// and of its incremental parent.
pub struct SnapshotGrant {
    pub snapshot_path: String,
    pub parent_path: Option<String>,
}

/// The dataset actor's state.
pub struct DatasetActor {
    pub dataset: BtrfsDataset,
    pub snapshots: Vec<BtrfsDatasetSnapshot>,
    pub holds: HoldSet,
}

impl DatasetActor {
    /// A usable actor: its snapshot list is usable.
    pub open spec fn wf(&self) -> bool {
        snapshot_list_wf(self.snapshots@)
    }

    /// Builds the actor over a dataset and its enumerated snapshots, with no
    /// holds yet.
    pub fn new(dataset: BtrfsDataset, snapshots: Vec<BtrfsDatasetSnapshot>) -> (r: DatasetActor)
        requires
            snapshot_list_wf(snapshots@),
        ensures
            r.dataset == dataset,
            r.snapshots == snapshots,
            r.holds.records@.len() == 0,
            r.wf(),
    {
        DatasetActor { dataset, snapshots, holds: HoldSet::new() }
    }

    /// The delays to the first snapshot tick and the first prune tick: one
    /// for each feature that is enabled and scheduled.
    pub fn started_plan(&self, now: i64) -> (r: (Option<u64>, Option<u64>))
        requires
            self.dataset.model.config_wf(),
            0 <= now <= MAX_RECORD_AT,
        ensures
            r.0 == match self.dataset.model.snapshot_schedule {
                Some(s) => if self.dataset.model.snapshotting_state
                    == crate::model::FeatureState::Enabled {
                    spec_next_delay(s@, now)
                } else {
                    None
                },
                None => None,
            },
            r.1 == match self.dataset.model.snapshot_retention {
                Some(rc) => if self.dataset.model.pruning_state
                    == crate::model::FeatureState::Enabled {
                    spec_next_delay(rc.evaluation_schedule@, now)
                } else {
                    None
                },
                None => None,
            },
    {
        let snap_delay = if self.dataset.model.snapshotting_state.is_enabled() {
            match &self.dataset.model.snapshot_schedule {
                Some(s) => next_delay(s, now),
                None => None,
            }
        } else {
            None
        };
        let prune_delay = if self.dataset.model.pruning_state.is_enabled() {
            match &self.dataset.model.snapshot_retention {
                Some(rc) => next_delay(&rc.evaluation_schedule, now),
                None => None,
            }
        } else {
            None
        };
        (snap_delay, prune_delay)
    }

    /// The snapshot list as handles, for replies to snapshot queries.
    pub fn get_snapshots(&self) -> (r: Vec<BtrfsDatasetSnapshotHandle>)
        requires
            self.wf(),
        ensures
            r@.len() == self.snapshots@.len(),
            forall|k: int|
                0 <= k < r@.len() ==> r@[k] == spec_handle_of(#[trigger] self.snapshots@[k]),
    {
        let n = self.snapshots.len();
        let mut r: Vec<BtrfsDatasetSnapshotHandle> = Vec::new();
        let mut i: usize = 0;
        while i < n
            invariant
                self.wf(),
                n == self.snapshots@.len(),
                i <= n,
                r@.len() == i,
                forall|k: int|
                    0 <= k < i ==> r@[k] == spec_handle_of(#[trigger] self.snapshots@[k]),
            decreases n - i,
        {
            let h = BtrfsDatasetSnapshotHandle::of_snapshot(&self.snapshots[i]);
            r.push(h);
            i = i + 1;
        }
        r
    }

    /// Appends the snapshot just created when it is newer than everything in
    /// the list; an out-of-order snapshot is refused and the caller rescans.
    pub fn snapshot_created(&mut self, snap: BtrfsDatasetSnapshot) -> (r: bool)
        requires
            old(self).wf(),
            snap.wf(),
            snap.subvolume.received_uuid is None ==> snap.subvolume.parent_uuid is Some,
        ensures
            final(self).wf(),
            final(self).dataset == old(self).dataset,
            final(self).holds == old(self).holds,
            r == (old(self).snapshots@.len() == 0 || rec_lt(
                old(self).snapshots@.last().spec_record(),
                snap.spec_record(),
            )),
            final(self).snapshots@ == if r {
                old(self).snapshots@.push(snap)
            } else {
                old(self).snapshots@
            },
    {
        let n = self.snapshots.len();
        let newer = if n == 0 {
            true
        } else {
            let last = &self.snapshots[n - 1];
            last.at < snap.at || (last.at == snap.at && last.subvolume.uuid.value
                < snap.subvolume.uuid.value)
        };
        if newer {
            self.snapshots.push(snap);
            proof {
                assert forall|i: int, j: int|
                    0 <= i < j < self.snapshots@.len() implies rec_lt(
                    (#[trigger] self.snapshots@[i]).spec_record(),
                    (#[trigger] self.snapshots@[j]).spec_record(),
                ) by {
                    if j == self.snapshots@.len() - 1 && i < j {
                        if i < n - 1 {
                            assert(rec_lt(
                                old(self).snapshots@[i].spec_record(),
                                old(self).snapshots@[n - 1].spec_record(),
                            ));
                        }
                    }
                }
            }
            true
        } else {
            false
        }
    }

    /// The first snapshot with the given id.
    fn find_snapshot(&self, u: Uuid) -> (r: Option<usize>)
        ensures
            match r {
                Some(i) => i < self.snapshots@.len() && self.snapshots@[i as int].subvolume.uuid
                    == u,
                None => forall|j: int|
                    0 <= j < self.snapshots@.len()
                        ==> (#[trigger] self.snapshots@[j]).subvolume.uuid != u,
            },
    {
        let n = self.snapshots.len();
        let mut i: usize = 0;
        while i < n
            invariant
                n == self.snapshots@.len(),
                i <= n,
                forall|j: int| 0 <= j < i ==> (#[trigger] self.snapshots@[j]).subvolume.uuid != u,
            decreases n - i,
        {
            if self.snapshots[i].subvolume.uuid.value == u.value {
                return Some(i);
            }
            i = i + 1;
        }
        None
    }

    /// Resolves the requested snapshot and parent and records a hold owned
    /// by the child actor; on any failure nothing changes.
    fn resolve_and_hold(&mut self, actor_id: u64, send_uuid: Uuid, parent_uuid: Option<Uuid>) -> (r:
        Result<SnapshotGrant, ResolveError>)
        ensures
            final(self).dataset == old(self).dataset,
            final(self).snapshots == old(self).snapshots,
            match r {
                Ok(g) => {
                    &&& exists|i: int|
                        0 <= i < old(self).snapshots@.len() && (#[trigger] old(
                            self,
                        ).snapshots@[i]).subvolume.uuid == send_uuid && g.snapshot_path@ == old(
                            self,
                        ).snapshots@[i].subvolume.path@
                    &&& match parent_uuid {
                        Some(pu) => g.parent_path matches Some(pp) && exists|j: int|
                            0 <= j < old(self).snapshots@.len() && (#[trigger] old(
                                self,
                            ).snapshots@[j]).subvolume.uuid == pu && pp@ == old(
                                self,
                            ).snapshots@[j].subvolume.path@,
                        None => g.parent_path is None,
                    }
                    &&& final(self).holds.records@ == old(self).holds.records@.push(
                        crate::holds::HoldRecord { actor_id, uuid: send_uuid, parent_uuid },
                    )
                    &&& final(self).holds.holds(send_uuid)
                },
                Err(e) => {
                    &&& *final(self) == *old(self)
                    &&& (e == ResolveError::SnapshotNotFound <==> forall|i: int|
                        0 <= i < old(self).snapshots@.len() ==> (#[trigger] old(
                            self,
                        ).snapshots@[i]).subvolume.uuid != send_uuid)
                    &&& (e == ResolveError::ParentNotFound ==> (parent_uuid matches Some(pu))
                        && (forall|j: int|
                        0 <= j < old(self).snapshots@.len() ==> (#[trigger] old(
                            self,
                        ).snapshots@[j]).subvolume.uuid != parent_uuid->0))
                },
            },
    {
        let send_idx = match self.find_snapshot(send_uuid) {
            Some(i) => i,
            None => {
                return Err(ResolveError::SnapshotNotFound);
            },
        };
        let parent_path = match parent_uuid {
            Some(pu) => match self.find_snapshot(pu) {
                Some(j) => Some(self.snapshots[j].subvolume.path.clone()),
                None => {
                    return Err(ResolveError::ParentNotFound);
                },
            },
            None => None,
        };
        let snapshot_path = self.snapshots[send_idx].subvolume.path.clone();
        self.holds.insert(actor_id, send_uuid, parent_uuid);
        proof {
            let recs = self.holds.records@;
            assert(crate::holds::record_pins(recs[recs.len() - 1], send_uuid));
        }
        Ok(SnapshotGrant { snapshot_path, parent_path })
    }

    /// Resolves a send request: the snapshot to send and its incremental
    /// parent, both pinned by a hold owned by the sender actor.
    pub fn get_snapshot_sender(
        &mut self,
        actor_id: u64,
        send_uuid: Uuid,
        parent_uuid: Option<Uuid>,
    ) -> (r: Result<SnapshotGrant, ResolveError>)
        ensures
            final(self).dataset == old(self).dataset,
            final(self).snapshots == old(self).snapshots,
            match r {
                Ok(g) => {
                    &&& exists|i: int|
                        0 <= i < old(self).snapshots@.len() && (#[trigger] old(
                            self,
                        ).snapshots@[i]).subvolume.uuid == send_uuid && g.snapshot_path@ == old(
                            self,
                        ).snapshots@[i].subvolume.path@
                    &&& match parent_uuid {
                        Some(pu) => g.parent_path matches Some(pp) && exists|j: int|
                            0 <= j < old(self).snapshots@.len() && (#[trigger] old(
                                self,
                            ).snapshots@[j]).subvolume.uuid == pu && pp@ == old(
                                self,
                            ).snapshots@[j].subvolume.path@,
                        None => g.parent_path is None,
                    }
                    &&& final(self).holds.records@ == old(self).holds.records@.push(
                        crate::holds::HoldRecord { actor_id, uuid: send_uuid, parent_uuid },
                    )
                    &&& final(self).holds.holds(send_uuid)
                },
                Err(e) => {
                    &&& *final(self) == *old(self)
                    &&& (e == ResolveError::SnapshotNotFound <==> forall|i: int|
                        0 <= i < old(self).snapshots@.len() ==> (#[trigger] old(
                            self,
                        ).snapshots@[i]).subvolume.uuid != send_uuid)
                    &&& (e == ResolveError::ParentNotFound ==> (parent_uuid matches Some(pu))
                        && (forall|j: int|
                        0 <= j < old(self).snapshots@.len() ==> (#[trigger] old(
                            self,
                        ).snapshots@[j]).subvolume.uuid != parent_uuid->0))
                },
            },
    {
        self.resolve_and_hold(actor_id, send_uuid, parent_uuid)
    }

    /// Resolves a holder request: pins the snapshot and parent for the
    /// duration of a remote receive and hands back their paths.
    pub fn get_snapshot_holder(
        &mut self,
        actor_id: u64,
        send_uuid: Uuid,
        parent_uuid: Option<Uuid>,
    ) -> (r: Result<SnapshotGrant, ResolveError>)
        ensures
            final(self).dataset == old(self).dataset,
            final(self).snapshots == old(self).snapshots,
            match r {
                Ok(g) => {
                    &&& exists|i: int|
                        0 <= i < old(self).snapshots@.len() && (#[trigger] old(
                            self,
                        ).snapshots@[i]).subvolume.uuid == send_uuid && g.snapshot_path@ == old(
                            self,
                        ).snapshots@[i].subvolume.path@
                    &&& match parent_uuid {
                        Some(pu) => g.parent_path matches Some(pp) && exists|j: int|
                            0 <= j < old(self).snapshots@.len() && (#[trigger] old(
                                self,
                            ).snapshots@[j]).subvolume.uuid == pu && pp@ == old(
                                self,
                            ).snapshots@[j].subvolume.path@,
                        None => g.parent_path is None,
                    }
                    &&& final(self).holds.records@ == old(self).holds.records@.push(
                        crate::holds::HoldRecord { actor_id, uuid: send_uuid, parent_uuid },
                    )
                    &&& final(self).holds.holds(send_uuid)
                },
                Err(e) => {
                    &&& *final(self) == *old(self)
                    &&& (e == ResolveError::SnapshotNotFound <==> forall|i: int|
                        0 <= i < old(self).snapshots@.len() ==> (#[trigger] old(
                            self,
                        ).snapshots@[i]).subvolume.uuid != send_uuid)
                    &&& (e == ResolveError::ParentNotFound ==> (parent_uuid matches Some(pu))
                        && (forall|j: int|
                        0 <= j < old(self).snapshots@.len() ==> (#[trigger] old(
                            self,
                        ).snapshots@[j]).subvolume.uuid != parent_uuid->0))
                },
            },
    {
        self.resolve_and_hold(actor_id, send_uuid, parent_uuid)
    }

    /// A child sender or holder finished: every hold it owned is released.
    pub fn actor_finished(&mut self, actor_id: u64)
        ensures
            final(self).dataset == old(self).dataset,
            final(self).snapshots == old(self).snapshots,
            final(self).holds.records@ == crate::holds::without_actor(
                old(self).holds.records@,
                actor_id,
            ),
            forall|u: Uuid| final(self).holds.holds(u) ==> old(self).holds.holds(u),
    {
        self.holds.remove_by_actor_id(actor_id);
    }

    /// What stopping must do: stop the children owning the surviving holds,
    /// and report cancelled if any were still alive.
    pub fn stopped_plan(&self) -> (r: (Vec<u64>, TerminalState))
        ensures
            r.0@.len() == self.holds.records@.len(),
            forall|i: int|
                0 <= i < r.0@.len() ==> r.0@[i] == (#[trigger] self.holds.records@[i]).actor_id,
            r.1 == if self.holds.records@.len() == 0 {
                TerminalState::Succeeded
            } else {
                TerminalState::Cancelled
            },
    {
        let ids = self.holds.actor_ids();
        let t = if self.holds.len() == 0 {
            TerminalState::Succeeded
        } else {
            TerminalState::Cancelled
        };
        (ids, t)
    }

    /// Runs retention under the current holds and takes the doomed
    /// snapshots out of the list, handing them back for deletion. No
    /// returned snapshot has its id pinned by any hold: a held snapshot is
    /// never deleted.
    pub fn handle_prune_tick(&mut self) -> (r: Vec<BtrfsDatasetSnapshot>)
        requires
            old(self).wf(),
            old(self).dataset.model.config_wf(),
        ensures
            final(self).wf(),
            final(self).dataset == old(self).dataset,
            final(self).holds == old(self).holds,
            forall|k: int|
                0 <= k < r@.len() ==> !old(self).holds.holds(
                    (#[trigger] r@[k]).subvolume.uuid,
                ),
            forall|k: int| 0 <= k < r@.len() ==> old(self).snapshots@.contains(#[trigger] r@[k]),
            forall|k: int|
                0 <= k < final(self).snapshots@.len() ==> old(self).snapshots@.contains(
                    #[trigger] final(self).snapshots@[k],
                ),
            match old(self).dataset.model.snapshot_retention {
                Some(rc) => {
                    &&& records_of(final(self).snapshots@) == spec_keep(
                        records_of(old(self).snapshots@),
                        held_seq(old(self).holds.records@),
                        rc.rule,
                    )
                    &&& records_of(r@) == spec_delete(
                        records_of(old(self).snapshots@),
                        held_seq(old(self).holds.records@),
                        rc.rule,
                    )
                },
                None => final(self).snapshots@ == old(self).snapshots@ && r@.len() == 0,
            },
    {
        let ghost all = self.snapshots@;
        let ghost recs = records_of(all);
        match &self.dataset.model.snapshot_retention {
            None => {
                return Vec::new();
            },
            Some(rc) => {
                let n = self.snapshots.len();
                // The ordering records of the list, in order.
                let mut records: Vec<SnapshotRecord> = Vec::new();
                let mut i: usize = 0;
                while i < n
                    invariant
                        n == all.len(),
                        self.snapshots@ == all,
                        i <= n,
                        records@.len() == i,
                        forall|k: int|
                            0 <= k < i ==> records@[k] == (#[trigger] all[k]).spec_record(),
                    decreases n - i,
                {
                    let rec = self.snapshots[i].record();
                    records.push(rec);
                    i = i + 1;
                }
                proof {
                    assert(records@ =~= recs);
                    assert(sorted_strict(recs)) by {
                        assert forall|a: int, b: int| 0 <= a < b < recs.len() implies rec_lt(
                            #[trigger] recs[a],
                            #[trigger] recs[b],
                        ) by {
                            assert(rec_lt(all[a].spec_record(), all[b].spec_record()));
                        }
                    }
                    assert(records_wf(recs)) by {
                        assert forall|a: int| 0 <= a < recs.len() implies 0 <= (
                        #[trigger] recs[a]).at <= MAX_RECORD_AT by {
                            assert(all[a].wf());
                            lemma_epoch_secs_range(all[a].datetime);
                        }
                    }
                }
                let held = self.holds.held_uuids();
                let res = prune(&records, &held, &rc.rule);
                let ghost rule = rc.rule;
                proof {
                    lemma_prefix_membership(recs, held@, rule, recs.len() as int);
                    lemma_prune_hold_safety(recs, held@, rule);
                }
                // Partition the snapshots along the engine's verdict.
                let mut kept: Vec<BtrfsDatasetSnapshot> = Vec::new();
                let mut deleted: Vec<BtrfsDatasetSnapshot> = Vec::new();
                let mut i: usize = 0;
                while i < n
                    invariant
                        n == all.len(),
                        self.snapshots@ == all,
                        recs == records_of(all),
                        recs.len() == n,
                        forall|k: int| 0 <= k < n ==> recs[k] == (#[trigger] all[k]).spec_record(),
                        res.delete@ == spec_delete(recs, held@, rule),
                        forall|k: int|
                            0 <= k < n ==> (res.delete@.contains(#[trigger] recs[k]) <==> !keeps(
                                recs,
                                held@,
                                rule,
                                recs[k],
                            )),
                        i <= n,
                        records_of(kept@) == keep_prefix(recs, held@, rule, i as int),
                        records_of(deleted@) == delete_prefix(recs, held@, rule, i as int),
                        forall|k: int|
                            0 <= k < kept@.len() ==> all.contains(#[trigger] kept@[k]),
                        forall|k: int|
                            0 <= k < deleted@.len() ==> all.contains(#[trigger] deleted@[k]),
                    decreases n - i,
                {
                    let s = self.snapshots[i].duplicate();
                    let rec = s.record();
                    let ghost kept0 = kept@;
                    let ghost deleted0 = deleted@;
                    if contains_record(&res.delete, rec) {
                        deleted.push(s);
                        proof {
                            assert(records_of(deleted@) =~= delete_prefix(
                                recs,
                                held@,
                                rule,
                                i + 1,
                            ));
                            assert(records_of(kept@) =~= keep_prefix(recs, held@, rule, i + 1));
                            assert(all.contains(all[i as int]));
                        }
                    } else {
                        kept.push(s);
                        proof {
                            assert(records_of(kept@) =~= keep_prefix(recs, held@, rule, i + 1));
                            assert(records_of(deleted@) =~= delete_prefix(
                                recs,
                                held@,
                                rule,
                                i + 1,
                            ));
                            assert(all.contains(all[i as int]));
                        }
                    }
                    i = i + 1;
                }
                self.snapshots = kept;
                proof {
                    // The kept list is still usable: its members come from
                    // the old list and their records stay strictly ordered.
                    assert forall|a: int|
                        0 <= a < self.snapshots@.len() implies (
                    #[trigger] self.snapshots@[a]).wf() && (
                    self.snapshots@[a].subvolume.received_uuid is None
                        ==> self.snapshots@[a].subvolume.parent_uuid is Some) by {
                        assert(all.contains(self.snapshots@[a]));
                        let w = choose|w: int| 0 <= w < all.len() && all[w] == self.snapshots@[a];
                        assert(all[w].wf());
                    }
                    crate::retention::lemma_keep_prefix_strict(recs, held@, rule, recs.len() as int);
                    assert forall|a: int, b: int|
                        0 <= a < b < self.snapshots@.len() implies rec_lt(
                        (#[trigger] self.snapshots@[a]).spec_record(),
                        (#[trigger] self.snapshots@[b]).spec_record(),
                    ) by {
                        assert(records_of(self.snapshots@)[a] == self.snapshots@[a].spec_record());
                        assert(records_of(self.snapshots@)[b] == self.snapshots@[b].spec_record());
                    }
                    // Hold safety: nothing returned is pinned.
                    assert forall|k: int| 0 <= k < deleted@.len() implies !old(self).holds.holds(
                        (#[trigger] deleted@[k]).subvolume.uuid,
                    ) by {
                        assert(records_of(deleted@)[k] == deleted@[k].spec_record());
                        assert(!held@.contains(deleted@[k].spec_record().uuid));
                    }
                }
                deleted
            },
        }
    }
}

} // verus!
