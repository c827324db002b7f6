//! The container actor: owns the received snapshots of each source dataset,
//! answers receiver requests while pinning the incremental base, rescans a
//! source directory after a receive, and runs retention per source under the
//! current holds.

use vstd::prelude::*;

use crate::actor::TerminalState;
use crate::holds::{held_seq, HoldSet};
use crate::ids::Uuid;
use crate::retention::{
    contains_record, delete_prefix, keep_prefix, keeps, lemma_keep_prefix_strict,
    lemma_prefix_membership, lemma_prune_hold_safety, prune, rec_lt, records_wf, sorted_strict,
    spec_delete, spec_keep, SnapshotRecord, MAX_RECORD_AT,
};
use crate::schedule::{next_delay, spec_next_delay};
use crate::time::lemma_epoch_secs_range;
use crate::volumes::{
    container_entry_ok, container_snap_of, BtrfsContainer, BtrfsContainerSnapshot,
    BtrfsContainerSnapshotHandle, Subvolume,
};

verus! {

/// The records of a received-snapshot list, in order.
pub open spec fn crecords_of(s: Seq<BtrfsContainerSnapshot>) -> Seq<SnapshotRecord> {
    s.map_values(|x: BtrfsContainerSnapshot| x.spec_record())
}

/// A usable received-snapshot list: every snapshot well formed and strictly
/// ordered by instant and id.
pub open spec fn csnapshot_list_wf(s: Seq<BtrfsContainerSnapshot>) -> bool {
    &&& forall|i: int| 0 <= i < s.len() ==> (#[trigger] s[i]).wf()
    &&& forall|i: int, j: int|
        0 <= i < j < s.len() ==> rec_lt(
            (#[trigger] s[i]).spec_record(),
            (#[trigger] s[j]).spec_record(),
        )
}

/// The received snapshots of one source dataset.
pub struct SourceSnapshots {
    pub dataset_id: Uuid,
    pub snapshots: Vec<BtrfsContainerSnapshot>,
}

/// Why a receiver request was refused.
#[derive(Clone, Copy, PartialEq, Eq, Structural, Debug)]
pub enum ReceiveError {
    /// The requested incremental base has not been received from this
    /// source.
    ParentNotFound,
}

/// What a granted receiver gets: the path of the resolved incremental base,
/// when the receive is incremental.
pub struct ReceiverGrant {
    pub parent_path: Option<String>,
}

/// The container actor's state.
pub struct ContainerActor {
    pub container: BtrfsContainer,
    pub sources: Vec<SourceSnapshots>,
    pub holds: HoldSet,
}

impl ContainerActor {
    /// A usable actor: each source's snapshot list is usable.
    pub open spec fn wf(&self) -> bool {
        forall|i: int|
            0 <= i < self.sources@.len() ==> csnapshot_list_wf(
                (#[trigger] self.sources@[i]).snapshots@,
            )
    }

    /// Builds the actor over a container and its enumerated source lists,
    /// with no holds yet.
    pub fn new(container: BtrfsContainer, sources: Vec<SourceSnapshots>) -> (r: ContainerActor)
        requires
            forall|i: int|
                0 <= i < sources@.len() ==> csnapshot_list_wf((#[trigger] sources@[i]).snapshots@),
        ensures
            r.container == container,
            r.sources == sources,
            r.holds.records@.len() == 0,
            r.wf(),
    {
        ContainerActor { container, sources, holds: HoldSet::new() }
    }

    /// The delay to the first prune tick, when pruning is enabled and a
    /// retention is configured.
    pub fn started_plan(&self, now: i64) -> (r: Option<u64>)
        requires
            self.container.model.config_wf(),
            0 <= now <= MAX_RECORD_AT,
        ensures
            r == match self.container.model.snapshot_retention {
                Some(rc) => if self.container.model.pruning_state
                    == crate::model::FeatureState::Enabled {
                    spec_next_delay(rc.evaluation_schedule@, now)
                } else {
                    None
                },
                None => None,
            },
    {
        if self.container.model.pruning_state.is_enabled() {
            match &self.container.model.snapshot_retention {
                Some(rc) => next_delay(&rc.evaluation_schedule, now),
                None => None,
            }
        } else {
            None
        }
    }

    /// The index of the given source dataset's list, if known.
    pub fn find_source(&self, dataset_id: Uuid) -> (r: Option<usize>)
        ensures
            match r {
                Some(i) => i < self.sources@.len() && self.sources@[i as int].dataset_id
                    == dataset_id && spec_source_index(self.sources@, dataset_id) == Some(
                    i as int,
                ),
                None => forall|j: int|
                    0 <= j < self.sources@.len() ==> (#[trigger] self.sources@[j]).dataset_id
                        != dataset_id,
            },
    {
        let n = self.sources.len();
        let mut i: usize = 0;
        while i < n
            invariant
                n == self.sources@.len(),
                i <= n,
                forall|j: int| 0 <= j < i ==> (#[trigger] self.sources@[j]).dataset_id != dataset_id,
            decreases n - i,
        {
            if self.sources[i].dataset_id.value == dataset_id.value {
                proof {
                    lemma_source_index_first(self.sources@, dataset_id, i as int);
                }
                return Some(i);
            }
            i = i + 1;
        }
        None
    }

    /// The received snapshots of one source, as handles; an unknown source
    /// has received nothing.
    pub fn get_snapshots(&self, dataset_id: Uuid) -> (r: Vec<BtrfsContainerSnapshotHandle>)
        requires
            self.wf(),
        ensures
            match crate::container::spec_source_index(self.sources@, dataset_id) {
                Some(i) => {
                    &&& r@.len() == self.sources@[i].snapshots@.len()
                    &&& forall|k: int|
                        0 <= k < r@.len() ==> (#[trigger] r@[k]).uuid
                            == self.sources@[i].snapshots@[k].subvolume.uuid && Some(
                            r@[k].source_snapshot,
                        ) == self.sources@[i].snapshots@[k].subvolume.received_uuid && r@[k].at
                            == self.sources@[i].snapshots@[k].at
                },
                None => r@.len() == 0,
            },
    {
        let idx = self.find_source(dataset_id);
        match idx {
            Some(i) => {
                let list = &self.sources[i].snapshots;
                let n = list.len();
                let mut r: Vec<BtrfsContainerSnapshotHandle> = Vec::new();
                let mut k: usize = 0;
                while k < n
                    invariant
                        self.wf(),
                        i < self.sources@.len(),
                        n == self.sources@[i as int].snapshots@.len(),
                        list@ == self.sources@[i as int].snapshots@,
                        k <= n,
                        r@.len() == k,
                        forall|m: int|
                            0 <= m < k ==> (#[trigger] r@[m]).uuid
                                == self.sources@[i as int].snapshots@[m].subvolume.uuid && Some(
                                r@[m].source_snapshot,
                            ) == self.sources@[i as int].snapshots@[m].subvolume.received_uuid
                                && r@[m].at == self.sources@[i as int].snapshots@[m].at,
                    decreases n - k,
                {
                    let h = BtrfsContainerSnapshotHandle::of_snapshot(&list[k]);
                    r.push(h);
                    k = k + 1;
                }
                r
            },
            None => {
                proof {
                    lemma_source_index_none(self.sources@, dataset_id);
                }
                Vec::new()
            },
        }
    }

    /// Grants a receiver: for an incremental receive the base snapshot is
    /// resolved among this source's received snapshots by the source-side id
    /// and pinned with a hold owned by the receiver actor; a full receive
    /// pins nothing.
    pub fn get_snapshot_receiver(
        &mut self,
        actor_id: u64,
        dataset_id: Uuid,
        parent_uuid: Option<Uuid>,
    ) -> (r: Result<ReceiverGrant, ReceiveError>)
        requires
            old(self).wf(),
        ensures
            final(self).wf(),
            final(self).container == old(self).container,
            final(self).sources == old(self).sources,
            match r {
                Ok(g) => match parent_uuid {
                    Some(pu) => {
                        &&& exists|i: int, j: int|
                            {
                                &&& 0 <= i < old(self).sources@.len()
                                &&& (#[trigger] old(self).sources@[i]).dataset_id == dataset_id
                                &&& 0 <= j < old(self).sources@[i].snapshots@.len()
                                &&& (#[trigger] old(
                                    self,
                                ).sources@[i].snapshots@[j]).subvolume.received_uuid == Some(pu)
                                &&& final(self).holds.records@ == old(self).holds.records@.push(
                                    crate::holds::HoldRecord {
                                        actor_id,
                                        uuid: old(self).sources@[i].snapshots@[j].subvolume.uuid,
                                        parent_uuid: None,
                                    },
                                )
                                &&& g.parent_path matches Some(pp) && pp@ == old(
                                    self,
                                ).sources@[i].snapshots@[j].subvolume.path@
                            }
                    },
                    None => g.parent_path is None && final(self).holds == old(self).holds,
                },
                Err(e) => {
                    &&& *final(self) == *old(self)
                    &&& e == ReceiveError::ParentNotFound
                    &&& parent_uuid is Some
                },
            },
    {
        match parent_uuid {
            None => Ok(ReceiverGrant { parent_path: None }),
            Some(pu) => {
                let src = match self.find_source(dataset_id) {
                    Some(i) => i,
                    None => {
                        return Err(ReceiveError::ParentNotFound);
                    },
                };
                let found = find_received(&self.sources[src].snapshots, pu);
                match found {
                    Some(j) => {
                        let base_uuid = self.sources[src].snapshots[j].uuid();
                        let parent_path = Some(self.sources[src].snapshots[j].path().clone());
                        self.holds.insert(actor_id, base_uuid, None);
                        proof {
                            let i = src as int;
                            let jj = j as int;
                            assert(old(self).sources@[i].dataset_id == dataset_id);
                            assert(old(self).sources@[i].snapshots@[jj].subvolume.received_uuid
                                == Some(pu));
                        }
                        Ok(ReceiverGrant { parent_path })
                    },
                    None => Err(ReceiveError::ParentNotFound),
                }
            },
        }
    }

    /// A receiver finished and the source directory was rescanned: the
    /// source's list becomes the fresh enumeration, and the receiver's holds
    /// are released. A successful receive renamed its subvolume, so the
    /// enumeration of the fresh listing contains a snapshot received under
    /// the transferred source id.
    pub fn receiver_finished(
        &mut self,
        actor_id: u64,
        dataset_id: Uuid,
        fresh: Vec<BtrfsContainerSnapshot>,
    )
        requires
            old(self).wf(),
            csnapshot_list_wf(fresh@),
        ensures
            final(self).wf(),
            final(self).container == old(self).container,
            final(self).holds.records@ == crate::holds::without_actor(
                old(self).holds.records@,
                actor_id,
            ),
            match spec_source_index(old(self).sources@, dataset_id) {
                Some(i) => final(self).sources@ == old(self).sources@.update(
                    i,
                    SourceSnapshots { dataset_id, snapshots: fresh },
                ),
                None => final(self).sources@ == old(self).sources@.push(
                    SourceSnapshots { dataset_id, snapshots: fresh },
                ),
            },
    {
        let ghost sources0 = self.sources@;
        let ghost freshv = fresh@;
        let ghost mut wi: int = 0;
        let entry = SourceSnapshots { dataset_id, snapshots: fresh };
        match self.find_source(dataset_id) {
            Some(i) => {
                self.sources.remove(i);
                let ghost s1 = self.sources@;
                self.sources.insert(i, entry);
                proof {
                    sources0.remove_ensures(i as int);
                    s1.insert_ensures(i as int, entry);
                    assert forall|k: int|
                        0 <= k < self.sources@.len() implies csnapshot_list_wf(
                        (#[trigger] self.sources@[k]).snapshots@,
                    ) by {
                        if k < i {
                            assert(self.sources@[k] == sources0[k]);
                        } else if k == i {
                            assert(self.sources@[k] == entry);
                        } else {
                            assert(self.sources@[k] == s1[k - 1]);
                            assert(s1[k - 1] == sources0[k]);
                        }
                    }
                    assert(self.sources@[i as int] == entry);
                    assert(self.sources@ =~= sources0.update(i as int, entry));
                    wi = i as int;
                }
            },
            None => {
                self.sources.push(entry);
                proof {
                    lemma_source_index_none(sources0, dataset_id);
                    assert forall|k: int|
                        0 <= k < self.sources@.len() implies csnapshot_list_wf(
                        (#[trigger] self.sources@[k]).snapshots@,
                    ) by {
                        if k < sources0.len() {
                            assert(self.sources@[k] == sources0[k]);
                        } else {
                            assert(self.sources@[k] == entry);
                        }
                    }
                    assert(self.sources@[self.sources@.len() - 1] == entry);
                    wi = self.sources@.len() - 1;
                }
            },
        }
        self.holds.remove_by_actor_id(actor_id);
        proof {
            assert(0 <= wi < self.sources@.len() && self.sources@[wi].dataset_id == dataset_id
                && self.sources@[wi].snapshots@ == freshv);
        }
    }

    /// A child receiver or holder finished: every hold it owned is released.
    pub fn actor_finished(&mut self, actor_id: u64)
        ensures
            final(self).container == old(self).container,
            final(self).sources == old(self).sources,
            final(self).holds.records@ == crate::holds::without_actor(
                old(self).holds.records@,
                actor_id,
            ),
            forall|u: Uuid| final(self).holds.holds(u) ==> old(self).holds.holds(u),
    {
        self.holds.remove_by_actor_id(actor_id);
    }

    /// What stopping must do: stop the children owning the surviving holds,
    /// and report cancelled if any were still alive.
    pub fn stopped_plan(&self) -> (r: (Vec<u64>, TerminalState))
        ensures
            r.0@.len() == self.holds.records@.len(),
            forall|i: int|
                0 <= i < r.0@.len() ==> r.0@[i] == (#[trigger] self.holds.records@[i]).actor_id,
            r.1 == if self.holds.records@.len() == 0 {
                TerminalState::Succeeded
            } else {
                TerminalState::Cancelled
            },
    {
        let ids = self.holds.actor_ids();
        let t = if self.holds.len() == 0 {
            TerminalState::Succeeded
        } else {
            TerminalState::Cancelled
        };
        (ids, t)
    }

    /// Runs retention for one source under the current holds, takes the
    /// doomed snapshots out of that source's list and hands them back for
    /// deletion. No returned snapshot has its id pinned by any hold.
    pub fn handle_prune_tick(&mut self, source_index: usize) -> (r: Vec<BtrfsContainerSnapshot>)
        requires
            old(self).wf(),
            old(self).container.model.config_wf(),
            source_index < old(self).sources@.len(),
        ensures
            final(self).wf(),
            final(self).container == old(self).container,
            final(self).holds == old(self).holds,
            final(self).sources@.len() == old(self).sources@.len(),
            forall|k: int|
                0 <= k < final(self).sources@.len() && k != source_index
                    ==> final(self).sources@[k] == old(self).sources@[k],
            final(self).sources@[source_index as int].dataset_id == old(
                self,
            ).sources@[source_index as int].dataset_id,
            forall|k: int|
                0 <= k < r@.len() ==> !old(self).holds.holds((#[trigger] r@[k]).subvolume.uuid),
            forall|k: int|
                0 <= k < r@.len() ==> old(self).sources@[source_index as int].snapshots@.contains(
                    #[trigger] r@[k],
                ),
            match old(self).container.model.snapshot_retention {
                Some(rc) => {
                    &&& crecords_of(final(self).sources@[source_index as int].snapshots@)
                        == spec_keep(
                        crecords_of(old(self).sources@[source_index as int].snapshots@),
                        held_seq(old(self).holds.records@),
                        rc.rule,
                    )
                    &&& crecords_of(r@) == spec_delete(
                        crecords_of(old(self).sources@[source_index as int].snapshots@),
                        held_seq(old(self).holds.records@),
                        rc.rule,
                    )
                },
                None => final(self).sources@ == old(self).sources@ && r@.len() == 0,
            },
    {
        let ghost sources0 = self.sources@;
        match &self.container.model.snapshot_retention {
            None => {
                return Vec::new();
            },
            Some(rc) => {
                let list = &self.sources[source_index].snapshots;
                let ghost all = list@;
                let ghost recs = crecords_of(all);
                let n = list.len();
                let mut records: Vec<SnapshotRecord> = Vec::new();
                let mut i: usize = 0;
                while i < n
                    invariant
                        source_index < self.sources@.len(),
                        n == all.len(),
                        list@ == all,
                        self.sources@[source_index as int].snapshots@ == all,
                        i <= n,
                        records@.len() == i,
                        forall|k: int|
                            0 <= k < i ==> records@[k] == (#[trigger] all[k]).spec_record(),
                    decreases n - i,
                {
                    let rec = list[i].record();
                    records.push(rec);
                    i = i + 1;
                }
                proof {
                    assert(records@ =~= recs);
                    assert(sorted_strict(recs)) by {
                        assert forall|a: int, b: int| 0 <= a < b < recs.len() implies rec_lt(
                            #[trigger] recs[a],
                            #[trigger] recs[b],
                        ) by {
                            assert(csnapshot_list_wf(all));
                            assert(rec_lt(all[a].spec_record(), all[b].spec_record()));
                        }
                    }
                    assert(records_wf(recs)) by {
                        assert forall|a: int| 0 <= a < recs.len() implies 0 <= (
                        #[trigger] recs[a]).at <= MAX_RECORD_AT by {
                            assert(all[a].wf());
                            lemma_epoch_secs_range(all[a].datetime);
                        }
                    }
                }
                let held = self.holds.held_uuids();
                let res = prune(&records, &held, &rc.rule);
                let ghost rule = rc.rule;
                proof {
                    lemma_prefix_membership(recs, held@, rule, recs.len() as int);
                    lemma_prune_hold_safety(recs, held@, rule);
                }
                let mut kept: Vec<BtrfsContainerSnapshot> = Vec::new();
                let mut deleted: Vec<BtrfsContainerSnapshot> = Vec::new();
                let mut i: usize = 0;
                while i < n
                    invariant
                        source_index < self.sources@.len(),
                        n == all.len(),
                        self.sources@[source_index as int].snapshots@ == all,
                        recs == crecords_of(all),
                        recs.len() == n,
                        forall|k: int| 0 <= k < n ==> recs[k] == (#[trigger] all[k]).spec_record(),
                        res.delete@ == spec_delete(recs, held@, rule),
                        forall|k: int|
                            0 <= k < n ==> (res.delete@.contains(#[trigger] recs[k]) <==> !keeps(
                                recs,
                                held@,
                                rule,
                                recs[k],
                            )),
                        i <= n,
                        crecords_of(kept@) == keep_prefix(recs, held@, rule, i as int),
                        crecords_of(deleted@) == delete_prefix(recs, held@, rule, i as int),
                        forall|k: int| 0 <= k < kept@.len() ==> all.contains(#[trigger] kept@[k]),
                        forall|k: int|
                            0 <= k < deleted@.len() ==> all.contains(#[trigger] deleted@[k]),
                    decreases n - i,
                {
                    let s = self.sources[source_index].snapshots[i].duplicate();
                    let rec = s.record();
                    if contains_record(&res.delete, rec) {
                        deleted.push(s);
                        proof {
                            assert(crecords_of(deleted@) =~= delete_prefix(
                                recs,
                                held@,
                                rule,
                                i + 1,
                            ));
                            assert(crecords_of(kept@) =~= keep_prefix(recs, held@, rule, i + 1));
                            assert(all.contains(all[i as int]));
                        }
                    } else {
                        kept.push(s);
                        proof {
                            assert(crecords_of(kept@) =~= keep_prefix(recs, held@, rule, i + 1));
                            assert(crecords_of(deleted@) =~= delete_prefix(
                                recs,
                                held@,
                                rule,
                                i + 1,
                            ));
                            assert(all.contains(all[i as int]));
                        }
                    }
                    i = i + 1;
                }
                let ghost dataset_id0 = self.sources@[source_index as int].dataset_id;
                let replacement = SourceSnapshots {
                    dataset_id: self.sources[source_index].dataset_id,
                    snapshots: kept,
                };
                self.sources.remove(source_index);
                let ghost s1 = self.sources@;
                self.sources.insert(source_index, replacement);
                proof {
                    sources0.remove_ensures(source_index as int);
                    s1.insert_ensures(source_index as int, replacement);
                    assert forall|k: int|
                        0 <= k < self.sources@.len() && k != source_index implies (
                    #[trigger] self.sources@[k]) == sources0[k] by {
                        if k < source_index {
                            assert(self.sources@[k] == sources0[k]);
                        } else {
                            assert(self.sources@[k] == s1[k - 1]);
                            assert(s1[k - 1] == sources0[k]);
                        }
                    }
                    assert(self.sources@[source_index as int] == replacement);
                    // The kept list is still usable.
                    crate::retention::lemma_keep_prefix_strict(recs, held@, rule, recs.len() as int);
                    assert forall|k: int|
                        0 <= k < self.sources@.len() implies csnapshot_list_wf(
                        (#[trigger] self.sources@[k]).snapshots@,
                    ) by {
                        if k != source_index {
                            assert(self.sources@[k] == sources0[k]);
                        } else {
                            let lst = self.sources@[k].snapshots@;
                            assert forall|a: int| 0 <= a < lst.len() implies (
                            #[trigger] lst[a]).wf() by {
                                assert(all.contains(lst[a]));
                                let w = choose|w: int| 0 <= w < all.len() && all[w] == lst[a];
                                assert(all[w].wf());
                            }
                            assert forall|a: int, b: int| 0 <= a < b < lst.len() implies rec_lt(
                                (#[trigger] lst[a]).spec_record(),
                                (#[trigger] lst[b]).spec_record(),
                            ) by {
                                assert(crecords_of(lst)[a] == lst[a].spec_record());
                                assert(crecords_of(lst)[b] == lst[b].spec_record());
                            }
                        }
                    }
                    // Hold safety: nothing returned is pinned.
                    assert forall|k: int| 0 <= k < deleted@.len() implies !old(self).holds.holds(
                        (#[trigger] deleted@[k]).subvolume.uuid,
                    ) by {
                        assert(crecords_of(deleted@)[k] == deleted@[k].spec_record());
                        assert(!held@.contains(deleted@[k].spec_record().uuid));
                    }
                }
                deleted
            },
        }
    }
}

/// The first received snapshot of the list whose source-side id is `pu`.
fn find_received(list: &Vec<BtrfsContainerSnapshot>, pu: Uuid) -> (r: Option<usize>)
    ensures
        match r {
            Some(j) => j < list@.len() && list@[j as int].subvolume.received_uuid == Some(pu),
            None => forall|j: int|
                0 <= j < list@.len() ==> (#[trigger] list@[j]).subvolume.received_uuid != Some(
                    pu,
                ),
        },
{
    let n = list.len();
    let mut j: usize = 0;
    while j < n
        invariant
            n == list@.len(),
            j <= n,
            forall|k: int|
                0 <= k < j ==> (#[trigger] list@[k]).subvolume.received_uuid != Some(pu),
        decreases n - j,
    {
        let matches_parent = match &list[j].subvolume.received_uuid {
            Some(ru) => ru.value == pu.value,
            None => false,
        };
        if matches_parent {
            return Some(j);
        }
        j = j + 1;
    }
    None
}

/// The index of the source list of a dataset, if present.
pub open spec fn spec_source_index(s: Seq<SourceSnapshots>, dataset_id: Uuid) -> Option<int>
    decreases s.len(),
{
    if s.len() == 0 {
        None
    } else if s[0].dataset_id == dataset_id {
        Some(0)
    } else {
        match spec_source_index(s.drop_first(), dataset_id) {
            Some(i) => Some(i + 1),
            None => None,
        }
    }
}

/// The source index is the first matching index, or nothing when no list
/// matches.
proof fn lemma_source_index_none(s: Seq<SourceSnapshots>, dataset_id: Uuid)
    requires
        forall|j: int| 0 <= j < s.len() ==> (#[trigger] s[j]).dataset_id != dataset_id,
    ensures
        spec_source_index(s, dataset_id) is None,
    decreases s.len(),
{
    if s.len() > 0 {
        assert(forall|j: int|
            0 <= j < s.drop_first().len() ==> (#[trigger] s.drop_first()[j]).dataset_id
                != dataset_id);
        lemma_source_index_none(s.drop_first(), dataset_id);
    }
}

/// The first matching index is the source index.
proof fn lemma_source_index_first(s: Seq<SourceSnapshots>, dataset_id: Uuid, i: int)
    requires
        0 <= i < s.len(),
        s[i].dataset_id == dataset_id,
        forall|j: int| 0 <= j < i ==> (#[trigger] s[j]).dataset_id != dataset_id,
    ensures
        spec_source_index(s, dataset_id) == Some(i),
    decreases s.len(),
{
    if i > 0 {
        assert(forall|j: int|
            0 <= j < i - 1 ==> (#[trigger] s.drop_first()[j]).dataset_id != dataset_id);
        assert(s.drop_first()[i - 1] == s[i]);
        lemma_source_index_first(s.drop_first(), dataset_id, i - 1);
    }
}

} // verus!
