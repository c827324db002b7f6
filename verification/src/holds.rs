//! Snapshot holds: runtime records that pin a snapshot, and optionally its
//! incremental parent, against deletion while a sender, receiver or holder
//! actor works with it. The central safety rule of the system is that no
//! snapshot is deleted while its id appears in a hold record of its owner.

use vstd::prelude::*;

use crate::ids::Uuid;

verus! {

/// One hold: the child actor that owns it, the pinned snapshot, and the
/// pinned incremental parent, if any.
#[derive(Clone, Copy, PartialEq, Eq, Structural, Debug)]
pub struct HoldRecord {
    pub actor_id: u64,
    pub uuid: Uuid,
    pub parent_uuid: Option<Uuid>,
}

/// Whether record `r` pins the id `u`.
pub open spec fn record_pins(r: HoldRecord, u: Uuid) -> bool {
    r.uuid == u || r.parent_uuid == Some(u)
}

/// Whether any record of `s` pins the id `u`.
pub open spec fn spec_holds(s: Seq<HoldRecord>, u: Uuid) -> bool {
    exists|i: int| 0 <= i < s.len() && record_pins(#[trigger] s[i], u)
}

/// The records of `s` not owned by actor `id`, in order.
pub open spec fn without_actor(s: Seq<HoldRecord>, id: u64) -> Seq<HoldRecord>
    decreases s.len(),
{
    if s.len() == 0 {
        Seq::empty()
    } else {
        let pre = without_actor(s.drop_last(), id);
        if s.last().actor_id == id {
            pre
        } else {
            pre.push(s.last())
        }
    }
}

/// The pinned ids of the records, each record's snapshot id first and its
/// parent id after it, in record order.
pub open spec fn held_seq(s: Seq<HoldRecord>) -> Seq<Uuid>
    decreases s.len(),
{
    if s.len() == 0 {
        Seq::empty()
    } else {
        held_seq(s.drop_last()) + (match s.last().parent_uuid {
            Some(p) => seq![s.last().uuid, p],
            None => seq![s.last().uuid],
        })
    }
}

/// The set of active holds of one dataset or container actor.
pub struct HoldSet {
    pub records: Vec<HoldRecord>,
}

impl HoldSet {
    /// Whether the id `u` is pinned by any record.
    pub open spec fn holds(&self, u: Uuid) -> bool {
        spec_holds(self.records@, u)
    }

    /// An empty hold set.
    pub fn new() -> (r: HoldSet)
        ensures
            r.records@.len() == 0,
    {
        HoldSet { records: Vec::new() }
    }

    /// How many holds are active.
    pub fn len(&self) -> (r: usize)
        ensures
            r == self.records@.len(),
    {
        self.records.len()
    }

    /// Records a hold owned by `actor_id` on `uuid` and its parent.
    pub fn insert(&mut self, actor_id: u64, uuid: Uuid, parent_uuid: Option<Uuid>)
        ensures
            final(self).records@ == old(self).records@.push(
                HoldRecord { actor_id, uuid, parent_uuid },
            ),
    {
        self.records.push(HoldRecord { actor_id, uuid, parent_uuid });
    }

    /// Releases every hold owned by the given actor.
    pub fn remove_by_actor_id(&mut self, actor_id: u64)
        ensures
            final(self).records@ == without_actor(old(self).records@, actor_id),
            forall|i: int|
                0 <= i < final(self).records@.len()
                    ==> (#[trigger] final(self).records@[i]).actor_id != actor_id,
            forall|u: Uuid| final(self).holds(u) ==> old(self).holds(u),
    {
        let ghost all = self.records@;
        let n = self.records.len();
        let mut kept: Vec<HoldRecord> = Vec::new();
        let mut i: usize = 0;
        while i < n
            invariant
                n == all.len(),
                i <= n,
                self.records@ == all,
                kept@ == without_actor(all.take(i as int), actor_id),
            decreases n - i,
        {
            proof {
                assert(all.take(i + 1).drop_last() =~= all.take(i as int));
                assert(all.take(i + 1).last() == all[i as int]);
            }
            let r = self.records[i];
            if r.actor_id != actor_id {
                kept.push(r);
            }
            i = i + 1;
        }
        proof {
            assert(all.take(n as int) =~= all);
        }
        self.records = kept;
        proof {
            lemma_without_actor_props(all, actor_id);
            assert forall|u: Uuid| final(self).holds(u) implies old(self).holds(u) by {
                if spec_holds(without_actor(all, actor_id), u) {
                    let i = choose|i: int|
                        0 <= i < without_actor(all, actor_id).len() && record_pins(
                            without_actor(all, actor_id)[i],
                            u,
                        );
                    lemma_without_actor_props(all, actor_id);
                    assert(all.contains(without_actor(all, actor_id)[i]));
                    let j = choose|j: int|
                        0 <= j < all.len() && all[j] == without_actor(all, actor_id)[i];
                    assert(record_pins(all[j], u));
                }
            }
        }
    }

    /// Whether the id `u` is currently pinned.
    pub fn contains(&self, u: Uuid) -> (r: bool)
        ensures
            r == self.holds(u),
    {
        let n = self.records.len();
        let mut i: usize = 0;
        while i < n
            invariant
                n == self.records@.len(),
                i <= n,
                forall|j: int| 0 <= j < i ==> !record_pins(#[trigger] self.records@[j], u),
            decreases n - i,
        {
            let r = self.records[i];
            let pins = r.uuid.value == u.value || match r.parent_uuid {
                Some(p) => p.value == u.value,
                None => false,
            };
            if pins {
                return true;
            }
            i = i + 1;
        }
        false
    }

    /// Every pinned id, snapshot ids and parent ids alike.
    pub fn held_uuids(&self) -> (r: Vec<Uuid>)
        ensures
            r@ == held_seq(self.records@),
            forall|u: Uuid| r@.contains(u) <==> self.holds(u),
    {
        let n = self.records.len();
        let mut r: Vec<Uuid> = Vec::new();
        let mut i: usize = 0;
        while i < n
            invariant
                n == self.records@.len(),
                i <= n,
                r@ == held_seq(self.records@.take(i as int)),
                forall|u: Uuid| #[trigger] r@.contains(u) ==> self.holds(u),
                forall|j: int|
                    0 <= j < i ==> r@.contains((#[trigger] self.records@[j]).uuid) && (
                    self.records@[j].parent_uuid matches Some(p) ==> r@.contains(p)),
            decreases n - i,
        {
            let ghost r0 = r@;
            let rec = self.records[i];
            r.push(rec.uuid);
            let ghost r1 = r@;
            match rec.parent_uuid {
                Some(p) => {
                    r.push(p);
                },
                None => {},
            }
            proof {
                assert(self.records@.take(i + 1).drop_last() =~= self.records@.take(i as int));
                assert(self.records@.take(i + 1).last() == self.records@[i as int]);
                assert(r@ =~= held_seq(self.records@.take(i + 1)));
                assert forall|u: Uuid| #[trigger] r@.contains(u) implies self.holds(u) by {
                    let k = choose|k: int| 0 <= k < r@.len() && r@[k] == u;
                    if k < r0.len() {
                        assert(r0[k] == u);
                        assert(r0.contains(u));
                    } else {
                        assert(record_pins(self.records@[i as int], u));
                    }
                }
                assert forall|j: int|
                    0 <= j < i + 1 implies r@.contains((#[trigger] self.records@[j]).uuid) && (
                self.records@[j].parent_uuid matches Some(p) ==> r@.contains(p)) by {
                    if j < i {
                        assert(r0.contains(self.records@[j].uuid));
                        let k = choose|k: int| 0 <= k < r0.len() && r0[k] == self.records@[j].uuid;
                        assert(r@[k] == self.records@[j].uuid);
                        if self.records@[j].parent_uuid is Some {
                            let p = self.records@[j].parent_uuid->0;
                            assert(r0.contains(p));
                            let k2 = choose|k2: int| 0 <= k2 < r0.len() && r0[k2] == p;
                            assert(r@[k2] == p);
                        }
                    } else {
                        assert(r1[r0.len() as int] == rec.uuid);
                        if rec.parent_uuid is Some {
                            assert(r@[r0.len() as int] == rec.uuid);
                            assert(r@[r0.len() as int + 1] == rec.parent_uuid->0);
                            assert(r@.contains(rec.parent_uuid->0));
                        } else {
                            assert(r@ == r1);
                        }
                        assert(r@.contains(rec.uuid));
                    }
                }
            }
            i = i + 1;
        }
        proof {
            assert(self.records@.take(n as int) =~= self.records@);
            assert forall|u: Uuid| self.holds(u) implies r@.contains(u) by {
                let j = choose|j: int|
                    0 <= j < self.records@.len() && record_pins(self.records@[j], u);
            }
        }
        r
    }

    /// The owning actor ids of all records, in order.
    pub fn actor_ids(&self) -> (r: Vec<u64>)
        ensures
            r@.len() == self.records@.len(),
            forall|i: int|
                0 <= i < r@.len() ==> r@[i] == (#[trigger] self.records@[i]).actor_id,
    {
        let n = self.records.len();
        let mut r: Vec<u64> = Vec::new();
        let mut i: usize = 0;
        while i < n
            invariant
                n == self.records@.len(),
                i <= n,
                r@.len() == i,
                forall|j: int|
                    0 <= j < i ==> r@[j] == (#[trigger] self.records@[j]).actor_id,
            decreases n - i,
        {
            r.push(self.records[i].actor_id);
            i = i + 1;
        }
        r
    }
}

/// Removal keeps only records of other actors, and only records that were
/// already present.
proof fn lemma_without_actor_props(s: Seq<HoldRecord>, id: u64)
    ensures
        forall|i: int|
            0 <= i < without_actor(s, id).len() ==> (#[trigger] without_actor(s, id)[i]).actor_id
                != id && s.contains(without_actor(s, id)[i]),
    decreases s.len(),
{
    if s.len() > 0 {
        lemma_without_actor_props(s.drop_last(), id);
        assert forall|i: int| 0 <= i < without_actor(s, id).len() implies (#[trigger] without_actor(
            s,
            id,
        )[i]).actor_id != id && s.contains(without_actor(s, id)[i]) by {
            let pre = without_actor(s.drop_last(), id);
            if i < pre.len() {
                assert(s.drop_last().contains(pre[i]));
                let j = choose|j: int| 0 <= j < s.drop_last().len() && s.drop_last()[j] == pre[i];
                assert(s[j] == pre[i]);
            } else {
                assert(without_actor(s, id)[i] == s.last());
                assert(s[s.len() - 1] == s.last());
            }
        }
    }
}

} // verus!
