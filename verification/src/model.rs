//! The persisted configuration model: pools with their datasets and
//! containers, replication pairs, and observers, plus the collection type
//! that owns them and answers lookups.

use vstd::prelude::*;

use crate::ids::Uuid;
use crate::retention::RetentionRule;
use crate::schedule::Schedule;

verus! {

/// Whether a feature of an entity runs, is paused, or was never set up.
#[derive(Clone, Copy, PartialEq, Eq, Structural, Debug)]
pub enum FeatureState {
    Enabled,
    Paused,
    Unconfigured,
}

impl FeatureState {
    /// True only for an enabled feature.
    pub fn is_enabled(&self) -> (r: bool)
        ensures
            r == (*self == FeatureState::Enabled),
    {
        matches!(self, FeatureState::Enabled)
    }
}

/// The kinds of configured entities.
#[derive(Clone, Copy, PartialEq, Eq, Structural, Debug)]
pub enum EntityType {
    Pool,
    Dataset,
    Container,
    SnapshotSync,
    Observer,
}

/// A retention setup: the rule itself and when to evaluate it.
pub struct RetentionConfig {
    pub rule: RetentionRule,
    pub evaluation_schedule: Schedule,
}

/// A dataset: a live subvolume snapshots are taken of.
pub struct BtrfsDatasetEntity {
    pub id: Uuid,
    pub name: String,
    pub path: String,
    pub uuid: Uuid,
    pub snapshot_schedule: Option<Schedule>,
    pub snapshot_retention: Option<RetentionConfig>,
    pub snapshotting_state: FeatureState,
    pub pruning_state: FeatureState,
}

/// A container: a subvolume that receives snapshots from datasets.
pub struct BtrfsContainerEntity {
    pub id: Uuid,
    pub name: String,
    pub path: String,
    pub uuid: Uuid,
    pub snapshot_retention: Option<RetentionConfig>,
    pub pruning_state: FeatureState,
}

impl BtrfsDatasetEntity {
    /// Usable configuration: any schedule parses into a usable schedule and
    /// any retention rule is within the engine's bounds.
    pub open spec fn config_wf(&self) -> bool {
        &&& (self.snapshot_schedule matches Some(s) ==> s.wf())
        &&& (self.snapshot_retention matches Some(rc) ==> rc.rule.wf()
            && rc.evaluation_schedule.wf())
    }
}

impl BtrfsContainerEntity {
    /// Usable configuration: any retention rule is within the engine's
    /// bounds and its evaluation schedule is usable.
    pub open spec fn config_wf(&self) -> bool {
        self.snapshot_retention matches Some(rc) ==> rc.rule.wf() && rc.evaluation_schedule.wf()
    }
}

/// A pool: one mounted filesystem with its datasets and containers.
pub struct BtrfsPoolEntity {
    pub id: Uuid,
    pub name: String,
    pub mountpoint_path: String,
    pub uuid: Uuid,
    pub uuid_subs: Vec<Uuid>,
    pub datasets: Vec<BtrfsDatasetEntity>,
    pub containers: Vec<BtrfsContainerEntity>,
}

/// A directed replication pair from a dataset to a container.
pub struct SnapshotSyncEntity {
    pub id: Uuid,
    pub dataset_id: Uuid,
    pub container_id: Uuid,
    pub sync_schedule: Option<Schedule>,
}

/// Why attaching a pool was refused.
#[derive(Clone, Copy, PartialEq, Eq, Structural, Debug)]
pub enum ModelError {
    /// Another pool already carries this name.
    PoolNameTaken,
    /// Another pool already carries this filesystem id.
    PoolUuidTaken,
    /// Another pool is already mounted at this path.
    PoolMountpointTaken,
}

/// The pairs (i, b) for one pool at index `i` and its first `m` datasets,
/// in order.
pub open spec fn spec_dataset_row(i: usize, m: int) -> Seq<(usize, usize)>
    decreases m,
{
    if m <= 0 {
        Seq::empty()
    } else {
        spec_dataset_row(i, m - 1).push((i, (m - 1) as usize))
    }
}

/// The (pool index, dataset index) pairs of the first `n` pools, pools in
/// order, each pool's datasets in order.
pub open spec fn spec_dataset_pairs(pools: Seq<BtrfsPoolEntity>, n: int) -> Seq<(usize, usize)>
    decreases n,
{
    if n <= 0 {
        Seq::empty()
    } else {
        spec_dataset_pairs(pools, n - 1) + spec_dataset_row(
            (n - 1) as usize,
            pools[n - 1].datasets@.len() as int,
        )
    }
}

/// All configured entities.
pub struct Entities {
    pub btrfs_pools: Vec<BtrfsPoolEntity>,
    pub snapshot_syncs: Vec<SnapshotSyncEntity>,
}

impl Entities {
    /// An empty configuration.
    pub fn new() -> (r: Entities)
        ensures
            r.btrfs_pools@.len() == 0,
            r.snapshot_syncs@.len() == 0,
    {
        Entities { btrfs_pools: Vec::new(), snapshot_syncs: Vec::new() }
    }

    /// Adds a pool after checking that its name, filesystem id and
    /// mountpoint are all unused; refuses in that order.
    pub fn attach_pool(&mut self, pool: BtrfsPoolEntity) -> (r: Result<(), ModelError>)
        ensures
            match r {
                Ok(()) => {
                    &&& final(self).btrfs_pools@ == old(self).btrfs_pools@.push(pool)
                    &&& final(self).snapshot_syncs@ == old(self).snapshot_syncs@
                    &&& forall|i: int|
                        0 <= i < old(self).btrfs_pools@.len() ==> (#[trigger] old(
                            self,
                        ).btrfs_pools@[i]).name@ != pool.name@ && old(self).btrfs_pools@[i].uuid
                            != pool.uuid && old(self).btrfs_pools@[i].mountpoint_path@
                            != pool.mountpoint_path@
                },
                Err(e) => {
                    &&& *final(self) == *old(self)
                    &&& (e == ModelError::PoolNameTaken <==> exists|i: int|
                        0 <= i < old(self).btrfs_pools@.len() && (#[trigger] old(
                            self,
                        ).btrfs_pools@[i]).name@ == pool.name@)
                    &&& (e == ModelError::PoolUuidTaken ==> exists|i: int|
                        0 <= i < old(self).btrfs_pools@.len() && (#[trigger] old(
                            self,
                        ).btrfs_pools@[i]).uuid == pool.uuid)
                    &&& (e == ModelError::PoolMountpointTaken ==> exists|i: int|
                        0 <= i < old(self).btrfs_pools@.len() && (#[trigger] old(
                            self,
                        ).btrfs_pools@[i]).mountpoint_path@ == pool.mountpoint_path@)
                },
            },
    {
        if self.pool(&pool.name).is_some() {
            return Err(ModelError::PoolNameTaken);
        }
        if self.pool_by_uuid(&pool.uuid).is_some() {
            return Err(ModelError::PoolUuidTaken);
        }
        if self.pool_by_mountpoint(&pool.mountpoint_path).is_some() {
            return Err(ModelError::PoolMountpointTaken);
        }
        self.btrfs_pools.push(pool);
        Ok(())
    }

    /// The pool with the given filesystem id, if any.
    pub fn pool_by_uuid(&self, uuid: &Uuid) -> (r: Option<&BtrfsPoolEntity>)
        ensures
            match r {
                Some(p) => exists|i: int|
                    0 <= i < self.btrfs_pools@.len() && *p == #[trigger] self.btrfs_pools@[i]
                        && p.uuid == *uuid && (forall|j: int|
                        0 <= j < i ==> (#[trigger] self.btrfs_pools@[j]).uuid != *uuid),
                None => forall|i: int|
                    0 <= i < self.btrfs_pools@.len() ==> (#[trigger] self.btrfs_pools@[i]).uuid
                        != *uuid,
            },
    {
        let n = self.btrfs_pools.len();
        let mut i: usize = 0;
        while i < n
            invariant
                n == self.btrfs_pools@.len(),
                i <= n,
                forall|j: int| 0 <= j < i ==> (#[trigger] self.btrfs_pools@[j]).uuid != *uuid,
            decreases n - i,
        {
            if self.btrfs_pools[i].uuid.value == uuid.value {
                return Some(&self.btrfs_pools[i]);
            }
            i = i + 1;
        }
        None
    }

    /// The pool mounted at the given path, if any.
    pub fn pool_by_mountpoint(&self, path: &String) -> (r: Option<&BtrfsPoolEntity>)
        ensures
            match r {
                Some(p) => exists|i: int|
                    0 <= i < self.btrfs_pools@.len() && *p == #[trigger] self.btrfs_pools@[i]
                        && p.mountpoint_path@ == path@ && (forall|j: int|
                        0 <= j < i ==> (#[trigger] self.btrfs_pools@[j]).mountpoint_path@ != path@),
                None => forall|i: int|
                    0 <= i < self.btrfs_pools@.len() ==> (#[trigger] self.btrfs_pools@[i]).mountpoint_path@
                        != path@,
            },
    {
        let n = self.btrfs_pools.len();
        let mut i: usize = 0;
        while i < n
            invariant
                n == self.btrfs_pools@.len(),
                i <= n,
                forall|j: int|
                    0 <= j < i ==> (#[trigger] self.btrfs_pools@[j]).mountpoint_path@ != path@,
            decreases n - i,
        {
            if self.btrfs_pools[i].mountpoint_path == *path {
                return Some(&self.btrfs_pools[i]);
            }
            i = i + 1;
        }
        None
    }

    /// The index of the pool mounted at the given path, for updating it.
    pub fn pool_by_mountpoint_mut(&self, path: &String) -> (r: Option<usize>)
        ensures
            match r {
                Some(i) => i < self.btrfs_pools@.len() && self.btrfs_pools@[i as int].mountpoint_path@
                    == path@ && (forall|j: int|
                    0 <= j < i ==> (#[trigger] self.btrfs_pools@[j]).mountpoint_path@ != path@),
                None => forall|i: int|
                    0 <= i < self.btrfs_pools@.len() ==> (#[trigger] self.btrfs_pools@[i]).mountpoint_path@
                        != path@,
            },
    {
        let n = self.btrfs_pools.len();
        let mut i: usize = 0;
        while i < n
            invariant
                n == self.btrfs_pools@.len(),
                i <= n,
                forall|j: int|
                    0 <= j < i ==> (#[trigger] self.btrfs_pools@[j]).mountpoint_path@ != path@,
            decreases n - i,
        {
            if self.btrfs_pools[i].mountpoint_path == *path {
                return Some(i);
            }
            i = i + 1;
        }
        None
    }

    /// The pool with the given name, if any.
    pub fn pool(&self, name: &String) -> (r: Option<&BtrfsPoolEntity>)
        ensures
            match r {
                Some(p) => exists|i: int|
                    0 <= i < self.btrfs_pools@.len() && *p == #[trigger] self.btrfs_pools@[i]
                        && p.name@ == name@ && (forall|j: int|
                        0 <= j < i ==> (#[trigger] self.btrfs_pools@[j]).name@ != name@),
                None => forall|i: int|
                    0 <= i < self.btrfs_pools@.len() ==> (#[trigger] self.btrfs_pools@[i]).name@
                        != name@,
            },
    {
        let n = self.btrfs_pools.len();
        let mut i: usize = 0;
        while i < n
            invariant
                n == self.btrfs_pools@.len(),
                i <= n,
                forall|j: int| 0 <= j < i ==> (#[trigger] self.btrfs_pools@[j]).name@ != name@,
            decreases n - i,
        {
            if self.btrfs_pools[i].name == *name {
                return Some(&self.btrfs_pools[i]);
            }
            i = i + 1;
        }
        None
    }

    /// All pools, in attach order.
    pub fn pools(&self) -> (r: &Vec<BtrfsPoolEntity>)
        ensures
            r@ == self.btrfs_pools@,
    {
        &self.btrfs_pools
    }

    /// Every (pool index, dataset index) pair: exactly one pair per dataset,
    /// pools in order, datasets in order within each pool.
    pub fn datasets(&self) -> (r: Vec<(usize, usize)>)
        ensures
            r@ == spec_dataset_pairs(self.btrfs_pools@, self.btrfs_pools@.len() as int),
    {
        let mut r: Vec<(usize, usize)> = Vec::new();
        let n = self.btrfs_pools.len();
        let mut i: usize = 0;
        while i < n
            invariant
                n == self.btrfs_pools@.len(),
                i <= n,
                r@ == spec_dataset_pairs(self.btrfs_pools@, i as int),
            decreases n - i,
        {
            let m = self.btrfs_pools[i].datasets.len();
            let mut j: usize = 0;
            while j < m
                invariant
                    n == self.btrfs_pools@.len(),
                    i < n,
                    m == self.btrfs_pools@[i as int].datasets@.len(),
                    j <= m,
                    r@ == spec_dataset_pairs(self.btrfs_pools@, i as int) + spec_dataset_row(
                        i,
                        j as int,
                    ),
                decreases m - j,
            {
                r.push((i, j));
                proof {
                    assert(r@ =~= spec_dataset_pairs(self.btrfs_pools@, i as int)
                        + spec_dataset_row(i, j + 1));
                }
                j = j + 1;
            }
            proof {
                assert(r@ =~= spec_dataset_pairs(self.btrfs_pools@, i + 1));
            }
            i = i + 1;
        }
        r
    }

    /// Where the dataset with the given id lives: pool and dataset indices.
    pub fn dataset_by_id(&self, id: &Uuid) -> (r: Option<(usize, usize)>)
        ensures
            match r {
                Some(p) => p.0 < self.btrfs_pools@.len() && p.1
                    < self.btrfs_pools@[p.0 as int].datasets@.len()
                    && self.btrfs_pools@[p.0 as int].datasets@[p.1 as int].id == *id,
                None => forall|i: int, j: int|
                    0 <= i < self.btrfs_pools@.len() && 0 <= j
                        < (#[trigger] self.btrfs_pools@[i]).datasets@.len() ==> (
                    #[trigger] self.btrfs_pools@[i].datasets@[j]).id != *id,
            },
    {
        let n = self.btrfs_pools.len();
        let mut i: usize = 0;
        while i < n
            invariant
                n == self.btrfs_pools@.len(),
                i <= n,
                forall|a: int, b: int|
                    0 <= a < i && 0 <= b < (#[trigger] self.btrfs_pools@[a]).datasets@.len() ==> (
                    #[trigger] self.btrfs_pools@[a].datasets@[b]).id != *id,
            decreases n - i,
        {
            let m = self.btrfs_pools[i].datasets.len();
            let mut j: usize = 0;
            while j < m
                invariant
                    n == self.btrfs_pools@.len(),
                    i < n,
                    m == self.btrfs_pools@[i as int].datasets@.len(),
                    j <= m,
                    forall|b: int|
                        0 <= b < j ==> (#[trigger] self.btrfs_pools@[i as int].datasets@[b]).id
                            != *id,
                decreases m - j,
            {
                if self.btrfs_pools[i].datasets[j].id.value == id.value {
                    return Some((i, j));
                }
                j = j + 1;
            }
            i = i + 1;
        }
        None
    }

    /// Where the container with the given id lives: pool and container
    /// indices.
    pub fn container_by_id(&self, id: &Uuid) -> (r: Option<(usize, usize)>)
        ensures
            match r {
                Some(p) => p.0 < self.btrfs_pools@.len() && p.1
                    < self.btrfs_pools@[p.0 as int].containers@.len()
                    && self.btrfs_pools@[p.0 as int].containers@[p.1 as int].id == *id,
                None => forall|i: int, j: int|
                    0 <= i < self.btrfs_pools@.len() && 0 <= j
                        < (#[trigger] self.btrfs_pools@[i]).containers@.len() ==> (
                    #[trigger] self.btrfs_pools@[i].containers@[j]).id != *id,
            },
    {
        let n = self.btrfs_pools.len();
        let mut i: usize = 0;
        while i < n
            invariant
                n == self.btrfs_pools@.len(),
                i <= n,
                forall|a: int, b: int|
                    0 <= a < i && 0 <= b < (#[trigger] self.btrfs_pools@[a]).containers@.len()
                        ==> (#[trigger] self.btrfs_pools@[a].containers@[b]).id != *id,
            decreases n - i,
        {
            let m = self.btrfs_pools[i].containers.len();
            let mut j: usize = 0;
            while j < m
                invariant
                    n == self.btrfs_pools@.len(),
                    i < n,
                    m == self.btrfs_pools@[i as int].containers@.len(),
                    j <= m,
                    forall|b: int|
                        0 <= b < j ==> (#[trigger] self.btrfs_pools@[i as int].containers@[b]).id
                            != *id,
                decreases m - j,
            {
                if self.btrfs_pools[i].containers[j].id.value == id.value {
                    return Some((i, j));
                }
                j = j + 1;
            }
            i = i + 1;
        }
        None
    }

    /// All replication pairs, in configuration order.
    pub fn snapshot_syncs(&self) -> (r: &Vec<SnapshotSyncEntity>)
        ensures
            r@ == self.snapshot_syncs@,
    {
        &self.snapshot_syncs
    }
}

} // verus!
