//! The worker root: turns the validated configuration into the jobs the
//! daemon runs, checking that every replication pair points at a configured
//! dataset and container.

use vstd::prelude::*;

use crate::ids::Uuid;
use crate::model::{BtrfsPoolEntity, Entities, SnapshotSyncEntity};

verus! {

/// One unit of recurring work.
#[derive(Clone, Copy, PartialEq, Eq, Structural, Debug)]
pub enum WorkerJob {
    /// Take a snapshot of the dataset.
    Snapshot { dataset_id: Uuid },
    /// Evaluate retention on the dataset.
    Prune { dataset_id: Uuid },
    /// Evaluate retention on the container.
    ContainerPrune { container_id: Uuid },
    /// Replicate from the dataset to the container.
    Sync { sync_id: Uuid, dataset_id: Uuid, container_id: Uuid },
}

/// Why the configuration cannot run.
#[derive(Clone, Copy, PartialEq, Eq, Structural, Debug)]
pub enum ServiceError {
    /// A replication pair names a dataset that no pool holds.
    SyncDatasetMissing { sync_id: Uuid },
    /// A replication pair names a container that no pool holds.
    SyncContainerMissing { sync_id: Uuid },
}

/// Whether some pool holds a dataset with this id.
pub open spec fn dataset_exists(e: Entities, id: Uuid) -> bool {
    exists|i: int, j: int|
        0 <= i < e.btrfs_pools@.len() && 0 <= j < (#[trigger] e.btrfs_pools@[i]).datasets@.len()
            && (#[trigger] e.btrfs_pools@[i].datasets@[j]).id == id
}

/// Whether some pool holds a container with this id.
pub open spec fn container_exists(e: Entities, id: Uuid) -> bool {
    exists|i: int, j: int|
        0 <= i < e.btrfs_pools@.len() && 0 <= j < (#[trigger] e.btrfs_pools@[i]).containers@.len()
            && (#[trigger] e.btrfs_pools@[i].containers@[j]).id == id
}

/// A snapshot job and a prune job for each of a pool's first `m` datasets,
/// in order.
pub open spec fn spec_dataset_jobs(p: BtrfsPoolEntity, m: int) -> Seq<WorkerJob>
    decreases m,
{
    if m <= 0 {
        Seq::empty()
    } else {
        spec_dataset_jobs(p, m - 1) + seq![
            WorkerJob::Snapshot { dataset_id: p.datasets@[m - 1].id },
            WorkerJob::Prune { dataset_id: p.datasets@[m - 1].id },
        ]
    }
}

/// A prune job for each of a pool's first `m` containers, in order.
pub open spec fn spec_container_jobs(p: BtrfsPoolEntity, m: int) -> Seq<WorkerJob>
    decreases m,
{
    if m <= 0 {
        Seq::empty()
    } else {
        spec_container_jobs(p, m - 1).push(
            WorkerJob::ContainerPrune { container_id: p.containers@[m - 1].id },
        )
    }
}

/// The jobs of the first `n` pools: each pool's dataset jobs, then its
/// container jobs.
pub open spec fn spec_pool_jobs(pools: Seq<BtrfsPoolEntity>, n: int) -> Seq<WorkerJob>
    decreases n,
{
    if n <= 0 {
        Seq::empty()
    } else {
        spec_pool_jobs(pools, n - 1) + spec_dataset_jobs(
            pools[n - 1],
            pools[n - 1].datasets@.len() as int,
        ) + spec_container_jobs(pools[n - 1], pools[n - 1].containers@.len() as int)
    }
}

/// A sync job for each of the first `k` replication pairs, in order.
pub open spec fn spec_sync_jobs(syncs: Seq<SnapshotSyncEntity>, k: int) -> Seq<WorkerJob>
    decreases k,
{
    if k <= 0 {
        Seq::empty()
    } else {
        spec_sync_jobs(syncs, k - 1).push(
            WorkerJob::Sync {
                sync_id: syncs[k - 1].id,
                dataset_id: syncs[k - 1].dataset_id,
                container_id: syncs[k - 1].container_id,
            },
        )
    }
}

/// The whole job list of a configuration: every pool's jobs, then every
/// pair's sync job.
pub open spec fn spec_service_jobs(e: Entities) -> Seq<WorkerJob> {
    spec_pool_jobs(e.btrfs_pools@, e.btrfs_pools@.len() as int) + spec_sync_jobs(
        e.snapshot_syncs@,
        e.snapshot_syncs@.len() as int,
    )
}

/// Builds the daemon's job list from the configuration: exactly a snapshot
/// job and a prune job per dataset, a prune job per container, and a sync
/// job per replication pair, refusing a pair whose dataset or container is
/// missing.
pub fn service(entities: &Entities) -> (r: Result<Vec<WorkerJob>, ServiceError>)
    ensures
        match r {
            Ok(jobs) => {
                &&& jobs@ == spec_service_jobs(*entities)
                &&& forall|k: int|
                    0 <= k < entities.snapshot_syncs@.len() ==> dataset_exists(
                        *entities,
                        (#[trigger] entities.snapshot_syncs@[k]).dataset_id,
                    ) && container_exists(*entities, entities.snapshot_syncs@[k].container_id)
            },
            Err(e) => {
                &&& (e matches ServiceError::SyncDatasetMissing { sync_id } ==> exists|k: int|
                    0 <= k < entities.snapshot_syncs@.len() && (
                    #[trigger] entities.snapshot_syncs@[k]).id == sync_id && !dataset_exists(
                        *entities,
                        entities.snapshot_syncs@[k].dataset_id,
                    ))
                &&& (e matches ServiceError::SyncContainerMissing { sync_id } ==> exists|k: int|
                    0 <= k < entities.snapshot_syncs@.len() && (
                    #[trigger] entities.snapshot_syncs@[k]).id == sync_id && !container_exists(
                        *entities,
                        entities.snapshot_syncs@[k].container_id,
                    ))
            },
        },
{
    let ghost pools = entities.btrfs_pools@;
    let mut jobs: Vec<WorkerJob> = Vec::new();
    let np = entities.btrfs_pools.len();
    let mut i: usize = 0;
    while i < np
        invariant
            pools == entities.btrfs_pools@,
            np == pools.len(),
            i <= np,
            jobs@ == spec_pool_jobs(pools, i as int),
        decreases np - i,
    {
        let nd = entities.btrfs_pools[i].datasets.len();
        let mut j: usize = 0;
        while j < nd
            invariant
                pools == entities.btrfs_pools@,
                np == pools.len(),
                i < np,
                nd == pools[i as int].datasets@.len(),
                j <= nd,
                jobs@ == spec_pool_jobs(pools, i as int) + spec_dataset_jobs(
                    pools[i as int],
                    j as int,
                ),
            decreases nd - j,
        {
            let id = entities.btrfs_pools[i].datasets[j].id;
            jobs.push(WorkerJob::Snapshot { dataset_id: id });
            jobs.push(WorkerJob::Prune { dataset_id: id });
            proof {
                assert(jobs@ =~= spec_pool_jobs(pools, i as int) + spec_dataset_jobs(
                    pools[i as int],
                    j + 1,
                ));
            }
            j = j + 1;
        }
        let nc = entities.btrfs_pools[i].containers.len();
        let mut j: usize = 0;
        while j < nc
            invariant
                pools == entities.btrfs_pools@,
                np == pools.len(),
                i < np,
                nc == pools[i as int].containers@.len(),
                j <= nc,
                jobs@ == spec_pool_jobs(pools, i as int) + spec_dataset_jobs(
                    pools[i as int],
                    pools[i as int].datasets@.len() as int,
                ) + spec_container_jobs(pools[i as int], j as int),
            decreases nc - j,
        {
            let id = entities.btrfs_pools[i].containers[j].id;
            jobs.push(WorkerJob::ContainerPrune { container_id: id });
            proof {
                assert(jobs@ =~= spec_pool_jobs(pools, i as int) + spec_dataset_jobs(
                    pools[i as int],
                    pools[i as int].datasets@.len() as int,
                ) + spec_container_jobs(pools[i as int], j + 1));
            }
            j = j + 1;
        }
        proof {
            assert(jobs@ =~= spec_pool_jobs(pools, i + 1));
        }
        i = i + 1;
    }
    let ghost syncs = entities.snapshot_syncs@;
    let ns = entities.snapshot_syncs.len();
    let mut k: usize = 0;
    while k < ns
        invariant
            pools == entities.btrfs_pools@,
            syncs == entities.snapshot_syncs@,
            np == pools.len(),
            ns == syncs.len(),
            k <= ns,
            jobs@ == spec_pool_jobs(pools, np as int) + spec_sync_jobs(syncs, k as int),
            forall|c: int|
                0 <= c < k ==> dataset_exists(*entities, (#[trigger] syncs[c]).dataset_id)
                    && container_exists(*entities, syncs[c].container_id),
        decreases ns - k,
    {
        let sync = &entities.snapshot_syncs[k];
        if entities.dataset_by_id(&sync.dataset_id).is_none() {
            return Err(ServiceError::SyncDatasetMissing { sync_id: sync.id });
        }
        if entities.container_by_id(&sync.container_id).is_none() {
            return Err(ServiceError::SyncContainerMissing { sync_id: sync.id });
        }
        jobs.push(
            WorkerJob::Sync {
                sync_id: sync.id,
                dataset_id: sync.dataset_id,
                container_id: sync.container_id,
            },
        );
        proof {
            assert(jobs@ =~= spec_pool_jobs(pools, np as int) + spec_sync_jobs(syncs, k + 1));
        }
        k = k + 1;
    }
    Ok(jobs)
}

} // verus!
