//! The entity collection, hold records and the worker's job list.

use blkcapt::holds::HoldSet;
use blkcapt::ids::Uuid;
use blkcapt::model::{
    BtrfsContainerEntity, BtrfsDatasetEntity, BtrfsPoolEntity, Entities, FeatureState, ModelError,
    SnapshotSyncEntity,
};
use blkcapt::worker::{service, ServiceError, WorkerJob};

fn pool_entity(id: u128, name: &str, mountpoint: &str, fsid: u128) -> BtrfsPoolEntity {
    BtrfsPoolEntity {
        id: Uuid::from_value(id),
        name: String::from(name),
        mountpoint_path: String::from(mountpoint),
        uuid: Uuid::from_value(fsid),
        uuid_subs: Vec::new(),
        datasets: Vec::new(),
        containers: Vec::new(),
    }
}

fn dataset_entity(id: u128, name: &str) -> BtrfsDatasetEntity {
    BtrfsDatasetEntity {
        id: Uuid::from_value(id),
        name: String::from(name),
        path: String::from(name),
        uuid: Uuid::from_value(id + 0x100),
        snapshot_schedule: None,
        snapshot_retention: None,
        snapshotting_state: FeatureState::Enabled,
        pruning_state: FeatureState::Enabled,
    }
}

fn container_entity(id: u128, name: &str) -> BtrfsContainerEntity {
    BtrfsContainerEntity {
        id: Uuid::from_value(id),
        name: String::from(name),
        path: String::from(name),
        uuid: Uuid::from_value(id + 0x200),
        snapshot_retention: None,
        pruning_state: FeatureState::Enabled,
    }
}

#[test]
fn attach_pool_refuses_duplicates_in_order() {
    let mut e = Entities::new();
    e.attach_pool(pool_entity(1, "alpha", "/mnt/alpha", 0xa1)).unwrap();
    assert_eq!(
        e.attach_pool(pool_entity(2, "alpha", "/mnt/beta", 0xb1)).unwrap_err(),
        ModelError::PoolNameTaken
    );
    assert_eq!(
        e.attach_pool(pool_entity(2, "beta", "/mnt/beta", 0xa1)).unwrap_err(),
        ModelError::PoolUuidTaken
    );
    assert_eq!(
        e.attach_pool(pool_entity(2, "beta", "/mnt/alpha", 0xb1)).unwrap_err(),
        ModelError::PoolMountpointTaken
    );
    e.attach_pool(pool_entity(2, "beta", "/mnt/beta", 0xb1)).unwrap();
    assert_eq!(e.pools().len(), 2);
}

#[test]
fn entity_lookups_find_what_was_attached() {
    let mut e = Entities::new();
    let mut p = pool_entity(1, "alpha", "/mnt/alpha", 0xa1);
    p.datasets.push(dataset_entity(0xd1, "data"));
    p.containers.push(container_entity(0xc1, "backups"));
    e.attach_pool(p).unwrap();
    assert!(e.pool(&String::from("alpha")).is_some());
    assert!(e.pool(&String::from("missing")).is_none());
    assert!(e.pool_by_uuid(&Uuid::from_value(0xa1)).is_some());
    assert!(e.pool_by_mountpoint(&String::from("/mnt/alpha")).is_some());
    assert_eq!(e.pool_by_mountpoint_mut(&String::from("/mnt/alpha")), Some(0));
    assert_eq!(e.dataset_by_id(&Uuid::from_value(0xd1)), Some((0, 0)));
    assert_eq!(e.container_by_id(&Uuid::from_value(0xc1)), Some((0, 0)));
    assert_eq!(e.dataset_by_id(&Uuid::from_value(0x77)), None);
    assert_eq!(e.datasets(), vec![(0, 0)]);
}

#[test]
fn service_builds_one_job_per_duty() {
    let mut e = Entities::new();
    let mut p = pool_entity(1, "alpha", "/mnt/alpha", 0xa1);
    p.datasets.push(dataset_entity(0xd1, "data"));
    p.containers.push(container_entity(0xc1, "backups"));
    e.attach_pool(p).unwrap();
    e.snapshot_syncs.push(SnapshotSyncEntity {
        id: Uuid::from_value(0x51),
        dataset_id: Uuid::from_value(0xd1),
        container_id: Uuid::from_value(0xc1),
        sync_schedule: None,
    });
    let jobs = service(&e).unwrap();
    assert_eq!(jobs.len(), 4);
    assert!(jobs.contains(&WorkerJob::Snapshot { dataset_id: Uuid::from_value(0xd1) }));
    assert!(jobs.contains(&WorkerJob::Prune { dataset_id: Uuid::from_value(0xd1) }));
    assert!(jobs.contains(&WorkerJob::ContainerPrune { container_id: Uuid::from_value(0xc1) }));
    assert!(jobs.contains(&WorkerJob::Sync {
        sync_id: Uuid::from_value(0x51),
        dataset_id: Uuid::from_value(0xd1),
        container_id: Uuid::from_value(0xc1),
    }));
}

#[test]
fn service_refuses_a_sync_without_its_dataset() {
    let mut e = Entities::new();
    let mut p = pool_entity(1, "alpha", "/mnt/alpha", 0xa1);
    p.containers.push(container_entity(0xc1, "backups"));
    e.attach_pool(p).unwrap();
    e.snapshot_syncs.push(SnapshotSyncEntity {
        id: Uuid::from_value(0x51),
        dataset_id: Uuid::from_value(0xd1),
        container_id: Uuid::from_value(0xc1),
        sync_schedule: None,
    });
    assert_eq!(
        service(&e).unwrap_err(),
        ServiceError::SyncDatasetMissing { sync_id: Uuid::from_value(0x51) }
    );
}

#[test]
fn service_refuses_a_sync_without_its_container() {
    let mut e = Entities::new();
    let mut p = pool_entity(1, "alpha", "/mnt/alpha", 0xa1);
    p.datasets.push(dataset_entity(0xd1, "data"));
    e.attach_pool(p).unwrap();
    e.snapshot_syncs.push(SnapshotSyncEntity {
        id: Uuid::from_value(0x51),
        dataset_id: Uuid::from_value(0xd1),
        container_id: Uuid::from_value(0xc1),
        sync_schedule: None,
    });
    assert_eq!(
        service(&e).unwrap_err(),
        ServiceError::SyncContainerMissing { sync_id: Uuid::from_value(0x51) }
    );
}

#[test]
fn holds_pin_snapshot_and_parent_until_their_actor_finishes() {
    let mut holds = HoldSet::new();
    holds.insert(11, Uuid::from_value(1), Some(Uuid::from_value(2)));
    holds.insert(12, Uuid::from_value(3), None);
    assert!(holds.contains(Uuid::from_value(1)));
    assert!(holds.contains(Uuid::from_value(2)));
    assert!(holds.contains(Uuid::from_value(3)));
    assert!(!holds.contains(Uuid::from_value(4)));
    let held = holds.held_uuids();
    assert_eq!(held.len(), 3);
    assert_eq!(holds.actor_ids(), vec![11, 12]);
    holds.remove_by_actor_id(11);
    assert!(!holds.contains(Uuid::from_value(1)));
    assert!(!holds.contains(Uuid::from_value(2)));
    assert!(holds.contains(Uuid::from_value(3)));
    assert_eq!(holds.len(), 1);
}
