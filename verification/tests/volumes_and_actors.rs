//! Pools, datasets, containers and the actors over them.

use blkcapt::actor::TerminalState;
use blkcapt::container::{ContainerActor, SourceSnapshots};
use blkcapt::dataset::{DatasetActor, ResolveError};
use blkcapt::ids::Uuid;
use blkcapt::model::{BtrfsContainerEntity, BtrfsDatasetEntity, FeatureState, RetentionConfig};
use blkcapt::retention::{RetentionBucket, RetentionRule};
use blkcapt::schedule::Schedule;
use blkcapt::time::format_snapshot_name;
use blkcapt::time::CivilDateTime;
use blkcapt::volumes::{
    BlockDeviceIds, BtrfsContainer, BtrfsDataset, BtrfsPool, MountedFilesystem, PoolError,
    QueriedFilesystem, SubvolumeError, Subvolume,
};

fn subvol(id: u128, parent: Option<u128>, received: Option<u128>, path: &str) -> Subvolume {
    Subvolume {
        uuid: Uuid::from_value(id),
        parent_uuid: parent.map(Uuid::from_value),
        received_uuid: received.map(Uuid::from_value),
        path: String::from(path),
    }
}

fn mounted() -> QueriedFilesystem {
    QueriedFilesystem::Mounted(MountedFilesystem {
        fstree_mountpoint: String::from("/mnt/pool"),
        uuid: Uuid::from_value(0xf5),
        devices: vec![String::from("/dev/sda")],
    })
}

fn dataset_under_test() -> BtrfsDataset {
    BtrfsDataset::new(
        Uuid::from_value(0xd),
        String::from("data"),
        Some(subvol(0x11, Some(0x10), None, "data")),
    )
    .unwrap()
}

fn snapshot_dir_listing(dataset_path: &str, minutes: &[u8], first_id: u128) -> Vec<Subvolume> {
    let mut listing = Vec::new();
    for (k, m) in minutes.iter().enumerate() {
        let name = format_snapshot_name(&CivilDateTime::new(2024, 1, 1, 0, *m, 0));
        listing.push(subvol(
            first_id + k as u128,
            Some(0x11),
            None,
            &format!("{}/{}", dataset_path, name),
        ));
    }
    listing
}

#[test]
fn pool_requires_a_toplevel_mountpoint() {
    let r = BtrfsPool::new(
        Uuid::from_value(1),
        String::from("pool"),
        String::from("/mnt/pool"),
        false,
        mounted(),
        Vec::new(),
    );
    assert_eq!(r.err().unwrap(), PoolError::NotTopLevel);
}

#[test]
fn pool_requires_a_mounted_filesystem() {
    let r = BtrfsPool::new(
        Uuid::from_value(1),
        String::from("pool"),
        String::from("/mnt/pool"),
        true,
        QueriedFilesystem::Unmounted,
        Vec::new(),
    );
    assert_eq!(r.err().unwrap(), PoolError::NotMounted);
}

#[test]
fn pool_requires_sub_ids_on_every_device() {
    let ids = vec![BlockDeviceIds {
        device: String::from("/dev/sda"),
        uuid: Some(Uuid::from_value(2)),
        uuid_sub: None,
    }];
    let r = BtrfsPool::new(
        Uuid::from_value(1),
        String::from("pool"),
        String::from("/mnt/pool"),
        true,
        mounted(),
        ids,
    );
    assert_eq!(r.err().unwrap(), PoolError::MissingDeviceSub);
}

#[test]
fn pool_builds_from_a_good_probe() {
    let ids = vec![BlockDeviceIds {
        device: String::from("/dev/sda"),
        uuid: Some(Uuid::from_value(2)),
        uuid_sub: Some(Uuid::from_value(3)),
    }];
    let p = BtrfsPool::new(
        Uuid::from_value(1),
        String::from("pool"),
        String::from("/mnt/pool"),
        true,
        mounted(),
        ids,
    )
    .unwrap();
    assert_eq!(p.model().name, "pool");
    assert_eq!(p.model().uuid.raw(), 0xf5);
    assert_eq!(p.model().uuid_subs.len(), 1);
}

#[test]
fn dataset_validate_needs_its_subvolume() {
    let model = dataset_under_test().take_model();
    assert_eq!(
        BtrfsDataset::validate(model, None).err().unwrap(),
        SubvolumeError::NotFound
    );
}

#[test]
fn dataset_snapshot_dir_is_under_the_pool_metadata() {
    let d = dataset_under_test();
    assert_eq!(
        d.snapshot_container_path(),
        format!(".blkcapt/snapshots/{}", Uuid::from_value(0xd).to_text())
    );
}

#[test]
fn dataset_enumeration_parses_sorts_and_skips() {
    let d = dataset_under_test();
    let mut listing = snapshot_dir_listing("dir", &[30, 0, 15], 0x20);
    listing.push(subvol(0x99, Some(0x11), None, "dir/not-a-snapshot"));
    let snaps = d.snapshots(&listing);
    assert_eq!(snaps.len(), 3);
    assert_eq!(snaps[0].uuid().raw(), 0x21); // minute zero
    assert_eq!(snaps[1].uuid().raw(), 0x22); // minute fifteen
    assert_eq!(snaps[2].uuid().raw(), 0x20); // minute thirty
    assert!(snaps[0].at < snaps[1].at && snaps[1].at < snaps[2].at);
}

#[test]
fn latest_snapshot_is_the_newest_named_entry() {
    let d = dataset_under_test();
    let listing = snapshot_dir_listing("dir", &[30, 0, 15], 0x20);
    let latest = d.latest_snapshot(&listing).unwrap();
    assert_eq!(latest.uuid().raw(), 0x20);
    assert!(d.latest_snapshot(&Vec::new()).is_none());
}

#[test]
fn sender_request_pins_the_snapshot_and_parent() {
    let d = dataset_under_test();
    let listing = snapshot_dir_listing("dir", &[0, 15], 0x20);
    let snaps = d.snapshots(&listing);
    let mut actor = DatasetActor::new(d, snaps);
    let grant = actor
        .get_snapshot_sender(41, Uuid::from_value(0x21), Some(Uuid::from_value(0x20)))
        .unwrap();
    assert_eq!(grant.snapshot_path, "dir/2024-01-01T00-15-00Z");
    assert_eq!(grant.parent_path.unwrap(), "dir/2024-01-01T00-00-00Z");
    assert!(actor.holds.contains(Uuid::from_value(0x21)));
    assert!(actor.holds.contains(Uuid::from_value(0x20)));
    actor.actor_finished(41);
    assert!(!actor.holds.contains(Uuid::from_value(0x21)));
}

#[test]
fn sender_request_for_unknown_snapshot_is_refused() {
    let d = dataset_under_test();
    let listing = snapshot_dir_listing("dir", &[0], 0x20);
    let snaps = d.snapshots(&listing);
    let mut actor = DatasetActor::new(d, snaps);
    assert_eq!(
        actor.get_snapshot_sender(41, Uuid::from_value(0x77), None).err().unwrap(),
        ResolveError::SnapshotNotFound
    );
    assert_eq!(
        actor
            .get_snapshot_holder(41, Uuid::from_value(0x20), Some(Uuid::from_value(0x78)))
            .err()
            .unwrap(),
        ResolveError::ParentNotFound
    );
    assert_eq!(actor.holds.len(), 0);
}

#[test]
fn dataset_prune_spares_held_snapshots() {
    let mut d = dataset_under_test();
    d.model.snapshot_retention = Some(RetentionConfig {
        rule: RetentionRule {
            buckets: vec![RetentionBucket { interval_secs: 60, count: 1 }],
            newest_count: 1,
        },
        evaluation_schedule: Schedule::Periodic { period_secs: 60 },
    });
    d.model.pruning_state = FeatureState::Enabled;
    let listing = snapshot_dir_listing("dir", &[0, 15, 30], 0x20);
    let snaps = d.snapshots(&listing);
    let mut actor = DatasetActor::new(d, snaps);
    // Pin the oldest snapshot, as a running send would.
    actor.get_snapshot_holder(9, Uuid::from_value(0x20), None).unwrap();
    let deleted = actor.handle_prune_tick();
    // Only the unheld middle snapshot goes; the held one and the newest stay.
    assert_eq!(deleted.len(), 1);
    assert_eq!(deleted[0].uuid().raw(), 0x21);
    assert_eq!(actor.snapshots.len(), 2);
    // Once the hold is released, the next prune takes the old snapshot too.
    actor.actor_finished(9);
    let deleted = actor.handle_prune_tick();
    assert_eq!(deleted.len(), 1);
    assert_eq!(deleted[0].uuid().raw(), 0x20);
}

#[test]
fn snapshot_append_refuses_stale_instants() {
    let d = dataset_under_test();
    let listing = snapshot_dir_listing("dir", &[15], 0x20);
    let snaps = d.snapshots(&listing);
    let older_listing = snapshot_dir_listing("dir", &[0], 0x30);
    let older = d.snapshots(&older_listing);
    let mut actor = DatasetActor::new(d, snaps);
    let older_snap = older.into_iter().next().unwrap();
    assert!(!actor.snapshot_created(older_snap));
    assert_eq!(actor.snapshots.len(), 1);
}

fn container_under_test() -> BtrfsContainer {
    BtrfsContainer::new(
        Uuid::from_value(0xc),
        String::from("backups"),
        Some(subvol(0x41, None, None, "backups")),
    )
    .unwrap()
}

#[test]
fn container_validate_needs_its_subvolume() {
    let model = container_under_test().take_model();
    assert_eq!(
        BtrfsContainer::validate(model, None).err().unwrap(),
        SubvolumeError::NotFound
    );
}

#[test]
fn container_enumeration_takes_only_renamed_received_entries() {
    let c = container_under_test();
    let listing = vec![
        // A finished receive: renamed and carrying its source id.
        subvol(0x50, None, Some(0x21), "backups/d/2024-01-01T00-15-00Z.bcrcv"),
        // An interrupted receive: not yet renamed, passed over.
        subvol(0x51, None, Some(0x22), "backups/d/2024-01-01T00-30-00Z"),
        // A stray subvolume without a source id, passed over.
        subvol(0x52, None, None, "backups/d/2024-01-01T00-45-00Z.bcrcv"),
    ];
    let snaps = c.snapshots(&listing);
    assert_eq!(snaps.len(), 1);
    assert_eq!(snaps[0].uuid().raw(), 0x50);
    assert_eq!(snaps[0].received_uuid().raw(), 0x21);
}

#[test]
fn rescan_after_receive_shows_the_transferred_snapshot() {
    // After a successful receive of source snapshot 0x21 the directory holds
    // a renamed entry for it; the next enumeration converges on it.
    let c = container_under_test();
    let listing = vec![subvol(0x50, None, Some(0x21), "backups/d/2024-01-01T00-15-00Z.bcrcv")];
    let fresh = c.snapshots(&listing);
    let mut actor = ContainerActor::new(c, Vec::new());
    actor.get_snapshot_receiver(77, Uuid::from_value(0xd), None).unwrap();
    actor.receiver_finished(77, Uuid::from_value(0xd), fresh);
    let handles = actor.get_snapshots(Uuid::from_value(0xd));
    assert_eq!(handles.len(), 1);
    assert_eq!(handles[0].source_snapshot.raw(), 0x21);
    assert_eq!(actor.holds.len(), 0);
}

#[test]
fn incremental_receive_pins_its_base() {
    let c = container_under_test();
    let listing = vec![subvol(0x50, None, Some(0x21), "backups/d/2024-01-01T00-15-00Z.bcrcv")];
    let base = c.snapshots(&listing);
    let mut actor = ContainerActor::new(
        c,
        vec![SourceSnapshots { dataset_id: Uuid::from_value(0xd), snapshots: base }],
    );
    let grant = actor
        .get_snapshot_receiver(78, Uuid::from_value(0xd), Some(Uuid::from_value(0x21)))
        .unwrap();
    assert_eq!(grant.parent_path.unwrap(), "backups/d/2024-01-01T00-15-00Z.bcrcv");
    assert!(actor.holds.contains(Uuid::from_value(0x50)));
    actor.actor_finished(78);
    assert!(!actor.holds.contains(Uuid::from_value(0x50)));
}

#[test]
fn container_prune_spares_the_pinned_base() {
    let mut c = container_under_test();
    c.model.snapshot_retention = Some(RetentionConfig {
        rule: RetentionRule {
            buckets: vec![RetentionBucket { interval_secs: 60, count: 1 }],
            newest_count: 1,
        },
        evaluation_schedule: Schedule::Periodic { period_secs: 60 },
    });
    c.model.pruning_state = FeatureState::Enabled;
    let listing = vec![
        subvol(0x50, None, Some(0x21), "backups/d/2024-01-01T00-00-00Z.bcrcv"),
        subvol(0x51, None, Some(0x22), "backups/d/2024-01-01T00-15-00Z.bcrcv"),
        subvol(0x52, None, Some(0x23), "backups/d/2024-01-01T00-30-00Z.bcrcv"),
    ];
    let snaps = c.snapshots(&listing);
    let mut actor = ContainerActor::new(
        c,
        vec![SourceSnapshots { dataset_id: Uuid::from_value(0xd), snapshots: snaps }],
    );
    actor
        .get_snapshot_receiver(79, Uuid::from_value(0xd), Some(Uuid::from_value(0x21)))
        .unwrap();
    let deleted = actor.handle_prune_tick(0);
    assert_eq!(deleted.len(), 1);
    assert_eq!(deleted[0].uuid().raw(), 0x51);
}

#[test]
fn dataset_entity_carries_its_configuration() {
    let e = BtrfsDatasetEntity {
        id: Uuid::from_value(1),
        name: String::from("data"),
        path: String::from("data"),
        uuid: Uuid::from_value(2),
        snapshot_schedule: Some(Schedule::Periodic { period_secs: 900 }),
        snapshot_retention: None,
        snapshotting_state: FeatureState::Enabled,
        pruning_state: FeatureState::Paused,
    };
    assert!(matches!(e.snapshotting_state, FeatureState::Enabled));
    let c = BtrfsContainerEntity {
        id: Uuid::from_value(3),
        name: String::from("backups"),
        path: String::from("backups"),
        uuid: Uuid::from_value(4),
        snapshot_retention: None,
        pruning_state: FeatureState::Unconfigured,
    };
    assert!(matches!(c.pruning_state, FeatureState::Unconfigured));
}

#[test]
fn receiver_request_without_its_base_is_refused() {
    let c = container_under_test();
    let mut actor = ContainerActor::new(c, Vec::new());
    let r = actor.get_snapshot_receiver(80, Uuid::from_value(0xd), Some(Uuid::from_value(0x21)));
    assert_eq!(r.err().unwrap(), blkcapt::container::ReceiveError::ParentNotFound);
    assert_eq!(actor.holds.len(), 0);
}

#[test]
fn equal_instants_order_by_id() {
    // Two snapshots named for the same instant order by their subvolume id.
    let d = dataset_under_test();
    let name = format_snapshot_name(&CivilDateTime::new(2024, 1, 1, 0, 0, 0));
    let listing = vec![
        subvol(0x31, Some(0x11), None, &format!("a/{}", name)),
        subvol(0x30, Some(0x11), None, &format!("b/{}", name)),
    ];
    let snaps = d.snapshots(&listing);
    assert_eq!(snaps.len(), 2);
    assert_eq!(snaps[0].uuid().raw(), 0x30);
    assert_eq!(snaps[1].uuid().raw(), 0x31);
}

#[test]
fn shutdown_stops_hold_owners_and_reports_cancelled() {
    let d = dataset_under_test();
    let listing = snapshot_dir_listing("dir", &[0], 0x20);
    let snaps = d.snapshots(&listing);
    let mut actor = DatasetActor::new(d, snaps);
    // An idle actor stops cleanly.
    assert_eq!(actor.stopped_plan(), (Vec::new(), TerminalState::Succeeded));
    // With a live hold, stopping names its owner and reports cancelled.
    actor.get_snapshot_holder(5, Uuid::from_value(0x20), None).unwrap();
    let (ids, terminal) = actor.stopped_plan();
    assert_eq!(ids, vec![5]);
    assert_eq!(terminal, TerminalState::Cancelled);
    // The stopped child reports finished and its hold goes.
    actor.actor_finished(5);
    assert_eq!(actor.stopped_plan(), (Vec::new(), TerminalState::Succeeded));
}

#[test]
fn pool_validate_binds_only_its_own_filesystem() {
    let model = BtrfsPool::new(
        Uuid::from_value(1),
        String::from("pool"),
        String::from("/mnt/pool"),
        true,
        mounted(),
        Vec::new(),
    )
    .unwrap()
    .take_model();
    // The probe shows the pool's own filesystem: accepted.
    let p = BtrfsPool::validate(model, mounted()).unwrap();
    assert_eq!(p.model().uuid.raw(), 0xf5);
    // A probe showing some other filesystem is refused.
    let other = QueriedFilesystem::Mounted(MountedFilesystem {
        fstree_mountpoint: String::from("/mnt/pool"),
        uuid: Uuid::from_value(0xee),
        devices: Vec::new(),
    });
    let model = p.take_model();
    assert_eq!(BtrfsPool::validate(model, other).err().unwrap(), PoolError::NotMounted);
}

#[test]
fn dataset_validate_binds_only_its_own_subvolume() {
    let model = dataset_under_test().take_model();
    // A subvolume with another id is as good as missing.
    let wrong = subvol(0x77, Some(0x10), None, "data");
    assert_eq!(
        BtrfsDataset::validate(model, Some(wrong)).err().unwrap(),
        SubvolumeError::NotFound
    );
    let model = dataset_under_test().take_model();
    let right = subvol(0x11, Some(0x10), None, "data");
    let d = BtrfsDataset::validate(model, Some(right)).unwrap();
    assert_eq!(d.uuid().raw(), 0x11);
}

#[test]
fn container_validate_binds_only_its_own_subvolume() {
    let model = container_under_test().take_model();
    let wrong = subvol(0x99, None, None, "backups");
    assert_eq!(
        BtrfsContainer::validate(model, Some(wrong)).err().unwrap(),
        SubvolumeError::NotFound
    );
}

#[test]
fn sender_grant_paths_are_the_resolved_snapshots() {
    // The grant's paths are pinned to the resolved snapshots, exactly what
    // the transfer feeds to the filesystem tool.
    let d = dataset_under_test();
    let listing = snapshot_dir_listing("dir", &[0, 15], 0x20);
    let snaps = d.snapshots(&listing);
    let mut actor = DatasetActor::new(d, snaps);
    let grant = actor.get_snapshot_holder(42, Uuid::from_value(0x20), None).unwrap();
    assert_eq!(grant.snapshot_path, "dir/2024-01-01T00-00-00Z");
    assert!(grant.parent_path.is_none());
}
