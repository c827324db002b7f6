//! The retention engine on concrete snapshot sets.

use blkcapt::ids::Uuid;
use blkcapt::retention::{
    prune, rule_is_wf, PruneResult, RetentionBucket, RetentionRule, SnapshotRecord,
};

fn rec(at: i64, id: u128) -> SnapshotRecord {
    SnapshotRecord { uuid: Uuid::from_value(id), at }
}

fn hour_of_five_minute_snapshots(base: i64) -> Vec<SnapshotRecord> {
    // Thirteen snapshots, every five minutes for the past hour, oldest first.
    let mut v = Vec::new();
    for k in 0..13i64 {
        let minutes_ago = 60 - 5 * k;
        v.push(rec(base - minutes_ago * 60, (k + 1) as u128));
    }
    v
}

fn uuids(list: &[SnapshotRecord]) -> Vec<u128> {
    list.iter().map(|r| r.uuid.raw()).collect()
}

#[test]
fn prune_with_hold_keeps_held_and_drops_neighbours() {
    // Rule: six five-minute slots, then two fifteen-minute slots.
    let base = 1704110400i64; // 2024-01-01T12:00:00Z
    let snaps = hour_of_five_minute_snapshots(base);
    let rule = RetentionRule {
        buckets: vec![
            RetentionBucket { interval_secs: 300, count: 6 },
            RetentionBucket { interval_secs: 900, count: 2 },
        ],
        newest_count: 0,
    };
    assert!(rule_is_wf(&rule));
    // Hold the snapshot taken 35 minutes ago: uuid 6.
    let held = vec![Uuid::from_value(6)];
    let r: PruneResult = prune(&snaps, &held, &rule);
    // The newest snapshot anchors the windows; the six five-minute slots
    // keep the six after it; each fifteen-minute slot keeps its newest, the
    // first of them the held snapshot from 35 minutes ago; the snapshots
    // from 40 and 45 minutes ago and the two oldest go.
    assert_eq!(uuids(&r.keep), vec![3, 6, 7, 8, 9, 10, 11, 12, 13]);
    assert_eq!(uuids(&r.delete), vec![1, 2, 4, 5]);
}

#[test]
fn prune_never_deletes_a_held_snapshot() {
    let base = 1704110400i64;
    let snaps = hour_of_five_minute_snapshots(base);
    let rule = RetentionRule {
        buckets: vec![RetentionBucket { interval_secs: 300, count: 2 }],
        newest_count: 0,
    };
    // Hold everything old.
    let held: Vec<Uuid> = (1..=13u128).map(Uuid::from_value).collect();
    let r = prune(&snaps, &held, &rule);
    assert_eq!(r.delete.len(), 0);
    assert_eq!(r.keep.len(), 13);
}

#[test]
fn prune_is_idempotent_on_its_keep_set() {
    let base = 1704110400i64;
    let snaps = hour_of_five_minute_snapshots(base);
    let rule = RetentionRule {
        buckets: vec![
            RetentionBucket { interval_secs: 300, count: 6 },
            RetentionBucket { interval_secs: 900, count: 2 },
        ],
        newest_count: 1,
    };
    let held = vec![Uuid::from_value(6)];
    let first = prune(&snaps, &held, &rule);
    let second = prune(&first.keep, &held, &rule);
    assert_eq!(uuids(&second.keep), uuids(&first.keep));
    assert_eq!(second.delete.len(), 0);
}

#[test]
fn newest_count_retains_the_latest_unconditionally() {
    let base = 1704110400i64;
    let snaps = hour_of_five_minute_snapshots(base);
    let rule = RetentionRule { buckets: vec![], newest_count: 3 };
    let r = prune(&snaps, &held_none(), &rule);
    assert_eq!(uuids(&r.keep), vec![11, 12, 13]);
    assert_eq!(r.delete.len(), 10);
}

fn held_none() -> Vec<Uuid> {
    Vec::new()
}

#[test]
fn rule_with_zero_interval_is_refused() {
    let rule = RetentionRule {
        buckets: vec![RetentionBucket { interval_secs: 0, count: 5 }],
        newest_count: 0,
    };
    assert!(!rule_is_wf(&rule));
}

#[test]
fn empty_snapshot_set_prunes_to_nothing() {
    let rule = RetentionRule {
        buckets: vec![RetentionBucket { interval_secs: 300, count: 2 }],
        newest_count: 0,
    };
    let r = prune(&Vec::new(), &held_none(), &rule);
    assert_eq!(r.keep.len(), 0);
    assert_eq!(r.delete.len(), 0);
}
