//! Candidate choice and the transfer cycle of a replication pair.

use blkcapt::actor::TerminalState;
use blkcapt::ids::Uuid;
use blkcapt::sync::{next_candidate, SyncActor, SyncState, TransferOutcome};
use blkcapt::volumes::{
    BtrfsContainerSnapshotHandle, BtrfsDatasetSnapshotHandle, BtrfsDatasetSnapshotState,
};

const T0: i64 = 1704067200;

fn src_handle(at: i64, id: u128) -> BtrfsDatasetSnapshotHandle {
    BtrfsDatasetSnapshotHandle {
        datetime: blkcapt::time::CivilDateTime::new(2024, 1, 1, 0, 0, 0),
        at,
        uuid: Uuid::from_value(id),
        state: BtrfsDatasetSnapshotState::Original { parent_dataset: Uuid::from_value(0xd5) },
    }
}

fn recv_handle(at: i64, id: u128, source: u128) -> BtrfsContainerSnapshotHandle {
    BtrfsContainerSnapshotHandle {
        datetime: blkcapt::time::CivilDateTime::new(2024, 1, 1, 0, 0, 0),
        at,
        uuid: Uuid::from_value(id),
        source_snapshot: Uuid::from_value(source),
        parent_snapshot: None,
    }
}

#[test]
fn incremental_sync_picks_the_next_snapshot_after_the_base() {
    // Source holds snapshots at minutes zero, fifteen and thirty; the
    // container already received the middle one.
    let source = vec![src_handle(T0, 1), src_handle(T0 + 900, 2), src_handle(T0 + 1800, 3)];
    let container = vec![recv_handle(T0 + 950, 100, 2)];
    let c = next_candidate(&source, &container).unwrap();
    assert_eq!(c.snapshot.uuid.raw(), 3);
    assert_eq!(c.parent.unwrap().uuid.raw(), 2);
    assert!(!c.missing_parent);
}

#[test]
fn first_sync_sends_the_oldest_snapshot_in_full() {
    let source = vec![src_handle(T0, 1), src_handle(T0 + 900, 2)];
    let c = next_candidate(&source, &Vec::new()).unwrap();
    assert_eq!(c.snapshot.uuid.raw(), 1);
    assert!(c.parent.is_none());
    assert!(!c.missing_parent);
}

#[test]
fn missing_base_falls_back_to_a_full_send_with_a_warning() {
    // The container's newest received snapshot no longer exists on the
    // source: send the oldest unreceived in full and flag the fallback.
    let source = vec![src_handle(T0, 1), src_handle(T0 + 900, 2)];
    let container = vec![recv_handle(T0 + 500, 100, 99)];
    let c = next_candidate(&source, &container).unwrap();
    assert_eq!(c.snapshot.uuid.raw(), 1);
    assert!(c.parent.is_none());
    assert!(c.missing_parent);
}

#[test]
fn fully_replicated_pair_has_no_candidate() {
    let source = vec![src_handle(T0, 1)];
    let container = vec![recv_handle(T0 + 60, 100, 1)];
    assert!(next_candidate(&source, &container).is_none());
}

#[test]
fn identical_inputs_choose_the_same_candidate() {
    let source = vec![src_handle(T0, 1), src_handle(T0 + 900, 2), src_handle(T0 + 1800, 3)];
    let container = vec![recv_handle(T0 + 950, 100, 2)];
    let a = next_candidate(&source, &container).unwrap();
    let b = next_candidate(&source, &container).unwrap();
    assert_eq!(a.snapshot.uuid.raw(), b.snapshot.uuid.raw());
    assert_eq!(
        a.parent.map(|p| p.uuid.raw()),
        b.parent.map(|p| p.uuid.raw())
    );
    assert_eq!(a.missing_parent, b.missing_parent);
}

#[test]
fn overlapping_ticks_are_dropped_while_busy() {
    let mut actor = SyncActor::new(Uuid::from_value(0xd), Uuid::from_value(0xc));
    assert!(actor.handle_tick());
    assert_eq!(actor.state, SyncState::PickingCandidate);
    // A second tick lands during the running cycle and is dropped.
    assert!(!actor.handle_tick());
    assert_eq!(actor.state, SyncState::PickingCandidate);
}

#[test]
fn transfer_cycle_completes_when_both_ends_report() {
    let mut actor = SyncActor::new(Uuid::from_value(0xd), Uuid::from_value(0xc));
    assert!(actor.handle_tick());
    let source = vec![src_handle(T0, 1)];
    let cand = actor.pick_candidate(&source, &Vec::new());
    assert!(cand.is_some());
    assert_eq!(actor.state, SyncState::AcquiringSourceHold);
    actor.holder_ready(true);
    assert_eq!(actor.state, SyncState::AcquiringReceiver);
    actor.receiver_ready(true);
    assert_eq!(actor.state, SyncState::AcquiringSender);
    actor.sender_ready(true);
    assert_eq!(
        actor.state,
        SyncState::Transferring { sender_done: false, receiver_done: false }
    );
    assert_eq!(actor.transfer_finished(true, true), TransferOutcome::Waiting);
    assert_eq!(actor.transfer_finished(false, true), TransferOutcome::Completed(true));
    assert_eq!(actor.state, SyncState::Idle);
}

#[test]
fn failed_end_cancels_the_cycle_at_once() {
    let mut actor = SyncActor::new(Uuid::from_value(0xd), Uuid::from_value(0xc));
    assert!(actor.handle_tick());
    let source = vec![src_handle(T0, 1)];
    actor.pick_candidate(&source, &Vec::new());
    actor.holder_ready(true);
    actor.receiver_ready(true);
    actor.sender_ready(true);
    assert_eq!(actor.transfer_finished(true, false), TransferOutcome::Completed(false));
    assert_eq!(actor.state, SyncState::Idle);
    assert!(actor.candidate.is_none());
}

#[test]
fn stop_during_transfer_reports_cancelled() {
    let mut actor = SyncActor::new(Uuid::from_value(0xd), Uuid::from_value(0xc));
    assert!(actor.handle_tick());
    let source = vec![src_handle(T0, 1)];
    actor.pick_candidate(&source, &Vec::new());
    actor.holder_ready(true);
    actor.receiver_ready(true);
    actor.sender_ready(true);
    assert_eq!(actor.handle_stop(), TerminalState::Cancelled);
    assert_eq!(actor.state, SyncState::Idle);
}

#[test]
fn stop_between_cycles_reports_success() {
    let mut actor = SyncActor::new(Uuid::from_value(0xd), Uuid::from_value(0xc));
    assert_eq!(actor.handle_stop(), TerminalState::Succeeded);
}

#[test]
fn terminal_states_describe_retries() {
    assert_eq!(TerminalState::dnr(), TerminalState::Failed(false));
    assert_eq!(TerminalState::retry(), TerminalState::Failed(true));
    assert_eq!(TerminalState::from_result(true), TerminalState::Succeeded);
    assert_eq!(TerminalState::from_result(false), TerminalState::Failed(false));
}
