//! The replication state machine of one (dataset, container) pair: which
//! snapshot to transfer next, and how one transfer cycle steps from message
//! to message.

use vstd::prelude::*;

use crate::actor::TerminalState;
use crate::ids::Uuid;
use crate::retention::{rec_lt, SnapshotRecord};
use crate::volumes::{BtrfsContainerSnapshotHandle, BtrfsDatasetSnapshotHandle};

verus! {

/// The ordering record of a source snapshot handle.
pub open spec fn handle_record(h: BtrfsDatasetSnapshotHandle) -> SnapshotRecord {
    SnapshotRecord { uuid: h.uuid, at: h.at }
}

/// Whether the container already received the source snapshot with this id.
pub open spec fn is_received(c: Seq<BtrfsContainerSnapshotHandle>, u: Uuid) -> bool {
    exists|i: int| 0 <= i < c.len() && (#[trigger] c[i]).source_snapshot == u
}

/// The first source snapshot with the given id, if any.
pub open spec fn first_match(s: Seq<BtrfsDatasetSnapshotHandle>, x: Uuid, n: int) -> Option<int>
    decreases n,
{
    if n <= 0 {
        None
    } else {
        match first_match(s, x, n - 1) {
            Some(i) => Some(i),
            None => if s[n - 1].uuid == x {
                Some(n - 1)
            } else {
                None
            },
        }
    }
}

/// The first source snapshot not yet received, after the given record when
/// one is given.
pub open spec fn first_candidate(
    s: Seq<BtrfsDatasetSnapshotHandle>,
    c: Seq<BtrfsContainerSnapshotHandle>,
    after: Option<SnapshotRecord>,
    n: int,
) -> Option<int>
    decreases n,
{
    if n <= 0 {
        None
    } else {
        match first_candidate(s, c, after, n - 1) {
            Some(i) => Some(i),
            None => if !is_received(c, s[n - 1].uuid) && (after matches Some(a) ==> rec_lt(
                a,
                handle_record(s[n - 1]),
            )) {
                Some(n - 1)
            } else {
                None
            },
        }
    }
}

/// What the next transfer cycle moves: the snapshot, its incremental base
/// if the container's newest received snapshot is still on the source, and
/// whether that base went missing, which falls back to a full send and is
/// worth a warning.
#[derive(Clone, Copy, PartialEq, Eq, Structural, Debug)]
pub struct SyncCandidate {
    pub snapshot: BtrfsDatasetSnapshotHandle,
    pub parent: Option<BtrfsDatasetSnapshotHandle>,
    pub missing_parent: bool,
}

/// The candidate the next cycle transfers, as a function of the two
/// snapshot sets alone. With nothing received yet, the oldest source
/// snapshot goes in full; with a newest received snapshot still on the
/// source, the oldest unreceived snapshot after it goes incrementally;
/// with the newest received snapshot gone from the source, the oldest
/// unreceived snapshot goes in full.
pub open spec fn spec_next_candidate(
    s: Seq<BtrfsDatasetSnapshotHandle>,
    c: Seq<BtrfsContainerSnapshotHandle>,
) -> Option<SyncCandidate> {
    if c.len() == 0 {
        match first_candidate(s, c, None, s.len() as int) {
            Some(i) => Some(
                SyncCandidate { snapshot: s[i], parent: None, missing_parent: false },
            ),
            None => None,
        }
    } else {
        let x = c.last().source_snapshot;
        match first_match(s, x, s.len() as int) {
            Some(p) => match first_candidate(s, c, Some(handle_record(s[p])), s.len() as int) {
                Some(i) => Some(
                    SyncCandidate { snapshot: s[i], parent: Some(s[p]), missing_parent: false },
                ),
                None => None,
            },
            None => match first_candidate(s, c, None, s.len() as int) {
                Some(i) => Some(
                    SyncCandidate { snapshot: s[i], parent: None, missing_parent: true },
                ),
                None => None,
            },
        }
    }
}

/// Whether the container received the snapshot with this id.
fn received(c: &Vec<BtrfsContainerSnapshotHandle>, u: Uuid) -> (r: bool)
    ensures
        r == is_received(c@, u),
{
    let n = c.len();
    let mut i: usize = 0;
    while i < n
        invariant
            n == c@.len(),
            i <= n,
            forall|j: int| 0 <= j < i ==> (#[trigger] c@[j]).source_snapshot != u,
        decreases n - i,
    {
        if c[i].source_snapshot.value == u.value {
            return true;
        }
        i = i + 1;
    }
    false
}

/// The first source snapshot with the given id.
fn find_source(s: &Vec<BtrfsDatasetSnapshotHandle>, x: Uuid) -> (r: Option<usize>)
    ensures
        match r {
            Some(i) => i < s@.len() && first_match(s@, x, s@.len() as int) == Some(i as int),
            None => first_match(s@, x, s@.len() as int) is None,
        },
{
    let n = s.len();
    let mut i: usize = 0;
    while i < n
        invariant
            n == s@.len(),
            i <= n,
            first_match(s@, x, i as int) is None,
        decreases n - i,
    {
        if s[i].uuid.value == x.value {
            proof {
                lemma_first_match_extend(s@, x, i as int, n as int);
            }
            return Some(i);
        }
        i = i + 1;
    }
    None
}

/// Once found at `i`, the first match stays `i` for any longer prefix.
proof fn lemma_first_match_extend(s: Seq<BtrfsDatasetSnapshotHandle>, x: Uuid, i: int, n: int)
    requires
        0 <= i < n <= s.len(),
        first_match(s, x, i) is None,
        s[i].uuid == x,
    ensures
        first_match(s, x, n) == Some(i),
    decreases n,
{
    if n - 1 > i {
        lemma_first_match_extend(s, x, i, n - 1);
    }
}

/// Once found at `i`, the first candidate stays `i` for any longer prefix.
proof fn lemma_first_candidate_extend(
    s: Seq<BtrfsDatasetSnapshotHandle>,
    c: Seq<BtrfsContainerSnapshotHandle>,
    after: Option<SnapshotRecord>,
    i: int,
    n: int,
)
    requires
        0 <= i < n <= s.len(),
        first_candidate(s, c, after, i) is None,
        !is_received(c, s[i].uuid),
        after matches Some(a) ==> rec_lt(a, handle_record(s[i])),
    ensures
        first_candidate(s, c, after, n) == Some(i),
    decreases n,
{
    if n - 1 > i {
        lemma_first_candidate_extend(s, c, after, i, n - 1);
    }
}

/// The first unreceived source snapshot after the bound.
fn find_candidate(
    s: &Vec<BtrfsDatasetSnapshotHandle>,
    c: &Vec<BtrfsContainerSnapshotHandle>,
    after: Option<SnapshotRecord>,
) -> (r: Option<usize>)
    ensures
        match r {
            Some(i) => i < s@.len() && first_candidate(s@, c@, after, s@.len() as int) == Some(
                i as int,
            ),
            None => first_candidate(s@, c@, after, s@.len() as int) is None,
        },
{
    let n = s.len();
    let mut i: usize = 0;
    while i < n
        invariant
            n == s@.len(),
            i <= n,
            first_candidate(s@, c@, after, i as int) is None,
        decreases n - i,
    {
        let unreceived = !received(c, s[i].uuid);
        let after_ok = match after {
            Some(a) => {
                let h = &s[i];
                a.at < h.at || (a.at == h.at && a.uuid.value < h.uuid.value)
            },
            None => true,
        };
        if unreceived && after_ok {
            proof {
                lemma_first_candidate_extend(s@, c@, after, i as int, n as int);
            }
            return Some(i);
        }
        i = i + 1;
    }
    None
}

/// Chooses the snapshot the next cycle transfers, with its incremental
/// base; the choice is a function of the two snapshot sets alone.
pub fn next_candidate(
    source: &Vec<BtrfsDatasetSnapshotHandle>,
    container: &Vec<BtrfsContainerSnapshotHandle>,
) -> (r: Option<SyncCandidate>)
    ensures
        r == spec_next_candidate(source@, container@),
{
    if container.len() == 0 {
        match find_candidate(source, container, None) {
            Some(i) => Some(
                SyncCandidate { snapshot: source[i], parent: None, missing_parent: false },
            ),
            None => None,
        }
    } else {
        let x = container[container.len() - 1].source_snapshot;
        match find_source(source, x) {
            Some(p) => {
                let ph = source[p];
                match find_candidate(source, container, Some(SnapshotRecord { uuid: ph.uuid, at: ph.at })) {
                    Some(i) => Some(
                        SyncCandidate {
                            snapshot: source[i],
                            parent: Some(ph),
                            missing_parent: false,
                        },
                    ),
                    None => None,
                }
            },
            None => {
                match find_candidate(source, container, None) {
                    Some(i) => Some(
                        SyncCandidate { snapshot: source[i], parent: None, missing_parent: true },
                    ),
                    None => None,
                }
            },
        }
    }
}

/// Sync determinism: the chosen candidate is a function of the two snapshot
/// sets, so identical sets choose identically across runs.
pub proof fn lemma_sync_candidate_deterministic(
    s1: Seq<BtrfsDatasetSnapshotHandle>,
    c1: Seq<BtrfsContainerSnapshotHandle>,
    s2: Seq<BtrfsDatasetSnapshotHandle>,
    c2: Seq<BtrfsContainerSnapshotHandle>,
)
    requires
        s1 == s2,
        c1 == c2,
    ensures
        spec_next_candidate(s1, c1) == spec_next_candidate(s2, c2),
{
}

/// The chosen candidate is never already received, and with a sorted source
/// list it is the least such snapshot past the incremental base.
pub proof fn lemma_candidate_unreceived(
    s: Seq<BtrfsDatasetSnapshotHandle>,
    c: Seq<BtrfsContainerSnapshotHandle>,
)
    ensures
        spec_next_candidate(s, c) matches Some(cand) ==> !is_received(c, cand.snapshot.uuid),
{
    if spec_next_candidate(s, c) is Some {
        if c.len() == 0 {
            lemma_first_candidate_found(s, c, None, s.len() as int);
        } else {
            let x = c.last().source_snapshot;
            match first_match(s, x, s.len() as int) {
                Some(p) => {
                    lemma_first_candidate_found(
                        s,
                        c,
                        Some(handle_record(s[p])),
                        s.len() as int,
                    );
                },
                None => {
                    lemma_first_candidate_found(s, c, None, s.len() as int);
                },
            }
        }
    }
}

/// What the first-candidate search finds is in range, unreceived and past
/// the bound, and nothing before it qualifies.
pub proof fn lemma_first_candidate_found(
    s: Seq<BtrfsDatasetSnapshotHandle>,
    c: Seq<BtrfsContainerSnapshotHandle>,
    after: Option<SnapshotRecord>,
    n: int,
)
    requires
        n <= s.len(),
    ensures
        first_candidate(s, c, after, n) matches Some(i) ==> {
            &&& 0 <= i < n
            &&& !is_received(c, s[i].uuid)
            &&& (after matches Some(a) ==> rec_lt(a, handle_record(s[i])))
            &&& forall|j: int|
                0 <= j < i ==> is_received(c, (#[trigger] s[j]).uuid) || !(after matches Some(a)
                    ==> rec_lt(a, handle_record(s[j])))
        },
        first_candidate(s, c, after, n) is None ==> forall|j: int|
            0 <= j < n ==> is_received(c, (#[trigger] s[j]).uuid) || !(after matches Some(a)
                ==> rec_lt(a, handle_record(s[j]))),
    decreases n,
{
    if n > 0 {
        lemma_first_candidate_found(s, c, after, n - 1);
    }
}

/// Where one transfer cycle stands.
#[derive(Clone, Copy, PartialEq, Eq, Structural, Debug)]
pub enum SyncState {
    /// Between cycles.
    Idle,
    /// Snapshot lists were requested; the candidate is being chosen.
    PickingCandidate,
    /// The source-side holder was requested.
    AcquiringSourceHold,
    /// The container-side receiver was requested.
    AcquiringReceiver,
    /// The source-side sender was requested.
    AcquiringSender,
    /// Both pipe ends run; each flag marks one end's completion report.
    Transferring { sender_done: bool, receiver_done: bool },
}

/// How a completion report left the cycle.
#[derive(Clone, Copy, PartialEq, Eq, Structural, Debug)]
pub enum TransferOutcome {
    /// The other end is still running.
    Waiting,
    /// The cycle is over; true when both ends reported success.
    Completed(bool),
}

/// The replication actor of one (dataset, container) pair.
pub struct SyncActor {
    pub dataset_id: Uuid,
    pub container_id: Uuid,
    pub state: SyncState,
    pub candidate: Option<SyncCandidate>,
}

impl SyncActor {
    /// A fresh pair, idle until its first tick.
    pub fn new(dataset_id: Uuid, container_id: Uuid) -> (r: SyncActor)
        ensures
            r.dataset_id == dataset_id,
            r.container_id == container_id,
            r.state == SyncState::Idle,
            r.candidate is None,
    {
        SyncActor { dataset_id, container_id, state: SyncState::Idle, candidate: None }
    }

    /// A tick starts a cycle only from idle; a tick that lands during a
    /// running cycle is dropped.
    pub fn handle_tick(&mut self) -> (r: bool)
        ensures
            r == (old(self).state == SyncState::Idle),
            final(self).state == if old(self).state == SyncState::Idle {
                SyncState::PickingCandidate
            } else {
                old(self).state
            },
            final(self).candidate == old(self).candidate,
            final(self).dataset_id == old(self).dataset_id,
            final(self).container_id == old(self).container_id,
    {
        if matches!(self.state, SyncState::Idle) {
            self.state = SyncState::PickingCandidate;
            true
        } else {
            false
        }
    }

    /// Chooses the candidate from the two snapshot lists the actors
    /// answered with. With a candidate the cycle moves on to acquiring the
    /// source hold; with none it returns to idle.
    pub fn pick_candidate(
        &mut self,
        source: &Vec<BtrfsDatasetSnapshotHandle>,
        container: &Vec<BtrfsContainerSnapshotHandle>,
    ) -> (r: Option<SyncCandidate>)
        requires
            old(self).state == SyncState::PickingCandidate,
        ensures
            r == spec_next_candidate(source@, container@),
            final(self).candidate == r,
            final(self).state == if r is Some {
                SyncState::AcquiringSourceHold
            } else {
                SyncState::Idle
            },
            final(self).dataset_id == old(self).dataset_id,
            final(self).container_id == old(self).container_id,
    {
        let cand = next_candidate(source, container);
        match &cand {
            Some(_) => {
                self.state = SyncState::AcquiringSourceHold;
            },
            None => {
                self.state = SyncState::Idle;
            },
        }
        self.candidate = cand;
        self.candidate
    }

    /// The source holder reported: on success the receiver is requested
    /// next; on failure the cycle ends.
    pub fn holder_ready(&mut self, ok: bool)
        requires
            old(self).state == SyncState::AcquiringSourceHold,
        ensures
            final(self).state == if ok {
                SyncState::AcquiringReceiver
            } else {
                SyncState::Idle
            },
            final(self).candidate == if ok {
                old(self).candidate
            } else {
                None::<SyncCandidate>
            },
            final(self).dataset_id == old(self).dataset_id,
            final(self).container_id == old(self).container_id,
    {
        if ok {
            self.state = SyncState::AcquiringReceiver;
        } else {
            self.state = SyncState::Idle;
            self.candidate = None;
        }
    }

    /// The receiver reported: on success the sender is requested next; on
    /// failure the cycle ends.
    pub fn receiver_ready(&mut self, ok: bool)
        requires
            old(self).state == SyncState::AcquiringReceiver,
        ensures
            final(self).state == if ok {
                SyncState::AcquiringSender
            } else {
                SyncState::Idle
            },
            final(self).candidate == if ok {
                old(self).candidate
            } else {
                None::<SyncCandidate>
            },
            final(self).dataset_id == old(self).dataset_id,
            final(self).container_id == old(self).container_id,
    {
        if ok {
            self.state = SyncState::AcquiringSender;
        } else {
            self.state = SyncState::Idle;
            self.candidate = None;
        }
    }

    /// The sender reported: on success both pipe ends are wired and the
    /// transfer runs; on failure the cycle ends.
    pub fn sender_ready(&mut self, ok: bool)
        requires
            old(self).state == SyncState::AcquiringSender,
        ensures
            final(self).state == if ok {
                SyncState::Transferring { sender_done: false, receiver_done: false }
            } else {
                SyncState::Idle
            },
            final(self).candidate == if ok {
                old(self).candidate
            } else {
                None::<SyncCandidate>
            },
            final(self).dataset_id == old(self).dataset_id,
            final(self).container_id == old(self).container_id,
    {
        if ok {
            self.state = SyncState::Transferring { sender_done: false, receiver_done: false };
        } else {
            self.state = SyncState::Idle;
            self.candidate = None;
        }
    }

    /// One pipe end reported. A failure ends the cycle at once, cancelling
    /// the peer; success on both ends completes it; otherwise the cycle
    /// waits for the other end.
    pub fn transfer_finished(&mut self, sender: bool, ok: bool) -> (r: TransferOutcome)
        requires
            old(self).state matches SyncState::Transferring { sender_done, receiver_done },
        ensures
            ({
                let (sd0, rd0) = match old(self).state {
                    SyncState::Transferring { sender_done, receiver_done } => (
                        sender_done,
                        receiver_done,
                    ),
                    _ => (false, false),
                };
                let sd1 = sd0 || sender;
                let rd1 = rd0 || !sender;
                if !ok {
                    &&& r == TransferOutcome::Completed(false)
                    &&& final(self).state == SyncState::Idle
                    &&& final(self).candidate is None
                } else if sd1 && rd1 {
                    &&& r == TransferOutcome::Completed(true)
                    &&& final(self).state == SyncState::Idle
                    &&& final(self).candidate is None
                } else {
                    &&& r == TransferOutcome::Waiting
                    &&& final(self).state == SyncState::Transferring {
                        sender_done: sd1,
                        receiver_done: rd1,
                    }
                    &&& final(self).candidate == old(self).candidate
                }
            }),
            final(self).dataset_id == old(self).dataset_id,
            final(self).container_id == old(self).container_id,
    {
        let (sd0, rd0) = match self.state {
            SyncState::Transferring { sender_done, receiver_done } => (sender_done, receiver_done),
            _ => (false, false),
        };
        let sd1 = sd0 || sender;
        let rd1 = rd0 || !sender;
        if !ok {
            self.state = SyncState::Idle;
            self.candidate = None;
            TransferOutcome::Completed(false)
        } else if sd1 && rd1 {
            self.state = SyncState::Idle;
            self.candidate = None;
            TransferOutcome::Completed(true)
        } else {
            self.state = SyncState::Transferring { sender_done: sd1, receiver_done: rd1 };
            TransferOutcome::Waiting
        }
    }

    /// A stop during a running cycle cancels it: the helpers are stopped,
    /// the holds released by their owners, and the actor reports cancelled;
    /// a stop between cycles reports success.
    pub fn handle_stop(&mut self) -> (r: TerminalState)
        ensures
            r == if old(self).state == SyncState::Idle {
                TerminalState::Succeeded
            } else {
                TerminalState::Cancelled
            },
            final(self).state == SyncState::Idle,
            final(self).candidate is None,
            final(self).dataset_id == old(self).dataset_id,
            final(self).container_id == old(self).container_id,
    {
        let r = if matches!(self.state, SyncState::Idle) {
            TerminalState::Succeeded
        } else {
            TerminalState::Cancelled
        };
        self.state = SyncState::Idle;
        self.candidate = None;
        r
    }
}

} // verus!
