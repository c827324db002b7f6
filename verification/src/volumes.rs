//! Validated handles over the configured entities: pools bound to a mounted
//! filesystem, datasets and containers bound to their subvolumes, and the
//! snapshot types enumerated from filesystem listings.
//!
//! All filesystem work happens outside: the functions here take what a probe
//! or a listing reported as plain values and compute from it.

use vstd::prelude::*;
use vstd::string::StrSliceExecFns;

use crate::ids::{spec_parse_uuid, uuid_chars, Uuid};
use crate::model::{BtrfsContainerEntity, BtrfsDatasetEntity, BtrfsPoolEntity};
use crate::retention::{rec_lt, SnapshotRecord};
use crate::time::{spec_epoch_secs, spec_parse_name, CivilDateTime};

verus! {

/// What the filesystem gateway reports about one subvolume.
#[derive(Clone, PartialEq, Eq, Debug)]
pub struct Subvolume {
    pub uuid: Uuid,
    pub parent_uuid: Option<Uuid>,
    pub received_uuid: Option<Uuid>,
    /// Path relative to the filesystem mount point.
    pub path: String,
}

/// A mounted filesystem as the gateway probed it.
#[derive(Clone, PartialEq, Eq, Debug)]
pub struct MountedFilesystem {
    pub fstree_mountpoint: String,
    pub uuid: Uuid,
    pub devices: Vec<String>,
}

/// A probe result: the filesystem was found mounted, or not.
pub enum QueriedFilesystem {
    Mounted(MountedFilesystem),
    Unmounted,
}

/// What a block-device id lookup reported.
#[derive(Clone, PartialEq, Eq, Debug)]
pub struct BlockDeviceIds {
    pub device: String,
    pub uuid: Option<Uuid>,
    pub uuid_sub: Option<Uuid>,
}

/// Why building or validating a pool failed.
#[derive(Clone, Copy, PartialEq, Eq, Structural, Debug)]
pub enum PoolError {
    /// The mountpoint is not the filesystem's top-level subvolume.
    NotTopLevel,
    /// No mounted top-level subvolume was found for the filesystem.
    NotMounted,
    /// A device of the filesystem reported no sub-uuid.
    MissingDeviceSub,
}

/// Why resolving a subvolume-backed entity failed.
#[derive(Clone, Copy, PartialEq, Eq, Structural, Debug)]
pub enum SubvolumeError {
    /// No subvolume answers to the entity's id or path.
    NotFound,
}

/// Index of the last `/` in `s`, or -1 when none occurs.
pub open spec fn last_slash(s: Seq<char>) -> int
    decreases s.len(),
{
    if s.len() == 0 {
        -1
    } else if s.last() == '/' {
        s.len() - 1
    } else {
        last_slash(s.drop_last())
    }
}

/// The file name of a path: everything after the last `/`.
pub open spec fn file_name_of(s: Seq<char>) -> Seq<char> {
    s.subrange(last_slash(s) + 1, s.len() as int)
}

/// A slash with no slash after it is the last one.
proof fn lemma_last_slash_at(s: Seq<char>, k: int)
    requires
        0 <= k < s.len(),
        s[k] == '/',
        forall|m: int| k < m < s.len() ==> s[m] != '/',
    ensures
        last_slash(s) == k,
    decreases s.len(),
{
    if s.last() != '/' {
        lemma_last_slash_at(s.drop_last(), k);
    }
}

/// Without any slash, the last slash index is -1.
proof fn lemma_last_slash_none(s: Seq<char>)
    requires
        forall|m: int| 0 <= m < s.len() ==> s[m] != '/',
    ensures
        last_slash(s) == -1,
    decreases s.len(),
{
    if s.len() > 0 {
        lemma_last_slash_none(s.drop_last());
    }
}

/// The file name of a relative path.
pub fn file_name(path: &str) -> (r: &str)
    ensures
        r@ == file_name_of(path@),
{
    let n = path.unicode_len();
    let mut i: usize = n;
    while i > 0
        invariant
            i <= n,
            n == path@.len(),
            forall|m: int| i <= m < n ==> path@[m] != '/',
        decreases i,
    {
        if path.get_char(i - 1) == '/' {
            proof {
                lemma_last_slash_at(path@, i - 1);
            }
            return path.substring_char(i, n);
        }
        i = i - 1;
    }
    proof {
        lemma_last_slash_none(path@);
        assert(path@.subrange(0, n as int) =~= path@);
    }
    path.substring_char(0, n)
}

/// A configured pool bound to its mounted filesystem.
pub struct BtrfsPool {
    pub model: BtrfsPoolEntity,
    pub filesystem: MountedFilesystem,
}

impl BtrfsPool {
    /// The binding invariant: the pool's configured filesystem id names the
    /// mounted filesystem the handle was validated against.
    pub open spec fn wf(&self) -> bool {
        self.model.uuid == self.filesystem.uuid
    }

    /// Builds a pool from a fresh id, what the mount table said of the
    /// mountpoint, the filesystem probe, and the id lookup of each device.
    pub fn new(
        id: Uuid,
        name: String,
        mountpoint: String,
        is_toplevel: bool,
        probe: QueriedFilesystem,
        device_ids: Vec<BlockDeviceIds>,
    ) -> (r: Result<BtrfsPool, PoolError>)
        ensures
            match r {
                Ok(p) => {
                    &&& is_toplevel
                    &&& probe matches QueriedFilesystem::Mounted(fs) && p.filesystem == fs
                    &&& forall|d: int|
                        0 <= d < device_ids@.len() ==> (#[trigger] device_ids@[d]).uuid_sub
                            is Some
                    &&& p.model.id == id
                    &&& p.model.name == name
                    &&& p.model.mountpoint_path == mountpoint
                    &&& p.model.uuid == p.filesystem.uuid
                    &&& p.model.uuid_subs@.len() == device_ids@.len()
                    &&& forall|d: int|
                        0 <= d < device_ids@.len() ==> Some(#[trigger] p.model.uuid_subs@[d]) == (
                        device_ids@[d]).uuid_sub
                    &&& p.model.datasets@.len() == 0
                    &&& p.model.containers@.len() == 0
                    &&& p.wf()
                },
                Err(e) => {
                    &&& (e == PoolError::NotTopLevel <==> !is_toplevel)
                    &&& (e == PoolError::NotMounted <==> is_toplevel && probe
                        is Unmounted)
                    &&& (e == PoolError::MissingDeviceSub <==> is_toplevel && probe is Mounted
                        && exists|d: int|
                        0 <= d < device_ids@.len() && (#[trigger] device_ids@[d]).uuid_sub
                            is None)
                },
            },
    {
        if !is_toplevel {
            return Err(PoolError::NotTopLevel);
        }
        let filesystem = match probe {
            QueriedFilesystem::Mounted(fs) => fs,
            QueriedFilesystem::Unmounted => {
                return Err(PoolError::NotMounted);
            },
        };
        let mut uuid_subs: Vec<Uuid> = Vec::new();
        let n = device_ids.len();
        let mut d: usize = 0;
        while d < n
            invariant
                is_toplevel,
                probe matches QueriedFilesystem::Mounted(fs) && fs == filesystem,
                n == device_ids@.len(),
                d <= n,
                uuid_subs@.len() == d,
                forall|k: int|
                    0 <= k < d ==> Some(#[trigger] uuid_subs@[k]) == (device_ids@[k]).uuid_sub,
            decreases n - d,
        {
            match device_ids[d].uuid_sub {
                Some(u) => {
                    uuid_subs.push(u);
                },
                None => {
                    return Err(PoolError::MissingDeviceSub);
                },
            }
            d = d + 1;
        }
        proof {
            assert forall|k: int| 0 <= k < device_ids@.len() implies (#[trigger] device_ids@[k]).uuid_sub
                is Some by {
                assert(Some(uuid_subs@[k]) == device_ids@[k].uuid_sub);
            }
        }
        let uuid = filesystem.uuid;
        Ok(
            BtrfsPool {
                model: BtrfsPoolEntity {
                    id,
                    name,
                    mountpoint_path: mountpoint,
                    uuid,
                    uuid_subs,
                    datasets: Vec::new(),
                    containers: Vec::new(),
                },
                filesystem,
            },
        )
    }

    /// Binds an existing pool entity to the filesystem a probe found for it:
    /// the probe must show a mounted filesystem carrying the pool's own id.
    pub fn validate(model: BtrfsPoolEntity, probe: QueriedFilesystem) -> (r: Result<
        BtrfsPool,
        PoolError,
    >)
        ensures
            match r {
                Ok(p) => {
                    &&& probe matches QueriedFilesystem::Mounted(fs) && p.filesystem == fs
                        && fs.uuid == model.uuid
                    &&& p.model == model
                    &&& p.wf()
                },
                Err(e) => {
                    &&& e == PoolError::NotMounted
                    &&& match probe {
                        QueriedFilesystem::Mounted(fs) => fs.uuid != model.uuid,
                        QueriedFilesystem::Unmounted => true,
                    }
                },
            },
    {
        match probe {
            QueriedFilesystem::Mounted(fs) => {
                if fs.uuid.value == model.uuid.value {
                    Ok(BtrfsPool { model, filesystem: fs })
                } else {
                    Err(PoolError::NotMounted)
                }
            },
            QueriedFilesystem::Unmounted => Err(PoolError::NotMounted),
        }
    }

    /// The pool's configuration.
    pub fn model(&self) -> (r: &BtrfsPoolEntity)
        ensures
            r == self.model,
    {
        &self.model
    }

    /// Takes the configuration back out of the handle.
    pub fn take_model(self) -> (r: BtrfsPoolEntity)
        ensures
            r == self.model,
    {
        self.model
    }
}

} // verus!

// Datasets and their snapshots.

verus! {

/// A dataset-local snapshot: the subvolume the gateway listed, named after
/// its creation instant.
#[derive(Clone, PartialEq, Eq, Debug)]
pub struct BtrfsDatasetSnapshot {
    pub subvolume: Subvolume,
    pub datetime: CivilDateTime,
    /// The instant of `datetime` in epoch seconds.
    pub at: i64,
}

impl BtrfsDatasetSnapshot {
    /// The ordering record of this snapshot: its instant and its id.
    pub open spec fn spec_record(&self) -> SnapshotRecord {
        SnapshotRecord { uuid: self.subvolume.uuid, at: self.at }
    }

    /// A snapshot whose instant matches its name and lies in range.
    pub open spec fn wf(&self) -> bool {
        &&& self.datetime.wf()
        &&& self.at == spec_epoch_secs(self.datetime)
    }

    /// The subvolume path, relative to the mount point.
    pub fn path(&self) -> (r: &String)
        ensures
            r == self.subvolume.path,
    {
        &self.subvolume.path
    }

    /// The id of the snapshot subvolume.
    pub fn uuid(&self) -> (r: Uuid)
        ensures
            r == self.subvolume.uuid,
    {
        self.subvolume.uuid
    }

    /// The id of the subvolume this snapshot was taken of, or received from.
    pub fn parent_uuid(&self) -> (r: Option<Uuid>)
        ensures
            r == self.subvolume.parent_uuid,
    {
        self.subvolume.parent_uuid
    }

    /// The source snapshot id when this snapshot was itself received.
    pub fn received_uuid(&self) -> (r: Option<Uuid>)
        ensures
            r == self.subvolume.received_uuid,
    {
        self.subvolume.received_uuid
    }

    /// The creation instant read from the name.
    pub fn datetime(&self) -> (r: CivilDateTime)
        ensures
            r == self.datetime,
    {
        self.datetime
    }

    /// The ordering record, for the retention engine.
    pub fn record(&self) -> (r: SnapshotRecord)
        ensures
            r == self.spec_record(),
    {
        SnapshotRecord { uuid: self.subvolume.uuid, at: self.at }
    }
}

impl BtrfsDatasetSnapshot {
    /// A field-for-field copy.
    pub fn duplicate(&self) -> (r: BtrfsDatasetSnapshot)
        ensures
            r == *self,
    {
        BtrfsDatasetSnapshot {
            subvolume: self.subvolume.duplicate(),
            datetime: self.datetime,
            at: self.at,
        }
    }
}

impl Subvolume {
    /// A field-for-field copy.
    pub fn duplicate(&self) -> (r: Subvolume)
        ensures
            r == *self,
    {
        Subvolume {
            uuid: self.uuid,
            parent_uuid: self.parent_uuid,
            received_uuid: self.received_uuid,
            path: self.path.clone(),
        }
    }
}

/// The instant a listed subvolume's name denotes, when its file name is a
/// well-formed snapshot name.
pub open spec fn parsed_name_of(e: Subvolume) -> Option<CivilDateTime> {
    spec_parse_name(file_name_of(e.path@))
}

/// The snapshot a parseable listing entry denotes.
pub open spec fn dataset_snap_of(e: Subvolume) -> BtrfsDatasetSnapshot {
    let c = parsed_name_of(e)->0;
    BtrfsDatasetSnapshot { subvolume: e, datetime: c, at: spec_epoch_secs(c) as i64 }
}

/// No two listing entries name the same subvolume: what a real filesystem
/// listing guarantees.
pub open spec fn uuids_distinct(listing: Seq<Subvolume>) -> bool {
    forall|i: int, j: int|
        0 <= i < j < listing.len() ==> (#[trigger] listing[i]).uuid != (#[trigger] listing[j]).uuid
}

/// Every snapshot-named entry that was not received records the subvolume it
/// was taken of: what the filesystem guarantees of local snapshots.
pub open spec fn parents_recorded(listing: Seq<Subvolume>) -> bool {
    forall|m: int|
        0 <= m < listing.len() && parsed_name_of(#[trigger] listing[m]) is Some ==> (
        listing[m].received_uuid is None ==> listing[m].parent_uuid is Some)
}

/// Checked form of `uuids_distinct`, for callers handing in a listing.
pub fn listing_uuids_distinct(listing: &Vec<Subvolume>) -> (r: bool)
    ensures
        r == uuids_distinct(listing@),
{
    let n = listing.len();
    let mut i: usize = 0;
    while i < n
        invariant
            n == listing@.len(),
            i <= n,
            forall|a: int, b: int|
                0 <= a < b < listing@.len() && a < i ==> (#[trigger] listing@[a]).uuid != (
                #[trigger] listing@[b]).uuid,
        decreases n - i,
    {
        let mut j: usize = i + 1;
        while j < n
            invariant
                n == listing@.len(),
                i < n,
                i < j <= n,
                forall|b: int|
                    i < b < j ==> (#[trigger] listing@[b]).uuid != listing@[i as int].uuid,
            decreases n - j,
        {
            if listing[j].uuid.value == listing[i].uuid.value {
                return false;
            }
            j = j + 1;
        }
        i = i + 1;
    }
    true
}

/// Snapshots in strictly ascending order of instant, ids breaking ties.
pub open spec fn strict_snaps(s: Seq<BtrfsDatasetSnapshot>) -> bool {
    forall|i: int, j: int|
        0 <= i < j < s.len() ==> rec_lt(
            (#[trigger] s[i]).spec_record(),
            (#[trigger] s[j]).spec_record(),
        )
}

/// Snapshots in ascending order of instant, ids breaking ties.
pub open spec fn sorted_snaps(s: Seq<BtrfsDatasetSnapshot>) -> bool {
    forall|i: int, j: int|
        0 <= i <= j < s.len() ==> !rec_lt(
            (#[trigger] s[j]).spec_record(),
            (#[trigger] s[i]).spec_record(),
        )
}

/// Whether `a` orders strictly before `b`.
fn snap_before(a: &BtrfsDatasetSnapshot, b: &BtrfsDatasetSnapshot) -> (r: bool)
    ensures
        r == rec_lt(a.spec_record(), b.spec_record()),
{
    a.at < b.at || (a.at == b.at && a.subvolume.uuid.value < b.subvolume.uuid.value)
}

/// After inserting, the old elements keep their places around the new one.
proof fn lemma_insert_effect<T>(s: Seq<T>, i: int, e: T)
    requires
        0 <= i <= s.len(),
    ensures
        s.insert(i, e).len() == s.len() + 1,
        forall|k: int| 0 <= k < i ==> #[trigger] s.insert(i, e)[k] == s[k],
        s.insert(i, e)[i] == e,
        forall|k: int| i < k <= s.len() ==> #[trigger] s.insert(i, e)[k] == s[k - 1],
        forall|x: T| s.contains(x) ==> #[trigger] s.insert(i, e).contains(x),
        s.insert(i, e).contains(e),
    decreases s.len(),
{
    s.insert_ensures(i, e);
    assert forall|x: T| s.contains(x) implies #[trigger] s.insert(i, e).contains(x) by {
        let k = choose|k: int| 0 <= k < s.len() && s[k] == x;
        if k < i {
            assert(s.insert(i, e)[k] == x);
        } else {
            assert(s.insert(i, e)[k + 1] == x);
        }
    }
    assert(s.insert(i, e)[i] == e);
}

impl BtrfsDataset {
    /// Reads the dataset's snapshots out of a listing of its snapshot
    /// directory: entries named like snapshots, ordered by instant.
    #[verifier::rlimit(40)]
    pub fn snapshots(&self, listing: &Vec<Subvolume>) -> (r: Vec<BtrfsDatasetSnapshot>)
        requires
            uuids_distinct(listing@),
        ensures
            strict_snaps(r@),
            forall|k: int|
                0 <= k < r@.len() ==> (#[trigger] r@[k]).wf() && exists|m: int|
                    0 <= m < listing@.len() && parsed_name_of(#[trigger] listing@[m]) is Some
                        && r@[k] == dataset_snap_of(listing@[m]),
            forall|m: int|
                0 <= m < listing@.len() && parsed_name_of(#[trigger] listing@[m]) is Some
                    ==> r@.contains(dataset_snap_of(listing@[m])),
            parents_recorded(listing@) ==> forall|k: int|
                0 <= k < r@.len() ==> ((#[trigger] r@[k]).subvolume.received_uuid is None
                    ==> r@[k].subvolume.parent_uuid is Some),
    {
        let n = listing.len();
        let mut out: Vec<BtrfsDatasetSnapshot> = Vec::new();
        let mut m: usize = 0;
        while m < n
            invariant
                uuids_distinct(listing@),
                n == listing@.len(),
                m <= n,
                strict_snaps(out@),
                forall|k: int|
                    0 <= k < out@.len() ==> (#[trigger] out@[k]).wf() && exists|m2: int|
                        0 <= m2 < m && parsed_name_of(#[trigger] listing@[m2]) is Some && out@[k]
                            == dataset_snap_of(listing@[m2]),
                forall|m2: int|
                    0 <= m2 < m && parsed_name_of(#[trigger] listing@[m2]) is Some
                        ==> out@.contains(dataset_snap_of(listing@[m2])),
            decreases n - m,
        {
            let entry = &listing[m];
            let name = file_name(entry.path.as_str());
            match crate::time::parse_snapshot_name(name) {
                Some(c) => {
                    let at = c.to_epoch_secs();
                    let snap = BtrfsDatasetSnapshot {
                        subvolume: entry.duplicate(),
                        datetime: c,
                        at,
                    };
                    assert(snap == dataset_snap_of(listing@[m as int]));
                    let ghost out0 = out@;
                    proof {
                        assert forall|i: int, j: int| 0 <= i <= j < out0.len() implies !rec_lt(
                            (#[trigger] out0[j]).spec_record(),
                            (#[trigger] out0[i]).spec_record(),
                        ) by {
                            if i < j {
                                assert(rec_lt(out0[i].spec_record(), out0[j].spec_record()));
                            }
                        }
                    }
                    let pos = insert_position(&out, &snap);
                    proof {
                        // Every element below the position comes from an
                        // earlier listing entry, so its id differs and the
                        // order below the position is strict.
                        assert forall|k: int| 0 <= k < pos implies rec_lt(
                            (#[trigger] out0[k]).spec_record(),
                            snap.spec_record(),
                        ) by {
                            assert(out0[k].subvolume.uuid != listing@[m as int].uuid);
                        }
                    }
                    out.insert(pos, snap);
                    proof {
                        lemma_insert_effect(out0, pos as int, snap);
                        assert forall|i: int, j: int|
                            0 <= i < j < out@.len() implies rec_lt(
                            (#[trigger] out@[i]).spec_record(),
                            (#[trigger] out@[j]).spec_record(),
                        ) by {
                            let p = pos as int;
                            if i < p && j < p {
                            } else if i < p && j == p {
                            } else if i == p && j > p {
                            } else if i < p && j > p {
                            } else {
                            }
                        }
                        assert forall|m2: int|
                            0 <= m2 < m + 1 && parsed_name_of(#[trigger] listing@[m2])
                                is Some implies out@.contains(dataset_snap_of(listing@[m2])) by {
                            if m2 < m {
                                assert(out0.contains(dataset_snap_of(listing@[m2])));
                            } else {
                                assert(out@.contains(snap));
                            }
                        }
                    }
                },
                None => {},
            }
            m = m + 1;
        }
        proof {
            assert forall|k: int|
                0 <= k < out@.len() && parents_recorded(listing@) implies ((
            #[trigger] out@[k]).subvolume.received_uuid is None
                ==> out@[k].subvolume.parent_uuid is Some) by {
                let m2 = choose|m2: int|
                    0 <= m2 < n && parsed_name_of(#[trigger] listing@[m2]) is Some && out@[k]
                        == dataset_snap_of(listing@[m2]);
            }
        }
        out
    }

    /// The newest snapshot a listing shows, if any.
    pub fn latest_snapshot(&self, listing: &Vec<Subvolume>) -> (r: Option<BtrfsDatasetSnapshot>)
        requires
            uuids_distinct(listing@),
        ensures
            match r {
                Some(s) => {
                    &&& s.wf()
                    &&& exists|m: int|
                        0 <= m < listing@.len() && parsed_name_of(#[trigger] listing@[m]) is Some
                            && s == dataset_snap_of(listing@[m])
                    &&& forall|m: int|
                        0 <= m < listing@.len() && parsed_name_of(#[trigger] listing@[m]) is Some
                            ==> !rec_lt(
                            s.spec_record(),
                            dataset_snap_of(listing@[m]).spec_record(),
                        )
                },
                None => forall|m: int|
                    0 <= m < listing@.len() ==> parsed_name_of(#[trigger] listing@[m]) is None,
            },
    {
        let mut all = self.snapshots(listing);
        let ghost allv = all@;
        let r = all.pop();
        proof {
            if allv.len() > 0 {
                let s = allv.last();
                assert forall|m: int|
                    0 <= m < listing@.len() && parsed_name_of(#[trigger] listing@[m])
                        is Some implies !rec_lt(
                    s.spec_record(),
                    dataset_snap_of(listing@[m]).spec_record(),
                ) by {
                    let x = dataset_snap_of(listing@[m]);
                    assert(allv.contains(x));
                    let k = choose|k: int| 0 <= k < allv.len() && allv[k] == x;
                    assert(!rec_lt(allv[allv.len() - 1].spec_record(), allv[k].spec_record()));
                }
            }
        }
        r
    }
}

/// The first position whose element orders after the new snapshot.
fn insert_position(out: &Vec<BtrfsDatasetSnapshot>, snap: &BtrfsDatasetSnapshot) -> (r: usize)
    requires
        sorted_snaps(out@),
    ensures
        r <= out@.len(),
        forall|k: int|
            0 <= k < r ==> !rec_lt(snap.spec_record(), (#[trigger] out@[k]).spec_record()),
        forall|k: int|
            r <= k < out@.len() ==> rec_lt(snap.spec_record(), (#[trigger] out@[k]).spec_record()),
{
    let n = out.len();
    let mut pos: usize = 0;
    while pos < n
        invariant
            n == out@.len(),
            pos <= n,
            sorted_snaps(out@),
            forall|k: int|
                0 <= k < pos ==> !rec_lt(snap.spec_record(), (#[trigger] out@[k]).spec_record()),
        decreases n - pos,
    {
        if snap_before(snap, &out[pos]) {
            proof {
                assert forall|k: int| pos <= k < out@.len() implies rec_lt(
                    snap.spec_record(),
                    (#[trigger] out@[k]).spec_record(),
                ) by {
                    assert(!rec_lt(out@[k].spec_record(), out@[pos as int].spec_record()));
                }
            }
            return pos;
        }
        pos = pos + 1;
    }
    pos
}

/// A configured dataset bound to its live subvolume.
pub struct BtrfsDataset {
    pub model: BtrfsDatasetEntity,
    pub subvolume: Subvolume,
}

impl BtrfsDataset {
    /// Builds a dataset over the subvolume found at its path, with a fresh
    /// id; the snapshot directory is created by the caller when missing.
    pub fn new(id: Uuid, name: String, subvolume: Option<Subvolume>) -> (r: Result<
        BtrfsDataset,
        SubvolumeError,
    >)
        ensures
            match r {
                Ok(d) => {
                    &&& subvolume matches Some(s) && d.subvolume == s
                    &&& d.model.id == id
                    &&& d.model.name == name
                    &&& d.model.path == d.subvolume.path
                    &&& d.model.uuid == d.subvolume.uuid
                    &&& d.model.snapshot_schedule is None
                    &&& d.model.snapshot_retention is None
                    &&& d.model.snapshotting_state == crate::model::FeatureState::Unconfigured
                    &&& d.model.pruning_state == crate::model::FeatureState::Unconfigured
                },
                Err(e) => subvolume is None && e == SubvolumeError::NotFound,
            },
    {
        match subvolume {
            Some(s) => {
                let path = s.path.clone();
                let uuid = s.uuid;
                Ok(
                    BtrfsDataset {
                        model: BtrfsDatasetEntity {
                            id,
                            name,
                            path,
                            uuid,
                            snapshot_schedule: None,
                            snapshot_retention: None,
                            snapshotting_state: crate::model::FeatureState::Unconfigured,
                            pruning_state: crate::model::FeatureState::Unconfigured,
                        },
                        subvolume: s,
                    },
                )
            },
            None => Err(SubvolumeError::NotFound),
        }
    }

    /// Binds an existing dataset entity to the subvolume a lookup found:
    /// the subvolume must carry the entity's own id.
    pub fn validate(model: BtrfsDatasetEntity, subvolume: Option<Subvolume>) -> (r: Result<
        BtrfsDataset,
        SubvolumeError,
    >)
        ensures
            match r {
                Ok(d) => {
                    &&& subvolume matches Some(s) && d.subvolume == s && s.uuid == model.uuid
                    &&& d.model == model
                    &&& d.subvolume.uuid == d.model.uuid
                },
                Err(e) => {
                    &&& e == SubvolumeError::NotFound
                    &&& match subvolume {
                        Some(s) => s.uuid != model.uuid,
                        None => true,
                    }
                },
            },
    {
        match subvolume {
            Some(s) => {
                if s.uuid.value == model.uuid.value {
                    Ok(BtrfsDataset { model, subvolume: s })
                } else {
                    Err(SubvolumeError::NotFound)
                }
            },
            None => Err(SubvolumeError::NotFound),
        }
    }

    /// The dataset's configuration.
    pub fn model(&self) -> (r: &BtrfsDatasetEntity)
        ensures
            r == self.model,
    {
        &self.model
    }

    /// Takes the configuration back out of the handle.
    pub fn take_model(self) -> (r: BtrfsDatasetEntity)
        ensures
            r == self.model,
    {
        self.model
    }

    /// The id of the live subvolume.
    pub fn uuid(&self) -> (r: Uuid)
        ensures
            r == self.subvolume.uuid,
    {
        self.subvolume.uuid
    }

    /// The id of the subvolume this dataset was restored from, if any.
    pub fn parent_uuid(&self) -> (r: Option<Uuid>)
        ensures
            r == self.subvolume.parent_uuid,
    {
        self.subvolume.parent_uuid
    }

    /// The pool-relative directory the dataset's snapshots live in.
    pub fn snapshot_container_path(&self) -> (r: String)
        ensures
            r@ == spec_dataset_snapshot_dir(self.model.id),
    {
        let mut s = String::new();
        s.append(".blkcapt/snapshots/");
        let id_text = self.model.id.to_text();
        s.append(id_text.as_str());
        proof {
            assert(s@ =~= spec_dataset_snapshot_dir(self.model.id));
        }
        s
    }
}

/// The snapshot directory of the dataset with the given id.
pub open spec fn spec_dataset_snapshot_dir(id: Uuid) -> Seq<char> {
    ".blkcapt/snapshots/"@ + uuid_chars(id.value)
}

} // verus!

// Containers and their received snapshots.

verus! {

/// A received snapshot in a container: the subvolume the gateway listed,
/// named after its instant with the received suffix.
#[derive(Clone, PartialEq, Eq, Debug)]
pub struct BtrfsContainerSnapshot {
    pub subvolume: Subvolume,
    pub datetime: CivilDateTime,
    /// The instant of `datetime` in epoch seconds.
    pub at: i64,
}

impl BtrfsContainerSnapshot {
    /// The ordering record of this snapshot: its instant and its id.
    pub open spec fn spec_record(&self) -> SnapshotRecord {
        SnapshotRecord { uuid: self.subvolume.uuid, at: self.at }
    }

    /// A received snapshot: instant matches its name, and the subvolume
    /// carries the id it was received under.
    pub open spec fn wf(&self) -> bool {
        &&& self.datetime.wf()
        &&& self.at == spec_epoch_secs(self.datetime)
        &&& self.subvolume.received_uuid is Some
    }

    /// The subvolume path, relative to the mount point.
    pub fn path(&self) -> (r: &String)
        ensures
            r == self.subvolume.path,
    {
        &self.subvolume.path
    }

    /// The id of the snapshot subvolume.
    pub fn uuid(&self) -> (r: Uuid)
        ensures
            r == self.subvolume.uuid,
    {
        self.subvolume.uuid
    }

    /// The id of the incremental base used during receive, if any.
    pub fn parent_uuid(&self) -> (r: Option<Uuid>)
        ensures
            r == self.subvolume.parent_uuid,
    {
        self.subvolume.parent_uuid
    }

    /// The source snapshot's id on the originating side.
    pub fn received_uuid(&self) -> (r: Uuid)
        requires
            self.subvolume.received_uuid is Some,
        ensures
            Some(r) == self.subvolume.received_uuid,
    {
        match self.subvolume.received_uuid {
            Some(u) => u,
            None => Uuid { value: 0 },
        }
    }

    /// The creation instant read from the name.
    pub fn datetime(&self) -> (r: CivilDateTime)
        ensures
            r == self.datetime,
    {
        self.datetime
    }

    /// The ordering record, for the retention engine.
    pub fn record(&self) -> (r: SnapshotRecord)
        ensures
            r == self.spec_record(),
    {
        SnapshotRecord { uuid: self.subvolume.uuid, at: self.at }
    }
}

/// Whether a file name is a snapshot name with the received suffix.
pub open spec fn bcrcv_name_ok(name: Seq<char>) -> bool {
    &&& name.len() == 26
    &&& name[20] == '.'
    &&& name[21] == 'b'
    &&& name[22] == 'c'
    &&& name[23] == 'r'
    &&& name[24] == 'c'
    &&& name[25] == 'v'
    &&& spec_parse_name(name.subrange(0, 20)) is Some
}

/// The instant a container listing entry's name denotes, when it carries the
/// received suffix around a well-formed snapshot name.
pub open spec fn parsed_container_name_of(e: Subvolume) -> Option<CivilDateTime> {
    let name = file_name_of(e.path@);
    if bcrcv_name_ok(name) {
        spec_parse_name(name.subrange(0, 20))
    } else {
        None
    }
}

/// A listing entry the container enumeration accepts: a received-suffix name
/// and a recorded source id. An entry still unnamed after an interrupted
/// receive, or one without a received id, is passed over.
pub open spec fn container_entry_ok(e: Subvolume) -> bool {
    parsed_container_name_of(e) is Some && e.received_uuid is Some
}

/// The snapshot an accepted container listing entry denotes.
pub open spec fn container_snap_of(e: Subvolume) -> BtrfsContainerSnapshot {
    let c = parsed_container_name_of(e)->0;
    BtrfsContainerSnapshot { subvolume: e, datetime: c, at: spec_epoch_secs(c) as i64 }
}

/// Container snapshots in strictly ascending order of instant, ids breaking
/// ties.
pub open spec fn strict_csnaps(s: Seq<BtrfsContainerSnapshot>) -> bool {
    forall|i: int, j: int|
        0 <= i < j < s.len() ==> rec_lt(
            (#[trigger] s[i]).spec_record(),
            (#[trigger] s[j]).spec_record(),
        )
}

/// Container snapshots in ascending order of instant, ids breaking ties.
pub open spec fn sorted_csnaps(s: Seq<BtrfsContainerSnapshot>) -> bool {
    forall|i: int, j: int|
        0 <= i <= j < s.len() ==> !rec_lt(
            (#[trigger] s[j]).spec_record(),
            (#[trigger] s[i]).spec_record(),
        )
}

/// Reads the instant of a container entry name, checking the suffix.
fn parse_container_name(name: &str) -> (r: Option<CivilDateTime>)
    ensures
        match r {
            Some(c) => bcrcv_name_ok(name@) && spec_parse_name(name@.subrange(0, 20)) == Some(c),
            None => !bcrcv_name_ok(name@),
        },
{
    let n = name.unicode_len();
    if n != 26 {
        return None;
    }
    if !(name.get_char(20) == '.' && name.get_char(21) == 'b' && name.get_char(22) == 'c'
        && name.get_char(23) == 'r' && name.get_char(24) == 'c' && name.get_char(25) == 'v') {
        return None;
    }
    let stem = name.substring_char(0, 20);
    crate::time::parse_snapshot_name(stem)
}

/// The first position whose element orders after the new snapshot.
fn insert_position_c(out: &Vec<BtrfsContainerSnapshot>, snap: &BtrfsContainerSnapshot) -> (r:
    usize)
    requires
        sorted_csnaps(out@),
    ensures
        r <= out@.len(),
        forall|k: int|
            0 <= k < r ==> !rec_lt(snap.spec_record(), (#[trigger] out@[k]).spec_record()),
        forall|k: int|
            r <= k < out@.len() ==> rec_lt(snap.spec_record(), (#[trigger] out@[k]).spec_record()),
{
    let n = out.len();
    let mut pos: usize = 0;
    while pos < n
        invariant
            n == out@.len(),
            pos <= n,
            sorted_csnaps(out@),
            forall|k: int|
                0 <= k < pos ==> !rec_lt(snap.spec_record(), (#[trigger] out@[k]).spec_record()),
        decreases n - pos,
    {
        let o = &out[pos];
        if snap.at < o.at || (snap.at == o.at && snap.subvolume.uuid.value < o.subvolume.uuid.value) {
            proof {
                assert forall|k: int| pos <= k < out@.len() implies rec_lt(
                    snap.spec_record(),
                    (#[trigger] out@[k]).spec_record(),
                ) by {
                    assert(!rec_lt(out@[k].spec_record(), out@[pos as int].spec_record()));
                }
            }
            return pos;
        }
        pos = pos + 1;
    }
    pos
}

/// The ids read from the file names of the first `n` listing entries, one
/// per entry whose name parses as an id, in listing order.
pub open spec fn spec_source_ids(listing: Seq<Subvolume>, n: int) -> Seq<Uuid>
    decreases n,
{
    if n <= 0 {
        Seq::empty()
    } else {
        let pre = spec_source_ids(listing, n - 1);
        match spec_parse_uuid(file_name_of(listing[n - 1].path@)) {
            Some(v) => pre.push(Uuid { value: v }),
            None => pre,
        }
    }
}

/// A configured container bound to its subvolume.
pub struct BtrfsContainer {
    pub model: BtrfsContainerEntity,
    pub subvolume: Subvolume,
}

impl BtrfsContainer {
    /// Builds a container over the subvolume found at its path, with a
    /// fresh id.
    pub fn new(id: Uuid, name: String, subvolume: Option<Subvolume>) -> (r: Result<
        BtrfsContainer,
        SubvolumeError,
    >)
        ensures
            match r {
                Ok(c) => {
                    &&& subvolume matches Some(s) && c.subvolume == s
                    &&& c.model.id == id
                    &&& c.model.name == name
                    &&& c.model.path == c.subvolume.path
                    &&& c.model.uuid == c.subvolume.uuid
                    &&& c.model.snapshot_retention is None
                    &&& c.model.pruning_state == crate::model::FeatureState::Unconfigured
                },
                Err(e) => subvolume is None && e == SubvolumeError::NotFound,
            },
    {
        match subvolume {
            Some(s) => {
                let path = s.path.clone();
                let uuid = s.uuid;
                Ok(
                    BtrfsContainer {
                        model: BtrfsContainerEntity {
                            id,
                            name,
                            path,
                            uuid,
                            snapshot_retention: None,
                            pruning_state: crate::model::FeatureState::Unconfigured,
                        },
                        subvolume: s,
                    },
                )
            },
            None => Err(SubvolumeError::NotFound),
        }
    }

    /// Binds an existing container entity to the subvolume a lookup found:
    /// the subvolume must carry the entity's own id.
    pub fn validate(model: BtrfsContainerEntity, subvolume: Option<Subvolume>) -> (r: Result<
        BtrfsContainer,
        SubvolumeError,
    >)
        ensures
            match r {
                Ok(c) => {
                    &&& subvolume matches Some(s) && c.subvolume == s && s.uuid == model.uuid
                    &&& c.model == model
                    &&& c.subvolume.uuid == c.model.uuid
                },
                Err(e) => {
                    &&& e == SubvolumeError::NotFound
                    &&& match subvolume {
                        Some(s) => s.uuid != model.uuid,
                        None => true,
                    }
                },
            },
    {
        match subvolume {
            Some(s) => {
                if s.uuid.value == model.uuid.value {
                    Ok(BtrfsContainer { model, subvolume: s })
                } else {
                    Err(SubvolumeError::NotFound)
                }
            },
            None => Err(SubvolumeError::NotFound),
        }
    }

    /// The container's configuration.
    pub fn model(&self) -> (r: &BtrfsContainerEntity)
        ensures
            r == self.model,
    {
        &self.model
    }

    /// Takes the configuration back out of the handle.
    pub fn take_model(self) -> (r: BtrfsContainerEntity)
        ensures
            r == self.model,
    {
        self.model
    }

    /// The pool-relative directory that receives snapshots from the given
    /// source dataset.
    pub fn snapshot_container_path(&self, dataset_id: Uuid) -> (r: String)
        ensures
            r@ == self.subvolume.path@ + seq!['/'] + uuid_chars(dataset_id.value),
    {
        let mut s = self.subvolume.path.clone();
        crate::text::push_dash_like_slash(&mut s);
        let id_text = dataset_id.to_text();
        s.append(id_text.as_str());
        proof {
            assert(s@ =~= self.subvolume.path@ + seq!['/'] + uuid_chars(dataset_id.value));
        }
        s
    }

    /// The source dataset ids a container listing shows: exactly the ids
    /// read from the file names of the entries named by an id, in listing
    /// order.
    pub fn source_dataset_ids(&self, listing: &Vec<Subvolume>) -> (r: Vec<Uuid>)
        ensures
            r@ == spec_source_ids(listing@, listing@.len() as int),
    {
        let n = listing.len();
        let mut r: Vec<Uuid> = Vec::new();
        let mut m: usize = 0;
        while m < n
            invariant
                n == listing@.len(),
                m <= n,
                r@ == spec_source_ids(listing@, m as int),
            decreases n - m,
        {
            let name = file_name(listing[m].path.as_str());
            match Uuid::parse_text(name) {
                Some(u) => {
                    r.push(u);
                },
                None => {},
            }
            m = m + 1;
        }
        r
    }

    /// Reads the received snapshots of one source dataset out of a listing
    /// of its directory, ordered by instant. After a successful receive and
    /// rename, the listing holds an entry whose received id is the source
    /// snapshot's id, so the result contains that snapshot: the next rescan
    /// converges on what was transferred.
    #[verifier::rlimit(40)]
    pub fn snapshots(&self, listing: &Vec<Subvolume>) -> (r: Vec<BtrfsContainerSnapshot>)
        requires
            uuids_distinct(listing@),
        ensures
            strict_csnaps(r@),
            forall|k: int|
                0 <= k < r@.len() ==> (#[trigger] r@[k]).wf() && exists|m: int|
                    0 <= m < listing@.len() && container_entry_ok(#[trigger] listing@[m])
                        && r@[k] == container_snap_of(listing@[m]),
            forall|m: int|
                0 <= m < listing@.len() && container_entry_ok(#[trigger] listing@[m])
                    ==> r@.contains(container_snap_of(listing@[m])),
            forall|m: int|
                0 <= m < listing@.len() && container_entry_ok(#[trigger] listing@[m])
                    ==> exists|k: int|
                    0 <= k < r@.len() && (#[trigger] r@[k]).subvolume.received_uuid
                        == listing@[m].received_uuid,
    {
        let n = listing.len();
        let mut out: Vec<BtrfsContainerSnapshot> = Vec::new();
        let mut m: usize = 0;
        while m < n
            invariant
                uuids_distinct(listing@),
                n == listing@.len(),
                m <= n,
                strict_csnaps(out@),
                forall|k: int|
                    0 <= k < out@.len() ==> (#[trigger] out@[k]).wf() && exists|m2: int|
                        0 <= m2 < m && container_entry_ok(#[trigger] listing@[m2]) && out@[k]
                            == container_snap_of(listing@[m2]),
                forall|m2: int|
                    0 <= m2 < m && container_entry_ok(#[trigger] listing@[m2]) ==> out@.contains(
                        container_snap_of(listing@[m2]),
                    ),
            decreases n - m,
        {
            let entry = &listing[m];
            let name = file_name(entry.path.as_str());
            let has_received = entry.received_uuid.is_some();
            match parse_container_name(name) {
                Some(c) => {
                    if has_received {
                        let at = c.to_epoch_secs();
                        let snap = BtrfsContainerSnapshot {
                            subvolume: entry.duplicate(),
                            datetime: c,
                            at,
                        };
                        assert(snap == container_snap_of(listing@[m as int]));
                        let ghost out0 = out@;
                        proof {
                            assert forall|i: int, j: int|
                                0 <= i <= j < out0.len() implies !rec_lt(
                                (#[trigger] out0[j]).spec_record(),
                                (#[trigger] out0[i]).spec_record(),
                            ) by {
                                if i < j {
                                    assert(rec_lt(out0[i].spec_record(), out0[j].spec_record()));
                                }
                            }
                        }
                        let pos = insert_position_c(&out, &snap);
                        proof {
                            assert forall|k: int| 0 <= k < pos implies rec_lt(
                                (#[trigger] out0[k]).spec_record(),
                                snap.spec_record(),
                            ) by {
                                assert(out0[k].subvolume.uuid != listing@[m as int].uuid);
                            }
                        }
                        out.insert(pos, snap);
                        proof {
                            lemma_insert_effect(out0, pos as int, snap);
                            assert forall|i: int, j: int|
                                0 <= i < j < out@.len() implies rec_lt(
                                (#[trigger] out@[i]).spec_record(),
                                (#[trigger] out@[j]).spec_record(),
                            ) by {
                                let p = pos as int;
                                if i < p && j < p {
                                } else if i < p && j == p {
                                } else if i == p && j > p {
                                } else if i < p && j > p {
                                } else {
                                }
                            }
                            assert forall|m2: int|
                                0 <= m2 < m + 1 && container_entry_ok(
                                    #[trigger] listing@[m2],
                                ) implies out@.contains(container_snap_of(listing@[m2])) by {
                                if m2 < m {
                                    assert(out0.contains(container_snap_of(listing@[m2])));
                                } else {
                                    assert(out@.contains(snap));
                                }
                            }
                        }
                    }
                },
                None => {},
            }
            m = m + 1;
        }
        proof {
            assert forall|m2: int|
                0 <= m2 < listing@.len() && container_entry_ok(#[trigger] listing@[m2]) implies
            exists|k: int|
                0 <= k < out@.len() && (#[trigger] out@[k]).subvolume.received_uuid
                    == listing@[m2].received_uuid by {
                let x = container_snap_of(listing@[m2]);
                assert(out@.contains(x));
                let k = choose|k: int| 0 <= k < out@.len() && out@[k] == x;
                assert(out@[k].subvolume.received_uuid == listing@[m2].received_uuid);
            }
        }
        out
    }
}

} // verus!

// Plain handles onto datasets and snapshots, for messages between actors.

verus! {

/// How a dataset came to be: restored from a snapshot, or original.
#[derive(Clone, Copy, PartialEq, Eq, Structural, Debug)]
pub enum BtrfsDatasetState {
    Restored { parent_snapshot: Uuid },
    Original,
}

/// A dataset reduced to what messages need: its id and provenance.
#[derive(Clone, Copy, PartialEq, Eq, Structural, Debug)]
pub struct BtrfsDatasetHandle {
    pub uuid: Uuid,
    pub state: BtrfsDatasetState,
}

impl BtrfsDatasetHandle {
    /// The handle of a dataset: restored when the live subvolume has a
    /// parent snapshot.
    pub fn of_dataset(d: &BtrfsDataset) -> (r: BtrfsDatasetHandle)
        ensures
            r.uuid == d.subvolume.uuid,
            r.state == match d.subvolume.parent_uuid {
                Some(p) => BtrfsDatasetState::Restored { parent_snapshot: p },
                None => BtrfsDatasetState::Original,
            },
    {
        BtrfsDatasetHandle {
            uuid: d.subvolume.uuid,
            state: match d.subvolume.parent_uuid {
                Some(p) => BtrfsDatasetState::Restored { parent_snapshot: p },
                None => BtrfsDatasetState::Original,
            },
        }
    }
}

/// How a dataset snapshot came to be: received from another host, or taken
/// locally from its parent dataset.
#[derive(Clone, Copy, PartialEq, Eq, Structural, Debug)]
pub enum BtrfsDatasetSnapshotState {
    Restored { source_snapshot: Uuid, parent_snapshot: Option<Uuid> },
    Original { parent_dataset: Uuid },
}

/// A dataset snapshot reduced to what messages need.
#[derive(Clone, Copy, PartialEq, Eq, Structural, Debug)]
pub struct BtrfsDatasetSnapshotHandle {
    pub datetime: CivilDateTime,
    pub at: i64,
    pub uuid: Uuid,
    pub state: BtrfsDatasetSnapshotState,
}

/// The handle a local snapshot reduces to.
pub open spec fn spec_handle_of(s: BtrfsDatasetSnapshot) -> BtrfsDatasetSnapshotHandle {
    BtrfsDatasetSnapshotHandle {
        datetime: s.datetime,
        at: s.at,
        uuid: s.subvolume.uuid,
        state: match s.subvolume.received_uuid {
            Some(src) => BtrfsDatasetSnapshotState::Restored {
                source_snapshot: src,
                parent_snapshot: s.subvolume.parent_uuid,
            },
            None => BtrfsDatasetSnapshotState::Original {
                parent_dataset: s.subvolume.parent_uuid->0,
            },
        },
    }
}

impl BtrfsDatasetSnapshotHandle {
    /// The handle of a local snapshot. A snapshot that was not received
    /// always has a parent, the dataset it was taken of; the caller
    /// guarantees that, so no input can fail here.
    pub fn of_snapshot(s: &BtrfsDatasetSnapshot) -> (r: BtrfsDatasetSnapshotHandle)
        requires
            s.subvolume.received_uuid is None ==> s.subvolume.parent_uuid is Some,
        ensures
            r == spec_handle_of(*s),
            r.datetime == s.datetime,
            r.at == s.at,
            r.uuid == s.subvolume.uuid,
            r.state == match s.subvolume.received_uuid {
                Some(src) => BtrfsDatasetSnapshotState::Restored {
                    source_snapshot: src,
                    parent_snapshot: s.subvolume.parent_uuid,
                },
                None => BtrfsDatasetSnapshotState::Original {
                    parent_dataset: s.subvolume.parent_uuid->0,
                },
            },
    {
        let state = match s.subvolume.received_uuid {
            Some(src) => BtrfsDatasetSnapshotState::Restored {
                source_snapshot: src,
                parent_snapshot: s.subvolume.parent_uuid,
            },
            None => {
                let parent = match s.subvolume.parent_uuid {
                    Some(p) => p,
                    None => Uuid { value: 0 },
                };
                BtrfsDatasetSnapshotState::Original { parent_dataset: parent }
            },
        };
        BtrfsDatasetSnapshotHandle {
            datetime: s.datetime,
            at: s.at,
            uuid: s.subvolume.uuid,
            state,
        }
    }
}

/// A container snapshot reduced to what messages need.
#[derive(Clone, Copy, PartialEq, Eq, Structural, Debug)]
pub struct BtrfsContainerSnapshotHandle {
    pub datetime: CivilDateTime,
    pub at: i64,
    pub uuid: Uuid,
    pub source_snapshot: Uuid,
    pub parent_snapshot: Option<Uuid>,
}

impl BtrfsContainerSnapshotHandle {
    /// The handle of a received snapshot.
    pub fn of_snapshot(s: &BtrfsContainerSnapshot) -> (r: BtrfsContainerSnapshotHandle)
        requires
            s.subvolume.received_uuid is Some,
        ensures
            r.datetime == s.datetime,
            r.at == s.at,
            r.uuid == s.subvolume.uuid,
            Some(r.source_snapshot) == s.subvolume.received_uuid,
            r.parent_snapshot == s.subvolume.parent_uuid,
    {
        BtrfsContainerSnapshotHandle {
            datetime: s.datetime,
            at: s.at,
            uuid: s.subvolume.uuid,
            source_snapshot: s.received_uuid(),
            parent_snapshot: s.subvolume.parent_uuid,
        }
    }
}

} // verus!

verus! {

/// A field-for-field copy.
impl BtrfsContainerSnapshot {
    pub fn duplicate(&self) -> (r: BtrfsContainerSnapshot)
        ensures
            r == *self,
    {
        BtrfsContainerSnapshot {
            subvolume: self.subvolume.duplicate(),
            datetime: self.datetime,
            at: self.at,
        }
    }
}

} // verus!

verus! {

/// Checked form of `parents_recorded`, for callers handing in a listing.
pub fn listing_parents_recorded(listing: &Vec<Subvolume>) -> (r: bool)
    ensures
        r == parents_recorded(listing@),
{
    let n = listing.len();
    let mut m: usize = 0;
    while m < n
        invariant
            n == listing@.len(),
            m <= n,
            forall|k: int|
                0 <= k < m && parsed_name_of(#[trigger] listing@[k]) is Some ==> (
                listing@[k].received_uuid is None ==> listing@[k].parent_uuid is Some),
        decreases n - m,
    {
        let entry = &listing[m];
        let name = file_name(entry.path.as_str());
        let named = crate::time::parse_snapshot_name(name).is_some();
        if named && entry.received_uuid.is_none() && entry.parent_uuid.is_none() {
            return false;
        }
        m = m + 1;
    }
    true
}

} // verus!
