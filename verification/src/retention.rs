//! The retention engine: a pure function from a snapshot set, a held-id set
//! and a retention rule to the snapshots to keep and the snapshots to delete.
//!
//! Ages are measured backwards from the newest snapshot. Each bucket
//! `(interval, count)` carves the next `count * interval` seconds of age into
//! `count` slots of `interval` seconds; within a slot only the newest snapshot
//! is retained. Snapshots older than every bucket are deleted. A minimum
//! newest-count retains the latest snapshots unconditionally, the newest
//! snapshot (the anchor of the windows) is always retained, and a held
//! snapshot is never deleted.

use vstd::arithmetic::div_mod::lemma_div_is_ordered;
use vstd::prelude::*;

use crate::ids::Uuid;

verus! {

/// Upper bound on the epoch seconds of a snapshot record; far beyond any
/// civil date the library produces, it keeps age arithmetic in range.
pub const MAX_RECORD_AT: i64 = 0x100_0000_0000;

/// Upper bound on the total age span a rule's buckets may cover, in seconds.
pub const MAX_RULE_SPAN: u64 = 0x1000_0000_0000;

/// A snapshot as the retention engine sees it: its id and its instant in
/// seconds since the epoch.
#[derive(Clone, Copy, PartialEq, Eq, Structural, Debug)]
pub struct SnapshotRecord {
    pub uuid: Uuid,
    pub at: i64,
}

/// One retention bucket: a window of `count` slots of `interval_secs` each.
#[derive(Clone, Copy, PartialEq, Eq, Structural, Debug)]
pub struct RetentionBucket {
    pub interval_secs: u64,
    pub count: u64,
}

/// A retention rule: ordered buckets, newest first, and a count of newest
/// snapshots that are retained unconditionally.
#[derive(Clone, Debug)]
pub struct RetentionRule {
    pub buckets: Vec<RetentionBucket>,
    pub newest_count: u64,
}

/// The outcome of one retention evaluation: every input snapshot stands in
/// exactly one of the two lists.
pub struct PruneResult {
    pub keep: Vec<SnapshotRecord>,
    pub delete: Vec<SnapshotRecord>,
}

/// Strict order on records: by instant, then by id.
pub open spec fn rec_lt(a: SnapshotRecord, b: SnapshotRecord) -> bool {
    a.at < b.at || (a.at == b.at && a.uuid.value < b.uuid.value)
}

/// A snapshot list sorted oldest first with no duplicate (instant, id) pair.
pub open spec fn sorted_strict(s: Seq<SnapshotRecord>) -> bool {
    forall|i: int, j: int| 0 <= i < j < s.len() ==> rec_lt(#[trigger] s[i], #[trigger] s[j])
}

/// Every record's instant lies in the supported range.
pub open spec fn records_wf(s: Seq<SnapshotRecord>) -> bool {
    forall|i: int| 0 <= i < s.len() ==> 0 <= (#[trigger] s[i]).at <= MAX_RECORD_AT
}

pub open spec fn bucket_wf(b: RetentionBucket) -> bool {
    1 <= b.interval_secs && 1 <= b.count
}

/// The age span covered by a bucket sequence, in seconds.
pub open spec fn total_span(bs: Seq<RetentionBucket>) -> int
    decreases bs.len(),
{
    if bs.len() == 0 {
        0
    } else {
        bs[0].interval_secs * bs[0].count + total_span(bs.drop_first())
    }
}

/// The number of slots of a bucket sequence.
pub open spec fn total_count(bs: Seq<RetentionBucket>) -> int
    decreases bs.len(),
{
    if bs.len() == 0 {
        0
    } else {
        bs[0].count + total_count(bs.drop_first())
    }
}

impl RetentionRule {
    /// A usable rule: positive intervals and counts, and a bounded span.
    pub open spec fn wf(&self) -> bool {
        &&& forall|i: int| 0 <= i < self.buckets@.len() ==> bucket_wf(#[trigger] self.buckets@[i])
        &&& total_span(self.buckets@) <= MAX_RULE_SPAN
    }
}

/// The slot an age falls in, counted across all buckets from the newest, or
/// nothing for age zero or an age past the last bucket.
pub open spec fn slot_of(bs: Seq<RetentionBucket>, age: int) -> Option<int>
    decreases bs.len(),
{
    if bs.len() == 0 {
        None
    } else {
        let span = bs[0].interval_secs * bs[0].count;
        if age <= 0 {
            None
        } else if age <= span {
            Some((age - 1) / (bs[0].interval_secs as int))
        } else {
            match slot_of(bs.drop_first(), age - span) {
                Some(k) => Some(bs[0].count + k),
                None => None,
            }
        }
    }
}

/// Within the first bucket, the slot of an age in range is a valid slot
/// number of that bucket.
pub proof fn lemma_first_bucket_slot(b: RetentionBucket, age: int)
    requires
        bucket_wf(b),
        0 < age <= b.interval_secs * b.count,
    ensures
        0 <= (age - 1) / (b.interval_secs as int) < b.count,
{
    let i = b.interval_secs as int;
    let c = b.count as int;
    assert((age - 1) / i >= 0) by {
        vstd::arithmetic::div_mod::lemma_div_pos_is_pos(age - 1, i);
    }
    assert(i * c - 1 == i * (c - 1) + (i - 1)) by {
        vstd::arithmetic::mul::lemma_mul_is_distributive_sub(i, c, 1);
    }
    assert((i * (c - 1) + (i - 1)) / i == c - 1) by {
        vstd::arithmetic::div_mod::lemma_div_multiples_vanish_fancy(c - 1, i - 1, i);
    }
    lemma_div_is_ordered(age - 1, i * c - 1, i);
}

/// A bucket sequence with well-formed buckets has a non-negative span and
/// count, each bounded by the other.
pub proof fn lemma_span_nonneg(bs: Seq<RetentionBucket>)
    requires
        forall|i: int| 0 <= i < bs.len() ==> bucket_wf(#[trigger] bs[i]),
    ensures
        0 <= total_count(bs) <= total_span(bs),
    decreases bs.len(),
{
    if bs.len() > 0 {
        assert(bucket_wf(bs[0]));
        assert(forall|i: int|
            0 <= i < bs.drop_first().len() ==> bucket_wf(#[trigger] bs.drop_first()[i]));
        lemma_span_nonneg(bs.drop_first());
        assert(bs[0].count <= bs[0].interval_secs * bs[0].count) by {
            vstd::arithmetic::mul::lemma_mul_inequality(1, bs[0].interval_secs as int,
                bs[0].count as int);
            vstd::arithmetic::mul::lemma_mul_is_commutative(bs[0].interval_secs as int,
                bs[0].count as int);
        }
    }
}

/// An age has a slot exactly when it lies in the covered span.
pub proof fn lemma_slot_range(bs: Seq<RetentionBucket>, age: int)
    requires
        forall|i: int| 0 <= i < bs.len() ==> bucket_wf(#[trigger] bs[i]),
    ensures
        slot_of(bs, age) is Some <==> 0 < age <= total_span(bs),
        slot_of(bs, age) matches Some(k) ==> 0 <= k < total_count(bs),
    decreases bs.len(),
{
    if bs.len() > 0 {
        let b = bs[0];
        let span = b.interval_secs * b.count;
        assert(bucket_wf(b));
        assert(forall|i: int|
            0 <= i < bs.drop_first().len() ==> bucket_wf(#[trigger] bs.drop_first()[i]));
        lemma_slot_range(bs.drop_first(), age - span);
        lemma_span_nonneg(bs.drop_first());
        if 0 < age <= span {
            lemma_first_bucket_slot(b, age);
        }
    }
}

/// Slots never decrease as age grows.
pub proof fn lemma_slot_monotone(bs: Seq<RetentionBucket>, a1: int, a2: int)
    requires
        forall|i: int| 0 <= i < bs.len() ==> bucket_wf(#[trigger] bs[i]),
        a1 <= a2,
        slot_of(bs, a1) is Some,
        slot_of(bs, a2) is Some,
    ensures
        slot_of(bs, a1)->0 <= slot_of(bs, a2)->0,
    decreases bs.len(),
{
    if bs.len() > 0 {
        let b = bs[0];
        let span = b.interval_secs * b.count;
        assert(bucket_wf(b));
        assert(forall|i: int|
            0 <= i < bs.drop_first().len() ==> bucket_wf(#[trigger] bs.drop_first()[i]));
        if a1 <= span && a2 <= span {
            lemma_div_is_ordered(a1 - 1, a2 - 1, b.interval_secs as int);
        } else if a1 <= span && a2 > span {
            assert(0 < a1) by {
                lemma_slot_range(bs, a1);
            }
            lemma_first_bucket_slot(b, a1);
            lemma_slot_range(bs.drop_first(), a2 - span);
        } else {
            lemma_slot_monotone(bs.drop_first(), a1 - span, a2 - span);
            lemma_slot_range(bs.drop_first(), a1 - span);
            lemma_slot_range(bs.drop_first(), a2 - span);
        }
    }
}

/// Looks up the slot of `age` in the buckets from index `i` on.
fn slot_index_from(buckets: &Vec<RetentionBucket>, i: usize, age: u64) -> (r: Option<u64>)
    requires
        i <= buckets@.len(),
        forall|j: int| 0 <= j < buckets@.len() ==> bucket_wf(#[trigger] buckets@[j]),
        total_span(buckets@.skip(i as int)) <= MAX_RULE_SPAN,
    ensures
        match r {
            Some(k) => slot_of(buckets@.skip(i as int), age as int) == Some(k as int),
            None => slot_of(buckets@.skip(i as int), age as int) is None,
        },
    decreases buckets@.len() - i,
{
    let ghost bs = buckets@.skip(i as int);
    if i == buckets.len() {
        assert(bs.len() == 0);
        return None;
    }
    assert(bs[0] == buckets@[i as int]);
    assert(forall|j: int| 0 <= j < bs.len() ==> bucket_wf(#[trigger] bs[j]));
    proof {
        lemma_span_nonneg(bs.drop_first());
        assert(total_span(bs) == bs[0].interval_secs * bs[0].count + total_span(bs.drop_first()));
    }
    let b = buckets[i];
    let span: u64 = b.interval_secs * b.count;
    if age == 0 {
        return None;
    }
    if age <= span {
        let k = (age - 1) / b.interval_secs;
        return Some(k);
    }
    proof {
        assert(bs.drop_first() =~= buckets@.skip(i as int + 1));
    }
    let rest = slot_index_from(buckets, i + 1, age - span);
    match rest {
        Some(k) => {
            proof {
                lemma_slot_range(bs.drop_first(), age as int - span as int);
                lemma_span_nonneg(bs.drop_first());
                assert(b.count as int <= b.interval_secs * b.count) by {
                    vstd::arithmetic::mul::lemma_mul_inequality(1, b.interval_secs as int,
                        b.count as int);
                    vstd::arithmetic::mul::lemma_mul_is_commutative(b.interval_secs as int,
                        b.count as int);
                }
                assert(b.count + k <= total_span(bs) <= MAX_RULE_SPAN);
            }
            Some(b.count + k)
        },
        None => None,
    }
}

/// Looks up the slot of `age` under `rule`, counted across all buckets.
fn slot_index(rule: &RetentionRule, age: u64) -> (r: Option<u64>)
    requires
        rule.wf(),
    ensures
        match r {
            Some(k) => slot_of(rule.buckets@, age as int) == Some(k as int),
            None => slot_of(rule.buckets@, age as int) is None,
        },
{
    proof {
        assert(rule.buckets@.skip(0) =~= rule.buckets@);
    }
    slot_index_from(&rule.buckets, 0, age)
}

} // verus!

// The part below decides, for each snapshot, whether it is kept, and proves
// the two laws of the engine: a held snapshot is never deleted, and pruning
// what was kept keeps everything again.

verus! {

/// The instant of the newest snapshot, the anchor all ages are measured from.
pub open spec fn end_at(s: Seq<SnapshotRecord>) -> int {
    s.last().at as int
}

/// How many snapshots of `s` are newer than `x` in the record order.
pub open spec fn count_newer(s: Seq<SnapshotRecord>, x: SnapshotRecord) -> int
    decreases s.len(),
{
    if s.len() == 0 {
        0
    } else {
        count_newer(s.drop_last(), x) + if rec_lt(x, s.last()) {
            1int
        } else {
            0int
        }
    }
}

/// The age of `x` within `s`, in seconds before the newest snapshot.
pub open spec fn age_in(s: Seq<SnapshotRecord>, x: SnapshotRecord) -> int {
    end_at(s) - x.at
}

/// Whether `x` falls in a slot and is the newest member of that slot.
pub open spec fn is_slot_winner(
    s: Seq<SnapshotRecord>,
    rule: RetentionRule,
    x: SnapshotRecord,
) -> bool {
    &&& slot_of(rule.buckets@, age_in(s, x)) is Some
    &&& forall|t: SnapshotRecord|
        #[trigger] s.contains(t) && slot_of(rule.buckets@, age_in(s, t)) == slot_of(
            rule.buckets@,
            age_in(s, x),
        ) ==> !rec_lt(x, t)
}

/// Whether the engine keeps `x` out of the snapshot list `s`.
pub open spec fn keeps(
    s: Seq<SnapshotRecord>,
    held: Seq<Uuid>,
    rule: RetentionRule,
    x: SnapshotRecord,
) -> bool {
    if s.len() == 0 {
        false
    } else {
        ||| held.contains(x.uuid)
        ||| count_newer(s, x) < rule.newest_count
        ||| x.at == end_at(s)
        ||| is_slot_winner(s, rule, x)
    }
}

/// The kept snapshots among the first `n` of `s`, in order.
pub open spec fn keep_prefix(
    s: Seq<SnapshotRecord>,
    held: Seq<Uuid>,
    rule: RetentionRule,
    n: int,
) -> Seq<SnapshotRecord>
    decreases n,
{
    if n <= 0 {
        Seq::empty()
    } else {
        let pre = keep_prefix(s, held, rule, n - 1);
        if keeps(s, held, rule, s[n - 1]) {
            pre.push(s[n - 1])
        } else {
            pre
        }
    }
}

/// The deleted snapshots among the first `n` of `s`, in order.
pub open spec fn delete_prefix(
    s: Seq<SnapshotRecord>,
    held: Seq<Uuid>,
    rule: RetentionRule,
    n: int,
) -> Seq<SnapshotRecord>
    decreases n,
{
    if n <= 0 {
        Seq::empty()
    } else {
        let pre = delete_prefix(s, held, rule, n - 1);
        if keeps(s, held, rule, s[n - 1]) {
            pre
        } else {
            pre.push(s[n - 1])
        }
    }
}

/// What the engine keeps of `s`.
pub open spec fn spec_keep(
    s: Seq<SnapshotRecord>,
    held: Seq<Uuid>,
    rule: RetentionRule,
) -> Seq<SnapshotRecord> {
    keep_prefix(s, held, rule, s.len() as int)
}

/// What the engine deletes of `s`.
pub open spec fn spec_delete(
    s: Seq<SnapshotRecord>,
    held: Seq<Uuid>,
    rule: RetentionRule,
) -> Seq<SnapshotRecord> {
    delete_prefix(s, held, rule, s.len() as int)
}

/// Nothing is newer than a record that no element exceeds.
proof fn lemma_count_newer_zero(s: Seq<SnapshotRecord>, x: SnapshotRecord)
    requires
        forall|j: int| 0 <= j < s.len() ==> !rec_lt(x, #[trigger] s[j]),
    ensures
        count_newer(s, x) == 0,
    decreases s.len(),
{
    if s.len() > 0 {
        lemma_count_newer_zero(s.drop_last(), x);
    }
}

/// In a sorted list, the records newer than the one at `i` are exactly those
/// after it.
proof fn lemma_count_newer_at(s: Seq<SnapshotRecord>, i: int)
    requires
        sorted_strict(s),
        0 <= i < s.len(),
    ensures
        count_newer(s, s[i]) == s.len() - 1 - i,
    decreases s.len(),
{
    if i == s.len() - 1 {
        lemma_count_newer_zero(s.drop_last(), s[i]);
    } else {
        assert(sorted_strict(s.drop_last()));
        lemma_count_newer_at(s.drop_last(), i);
    }
}

/// Counting newer records only looks at the elements, one by one.
proof fn lemma_count_newer_push(s: Seq<SnapshotRecord>, x: SnapshotRecord, e: SnapshotRecord)
    ensures
        count_newer(s.push(e), x) == count_newer(s, x) + if rec_lt(x, e) {
            1int
        } else {
            0int
        },
{
    assert(s.push(e).drop_last() =~= s);
}

/// Everything the keep prefix holds comes from `s` and is kept, in `s` order,
/// and everything the delete prefix holds comes from `s` and is not kept.
proof fn lemma_prefix_props(
    s: Seq<SnapshotRecord>,
    held: Seq<Uuid>,
    rule: RetentionRule,
    n: int,
)
    requires
        0 <= n <= s.len(),
    ensures
        keep_prefix(s, held, rule, n).len() + delete_prefix(s, held, rule, n).len() == n,
        forall|j: int|
            0 <= j < keep_prefix(s, held, rule, n).len() ==> s.contains(
                #[trigger] keep_prefix(s, held, rule, n)[j],
            ) && keeps(s, held, rule, keep_prefix(s, held, rule, n)[j]),
        forall|j: int|
            0 <= j < delete_prefix(s, held, rule, n).len() ==> s.contains(
                #[trigger] delete_prefix(s, held, rule, n)[j],
            ) && !keeps(s, held, rule, delete_prefix(s, held, rule, n)[j]),
    decreases n,
{
    if n > 0 {
        lemma_prefix_props(s, held, rule, n - 1);
        assert(s.contains(s[n - 1]));
    }
}

/// Hold safety: no snapshot the engine deletes has its id in the held set.
pub proof fn lemma_prune_hold_safety(
    s: Seq<SnapshotRecord>,
    held: Seq<Uuid>,
    rule: RetentionRule,
)
    ensures
        forall|j: int|
            0 <= j < spec_delete(s, held, rule).len() ==> !held.contains(
                (#[trigger] spec_delete(s, held, rule)[j]).uuid,
            ),
{
    lemma_prefix_props(s, held, rule, s.len() as int);
}

/// Splits `s` into the snapshots the rule keeps and the snapshots it deletes.
pub fn prune(snapshots: &Vec<SnapshotRecord>, held: &Vec<Uuid>, rule: &RetentionRule) -> (r:
    PruneResult)
    requires
        sorted_strict(snapshots@),
        records_wf(snapshots@),
        rule.wf(),
    ensures
        r.keep@ == spec_keep(snapshots@, held@, *rule),
        r.delete@ == spec_delete(snapshots@, held@, *rule),
        r.keep@.len() + r.delete@.len() == snapshots@.len(),
        forall|j: int|
            0 <= j < r.delete@.len() ==> !held@.contains((#[trigger] r.delete@[j]).uuid),
        forall|j: int| 0 <= j < r.delete@.len() ==> snapshots@.contains(#[trigger] r.delete@[j]),
        forall|j: int| 0 <= j < r.keep@.len() ==> snapshots@.contains(#[trigger] r.keep@[j]),
{
    let ghost all = snapshots@;
    let n = snapshots.len();
    let mut keep: Vec<SnapshotRecord> = Vec::new();
    let mut delete: Vec<SnapshotRecord> = Vec::new();
    if n == 0 {
        proof {
            lemma_prefix_props(all, held@, *rule, 0);
        }
        return PruneResult { keep, delete };
    }
    let end = snapshots[n - 1].at;
    let mut i: usize = 0;
    while i < n
        invariant
            n == all.len(),
            0 < n,
            i <= n,
            sorted_strict(all),
            records_wf(all),
            rule.wf(),
            snapshots@ == all,
            end == end_at(all),
            keep@ == keep_prefix(all, held@, *rule, i as int),
            delete@ == delete_prefix(all, held@, *rule, i as int),
        decreases n - i,
    {
        let s = snapshots[i];
        proof {
            assert(rec_lt(all[i as int], all[n - 1]) || i == n - 1);
            assert(0 <= s.at <= end);
            lemma_count_newer_at(all, i as int);
        }
        let mut keep_it = contains_uuid(held, s.uuid);
        if !keep_it && ((n - 1 - i) as u64) < rule.newest_count {
            keep_it = true;
        }
        if !keep_it && s.at == end {
            keep_it = true;
        }
        if !keep_it {
            let age = (end - s.at) as u64;
            match slot_index(rule, age) {
                Some(k) => {
                    if i == n - 1 {
                        keep_it = true;
                        proof {
                            lemma_winner_adjacent(all, *rule, i as int);
                        }
                    } else {
                        proof {
                            assert(rec_lt(all[i as int], all[i as int + 1]));
                            assert(rec_lt(all[i as int + 1], all[n - 1]) || i + 1 == n - 1);
                        }
                        let age2 = (end - snapshots[i + 1].at) as u64;
                        let next_slot = slot_index(rule, age2);
                        let same = match next_slot {
                            Some(k2) => k2 == k,
                            None => false,
                        };
                        keep_it = !same;
                        proof {
                            lemma_winner_adjacent(all, *rule, i as int);
                        }
                    }
                },
                None => {
                    proof {
                        assert(!is_slot_winner(all, *rule, all[i as int]));
                    }
                },
            }
        }
        proof {
            assert(keep_it == keeps(all, held@, *rule, all[i as int]));
        }
        if keep_it {
            keep.push(s);
        } else {
            delete.push(s);
        }
        i = i + 1;
    }
    proof {
        lemma_prefix_props(all, held@, *rule, n as int);
    }
    PruneResult { keep, delete }
}

/// Whether a rule can be used: checked form of `RetentionRule::wf`.
pub fn rule_is_wf(rule: &RetentionRule) -> (r: bool)
    ensures
        r == rule.wf(),
{
    let n = rule.buckets.len();
    proof {
        assert(rule.buckets@.skip(0) =~= rule.buckets@);
    }
    let mut acc: u128 = 0;
    let mut i: usize = 0;
    while i < n
        invariant
            n == rule.buckets@.len(),
            i <= n,
            forall|j: int| 0 <= j < i ==> bucket_wf(#[trigger] rule.buckets@[j]),
            acc + total_span(rule.buckets@.skip(i as int)) == total_span(rule.buckets@),
            acc <= MAX_RULE_SPAN,
        decreases n - i,
    {
        let b = rule.buckets[i];
        if b.interval_secs < 1 || b.count < 1 {
            return false;
        }
        proof {
            vstd::arithmetic::mul::lemma_mul_upper_bound(b.interval_secs as int, 0xffff_ffff_ffff_ffff,
                b.count as int, 0xffff_ffff_ffff_ffff);
            vstd::arithmetic::mul::lemma_mul_nonnegative(b.interval_secs as int, b.count as int);
        }
        let span: u128 = (b.interval_secs as u128) * (b.count as u128);
        proof {
            assert(rule.buckets@.skip(i as int).drop_first() =~= rule.buckets@.skip(i as int + 1));
            lemma_total_span_nonneg(rule.buckets@.skip(i as int + 1));
        }
        if span > (MAX_RULE_SPAN as u128) - acc {
            return false;
        }
        acc = acc + span;
        i = i + 1;
    }
    proof {
        assert(rule.buckets@.skip(n as int) =~= Seq::<RetentionBucket>::empty());
    }
    true
}

/// A span of buckets is never negative.
proof fn lemma_total_span_nonneg(bs: Seq<RetentionBucket>)
    ensures
        0 <= total_span(bs),
    decreases bs.len(),
{
    if bs.len() > 0 {
        lemma_total_span_nonneg(bs.drop_first());
        vstd::arithmetic::mul::lemma_mul_nonnegative(bs[0].interval_secs as int, bs[0].count as int);
    }
}

/// Linear search for an id.
pub fn contains_uuid(held: &Vec<Uuid>, u: Uuid) -> (r: bool)
    ensures
        r == held@.contains(u),
{
    let mut i: usize = 0;
    while i < held.len()
        invariant
            i <= held@.len(),
            forall|j: int| 0 <= j < i ==> held@[j] != u,
        decreases held@.len() - i,
    {
        if held[i].value == u.value {
            return true;
        }
        i = i + 1;
    }
    false
}

/// A snapshot with a slot is the winner of that slot exactly when it is the
/// last of the list or the next snapshot falls in another slot.
proof fn lemma_winner_adjacent(s: Seq<SnapshotRecord>, rule: RetentionRule, i: int)
    requires
        sorted_strict(s),
        records_wf(s),
        rule.wf(),
        0 <= i < s.len(),
        slot_of(rule.buckets@, age_in(s, s[i])) is Some,
    ensures
        is_slot_winner(s, rule, s[i]) <==> (i == s.len() - 1 || slot_of(
            rule.buckets@,
            age_in(s, s[i + 1]),
        ) != slot_of(rule.buckets@, age_in(s, s[i]))),
{
    let bs = rule.buckets@;
    let n = s.len() as int;
    let k = slot_of(bs, age_in(s, s[i]))->0;
    if i < n - 1 && slot_of(bs, age_in(s, s[i + 1])) == slot_of(bs, age_in(s, s[i])) {
        // The next snapshot shares the slot and is newer.
        assert(s.contains(s[i + 1]));
        assert(rec_lt(s[i], s[i + 1]));
        assert(!is_slot_winner(s, rule, s[i]));
    } else {
        assert forall|t: SnapshotRecord|
            #[trigger] s.contains(t) && slot_of(bs, age_in(s, t)) == slot_of(bs, age_in(s, s[i]))
                implies !rec_lt(s[i], t) by {
            if rec_lt(s[i], t) {
                let j = choose|j: int| 0 <= j < s.len() && s[j] == t;
                assert(0 <= j < s.len() && s[j] == t);
                // A newer record sits later in the sorted list.
                assert(j > i) by {
                    if j < i {
                        assert(rec_lt(s[j], s[i]));
                    }
                }
                assert(i < n - 1);
                // The in-between snapshot shares the slot by monotonicity.
                assert(s[i].at <= s[i + 1].at <= s[j].at) by {
                    assert(rec_lt(s[i], s[i + 1]));
                    if i + 1 < j {
                        assert(rec_lt(s[i + 1], s[j]));
                    }
                }
                let a_hi = age_in(s, s[i]);
                let a_mid = age_in(s, s[i + 1]);
                let a_lo = age_in(s, s[j]);
                assert(a_lo <= a_mid <= a_hi);
                assert(forall|q: int| 0 <= q < bs.len() ==> bucket_wf(#[trigger] bs[q]));
                lemma_slot_range(bs, a_hi);
                lemma_slot_range(bs, a_lo);
                lemma_slot_range(bs, a_mid);
                lemma_slot_monotone(bs, a_lo, a_mid);
                lemma_slot_monotone(bs, a_mid, a_hi);
                assert(slot_of(bs, a_mid) == Some(k));
                assert(false);
            }
        }
    }
}

} // verus!

// Idempotence of the engine: pruning what was kept keeps everything again.

verus! {

/// The keep prefix is sorted and lies strictly below the rest of the list.
proof fn lemma_keep_prefix_sorted(
    s: Seq<SnapshotRecord>,
    held: Seq<Uuid>,
    rule: RetentionRule,
    n: int,
)
    requires
        sorted_strict(s),
        0 <= n <= s.len(),
    ensures
        sorted_strict(keep_prefix(s, held, rule, n)),
        forall|j: int, m: int|
            0 <= j < keep_prefix(s, held, rule, n).len() && n <= m < s.len() ==> rec_lt(
                #[trigger] keep_prefix(s, held, rule, n)[j],
                #[trigger] s[m],
            ),
    decreases n,
{
    if n > 0 {
        lemma_keep_prefix_sorted(s, held, rule, n - 1);
    }
}

/// The newest snapshot is kept, so the kept list ends where the input ends.
proof fn lemma_keep_last(s: Seq<SnapshotRecord>, held: Seq<Uuid>, rule: RetentionRule)
    requires
        s.len() > 0,
    ensures
        keeps(s, held, rule, s[s.len() - 1]),
        spec_keep(s, held, rule).len() > 0,
        spec_keep(s, held, rule).last() == s.last(),
{
    assert(s[s.len() - 1].at == end_at(s));
}

/// Keeping drops snapshots, so it cannot raise the count of newer ones.
proof fn lemma_keep_count_newer(
    s: Seq<SnapshotRecord>,
    held: Seq<Uuid>,
    rule: RetentionRule,
    n: int,
    x: SnapshotRecord,
)
    requires
        0 <= n <= s.len(),
    ensures
        count_newer(keep_prefix(s, held, rule, n), x) <= count_newer(s.take(n), x),
    decreases n,
{
    if n > 0 {
        lemma_keep_count_newer(s, held, rule, n - 1, x);
        assert(s.take(n).drop_last() =~= s.take(n - 1));
        assert(s.take(n).last() == s[n - 1]);
        if keeps(s, held, rule, s[n - 1]) {
            lemma_count_newer_push(keep_prefix(s, held, rule, n - 1), x, s[n - 1]);
        }
    }
}

/// Every snapshot the engine kept is kept again when the engine runs on the
/// kept list itself.
proof fn lemma_keep_all_again(s: Seq<SnapshotRecord>, held: Seq<Uuid>, rule: RetentionRule)
    requires
        sorted_strict(s),
        records_wf(s),
        rule.wf(),
        s.len() > 0,
    ensures
        forall|j: int|
            0 <= j < spec_keep(s, held, rule).len() ==> keeps(
                spec_keep(s, held, rule),
                held,
                rule,
                #[trigger] spec_keep(s, held, rule)[j],
            ),
{
    let k = spec_keep(s, held, rule);
    let n = s.len() as int;
    lemma_prefix_props(s, held, rule, n);
    lemma_keep_last(s, held, rule);
    assert(end_at(k) == end_at(s));
    assert forall|j: int| 0 <= j < k.len() implies keeps(k, held, rule, #[trigger] k[j]) by {
        let x = k[j];
        assert(s.contains(x) && keeps(s, held, rule, x));
        if held.contains(x.uuid) {
        } else if count_newer(s, x) < rule.newest_count {
            lemma_keep_count_newer(s, held, rule, n, x);
            assert(s.take(n) =~= s);
            assert(count_newer(k, x) < rule.newest_count);
        } else if x.at == end_at(s) {
            assert(x.at == end_at(k));
        } else {
            // x is the winner of its slot over s, hence over the kept subset.
            assert(is_slot_winner(s, rule, x));
            assert(age_in(k, x) == age_in(s, x));
            assert forall|t: SnapshotRecord|
                #[trigger] k.contains(t) && slot_of(rule.buckets@, age_in(k, t)) == slot_of(
                    rule.buckets@,
                    age_in(k, x),
                ) implies !rec_lt(x, t) by {
                let jt = choose|jt: int| 0 <= jt < k.len() && k[jt] == t;
                assert(s.contains(t));
                assert(age_in(s, t) == age_in(k, t));
            }
            assert(is_slot_winner(k, rule, x));
        }
    }
}

/// When every element is kept, keeping is the identity.
proof fn lemma_keep_fixpoint(
    k: Seq<SnapshotRecord>,
    held: Seq<Uuid>,
    rule: RetentionRule,
    n: int,
)
    requires
        0 <= n <= k.len(),
        forall|j: int| 0 <= j < k.len() ==> keeps(k, held, rule, #[trigger] k[j]),
    ensures
        keep_prefix(k, held, rule, n) =~= k.take(n),
    decreases n,
{
    if n > 0 {
        lemma_keep_fixpoint(k, held, rule, n - 1);
    }
}

/// What the engine keeps of a strictly sorted list is strictly sorted.
pub proof fn lemma_keep_prefix_strict(
    s: Seq<SnapshotRecord>,
    held: Seq<Uuid>,
    rule: RetentionRule,
    n: int,
)
    requires
        sorted_strict(s),
        0 <= n <= s.len(),
    ensures
        sorted_strict(keep_prefix(s, held, rule, n)),
{
    lemma_keep_prefix_sorted(s, held, rule, n);
}

/// Retention idempotence: running the engine on its own keep set keeps
/// exactly that set again.
pub proof fn lemma_prune_idempotent(s: Seq<SnapshotRecord>, held: Seq<Uuid>, rule: RetentionRule)
    requires
        sorted_strict(s),
        records_wf(s),
        rule.wf(),
    ensures
        spec_keep(spec_keep(s, held, rule), held, rule) == spec_keep(s, held, rule),
{
    let k = spec_keep(s, held, rule);
    if s.len() == 0 {
        assert(k =~= Seq::<SnapshotRecord>::empty());
        assert(spec_keep(k, held, rule) =~= k);
    } else {
        lemma_keep_all_again(s, held, rule);
        lemma_keep_fixpoint(k, held, rule, k.len() as int);
        assert(k.take(k.len() as int) =~= k);
    }
}

} // verus!

// Membership in the two halves is decided by the element alone.

verus! {

/// A snapshot is in the delete half exactly when the engine does not keep
/// it, and in the keep half exactly when it does.
pub proof fn lemma_prefix_membership(
    s: Seq<SnapshotRecord>,
    held: Seq<Uuid>,
    rule: RetentionRule,
    n: int,
)
    requires
        0 <= n <= s.len(),
    ensures
        forall|i: int|
            0 <= i < n ==> (delete_prefix(s, held, rule, n).contains(#[trigger] s[i]) <==> !keeps(
                s,
                held,
                rule,
                s[i],
            )),
        forall|i: int|
            0 <= i < n ==> (keep_prefix(s, held, rule, n).contains(#[trigger] s[i]) <==> keeps(
                s,
                held,
                rule,
                s[i],
            )),
    decreases n,
{
    lemma_prefix_props(s, held, rule, n);
    if n > 0 {
        lemma_prefix_membership(s, held, rule, n - 1);
        let dp0 = delete_prefix(s, held, rule, n - 1);
        let kp0 = keep_prefix(s, held, rule, n - 1);
        let dp = delete_prefix(s, held, rule, n);
        let kp = keep_prefix(s, held, rule, n);
        assert forall|i: int| 0 <= i < n && !keeps(s, held, rule, s[i]) implies dp.contains(
            #[trigger] s[i],
        ) by {
            if i < n - 1 {
                assert(dp0.contains(s[i]));
                let k = choose|k: int| 0 <= k < dp0.len() && dp0[k] == s[i];
                assert(dp[k] == s[i]);
            } else {
                assert(dp[dp.len() - 1] == s[i]);
            }
        }
        assert forall|i: int| 0 <= i < n && keeps(s, held, rule, s[i]) implies kp.contains(
            #[trigger] s[i],
        ) by {
            if i < n - 1 {
                assert(kp0.contains(s[i]));
                let k = choose|k: int| 0 <= k < kp0.len() && kp0[k] == s[i];
                assert(kp[k] == s[i]);
            } else {
                assert(kp[kp.len() - 1] == s[i]);
            }
        }
    }
}

/// Linear search for a record.
pub fn contains_record(v: &Vec<SnapshotRecord>, x: SnapshotRecord) -> (r: bool)
    ensures
        r == v@.contains(x),
{
    let n = v.len();
    let mut i: usize = 0;
    while i < n
        invariant
            n == v@.len(),
            i <= n,
            forall|j: int| 0 <= j < i ==> v@[j] != x,
        decreases n - i,
    {
        if v[i].uuid.value == x.uuid.value && v[i].at == x.at {
            return true;
        }
        i = i + 1;
    }
    false
}

} // verus!
