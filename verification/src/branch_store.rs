//! Branch state: conversations, each rooted at a stub, with the stubs
//! attached to them.
//!
//! Timestamps are ordered and compared as signed 64-bit integers, the way a
//! SQL store holds them.
use vstd::prelude::*;
use vstd::string::StringExecFns;

use crate::bytes::bytes32_eq;
use crate::sorting::{lemma_sort_by_key, sort_by_key, stable_sort_by_key};

verus! {

/// Errors of the branch store. The in-memory store itself never fails; a
/// persistent backing store reports its failures with this type.
#[derive(Debug)]
pub enum BranchStoreError {
    Db(String),
}

impl BranchStoreError {
    /// The text of the error.
    pub open spec fn spec_message(&self) -> Seq<char> {
        match self {
            BranchStoreError::Db(m) => "SQLite error: "@ + m@,
        }
    }

    /// The text of the error.
    pub fn message(&self) -> (r: String)
        ensures
            r@ == self.spec_message(),
    {
        match self {
            BranchStoreError::Db(m) => {
                let mut r = String::from_str("SQLite error: ");
                r.append(m.as_str());
                r
            },
        }
    }
}

/// Activation state of a branch.
#[derive(Debug, Clone, Copy, PartialEq, Eq, Structural)]
pub enum ActivationState {
    Active,
    Dormant,
}

impl ActivationState {
    /// 1 is dormant; every other code reads as active.
    pub fn from_u8(v: u8) -> (r: Self)
        ensures
            r == (if v == 1 {
                ActivationState::Dormant
            } else {
                ActivationState::Active
            }),
    {
        match v {
            1 => ActivationState::Dormant,
            _ => ActivationState::Active,
        }
    }

    /// The stored code: 0 active, 1 dormant.
    pub fn to_u8(self) -> (r: u8)
        ensures
            r == (if self == ActivationState::Dormant {
                1u8
            } else {
                0u8
            }),
    {
        match self {
            ActivationState::Active => 0,
            ActivationState::Dormant => 1,
        }
    }
}

/// Branch state — compact representation of a conversation.
#[derive(Debug, Clone, Copy)]
pub struct BranchState {
    /// Derived from root stub content hash.
    pub branch_id: [u8; 32],
    /// Total attached stubs: each attachment counts once.
    pub stub_count: u64,
    /// Timestamp of most recent stub.
    pub last_activity: u64,
    /// ACTIVE or DORMANT.
    pub activation_state: ActivationState,
    /// Root stub content hash (same as branch_id for root branches).
    pub root_stub_hash: [u8; 32],
}

/// One stub attached to a branch.
#[derive(Debug, Clone, Copy)]
pub struct BranchStub {
    pub branch_id: [u8; 32],
    pub content_hash: [u8; 32],
    pub timestamp: u64,
}

/// The sort key of a timestamp: its value as a signed 64-bit integer.
pub open spec fn signed_time(t: u64) -> i128 {
    (t as i64) as i128
}

/// The later of two timestamps, compared as signed integers.
pub open spec fn later(a: u64, b: u64) -> u64 {
    if (a as i64) >= (b as i64) {
        a
    } else {
        b
    }
}

/// The stub count after one more attachment; it stops at the maximum.
pub open spec fn count_plus_one(n: u64) -> u64 {
    if n < u64::MAX {
        (n + 1) as u64
    } else {
        n
    }
}

/// The index of the branch with the given id, if there is one.
pub open spec fn branch_index(branches: Seq<BranchState>, id: [u8; 32]) -> Option<int>
    decreases branches.len(),
{
    if branches.len() == 0 {
        None
    } else {
        match branch_index(branches.drop_last(), id) {
            Some(i) => Some(i),
            None => if branches.last().branch_id == id {
                Some(branches.len() - 1)
            } else {
                None
            },
        }
    }
}

/// Whether the stub is attached to the branch.
pub open spec fn has_attachment(rows: Seq<BranchStub>, branch_id: [u8; 32], content_hash: [u8; 32]) -> bool {
    exists|i: int|
        0 <= i < rows.len() && #[trigger] rows[i].branch_id == branch_id && rows[i].content_hash
            == content_hash
}

/// The stubs of a branch, keyed by their timestamp, in storage order.
pub open spec fn attachments_of(rows: Seq<BranchStub>, branch_id: [u8; 32]) -> Seq<(i128, [u8; 32])>
    decreases rows.len(),
{
    if rows.len() == 0 {
        Seq::empty()
    } else {
        let rest = attachments_of(rows.drop_last(), branch_id);
        if rows.last().branch_id == branch_id {
            rest.push((signed_time(rows.last().timestamp), rows.last().content_hash))
        } else {
            rest
        }
    }
}

/// The branch of the first stored attachment of a stub.
pub open spec fn first_branch_of(rows: Seq<BranchStub>, content_hash: [u8; 32]) -> Option<[u8; 32]>
    decreases rows.len(),
{
    if rows.len() == 0 {
        None
    } else {
        match first_branch_of(rows.drop_last(), content_hash) {
            Some(b) => Some(b),
            None => if rows.last().content_hash == content_hash {
                Some(rows.last().branch_id)
            } else {
                None
            },
        }
    }
}

/// The active branches, keyed by their last activity, latest first.
pub open spec fn active_by_recency(branches: Seq<BranchState>) -> Seq<(i128, BranchState)>
    decreases branches.len(),
{
    if branches.len() == 0 {
        Seq::empty()
    } else {
        let rest = active_by_recency(branches.drop_last());
        if branches.last().activation_state == ActivationState::Active {
            rest.push(((-signed_time(branches.last().last_activity)) as i128, branches.last()))
        } else {
            rest
        }
    }
}

/// The state of a branch that a root stub starts.
pub open spec fn new_branch(root: [u8; 32], timestamp: u64) -> BranchState {
    BranchState {
        branch_id: root,
        stub_count: 1,
        last_activity: timestamp,
        activation_state: ActivationState::Active,
        root_stub_hash: root,
    }
}

/// The branch after one more stub attached at `timestamp`.
pub open spec fn after_attach(b: BranchState, timestamp: u64) -> BranchState {
    BranchState {
        stub_count: count_plus_one(b.stub_count),
        last_activity: later(b.last_activity, timestamp),
        activation_state: ActivationState::Active,
        ..b
    }
}

/// The branches with `b` added, unless a branch with its id is there.
pub open spec fn with_branch(branches: Seq<BranchState>, b: BranchState) -> Seq<BranchState> {
    if branch_index(branches, b.branch_id) is None {
        branches.push(b)
    } else {
        branches
    }
}

/// The attachments with `row` added, unless that attachment is there.
pub open spec fn with_attachment(rows: Seq<BranchStub>, row: BranchStub) -> Seq<BranchStub> {
    if !has_attachment(rows, row.branch_id, row.content_hash) {
        rows.push(row)
    } else {
        rows
    }
}

/// The branches after a stub attached at `timestamp` to the branch `id`:
/// that branch, where it exists, is updated by `after_attach`.
pub open spec fn touched(branches: Seq<BranchState>, id: [u8; 32], timestamp: u64) -> Seq<
    BranchState,
> {
    match branch_index(branches, id) {
        Some(i) => branches.update(i, after_attach(branches[i], timestamp)),
        None => branches,
    }
}

/// The stored state of the branch `id`, if there is one.
pub open spec fn stored_branch(branches: Seq<BranchState>, id: [u8; 32]) -> Option<BranchState> {
    match branch_index(branches, id) {
        Some(i) => Some(branches[i]),
        None => None,
    }
}

/// The branches after the stub `hash` is attached to the branch `id` at
/// `timestamp`: an attachment that is already among `rows` changes nothing.
pub open spec fn branches_after_attach(
    branches: Seq<BranchState>,
    rows: Seq<BranchStub>,
    id: [u8; 32],
    hash: [u8; 32],
    timestamp: u64,
) -> Seq<BranchState> {
    if has_attachment(rows, id, hash) {
        branches
    } else {
        touched(branches, id, timestamp)
    }
}

/// The branches after the branch `id`, where it exists, is marked dormant.
pub open spec fn made_dormant(branches: Seq<BranchState>, id: [u8; 32]) -> Seq<BranchState> {
    match branch_index(branches, id) {
        Some(i) => branches.update(
            i,
            BranchState { activation_state: ActivationState::Dormant, ..branches[i] },
        ),
        None => branches,
    }
}

/// Where a branch index points: at a branch with that id.
proof fn lemma_branch_index_bound(branches: Seq<BranchState>, id: [u8; 32])
    ensures
        branch_index(branches, id) matches Some(i) ==> 0 <= i < branches.len()
            && branches[i].branch_id == id,
    decreases branches.len(),
{
    if branches.len() > 0 {
        lemma_branch_index_bound(branches.drop_last(), id);
    }
}

/// The branch index depends on the ids alone.
proof fn lemma_branch_index_ids(a: Seq<BranchState>, b: Seq<BranchState>, id: [u8; 32])
    requires
        a.len() == b.len(),
        forall|j: int| 0 <= j < a.len() ==> #[trigger] a[j].branch_id == b[j].branch_id,
    ensures
        branch_index(a, id) == branch_index(b, id),
    decreases a.len(),
{
    if a.len() > 0 {
        lemma_branch_index_ids(a.drop_last(), b.drop_last(), id);
        assert(a.last().branch_id == b.last().branch_id);
    }
}

/// Attaching a new stub to a stored branch makes it active again, counts
/// one more stub and keeps the later activity time, also right after it
/// was marked dormant; other branches are untouched.
pub proof fn lemma_attach_reactivates(
    branches: Seq<BranchState>,
    rows: Seq<BranchStub>,
    id: [u8; 32],
    hash: [u8; 32],
    timestamp: u64,
)
    requires
        branch_index(branches, id) is Some,
        !has_attachment(rows, id, hash),
    ensures
        ({
            let i = branch_index(branches, id)->0;
            let after = branches_after_attach(made_dormant(branches, id), rows, id, hash, timestamp);
            &&& after.len() == branches.len()
            &&& after[i].activation_state == ActivationState::Active
            &&& after[i].stub_count == count_plus_one(branches[i].stub_count)
            &&& after[i].last_activity == later(branches[i].last_activity, timestamp)
            &&& after[i].branch_id == id
            &&& forall|j: int| 0 <= j < branches.len() && j != i ==> #[trigger] after[j] == branches[j]
        }),
{
    lemma_branch_index_bound(branches, id);
    let d = made_dormant(branches, id);
    lemma_branch_index_ids(d, branches, id);
}

/// An attachment of a stub to a branch is among the branch's attachments.
proof fn lemma_attachment_counted(rows: Seq<BranchStub>, id: [u8; 32], hash: [u8; 32])
    requires
        has_attachment(rows, id, hash),
    ensures
        attachments_of(rows, id).len() > 0,
    decreases rows.len(),
{
    let k = choose|k: int|
        0 <= k < rows.len() && #[trigger] rows[k].branch_id == id && rows[k].content_hash == hash;
    if rows.last().branch_id != id {
        let d = rows.drop_last();
        assert(d[k].branch_id == id && d[k].content_hash == hash);
        lemma_attachment_counted(d, id, hash);
    }
}

/// A branch created from a root stub, with no stub attached to it before,
/// counts exactly its attachments: the root stub.
pub proof fn lemma_create_counts_attachments(
    branches: Seq<BranchState>,
    rows: Seq<BranchStub>,
    root: [u8; 32],
    timestamp: u64,
)
    requires
        branch_index(branches, root) is None,
        attachments_of(rows, root).len() == 0,
    ensures
        ({
            let after = with_branch(branches, new_branch(root, timestamp));
            let rows2 = with_attachment(
                rows,
                BranchStub { branch_id: root, content_hash: root, timestamp },
            );
            branch_index(after, root) matches Some(i) && after[i].stub_count == attachments_of(
                rows2,
                root,
            ).len()
        }),
{
    if has_attachment(rows, root, root) {
        lemma_attachment_counted(rows, root, root);
    }
    let after = branches.push(new_branch(root, timestamp));
    assert(after.drop_last() =~= branches);
    let rows2 = rows.push(BranchStub { branch_id: root, content_hash: root, timestamp });
    assert(rows2.drop_last() =~= rows);
}

/// The stub count of a branch follows its attachments: where it equals the
/// number of stubs attached to the branch, it still does after a stub is
/// attached to it, whether that attachment is new or repeated (below the
/// count's maximum).
pub proof fn lemma_attach_counts_attachments(
    branches: Seq<BranchState>,
    rows: Seq<BranchStub>,
    id: [u8; 32],
    hash: [u8; 32],
    timestamp: u64,
)
    requires
        branch_index(branches, id) matches Some(i) && branches[i].stub_count == attachments_of(
            rows,
            id,
        ).len(),
        attachments_of(rows, id).len() < u64::MAX,
    ensures
        ({
            let after = branches_after_attach(branches, rows, id, hash, timestamp);
            let rows2 = with_attachment(
                rows,
                BranchStub { branch_id: id, content_hash: hash, timestamp },
            );
            branch_index(after, id) matches Some(i) && after[i].stub_count == attachments_of(
                rows2,
                id,
            ).len()
        }),
{
    lemma_branch_index_bound(branches, id);
    if !has_attachment(rows, id, hash) {
        let i = branch_index(branches, id)->0;
        let after = touched(branches, id, timestamp);
        lemma_branch_index_ids(after, branches, id);
        let rows2 = rows.push(BranchStub { branch_id: id, content_hash: hash, timestamp });
        assert(rows2.drop_last() =~= rows);
    }
}

/// The branches and attachments after the stubs `stubs` (hash and
/// timestamp each) are attached to the branch `id`, in order.
pub open spec fn attach_all(
    branches: Seq<BranchState>,
    rows: Seq<BranchStub>,
    id: [u8; 32],
    stubs: Seq<([u8; 32], u64)>,
) -> (Seq<BranchState>, Seq<BranchStub>)
    decreases stubs.len(),
{
    if stubs.len() == 0 {
        (branches, rows)
    } else {
        let (b, r) = attach_all(branches, rows, id, stubs.drop_last());
        let (hash, timestamp) = stubs.last();
        (
            branches_after_attach(b, r, id, hash, timestamp),
            with_attachment(r, BranchStub { branch_id: id, content_hash: hash, timestamp }),
        )
    }
}

/// Once a stored branch counts its attachments, it keeps doing so through
/// any run of attachments to it, each new or repeated, while the count
/// stays below its maximum.
pub proof fn lemma_attach_all_counts_attachments(
    branches: Seq<BranchState>,
    rows: Seq<BranchStub>,
    id: [u8; 32],
    stubs: Seq<([u8; 32], u64)>,
)
    requires
        branch_index(branches, id) matches Some(i) && branches[i].stub_count == attachments_of(
            rows,
            id,
        ).len(),
        attachments_of(rows, id).len() + stubs.len() < u64::MAX,
    ensures
        ({
            let (b, r) = attach_all(branches, rows, id, stubs);
            &&& branch_index(b, id) matches Some(i) && b[i].stub_count == attachments_of(r, id).len()
            &&& attachments_of(r, id).len() <= attachments_of(rows, id).len() + stubs.len()
        }),
    decreases stubs.len(),
{
    if stubs.len() > 0 {
        let (b, r) = attach_all(branches, rows, id, stubs.drop_last());
        lemma_attach_all_counts_attachments(branches, rows, id, stubs.drop_last());
        let (hash, timestamp) = stubs.last();
        lemma_attach_counts_attachments(b, r, id, hash, timestamp);
        let row = BranchStub { branch_id: id, content_hash: hash, timestamp };
        if !has_attachment(r, id, hash) {
            assert(r.push(row).drop_last() =~= r);
        }
    }
}

/// A branch created from its root stub, with no stub attached to it
/// before, counts exactly the stubs attached to it after any run of
/// attachments, new or repeated, while the count stays below its maximum.
pub proof fn lemma_branch_counts_its_stubs(
    branches: Seq<BranchState>,
    rows: Seq<BranchStub>,
    root: [u8; 32],
    timestamp: u64,
    stubs: Seq<([u8; 32], u64)>,
)
    requires
        branch_index(branches, root) is None,
        attachments_of(rows, root).len() == 0,
        stubs.len() + 1 < u64::MAX,
    ensures
        ({
            let b0 = with_branch(branches, new_branch(root, timestamp));
            let r0 = with_attachment(
                rows,
                BranchStub { branch_id: root, content_hash: root, timestamp },
            );
            let (b, r) = attach_all(b0, r0, root, stubs);
            branch_index(b, root) matches Some(i) && b[i].stub_count == attachments_of(r, root).len()
        }),
{
    lemma_create_counts_attachments(branches, rows, root, timestamp);
    let b0 = with_branch(branches, new_branch(root, timestamp));
    let row = BranchStub { branch_id: root, content_hash: root, timestamp };
    let r0 = with_attachment(rows, row);
    if !has_attachment(rows, root, root) {
        assert(rows.push(row).drop_last() =~= rows);
    }
    assert(attachments_of(r0, root).len() <= 1);
    lemma_attach_all_counts_attachments(b0, r0, root, stubs);
}

/// Whether `x` is the time and hash of an attachment to the branch `id`.
spec fn is_branch_entry(rows: Seq<BranchStub>, id: [u8; 32], x: (i128, [u8; 32])) -> bool {
    exists|k: int|
        0 <= k < rows.len() && (#[trigger] rows[k]).branch_id == id && x == (
            signed_time(rows[k].timestamp),
            rows[k].content_hash,
        )
}

/// Each stub of a branch is one of its attachments under that attachment's
/// time, and every attachment of the branch is among them.
proof fn lemma_attachments_members(rows: Seq<BranchStub>, id: [u8; 32])
    ensures
        forall|i: int|
            0 <= i < attachments_of(rows, id).len() ==> is_branch_entry(
                rows,
                id,
                #[trigger] attachments_of(rows, id)[i],
            ),
        forall|k: int|
            0 <= k < rows.len() && (#[trigger] rows[k]).branch_id == id ==> attachments_of(
                rows,
                id,
            ).contains((signed_time(rows[k].timestamp), rows[k].content_hash)),
    decreases rows.len(),
{
    if rows.len() > 0 {
        let d = rows.drop_last();
        lemma_attachments_members(d, id);
        let a = attachments_of(rows, id);
        let ad = attachments_of(d, id);
        assert forall|i: int| 0 <= i < a.len() implies is_branch_entry(rows, id, #[trigger] a[i]) by {
            if i < ad.len() {
                assert(is_branch_entry(d, id, ad[i]));
                let k = choose|k: int|
                    0 <= k < d.len() && (#[trigger] d[k]).branch_id == id && ad[i] == (
                        signed_time(d[k].timestamp),
                        d[k].content_hash,
                    );
                assert(rows[k] == d[k]);
                assert(a[i] == ad[i]);
            } else {
                let k = rows.len() - 1;
                assert(rows[k] == rows.last());
                assert(a[i] == (signed_time(rows[k].timestamp), rows[k].content_hash));
            }
        }
        assert forall|k: int| 0 <= k < rows.len() && (#[trigger] rows[k]).branch_id == id implies a.contains(
            (signed_time(rows[k].timestamp), rows[k].content_hash),
        ) by {
            if k < d.len() {
                assert(d[k] == rows[k]);
                let i = choose|i: int| 0 <= i < ad.len() && ad[i] == (
                    signed_time(d[k].timestamp),
                    d[k].content_hash,
                );
                assert(a[i] == ad[i]);
            } else {
                assert(a[a.len() - 1] == (signed_time(rows[k].timestamp), rows[k].content_hash));
            }
        }
    }
}

/// A branch has as many listed stubs as it has attachment rows.
proof fn lemma_attachments_len(rows: Seq<BranchStub>, id: [u8; 32])
    ensures
        ({
            let ks = Set::new(|k: int| 0 <= k < rows.len() && rows[k].branch_id == id);
            ks.finite() && attachments_of(rows, id).len() == ks.len()
        }),
    decreases rows.len(),
{
    let ks = Set::new(|k: int| 0 <= k < rows.len() && rows[k].branch_id == id);
    if rows.len() == 0 {
        assert(ks =~= Set::<int>::empty());
    } else {
        let d = rows.drop_last();
        lemma_attachments_len(d, id);
        let kd = Set::new(|k: int| 0 <= k < d.len() && d[k].branch_id == id);
        let n = rows.len() - 1;
        assert(rows[n] == rows.last());
        assert forall|k: int| 0 <= k < n implies #[trigger] rows[k] == d[k] by {}
        if rows.last().branch_id == id {
            assert(ks =~= kd.insert(n));
            assert(!kd.contains(n));
        } else {
            assert(ks =~= kd);
        }
    }
}

/// There are as many entries in the active list as active branches.
proof fn lemma_active_len(branches: Seq<BranchState>)
    ensures
        ({
            let ks = Set::new(
                |k: int| 0 <= k < branches.len() && branches[k].activation_state == ActivationState::Active,
            );
            ks.finite() && active_by_recency(branches).len() == ks.len()
        }),
    decreases branches.len(),
{
    let ks = Set::new(
        |k: int| 0 <= k < branches.len() && branches[k].activation_state == ActivationState::Active,
    );
    if branches.len() == 0 {
        assert(ks =~= Set::<int>::empty());
    } else {
        let d = branches.drop_last();
        lemma_active_len(d);
        let kd = Set::new(
            |k: int| 0 <= k < d.len() && d[k].activation_state == ActivationState::Active,
        );
        let n = branches.len() - 1;
        assert(branches[n] == branches.last());
        assert forall|k: int| 0 <= k < n implies #[trigger] branches[k] == d[k] by {}
        if branches.last().activation_state == ActivationState::Active {
            assert(ks =~= kd.insert(n));
            assert(!kd.contains(n));
        } else {
            assert(ks =~= kd);
        }
    }
}

/// The stubs that `get_branch_stubs` lists for a branch (the hashes of this
/// sequence) are ordered by the time they were attached, earliest first:
/// each is an attachment of the branch, paired with its own timestamp
/// (signed, as stored), every attachment of the branch is listed, and the
/// list is as long as the branch has attachments.
pub proof fn lemma_branch_stubs_by_time(rows: Seq<BranchStub>, id: [u8; 32])
    ensures
        ({
            let s = sort_by_key(attachments_of(rows, id));
            &&& forall|i: int|
                #![trigger s[i]]
                0 <= i < s.len() ==> exists|k: int|
                    0 <= k < rows.len() && (#[trigger] rows[k]).branch_id == id
                        && rows[k].content_hash == s[i].1 && s[i].0 == signed_time(
                        rows[k].timestamp,
                    )
            &&& forall|k: int|
                0 <= k < rows.len() && (#[trigger] rows[k]).branch_id == id ==> s.contains(
                    (signed_time(rows[k].timestamp), rows[k].content_hash),
                )
            &&& forall|i: int, j: int| 0 <= i < j < s.len() ==> #[trigger] s[i].0 <= #[trigger] s[j].0
            &&& s.len() == Set::new(|k: int| 0 <= k < rows.len() && rows[k].branch_id == id).len()
        }),
{
    lemma_attachments_len(rows, id);
    broadcast use vstd::seq_lib::group_to_multiset_ensures;

    let a = attachments_of(rows, id);
    let s = sort_by_key(a);
    lemma_sort_by_key(a);
    lemma_attachments_members(rows, id);
    assert forall|i: int| #![trigger s[i]] 0 <= i < s.len() implies exists|k: int|
        0 <= k < rows.len() && (#[trigger] rows[k]).branch_id == id && rows[k].content_hash
            == s[i].1 && s[i].0 == signed_time(rows[k].timestamp) by {
        assert(s.contains(s[i]));
        assert(s.to_multiset().count(s[i]) > 0);
        assert(a.to_multiset().count(s[i]) > 0);
        assert(a.contains(s[i]));
        let m = choose|m: int| 0 <= m < a.len() && a[m] == s[i];
        assert(is_branch_entry(rows, id, a[m]));
    }
    assert forall|k: int| 0 <= k < rows.len() && (#[trigger] rows[k]).branch_id == id implies s.contains(
        (signed_time(rows[k].timestamp), rows[k].content_hash),
    ) by {
        let x = (signed_time(rows[k].timestamp), rows[k].content_hash);
        assert(a.contains(x));
        assert(a.to_multiset().count(x) > 0);
        assert(s.to_multiset().count(x) > 0);
    }
}

/// Whether `x` is a stored active branch under the negated time of its
/// last activity.
spec fn is_active_entry(branches: Seq<BranchState>, x: (i128, BranchState)) -> bool {
    &&& x.1.activation_state == ActivationState::Active
    &&& x.0 == -signed_time(x.1.last_activity)
    &&& exists|k: int| 0 <= k < branches.len() && #[trigger] branches[k] == x.1
}

/// Each entry of the active list is an active branch under the negated
/// time of its last activity, and every active branch is among them.
proof fn lemma_active_members(branches: Seq<BranchState>)
    ensures
        forall|i: int|
            0 <= i < active_by_recency(branches).len() ==> is_active_entry(
                branches,
                #[trigger] active_by_recency(branches)[i],
            ),
        forall|k: int|
            0 <= k < branches.len() && (#[trigger] branches[k]).activation_state
                == ActivationState::Active ==> active_by_recency(branches).contains(
                ((-signed_time(branches[k].last_activity)) as i128, branches[k]),
            ),
    decreases branches.len(),
{
    if branches.len() > 0 {
        let d = branches.drop_last();
        lemma_active_members(d);
        let a = active_by_recency(branches);
        let ad = active_by_recency(d);
        assert forall|i: int| 0 <= i < a.len() implies is_active_entry(branches, #[trigger] a[i]) by {
            if i < ad.len() {
                assert(is_active_entry(d, ad[i]));
                let k = choose|k: int| 0 <= k < d.len() && #[trigger] d[k] == ad[i].1;
                assert(branches[k] == d[k]);
                assert(a[i] == ad[i]);
            } else {
                let k = branches.len() - 1;
                assert(branches[k] == branches.last());
                assert(a[i].1 == branches[k]);
            }
        }
        assert forall|k: int|
            0 <= k < branches.len() && (#[trigger] branches[k]).activation_state
                == ActivationState::Active implies a.contains(
            ((-signed_time(branches[k].last_activity)) as i128, branches[k]),
        ) by {
            let x = ((-signed_time(branches[k].last_activity)) as i128, branches[k]);
            if k < d.len() {
                assert(d[k] == branches[k]);
                let i = choose|i: int| 0 <= i < ad.len() && ad[i] == x;
                assert(a[i] == ad[i]);
            } else {
                assert(a[a.len() - 1] == x);
            }
        }
    }
}

/// The branches that `list_active_branches` lists (the branches of this
/// sequence) are exactly the active ones, one entry per stored active
/// branch, latest activity first
/// (times compared signed, as stored).
pub proof fn lemma_active_branches_by_recency(branches: Seq<BranchState>)
    ensures
        ({
            let s = sort_by_key(active_by_recency(branches));
            &&& forall|i: int|
                #![trigger s[i]]
                0 <= i < s.len() ==> s[i].1.activation_state == ActivationState::Active
                    && exists|k: int| 0 <= k < branches.len() && #[trigger] branches[k] == s[i].1
            &&& forall|k: int|
                0 <= k < branches.len() && (#[trigger] branches[k]).activation_state
                    == ActivationState::Active ==> exists|i: int| 0 <= i < s.len() && s[i].1 == branches[k]
            &&& forall|i: int, j: int|
                0 <= i < j < s.len() ==> signed_time((#[trigger] s[j]).1.last_activity)
                    <= signed_time((#[trigger] s[i]).1.last_activity)
            &&& s.len() == Set::new(
                |k: int| 0 <= k < branches.len() && branches[k].activation_state == ActivationState::Active,
            ).len()
        }),
{
    lemma_active_len(branches);
    broadcast use vstd::seq_lib::group_to_multiset_ensures;

    let a = active_by_recency(branches);
    let s = sort_by_key(a);
    lemma_sort_by_key(a);
    lemma_active_members(branches);
    assert forall|i: int| 0 <= i < s.len() implies is_active_entry(branches, #[trigger] s[i]) by {
        assert(s.contains(s[i]));
        assert(s.to_multiset().count(s[i]) > 0);
        assert(a.to_multiset().count(s[i]) > 0);
        assert(a.contains(s[i]));
        let m = choose|m: int| 0 <= m < a.len() && a[m] == s[i];
        assert(is_active_entry(branches, a[m]));
    }
    assert forall|k: int|
        0 <= k < branches.len() && (#[trigger] branches[k]).activation_state
            == ActivationState::Active implies exists|i: int| 0 <= i < s.len() && s[i].1 == branches[k] by {
        let x = ((-signed_time(branches[k].last_activity)) as i128, branches[k]);
        assert(a.contains(x));
        assert(a.to_multiset().count(x) > 0);
        assert(s.to_multiset().count(x) > 0);
        assert(s.contains(x));
        let i = choose|i: int| 0 <= i < s.len() && s[i] == x;
        assert(s[i].1 == branches[k]);
    }
    assert forall|i: int, j: int| 0 <= i < j < s.len() implies signed_time((#[trigger] s[j]).1.last_activity)
        <= signed_time((#[trigger] s[i]).1.last_activity) by {
        assert(s[i].0 <= s[j].0);
        assert(is_active_entry(branches, s[i]));
        assert(is_active_entry(branches, s[j]));
    }
}

/// Creating a branch or attaching a stub a second time changes nothing:
/// neither the branches nor the attachments, whatever the second
/// attachment's timestamp.
pub proof fn lemma_create_attach_idempotent(
    branches: Seq<BranchState>,
    rows: Seq<BranchStub>,
    b: BranchState,
    row: BranchStub,
    later_timestamp: u64,
)
    ensures
        with_branch(with_branch(branches, b), b) == with_branch(branches, b),
        with_attachment(with_attachment(rows, row), row) == with_attachment(rows, row),
        with_attachment(
            with_attachment(rows, row),
            BranchStub { timestamp: later_timestamp, ..row },
        ) == with_attachment(rows, row),
        branches_after_attach(
            branches_after_attach(branches, rows, row.branch_id, row.content_hash, row.timestamp),
            with_attachment(rows, row),
            row.branch_id,
            row.content_hash,
            later_timestamp,
        ) == branches_after_attach(branches, rows, row.branch_id, row.content_hash, row.timestamp),
{
    if branch_index(branches, b.branch_id) is None {
        assert(branches.push(b).drop_last() =~= branches);
    }
    if !has_attachment(rows, row.branch_id, row.content_hash) {
        let r2 = rows.push(row);
        assert(r2[r2.len() - 1] == row);
    }
}

/// Storage for branch state: the branches and their attached stubs, in
/// storage order.
pub struct BranchStore {
    branches: Vec<BranchState>,
    stubs: Vec<BranchStub>,
}

impl BranchStore {
    /// The branches, in storage order.
    pub closed spec fn branches(&self) -> Seq<BranchState> {
        self.branches@
    }

    /// The attached stubs, in storage order.
    pub closed spec fn attachments(&self) -> Seq<BranchStub> {
        self.stubs@
    }

    /// A new, empty branch store.
    pub fn new() -> (r: Self)
        ensures
            r.branches() == Seq::<BranchState>::empty(),
            r.attachments() == Seq::<BranchStub>::empty(),
    {
        BranchStore { branches: Vec::new(), stubs: Vec::new() }
    }

    /// Open an in-memory branch store, empty.
    pub fn open_in_memory() -> (r: Result<Self, BranchStoreError>)
        ensures
            r matches Ok(s) && s.branches() == Seq::<BranchState>::empty() && s.attachments()
                == Seq::<BranchStub>::empty(),
    {
        Ok(Self::new())
    }

    /// A branch store holding the given branches and attachments, in that
    /// order, as a persistent store reads them back.
    pub fn restore(branches: Vec<BranchState>, attachments: Vec<BranchStub>) -> (r: Self)
        ensures
            r.branches() == branches@,
            r.attachments() == attachments@,
    {
        BranchStore { branches, stubs: attachments }
    }

    fn find_branch(&self, id: &[u8; 32]) -> (r: Option<usize>)
        ensures
            r is None <==> branch_index(self.branches@, *id) is None,
            r matches Some(i) ==> branch_index(self.branches@, *id) == Some(i as int) && i
                < self.branches@.len(),
    {
        let n = self.branches.len();
        let mut i: usize = 0;
        while i < n
            invariant
                n == self.branches@.len(),
                0 <= i <= n,
                branch_index(self.branches@.take(i as int), *id) is None,
            decreases n - i,
        {
            assert(self.branches@.take(i + 1).drop_last() =~= self.branches@.take(i as int));
            if bytes32_eq(&self.branches[i].branch_id, id) {
                proof {
                    lemma_branch_index_prefix(self.branches@, *id, i as int);
                }
                return Some(i);
            }
            i += 1;
        }
        assert(self.branches@.take(n as int) =~= self.branches@);
        None
    }

    fn find_attachment(&self, branch_id: &[u8; 32], content_hash: &[u8; 32]) -> (r: bool)
        ensures
            r == has_attachment(self.stubs@, *branch_id, *content_hash),
    {
        let n = self.stubs.len();
        let mut i: usize = 0;
        while i < n
            invariant
                n == self.stubs@.len(),
                0 <= i <= n,
                forall|k: int|
                    0 <= k < i ==> !(#[trigger] self.stubs@[k].branch_id == *branch_id
                        && self.stubs@[k].content_hash == *content_hash),
            decreases n - i,
        {
            if bytes32_eq(&self.stubs[i].branch_id, branch_id) && bytes32_eq(
                &self.stubs[i].content_hash,
                content_hash,
            ) {
                return true;
            }
            i += 1;
        }
        false
    }

    /// Create a new branch from a root stub. A branch or root attachment
    /// that already exists is kept as it is; the returned state is that of
    /// a fresh branch either way.
    pub fn create_branch(&mut self, root_stub_hash: &[u8; 32], timestamp: u64) -> (r: Result<
        BranchState,
        BranchStoreError,
    >)
        ensures
            r matches Ok(b) && b == new_branch(*root_stub_hash, timestamp),
            final(self).branches() == with_branch(
                old(self).branches(),
                new_branch(*root_stub_hash, timestamp),
            ),
            final(self).attachments() == with_attachment(
                old(self).attachments(),
                BranchStub { branch_id: *root_stub_hash, content_hash: *root_stub_hash, timestamp },
            ),
    {
        let state = BranchState {
            branch_id: *root_stub_hash,
            stub_count: 1,
            last_activity: timestamp,
            activation_state: ActivationState::Active,
            root_stub_hash: *root_stub_hash,
        };
        if self.find_branch(root_stub_hash).is_none() {
            self.branches.push(state);
        }
        if !self.find_attachment(root_stub_hash, root_stub_hash) {
            self.stubs.push(
                BranchStub { branch_id: *root_stub_hash, content_hash: *root_stub_hash, timestamp },
            );
        }
        Ok(state)
    }

    /// Attach a stub to a branch. An attachment that is already there
    /// changes nothing. A new one is recorded, and the branch, where it
    /// exists, counts one more stub, takes the later activity time and
    /// becomes active.
    pub fn attach_stub(&mut self, branch_id: &[u8; 32], content_hash: &[u8; 32], timestamp: u64) -> (r:
        Result<(), BranchStoreError>)
        ensures
            r is Ok,
            final(self).attachments() == with_attachment(
                old(self).attachments(),
                BranchStub { branch_id: *branch_id, content_hash: *content_hash, timestamp },
            ),
            final(self).branches() == branches_after_attach(
                old(self).branches(),
                old(self).attachments(),
                *branch_id,
                *content_hash,
                timestamp,
            ),
    {
        if !self.find_attachment(branch_id, content_hash) {
            self.stubs.push(
                BranchStub { branch_id: *branch_id, content_hash: *content_hash, timestamp },
            );
            match self.find_branch(branch_id) {
                Some(i) => {
                    let b = self.branches[i];
                    let count = if b.stub_count < u64::MAX {
                        b.stub_count + 1
                    } else {
                        b.stub_count
                    };
                    let last = if (b.last_activity as i64) >= (timestamp as i64) {
                        b.last_activity
                    } else {
                        timestamp
                    };
                    self.branches.set(
                        i,
                        BranchState {
                            branch_id: b.branch_id,
                            stub_count: count,
                            last_activity: last,
                            activation_state: ActivationState::Active,
                            root_stub_hash: b.root_stub_hash,
                        },
                    );
                },
                None => {},
            }
        }
        Ok(())
    }

    /// Get branch state by ID.
    pub fn get_branch(&self, branch_id: &[u8; 32]) -> (r: Result<Option<BranchState>, BranchStoreError>)
        ensures
            r matches Ok(o) && o == stored_branch(self.branches(), *branch_id),
    {
        match self.find_branch(branch_id) {
            Some(i) => Ok(Some(self.branches[i])),
            None => Ok(None),
        }
    }

    /// Get all content hashes in a branch, ordered by timestamp (stable).
    pub fn get_branch_stubs(&self, branch_id: &[u8; 32]) -> (r: Result<Vec<[u8; 32]>, BranchStoreError>)
        ensures
            r matches Ok(v) && v@ == sort_by_key(attachments_of(self.attachments(), *branch_id)).map_values(
                |p: (i128, [u8; 32])| p.1,
            ),
    {
        let mut keyed: Vec<(i128, [u8; 32])> = Vec::new();
        let n = self.stubs.len();
        let mut i: usize = 0;
        while i < n
            invariant
                n == self.stubs@.len(),
                0 <= i <= n,
                keyed@ == attachments_of(self.stubs@.take(i as int), *branch_id),
            decreases n - i,
        {
            let row = self.stubs[i];
            assert(self.stubs@.take(i + 1).drop_last() =~= self.stubs@.take(i as int));
            assert(self.stubs@.take(i + 1).last() == row);
            if bytes32_eq(&row.branch_id, branch_id) {
                keyed.push(((row.timestamp as i64) as i128, row.content_hash));
            }
            i += 1;
        }
        assert(self.stubs@.take(n as int) =~= self.stubs@);
        let sorted = stable_sort_by_key(&keyed);
        let mut out: Vec<[u8; 32]> = Vec::new();
        let m = sorted.len();
        let mut j: usize = 0;
        while j < m
            invariant
                m == sorted@.len(),
                0 <= j <= m,
                out@ == sorted@.take(j as int).map_values(|p: (i128, [u8; 32])| p.1),
            decreases m - j,
        {
            out.push(sorted[j].1);
            assert(sorted@.take(j + 1).map_values(|p: (i128, [u8; 32])| p.1) =~= sorted@.take(
                j as int,
            ).map_values(|p: (i128, [u8; 32])| p.1).push(sorted@[j as int].1));
            j += 1;
        }
        assert(sorted@.take(m as int) =~= sorted@);
        Ok(out)
    }

    /// Find which branch a stub belongs to: that of its first recorded
    /// attachment.
    pub fn find_branch_for_stub(&self, content_hash: &[u8; 32]) -> (r: Result<Option<[u8; 32]>, BranchStoreError>)
        ensures
            r matches Ok(o) && o == first_branch_of(self.attachments(), *content_hash),
    {
        let n = self.stubs.len();
        let mut i: usize = 0;
        while i < n
            invariant
                n == self.stubs@.len(),
                0 <= i <= n,
                first_branch_of(self.stubs@.take(i as int), *content_hash) is None,
            decreases n - i,
        {
            assert(self.stubs@.take(i + 1).drop_last() =~= self.stubs@.take(i as int));
            if bytes32_eq(&self.stubs[i].content_hash, content_hash) {
                proof {
                    lemma_first_branch_prefix(self.stubs@, *content_hash, i as int);
                }
                return Ok(Some(self.stubs[i].branch_id));
            }
            i += 1;
        }
        assert(self.stubs@.take(n as int) =~= self.stubs@);
        Ok(None)
    }

    /// List all active branches, ordered by last activity, latest first
    /// (stable).
    pub fn list_active_branches(&self) -> (r: Result<Vec<BranchState>, BranchStoreError>)
        ensures
            r matches Ok(v) && v@ == sort_by_key(active_by_recency(self.branches())).map_values(
                |p: (i128, BranchState)| p.1,
            ),
    {
        let mut keyed: Vec<(i128, BranchState)> = Vec::new();
        let n = self.branches.len();
        let mut i: usize = 0;
        while i < n
            invariant
                n == self.branches@.len(),
                0 <= i <= n,
                keyed@ == active_by_recency(self.branches@.take(i as int)),
            decreases n - i,
        {
            let b = self.branches[i];
            assert(self.branches@.take(i + 1).drop_last() =~= self.branches@.take(i as int));
            assert(self.branches@.take(i + 1).last() == b);
            if b.activation_state == ActivationState::Active {
                keyed.push((-((b.last_activity as i64) as i128), b));
            }
            i += 1;
        }
        assert(self.branches@.take(n as int) =~= self.branches@);
        let sorted = stable_sort_by_key(&keyed);
        let mut out: Vec<BranchState> = Vec::new();
        let m = sorted.len();
        let mut j: usize = 0;
        while j < m
            invariant
                m == sorted@.len(),
                0 <= j <= m,
                out@ == sorted@.take(j as int).map_values(|p: (i128, BranchState)| p.1),
            decreases m - j,
        {
            out.push(sorted[j].1);
            assert(sorted@.take(j + 1).map_values(|p: (i128, BranchState)| p.1) =~= sorted@.take(
                j as int,
            ).map_values(|p: (i128, BranchState)| p.1).push(sorted@[j as int].1));
            j += 1;
        }
        assert(sorted@.take(m as int) =~= sorted@);
        Ok(out)
    }

    /// Mark a branch as dormant.
    pub fn mark_dormant(&mut self, branch_id: &[u8; 32]) -> (r: Result<(), BranchStoreError>)
        ensures
            r is Ok,
            final(self).attachments() == old(self).attachments(),
            final(self).branches() == made_dormant(old(self).branches(), *branch_id),
    {
        match self.find_branch(branch_id) {
            Some(i) => {
                let b = self.branches[i];
                self.branches.set(
                    i,
                    BranchState {
                        branch_id: b.branch_id,
                        stub_count: b.stub_count,
                        last_activity: b.last_activity,
                        activation_state: ActivationState::Dormant,
                        root_stub_hash: b.root_stub_hash,
                    },
                );
            },
            None => {},
        }
        Ok(())
    }
}

/// Once a prefix holds no branch with the id, the first one at `i` is the
/// answer.
proof fn lemma_branch_index_prefix(branches: Seq<BranchState>, id: [u8; 32], i: int)
    requires
        0 <= i < branches.len(),
        branch_index(branches.take(i), id) is None,
        branches[i].branch_id == id,
    ensures
        branch_index(branches, id) == Some(i),
    decreases branches.len(),
{
    if i == branches.len() - 1 {
        assert(branches.drop_last() =~= branches.take(i));
    } else {
        assert(branches.drop_last().take(i) =~= branches.take(i));
        lemma_branch_index_prefix(branches.drop_last(), id, i);
    }
}

/// Once a prefix holds no attachment of the stub, the first one at `i` is
/// the answer.
proof fn lemma_first_branch_prefix(rows: Seq<BranchStub>, content_hash: [u8; 32], i: int)
    requires
        0 <= i < rows.len(),
        first_branch_of(rows.take(i), content_hash) is None,
        rows[i].content_hash == content_hash,
    ensures
        first_branch_of(rows, content_hash) == Some(rows[i].branch_id),
    decreases rows.len(),
{
    if i == rows.len() - 1 {
        assert(rows.drop_last() =~= rows.take(i));
    } else {
        assert(rows.drop_last().take(i) =~= rows.take(i));
        lemma_first_branch_prefix(rows.drop_last(), content_hash, i);
    }
}

} // verus!
