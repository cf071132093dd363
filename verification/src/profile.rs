//! Profile metrics: what the graph says about an identity and how much its
//! stubs have been built upon, in place of a single follower count.
use vstd::prelude::*;
use vstd::string::StringExecFns;

use crate::branch_store::{BranchStore, BranchStoreError};
use crate::bytes::bytes32_eq;
use crate::format::Stub;
use crate::graph_store::{selected, EdgeType, GraphStore, GraphStoreError};
use crate::stub_store::StubStoreError;

verus! {

/// Errors of computing a profile.
#[derive(Debug)]
pub enum ProfileError {
    Graph(GraphStoreError),
    Stub(StubStoreError),
    Branch(BranchStoreError),
}

impl ProfileError {
    /// The text of the error.
    pub open spec fn spec_message(&self) -> Seq<char> {
        match self {
            ProfileError::Graph(e) => "graph store error: "@ + e.spec_message(),
            ProfileError::Stub(e) => "stub store error: "@ + e.spec_message(),
            ProfileError::Branch(e) => "branch store error: "@ + e.spec_message(),
        }
    }

    /// The text of the error.
    pub fn message(&self) -> (r: String)
        ensures
            r@ == self.spec_message(),
    {
        match self {
            ProfileError::Graph(e) => {
                let mut r = String::from_str("graph store error: ");
                r.append(e.message().as_str());
                r
            },
            ProfileError::Stub(e) => {
                let mut r = String::from_str("stub store error: ");
                r.append(e.message().as_str());
                r
            },
            ProfileError::Branch(e) => {
                let mut r = String::from_str("branch store error: ");
                r.append(e.message().as_str());
                r
            },
        }
    }
}

/// Profile metrics — replaces the single follower count.
#[derive(Debug, Clone, Copy, PartialEq, Eq, Structural)]
pub struct ProfileMetrics {
    /// Count of inbound trust edges.
    pub trust_density: usize,
    /// Count of inbound watch edges.
    pub watch_count: usize,
    /// Count of inbound silence edges.
    pub silence_count: usize,
    /// Total stubs by others whose parent is one of this author's stubs.
    pub built_upon_count: usize,
    /// Total stubs authored.
    pub stub_count: usize,
}

/// The content hashes of the readable entries whose stub `author` wrote, in
/// order.
pub open spec fn authored_hashes(
    entries: Seq<Result<([u8; 32], Stub), StubStoreError>>,
    author: [u8; 32],
) -> Seq<[u8; 32]>
    decreases entries.len(),
{
    if entries.len() == 0 {
        Seq::empty()
    } else {
        let rest = authored_hashes(entries.drop_last(), author);
        match entries.last() {
            Ok((hash, stub)) => if stub.author_pubkey == author {
                rest.push(hash)
            } else {
                rest
            },
            Err(_) => rest,
        }
    }
}

/// How many readable entries hold a stub by someone other than `author`
/// whose parent hash is among `authored`.
pub open spec fn built_upon(
    entries: Seq<Result<([u8; 32], Stub), StubStoreError>>,
    author: [u8; 32],
    authored: Seq<[u8; 32]>,
) -> nat
    decreases entries.len(),
{
    if entries.len() == 0 {
        0
    } else {
        let rest = built_upon(entries.drop_last(), author, authored);
        match entries.last() {
            Ok((_, stub)) => if stub.author_pubkey != author && authored.contains(
                stub.branch_vector.parent_hash,
            ) {
                rest + 1
            } else {
                rest
            },
            Err(_) => rest,
        }
    }
}

/// The metrics of `pubkey`, given the edges of the graph and the stored
/// stub entries.
pub open spec fn spec_profile(
    pubkey: [u8; 32],
    edges: Seq<crate::graph_store::Edge>,
    entries: Seq<Result<([u8; 32], Stub), StubStoreError>>,
) -> ProfileMetrics {
    let authored = authored_hashes(entries, pubkey);
    ProfileMetrics {
        trust_density: selected(edges, None, Some(pubkey), Some(EdgeType::Trust)).len() as usize,
        watch_count: selected(edges, None, Some(pubkey), Some(EdgeType::Watch)).len() as usize,
        silence_count: selected(edges, None, Some(pubkey), Some(EdgeType::Silence)).len() as usize,
        built_upon_count: built_upon(entries, pubkey, authored) as usize,
        stub_count: authored.len() as usize,
    }
}

proof fn lemma_authored_len(entries: Seq<Result<([u8; 32], Stub), StubStoreError>>, author: [u8; 32])
    ensures
        authored_hashes(entries, author).len() <= entries.len(),
    decreases entries.len(),
{
    if entries.len() > 0 {
        lemma_authored_len(entries.drop_last(), author);
    }
}

proof fn lemma_built_upon_len(
    entries: Seq<Result<([u8; 32], Stub), StubStoreError>>,
    author: [u8; 32],
    authored: Seq<[u8; 32]>,
)
    ensures
        built_upon(entries, author, authored) <= entries.len(),
    decreases entries.len(),
{
    if entries.len() > 0 {
        lemma_built_upon_len(entries.drop_last(), author, authored);
    }
}

/// Whether a readable entry stores, under the hash `h`, a stub by `author`.
pub open spec fn authored_entry(
    entries: Seq<Result<([u8; 32], Stub), StubStoreError>>,
    author: [u8; 32],
    h: [u8; 32],
) -> bool {
    exists|k: int|
        0 <= k < entries.len() && (#[trigger] entries[k] matches Ok((hk, sk)) && hk == h
            && sk.author_pubkey == author)
}

/// Whether entry `j` holds a stub by someone other than `author` that
/// replies to a stored stub by `author`.
pub open spec fn builds_on_author(
    entries: Seq<Result<([u8; 32], Stub), StubStoreError>>,
    author: [u8; 32],
    j: int,
) -> bool {
    entries[j] matches Ok((_, s)) && s.author_pubkey != author && authored_entry(
        entries,
        author,
        s.branch_vector.parent_hash,
    )
}

/// The hashes of `author`'s stubs are exactly the hashes under which the
/// entries store a stub by `author`.
proof fn lemma_authored_members(
    entries: Seq<Result<([u8; 32], Stub), StubStoreError>>,
    author: [u8; 32],
)
    ensures
        forall|h: [u8; 32]|
            #[trigger] authored_hashes(entries, author).contains(h) <==> authored_entry(
                entries,
                author,
                h,
            ),
    decreases entries.len(),
{
    if entries.len() > 0 {
        let d = entries.drop_last();
        lemma_authored_members(d, author);
        let a = authored_hashes(entries, author);
        let ad = authored_hashes(d, author);
        assert forall|h: [u8; 32]| #[trigger] a.contains(h) <==> authored_entry(entries, author, h) by {
            if ad.contains(h) {
                let k = choose|k: int|
                    0 <= k < d.len() && (#[trigger] d[k] matches Ok((hk, sk)) && hk == h
                        && sk.author_pubkey == author);
                assert(entries[k] == d[k]);
                let i = choose|i: int| 0 <= i < ad.len() && ad[i] == h;
                assert(a[i] == ad[i]);
            }
            if authored_entry(entries, author, h) {
                let k = choose|k: int|
                    0 <= k < entries.len() && (#[trigger] entries[k] matches Ok((hk, sk)) && hk == h
                        && sk.author_pubkey == author);
                if k < d.len() {
                    assert(d[k] == entries[k]);
                    assert(authored_entry(d, author, h));
                } else {
                    assert(a[a.len() - 1] == h);
                }
            }
            if a.contains(h) && !ad.contains(h) {
                let i = choose|i: int| 0 <= i < a.len() && a[i] == h;
                if i < ad.len() {
                    assert(a[i] == ad[i]);
                } else {
                    assert(entries[entries.len() - 1] == entries.last());
                }
            }
        }
    }
}

/// The count of entries built on the hashes `authored` is the number of
/// such entries.
proof fn lemma_built_upon_counts(
    entries: Seq<Result<([u8; 32], Stub), StubStoreError>>,
    author: [u8; 32],
    authored: Seq<[u8; 32]>,
)
    ensures
        ({
            let js = Set::new(
                |j: int|
                    0 <= j < entries.len() && (entries[j] matches Ok((_, s)) && s.author_pubkey
                        != author && authored.contains(s.branch_vector.parent_hash)),
            );
            js.finite() && built_upon(entries, author, authored) == js.len()
        }),
    decreases entries.len(),
{
    let js = Set::new(
        |j: int|
            0 <= j < entries.len() && (entries[j] matches Ok((_, s)) && s.author_pubkey != author
                && authored.contains(s.branch_vector.parent_hash)),
    );
    if entries.len() == 0 {
        assert(js =~= Set::<int>::empty());
    } else {
        let d = entries.drop_last();
        lemma_built_upon_counts(d, author, authored);
        let jd = Set::new(
            |j: int|
                0 <= j < d.len() && (d[j] matches Ok((_, s)) && s.author_pubkey != author
                    && authored.contains(s.branch_vector.parent_hash)),
        );
        let n = entries.len() - 1;
        let hit = entries.last() matches Ok((_, s)) && s.author_pubkey != author
            && authored.contains(s.branch_vector.parent_hash);
        assert(entries[n] == entries.last());
        assert forall|j: int| 0 <= j < n implies #[trigger] entries[j] == d[j] by {}
        if hit {
            assert(js =~= jd.insert(n));
            assert(!jd.contains(n));
        } else {
            assert(js =~= jd);
        }
    }
}

/// The built-upon count of a profile is the number of readable stored
/// stubs by other authors that reply to any stored stub of the identity:
/// whose parent hash is the hash under which some entry stores a stub by
/// the identity.
pub proof fn lemma_built_upon_is_replies_to_author(
    pubkey: [u8; 32],
    edges: Seq<crate::graph_store::Edge>,
    entries: Seq<Result<([u8; 32], Stub), StubStoreError>>,
)
    requires
        entries.len() <= usize::MAX,
    ensures
        ({
            let js = Set::new(|j: int| 0 <= j < entries.len() && builds_on_author(entries, pubkey, j));
            js.finite() && spec_profile(pubkey, edges, entries).built_upon_count == js.len()
        }),
{
    let authored = authored_hashes(entries, pubkey);
    lemma_authored_members(entries, pubkey);
    lemma_built_upon_counts(entries, pubkey, authored);
    lemma_built_upon_len(entries, pubkey, authored);
    let js = Set::new(|j: int| 0 <= j < entries.len() && builds_on_author(entries, pubkey, j));
    let ks = Set::new(
        |j: int|
            0 <= j < entries.len() && (entries[j] matches Ok((_, s)) && s.author_pubkey != pubkey
                && authored.contains(s.branch_vector.parent_hash)),
    );
    assert forall|j: int| js.contains(j) <==> ks.contains(j) by {
        if 0 <= j < entries.len() {
            if let Ok((_, s)) = entries[j] {
                assert(authored.contains(s.branch_vector.parent_hash) <==> authored_entry(
                    entries,
                    pubkey,
                    s.branch_vector.parent_hash,
                ));
            }
        }
    }
    assert(js =~= ks);
}

/// Whether `hashes` holds `h`.
fn contains_hash(hashes: &Vec<[u8; 32]>, h: &[u8; 32]) -> (r: bool)
    ensures
        r == hashes@.contains(*h),
{
    let mut i: usize = 0;
    while i < hashes.len()
        invariant
            0 <= i <= hashes@.len(),
            forall|k: int| 0 <= k < i ==> hashes@[k] != *h,
        decreases hashes@.len() - i,
    {
        if bytes32_eq(&hashes[i], h) {
            assert(hashes@[i as int] == *h);
            return true;
        }
        i += 1;
    }
    false
}

/// Compute profile metrics for a given public key, from the graph and the
/// stored stubs `entries`, as the stub store lists them.
pub fn compute_profile(
    pubkey: &[u8; 32],
    graph_store: &GraphStore,
    entries: &Vec<Result<([u8; 32], Stub), StubStoreError>>,
    branch_store: &BranchStore,
) -> (r: Result<ProfileMetrics, ProfileError>)
    ensures
        r matches Ok(m) && m == spec_profile(*pubkey, graph_store@, entries@),
{
    let trust_density = match graph_store.trust_density(pubkey) {
        Ok(n) => n,
        Err(e) => return Err(ProfileError::Graph(e)),
    };
    let watch_count = match graph_store.watch_count(pubkey) {
        Ok(n) => n,
        Err(e) => return Err(ProfileError::Graph(e)),
    };
    let silence_count = match graph_store.silence_count(pubkey) {
        Ok(n) => n,
        Err(e) => return Err(ProfileError::Graph(e)),
    };
    let ghost all = entries@;
    let n = entries.len();

    // Count authored stubs.
    let mut authored: Vec<[u8; 32]> = Vec::new();
    let mut i: usize = 0;
    while i < n
        invariant
            n == all.len(),
            entries@ == all,
            0 <= i <= n,
            authored@ == authored_hashes(all.take(i as int), *pubkey),
        decreases n - i,
    {
        proof {
            assert(all.take(i + 1).drop_last() =~= all.take(i as int));
        }
        match &entries[i] {
            Ok((hash, stub)) => {
                if bytes32_eq(&stub.author_pubkey, pubkey) {
                    authored.push(*hash);
                }
            },
            Err(_) => {},
        }
        i += 1;
    }
    assert(all.take(n as int) =~= all);
    proof {
        lemma_authored_len(all, *pubkey);
    }
    let stub_count = authored.len();

    // Count stubs by others that reference an authored stub as parent.
    let ghost hashes = authored@;
    let mut built_upon_count: usize = 0;
    let mut j: usize = 0;
    while j < n
        invariant
            n == all.len(),
            entries@ == all,
            authored@ == hashes,
            0 <= j <= n,
            built_upon_count == built_upon(all.take(j as int), *pubkey, hashes),
        decreases n - j,
    {
        proof {
            assert(all.take(j + 1).drop_last() =~= all.take(j as int));
            lemma_built_upon_len(all.take(j as int), *pubkey, hashes);
        }
        match &entries[j] {
            Ok((_hash, stub)) => {
                if !bytes32_eq(&stub.author_pubkey, pubkey) && contains_hash(
                    &authored,
                    &stub.branch_vector.parent_hash,
                ) {
                    built_upon_count += 1;
                }
            },
            Err(_) => {},
        }
        j += 1;
    }
    assert(all.take(n as int) =~= all);
    Ok(
        ProfileMetrics {
            trust_density,
            watch_count,
            silence_count,
            built_upon_count,
            stub_count,
        },
    )
}

} // verus!
