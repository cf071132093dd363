//! The feed: what an identity sees, built from its outbound edges and the
//! stored stubs.
//!
//! 1. Own stubs are shown as such.
//! 2. Stubs of trusted authors come in full, with the trust weight.
//! 3. Watched authors contribute headers only.
//! 4. Silenced authors are excluded, and so is everyone else.
//!
//! Own and trusted items come first, each group newest first; equal
//! timestamps keep the order in which the stubs were read.
use vstd::prelude::*;
use vstd::string::StringExecFns;

use crate::bytes::bytes32_eq;
use crate::format::Stub;
use crate::graph_store::{selected, Edge, EdgeType, GraphStore, GraphStoreError};
use crate::sorting::{lemma_sort_by_key, sort_by_key, sorted_by_key, stable_sort_by_key_owned};
use crate::stub_store::StubStoreError;

verus! {

/// Errors of building a feed.
#[derive(Debug)]
pub enum FeedError {
    Graph(GraphStoreError),
    Stub(StubStoreError),
}

impl FeedError {
    /// The text of the error.
    pub open spec fn spec_message(&self) -> Seq<char> {
        match self {
            FeedError::Graph(e) => "graph store error: "@ + e.spec_message(),
            FeedError::Stub(e) => "stub store error: "@ + e.spec_message(),
        }
    }

    /// The text of the error.
    pub fn message(&self) -> (r: String)
        ensures
            r@ == self.spec_message(),
    {
        match self {
            FeedError::Graph(e) => {
                let mut r = String::from_str("graph store error: ");
                r.append(e.message().as_str());
                r
            },
            FeedError::Stub(e) => {
                let mut r = String::from_str("stub store error: ");
                r.append(e.message().as_str());
                r
            },
        }
    }
}

/// A feed item — what the user sees in their feed.
#[derive(Debug, Clone)]
pub enum FeedItem {
    /// Your own stub.
    OwnStub { stub: Stub },
    /// Full stub from a trusted account — content visible. The weight is
    /// the bit pattern of the trust edge's single-precision weight.
    TrustStub { stub: Stub, trust_weight_bits: u32 },
    /// Header from a watched account — content on demand.
    WatchHeader {
        content_hash: [u8; 32],
        author_pubkey: [u8; 32],
        timestamp: u64,
        branch_id: [u8; 32],
    },
}

impl FeedItem {
    pub open spec fn spec_timestamp(&self) -> u64 {
        match self {
            FeedItem::OwnStub { stub } => stub.timestamp,
            FeedItem::TrustStub { stub, .. } => stub.timestamp,
            FeedItem::WatchHeader { timestamp, .. } => *timestamp,
        }
    }

    pub open spec fn spec_author(&self) -> [u8; 32] {
        match self {
            FeedItem::OwnStub { stub } => stub.author_pubkey,
            FeedItem::TrustStub { stub, .. } => stub.author_pubkey,
            FeedItem::WatchHeader { author_pubkey, .. } => *author_pubkey,
        }
    }

    /// Own and trusted items come before watch headers.
    pub open spec fn spec_is_priority(&self) -> bool {
        !(self is WatchHeader)
    }

    pub fn timestamp(&self) -> (r: u64)
        ensures
            r == self.spec_timestamp(),
    {
        match self {
            FeedItem::OwnStub { stub } => stub.timestamp,
            FeedItem::TrustStub { stub, .. } => stub.timestamp,
            FeedItem::WatchHeader { timestamp, .. } => *timestamp,
        }
    }

    pub fn author(&self) -> (r: &[u8; 32])
        ensures
            *r == self.spec_author(),
    {
        match self {
            FeedItem::OwnStub { stub } => &stub.author_pubkey,
            FeedItem::TrustStub { stub, .. } => &stub.author_pubkey,
            FeedItem::WatchHeader { author_pubkey, .. } => author_pubkey,
        }
    }

    pub fn is_own(&self) -> (r: bool)
        ensures
            r == self is OwnStub,
    {
        match self {
            FeedItem::OwnStub { .. } => true,
            _ => false,
        }
    }

    pub fn is_trust(&self) -> (r: bool)
        ensures
            r == self is TrustStub,
    {
        match self {
            FeedItem::TrustStub { .. } => true,
            _ => false,
        }
    }

    pub fn is_watch(&self) -> (r: bool)
        ensures
            r == self is WatchHeader,
    {
        match self {
            FeedItem::WatchHeader { .. } => true,
            _ => false,
        }
    }
}

/// Whether an edge of the given type points at `author`.
pub open spec fn links(e: Edge, edge_type: EdgeType, author: [u8; 32]) -> bool {
    e.edge_type == edge_type && e.target_pubkey == author
}

/// The first edge of the given type that points at `author`.
pub open spec fn first_link(edges: Seq<Edge>, edge_type: EdgeType, author: [u8; 32]) -> Option<Edge>
    decreases edges.len(),
{
    if edges.len() == 0 {
        None
    } else if links(edges[0], edge_type, author) {
        Some(edges[0])
    } else {
        first_link(edges.drop_first(), edge_type, author)
    }
}

/// What a stub by `stub.author_pubkey` becomes in the feed of `me`, given
/// `me`'s outbound edges; `None` when it stays out.
pub open spec fn classify(me: [u8; 32], edges: Seq<Edge>, stub: Stub) -> Option<FeedItem> {
    let author = stub.author_pubkey;
    if author == me {
        Some(FeedItem::OwnStub { stub })
    } else if first_link(edges, EdgeType::Silence, author) is Some {
        None
    } else {
        match first_link(edges, EdgeType::Trust, author) {
            Some(e) => Some(FeedItem::TrustStub { stub, trust_weight_bits: e.weight_bits }),
            None => if first_link(edges, EdgeType::Watch, author) is Some {
                Some(
                    FeedItem::WatchHeader {
                        content_hash: stub.content_hash,
                        author_pubkey: author,
                        timestamp: stub.timestamp,
                        branch_id: stub.spec_branch_id(),
                    },
                )
            } else {
                None
            },
        }
    }
}

/// The feed items of the readable entries, in the order of the entries.
/// Entries that could not be read are skipped.
pub open spec fn feed_candidates(
    me: [u8; 32],
    edges: Seq<Edge>,
    entries: Seq<Result<([u8; 32], Stub), StubStoreError>>,
) -> Seq<FeedItem>
    decreases entries.len(),
{
    if entries.len() == 0 {
        Seq::empty()
    } else {
        let rest = feed_candidates(me, edges, entries.drop_last());
        match entries.last() {
            Ok((_, stub)) => match classify(me, edges, stub) {
                Some(item) => rest.push(item),
                None => rest,
            },
            Err(_) => rest,
        }
    }
}

/// The sort key of a feed item: priority items (own, trusted) before watch
/// headers, then newest first.
pub open spec fn feed_key(item: FeedItem) -> i128 {
    ((if item.spec_is_priority() {
        0
    } else {
        0x1_0000_0000_0000_0000int
    }) + (0xffff_ffff_ffff_ffffint - item.spec_timestamp())) as i128
}

/// Feed items paired with their sort keys.
pub open spec fn keyed(items: Seq<FeedItem>) -> Seq<(i128, FeedItem)> {
    items.map_values(|item: FeedItem| (feed_key(item), item))
}

/// The feed of `me`: the candidates sorted by key (stably), at most `limit`
/// of them.
pub open spec fn spec_feed(
    me: [u8; 32],
    edges: Seq<Edge>,
    entries: Seq<Result<([u8; 32], Stub), StubStoreError>>,
    limit: usize,
) -> Seq<FeedItem> {
    let sorted = sort_by_key(keyed(feed_candidates(me, edges, entries)));
    let n = if limit < sorted.len() {
        limit as int
    } else {
        sorted.len() as int
    };
    sorted.take(n).map_values(|p: (i128, FeedItem)| p.1)
}

/// Whether `item` is what the stored entry `entry` becomes in the feed.
pub open spec fn from_entry(
    me: [u8; 32],
    edges: Seq<Edge>,
    entry: Result<([u8; 32], Stub), StubStoreError>,
    item: FeedItem,
) -> bool {
    match entry {
        Ok((_, stub)) => classify(me, edges, stub) == Some(item),
        Err(_) => false,
    }
}

/// Why an item may stand in the feed of `me`: it is `me`'s own; or its
/// author is trusted (the weight is that of the first trust edge) and not
/// silenced; or its author is watched, neither trusted nor silenced.
pub open spec fn justified(me: [u8; 32], edges: Seq<Edge>, item: FeedItem) -> bool {
    let author = item.spec_author();
    match item {
        FeedItem::OwnStub { .. } => author == me,
        FeedItem::TrustStub { trust_weight_bits, .. } => {
            &&& author != me
            &&& first_link(edges, EdgeType::Silence, author) is None
            &&& first_link(edges, EdgeType::Trust, author) matches Some(e)
            &&& e.weight_bits == trust_weight_bits
        },
        FeedItem::WatchHeader { .. } => {
            &&& author != me
            &&& first_link(edges, EdgeType::Silence, author) is None
            &&& first_link(edges, EdgeType::Trust, author) is None
            &&& first_link(edges, EdgeType::Watch, author) is Some
        },
    }
}

/// Every candidate comes from some readable entry.
proof fn lemma_candidates_from_entries(
    me: [u8; 32],
    edges: Seq<Edge>,
    entries: Seq<Result<([u8; 32], Stub), StubStoreError>>,
)
    ensures
        forall|x: FeedItem| #[trigger]
            feed_candidates(me, edges, entries).contains(x) ==> exists|k: int|
                0 <= k < entries.len() && from_entry(me, edges, #[trigger] entries[k], x),
    decreases entries.len(),
{
    if entries.len() > 0 {
        let prev = entries.drop_last();
        lemma_candidates_from_entries(me, edges, prev);
        let c = feed_candidates(me, edges, entries);
        let cp = feed_candidates(me, edges, prev);
        assert forall|x: FeedItem| #[trigger] c.contains(x) implies exists|k: int|
            0 <= k < entries.len() && from_entry(me, edges, #[trigger] entries[k], x) by {
            let m = choose|m: int| 0 <= m < c.len() && c[m] == x;
            if m < cp.len() {
                assert(cp[m] == x);
                assert(cp.contains(x));
                let k = choose|k: int| 0 <= k < prev.len() && from_entry(me, edges, #[trigger] prev[k], x);
                assert(entries[k] == prev[k]);
            } else {
                let k = entries.len() - 1;
                assert(entries[k] == entries.last());
                assert(from_entry(me, edges, entries[k], x));
            }
        }
    }
}

/// A classified stub is justified, and its feed item shows its author.
proof fn lemma_classify(me: [u8; 32], edges: Seq<Edge>, stub: Stub)
    ensures
        classify(me, edges, stub) matches Some(item) ==> justified(me, edges, item)
            && item.spec_author() == stub.author_pubkey && item.spec_timestamp() == stub.timestamp,
{
}

/// Each item of the sorted candidates is a candidate under its own key.
proof fn lemma_sorted_items(items: Seq<FeedItem>)
    ensures
        forall|i: int|
            0 <= i < sort_by_key(keyed(items)).len() ==> items.contains(
                #[trigger] sort_by_key(keyed(items))[i].1,
            ) && sort_by_key(keyed(items))[i].0 == feed_key(sort_by_key(keyed(items))[i].1),
        sort_by_key(keyed(items)).len() == items.len(),
        sorted_by_key(sort_by_key(keyed(items))),
{
    broadcast use vstd::seq_lib::group_to_multiset_ensures;

    let k = keyed(items);
    let s = sort_by_key(k);
    lemma_sort_by_key(k);
    assert(s.len() == s.to_multiset().len());
    assert(k.len() == k.to_multiset().len());
    assert forall|i: int| 0 <= i < s.len() implies items.contains(#[trigger] s[i].1) && s[i].0
        == feed_key(s[i].1) by {
        assert(s.contains(s[i]));
        assert(s.to_multiset().count(s[i]) > 0);
        assert(k.to_multiset().count(s[i]) > 0);
        assert(k.contains(s[i]));
        let m = choose|m: int| 0 <= m < k.len() && k[m] == s[i];
        assert(items[m] == s[i].1);
    }
}

/// The feed holds as many items as the limit allows, each one what some
/// readable stored stub becomes; an item is the viewer's own, or by an
/// author the viewer trusts or watches and has not silenced. No silenced
/// author other than the viewer appears.
pub proof fn lemma_feed_contents(
    me: [u8; 32],
    edges: Seq<Edge>,
    entries: Seq<Result<([u8; 32], Stub), StubStoreError>>,
    limit: usize,
)
    ensures
        spec_feed(me, edges, entries, limit).len() == if limit < feed_candidates(
            me,
            edges,
            entries,
        ).len() {
            limit as int
        } else {
            feed_candidates(me, edges, entries).len() as int
        },
        forall|i: int|
            #![trigger spec_feed(me, edges, entries, limit)[i]]
            0 <= i < spec_feed(me, edges, entries, limit).len() ==> exists|k: int|
                0 <= k < entries.len() && from_entry(
                    me,
                    edges,
                    #[trigger] entries[k],
                    spec_feed(me, edges, entries, limit)[i],
                ),
        forall|i: int|
            0 <= i < spec_feed(me, edges, entries, limit).len() ==> justified(
                me,
                edges,
                #[trigger] spec_feed(me, edges, entries, limit)[i],
            ),
        forall|i: int|
            0 <= i < spec_feed(me, edges, entries, limit).len() ==> {
                let a = (#[trigger] spec_feed(me, edges, entries, limit)[i]).spec_author();
                a == me || first_link(edges, EdgeType::Silence, a) is None
            },
{
    let c = feed_candidates(me, edges, entries);
    let s = sort_by_key(keyed(c));
    let f = spec_feed(me, edges, entries, limit);
    lemma_sorted_items(c);
    lemma_candidates_from_entries(me, edges, entries);
    assert forall|i: int| #![trigger f[i]] 0 <= i < f.len() implies exists|k: int|
        0 <= k < entries.len() && from_entry(me, edges, #[trigger] entries[k], f[i]) by {
        assert(f[i] == s[i].1);
        assert(c.contains(s[i].1));
    }
    assert forall|i: int| 0 <= i < f.len() implies justified(me, edges, #[trigger] f[i]) by {
        assert(f[i] == s[i].1);
        assert(c.contains(s[i].1));
        let k = choose|k: int| 0 <= k < entries.len() && from_entry(me, edges, #[trigger] entries[k], f[i]);
        if let Ok((_, stub)) = entries[k] {
            lemma_classify(me, edges, stub);
        }
    }
}

/// The feed lists own and trusted items before watch headers, and within
/// each group newer items first.
pub proof fn lemma_feed_order(
    me: [u8; 32],
    edges: Seq<Edge>,
    entries: Seq<Result<([u8; 32], Stub), StubStoreError>>,
    limit: usize,
)
    ensures
        forall|i: int, j: int|
            0 <= i < j < spec_feed(me, edges, entries, limit).len() ==> {
                let a = #[trigger] spec_feed(me, edges, entries, limit)[i];
                let b = #[trigger] spec_feed(me, edges, entries, limit)[j];
                &&& (a.spec_is_priority() || !b.spec_is_priority())
                &&& (a.spec_is_priority() == b.spec_is_priority() ==> a.spec_timestamp()
                    >= b.spec_timestamp())
            },
{
    let c = feed_candidates(me, edges, entries);
    let s = sort_by_key(keyed(c));
    let f = spec_feed(me, edges, entries, limit);
    lemma_sorted_items(c);
    assert forall|i: int, j: int| 0 <= i < j < f.len() implies {
        let a = #[trigger] f[i];
        let b = #[trigger] f[j];
        &&& (a.spec_is_priority() || !b.spec_is_priority())
        &&& (a.spec_is_priority() == b.spec_is_priority() ==> a.spec_timestamp()
            >= b.spec_timestamp())
    } by {
        assert(f[i] == s[i].1);
        assert(f[j] == s[j].1);
        assert(s[i].0 <= s[j].0);
    }
}

/// The feed keeps the best candidates: a candidate that the feed leaves
/// out ranks no earlier than any item the feed holds, so own and trusted
/// items are dropped only for other own and trusted items that are at least
/// as new, and watch headers only for priority items or newer headers.
pub proof fn lemma_feed_keeps_best(
    me: [u8; 32],
    edges: Seq<Edge>,
    entries: Seq<Result<([u8; 32], Stub), StubStoreError>>,
    limit: usize,
    x: FeedItem,
)
    requires
        feed_candidates(me, edges, entries).contains(x),
        !spec_feed(me, edges, entries, limit).contains(x),
    ensures
        forall|i: int|
            0 <= i < spec_feed(me, edges, entries, limit).len() ==> {
                let a = #[trigger] spec_feed(me, edges, entries, limit)[i];
                &&& (a.spec_is_priority() || !x.spec_is_priority())
                &&& (a.spec_is_priority() == x.spec_is_priority() ==> a.spec_timestamp()
                    >= x.spec_timestamp())
            },
{
    broadcast use vstd::seq_lib::group_to_multiset_ensures;

    let c = feed_candidates(me, edges, entries);
    let k = keyed(c);
    let s = sort_by_key(k);
    let f = spec_feed(me, edges, entries, limit);
    lemma_sort_by_key(k);
    lemma_sorted_items(c);
    let p = choose|p: int| 0 <= p < c.len() && c[p] == x;
    assert(k[p] == (feed_key(x), x));
    assert(k.contains((feed_key(x), x)));
    assert(k.to_multiset().count((feed_key(x), x)) > 0);
    assert(s.to_multiset().count((feed_key(x), x)) > 0);
    assert(s.contains((feed_key(x), x)));
    let m = choose|m: int| 0 <= m < s.len() && s[m] == (feed_key(x), x);
    if m < f.len() {
        assert(f[m] == x);
        assert(f.contains(x));
    }
    assert forall|i: int| 0 <= i < f.len() implies {
        let a = #[trigger] f[i];
        &&& (a.spec_is_priority() || !x.spec_is_priority())
        &&& (a.spec_is_priority() == x.spec_is_priority() ==> a.spec_timestamp()
            >= x.spec_timestamp())
    } by {
        assert(f[i] == s[i].1);
        assert(i < m);
        assert(s[i].0 <= s[m].0);
        assert(s[i].0 == feed_key(s[i].1));
    }
}

/// The first edge of the given type pointing at `author`.
fn find_link(edges: &Vec<Edge>, edge_type: EdgeType, author: &[u8; 32]) -> (r: Option<Edge>)
    ensures
        r == first_link(edges@, edge_type, *author),
{
    let mut i: usize = 0;
    assert(edges@.skip(0) =~= edges@);
    while i < edges.len()
        invariant
            0 <= i <= edges@.len(),
            first_link(edges@, edge_type, *author) == first_link(
                edges@.skip(i as int),
                edge_type,
                *author,
            ),
        decreases edges@.len() - i,
    {
        let e = edges[i];
        assert(edges@.skip(i as int)[0] == e);
        assert(edges@.skip(i as int).drop_first() =~= edges@.skip(i + 1));
        if e.edge_type == edge_type && bytes32_eq(&e.target_pubkey, author) {
            return Some(e);
        }
        i += 1;
    }
    None
}

/// What a stub becomes in the feed of `me`, given `me`'s outbound edges.
fn classify_stub(me: &[u8; 32], edges: &Vec<Edge>, stub: Stub) -> (r: Option<FeedItem>)
    ensures
        r == classify(*me, edges@, stub),
{
    if bytes32_eq(&stub.author_pubkey, me) {
        return Some(FeedItem::OwnStub { stub });
    }
    let author = stub.author_pubkey;
    if find_link(edges, EdgeType::Silence, &author).is_some() {
        return None;
    }
    match find_link(edges, EdgeType::Trust, &author) {
        Some(e) => Some(FeedItem::TrustStub { stub, trust_weight_bits: e.weight_bits }),
        None => {
            if find_link(edges, EdgeType::Watch, &author).is_some() {
                let branch_id = stub.branch_id();
                Some(
                    FeedItem::WatchHeader {
                        content_hash: stub.content_hash,
                        author_pubkey: author,
                        timestamp: stub.timestamp,
                        branch_id,
                    },
                )
            } else {
                None
            }
        },
    }
}

/// The sort key of a feed item.
fn item_key(item: &FeedItem) -> (r: i128)
    ensures
        r == feed_key(*item),
{
    let base: i128 = if item.is_watch() {
        0x1_0000_0000_0000_0000i128
    } else {
        0
    };
    let ts = item.timestamp();
    base + (0xffff_ffff_ffff_ffffu64 - ts) as i128
}

/// Build the feed of `my_pubkey` from its edges in `graph_store` and the
/// stored stubs `entries`, as the stub store lists them; at most `limit`
/// items.
pub fn build_feed(
    my_pubkey: &[u8; 32],
    graph_store: &GraphStore,
    entries: Vec<Result<([u8; 32], Stub), StubStoreError>>,
    limit: usize,
) -> (r: Result<Vec<FeedItem>, FeedError>)
    ensures
        r matches Ok(v) && v@ == spec_feed(
            *my_pubkey,
            selected(graph_store@, Some(*my_pubkey), None, None),
            entries@,
            limit,
        ),
{
    let edges = match graph_store.get_outbound(my_pubkey) {
        Ok(e) => e,
        Err(e) => return Err(FeedError::Graph(e)),
    };
    let ghost all = entries@;
    let ghost out_edges = edges@;
    let mut rest = entries;
    let mut items: Vec<(i128, FeedItem)> = Vec::new();
    let n = rest.len();
    let mut i: usize = 0;
    while i < n
        invariant
            n == all.len(),
            0 <= i <= n,
            edges@ == out_edges,
            rest@ == all.skip(i as int),
            items@ == keyed(feed_candidates(*my_pubkey, out_edges, all.take(i as int))),
        decreases n - i,
    {
        let entry = rest.remove(0);
        proof {
            assert(all.take(i + 1).drop_last() =~= all.take(i as int));
            assert(all.take(i + 1).last() == entry);
            assert(all.skip(i as int).drop_first() =~= all.skip(i + 1));
        }
        match entry {
            Ok((_hash, stub)) => {
                match classify_stub(my_pubkey, &edges, stub) {
                    Some(item) => {
                        let k = item_key(&item);
                        items.push((k, item));
                        proof {
                            let c = feed_candidates(*my_pubkey, out_edges, all.take(i as int));
                            assert(keyed(c.push(item)) =~= keyed(c).push((k, item)));
                        }
                    },
                    None => {},
                }
            },
            Err(_) => {},
        }
        i += 1;
    }
    assert(all.take(n as int) =~= all);
    let mut sorted = stable_sort_by_key_owned(items);
    let ghost s = sorted@;
    let count = if limit < sorted.len() {
        limit
    } else {
        sorted.len()
    };
    let mut out: Vec<FeedItem> = Vec::new();
    let mut j: usize = 0;
    while j < count
        invariant
            count <= s.len(),
            0 <= j <= count,
            sorted@ == s.skip(j as int),
            out@ == s.take(j as int).map_values(|p: (i128, FeedItem)| p.1),
        decreases count - j,
    {
        let (_key, item) = sorted.remove(0);
        proof {
            assert(s.skip(j as int)[0] == s[j as int]);
            assert(s.skip(j as int).drop_first() =~= s.skip(j + 1));
            assert(s.take(j + 1).map_values(|p: (i128, FeedItem)| p.1) =~= s.take(j as int).map_values(
                |p: (i128, FeedItem)| p.1,
            ).push(item));
        }
        out.push(item);
        j += 1;
    }
    Ok(out)
}

} // verus!
