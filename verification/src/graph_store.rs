//! The social graph store: trust, watch and silence edges, keyed by
//! (source, target, edge type, topic scope). Inserting an edge with a key
//! that is present replaces it; queries select edges by source, target and
//! type, in storage order.
use vstd::prelude::*;
use vstd::string::StringExecFns;

use crate::bytes::bytes32_eq;

verus! {

/// Errors of the graph store. The in-memory store itself never fails; a
/// persistent backing store reports its failures with this type.
#[derive(Debug)]
pub enum GraphStoreError {
    Db(String),
}

impl GraphStoreError {
    /// The text of the error.
    pub open spec fn spec_message(&self) -> Seq<char> {
        match self {
            GraphStoreError::Db(m) => "SQLite error: "@ + m@,
        }
    }

    /// The text of the error.
    pub fn message(&self) -> (r: String)
        ensures
            r@ == self.spec_message(),
    {
        match self {
            GraphStoreError::Db(m) => {
                let mut r = String::from_str("SQLite error: ");
                r.append(m.as_str());
                r
            },
        }
    }
}

/// Edge type in the social graph.
#[derive(Debug, Clone, Copy, PartialEq, Eq, Structural)]
pub enum EdgeType {
    Trust,
    Watch,
    Silence,
}

impl EdgeType {
    /// The stored code of an edge type: 0 trust, 1 watch, 2 silence.
    pub open spec fn spec_code(self) -> u8 {
        match self {
            EdgeType::Trust => 0,
            EdgeType::Watch => 1,
            EdgeType::Silence => 2,
        }
    }

    pub fn from_u8(v: u8) -> (r: Option<Self>)
        ensures
            v <= 2 <==> r is Some,
            r matches Some(t) ==> t.spec_code() == v,
    {
        match v {
            0 => Some(EdgeType::Trust),
            1 => Some(EdgeType::Watch),
            2 => Some(EdgeType::Silence),
            _ => None,
        }
    }

    /// The stored code of an edge type.
    pub fn to_u8(self) -> (r: u8)
        ensures
            r == self.spec_code(),
    {
        match self {
            EdgeType::Trust => 0,
            EdgeType::Watch => 1,
            EdgeType::Silence => 2,
        }
    }
}

/// A social graph edge — trust, watch, or silence.
///
/// The weight is an IEEE-754 single-precision number, held as its bit
/// pattern (`f32::to_bits`); it is only meaningful for trust edges.
#[derive(Debug, Clone, Copy)]
pub struct Edge {
    /// Source identity (truster/watcher/silencer).
    pub source_pubkey: [u8; 32],
    /// Target identity.
    pub target_pubkey: [u8; 32],
    /// Edge type.
    pub edge_type: EdgeType,
    /// Topic hash (all zeros = universal).
    pub topic_scope: [u8; 32],
    /// Bit pattern of the weight (0.0 - 1.0).
    pub weight_bits: u32,
    /// Creation timestamp (Unix ms).
    pub timestamp: u64,
    /// Ed25519 signature of the edge by the source.
    pub signature: [u8; 64],
}

/// Whether an edge has the key (source, target, type, topic).
pub open spec fn has_key(
    e: Edge,
    source: [u8; 32],
    target: [u8; 32],
    edge_type: EdgeType,
    topic: [u8; 32],
) -> bool {
    e.source_pubkey == source && e.target_pubkey == target && e.edge_type == edge_type
        && e.topic_scope == topic
}

/// Whether two edges share their key.
pub open spec fn same_key(a: Edge, b: Edge) -> bool {
    has_key(a, b.source_pubkey, b.target_pubkey, b.edge_type, b.topic_scope)
}

/// The edges without the given key, in order.
pub open spec fn without_key(
    edges: Seq<Edge>,
    source: [u8; 32],
    target: [u8; 32],
    edge_type: EdgeType,
    topic: [u8; 32],
) -> Seq<Edge>
    decreases edges.len(),
{
    if edges.len() == 0 {
        edges
    } else {
        let rest = without_key(edges.drop_last(), source, target, edge_type, topic);
        if has_key(edges.last(), source, target, edge_type, topic) {
            rest
        } else {
            rest.push(edges.last())
        }
    }
}

/// The edges after inserting `e`: any edge with its key leaves, and `e` is
/// appended.
pub open spec fn upserted(edges: Seq<Edge>, e: Edge) -> Seq<Edge> {
    without_key(edges, e.source_pubkey, e.target_pubkey, e.edge_type, e.topic_scope).push(e)
}

/// Whether an edge matches a query; `None` matches anything.
pub open spec fn matches_query(
    e: Edge,
    source: Option<[u8; 32]>,
    target: Option<[u8; 32]>,
    edge_type: Option<EdgeType>,
) -> bool {
    &&& (source matches Some(s) ==> e.source_pubkey == s)
    &&& (target matches Some(t) ==> e.target_pubkey == t)
    &&& (edge_type matches Some(k) ==> e.edge_type == k)
}

/// The edges that match a query, in order.
pub open spec fn selected(
    edges: Seq<Edge>,
    source: Option<[u8; 32]>,
    target: Option<[u8; 32]>,
    edge_type: Option<EdgeType>,
) -> Seq<Edge>
    decreases edges.len(),
{
    if edges.len() == 0 {
        edges
    } else {
        let rest = selected(edges.drop_last(), source, target, edge_type);
        if matches_query(edges.last(), source, target, edge_type) {
            rest.push(edges.last())
        } else {
            rest
        }
    }
}

/// Edges with the key are gone from `without_key`, and every other edge
/// stays.
pub proof fn lemma_without_key(
    edges: Seq<Edge>,
    source: [u8; 32],
    target: [u8; 32],
    edge_type: EdgeType,
    topic: [u8; 32],
)
    ensures
        forall|x: Edge|
            #[trigger] without_key(edges, source, target, edge_type, topic).contains(x) <==> (
            edges.contains(x) && !has_key(x, source, target, edge_type, topic)),
    decreases edges.len(),
{
    if edges.len() > 0 {
        let prev = edges.drop_last();
        let last = edges.last();
        lemma_without_key(prev, source, target, edge_type, topic);
        let w = without_key(edges, source, target, edge_type, topic);
        let wp = without_key(prev, source, target, edge_type, topic);
        assert forall|x: Edge| #[trigger] w.contains(x) <==> (edges.contains(x) && !has_key(
            x,
            source,
            target,
            edge_type,
            topic,
        )) by {
            if w.contains(x) {
                let k = choose|k: int| 0 <= k < w.len() && w[k] == x;
                if k < wp.len() {
                    assert(wp[k] == x);
                    assert(wp.contains(x));
                    let i = choose|i: int| 0 <= i < prev.len() && prev[i] == x;
                    assert(edges[i] == x);
                } else {
                    assert(x == last);
                    assert(edges[edges.len() - 1] == x);
                }
            }
            if edges.contains(x) && !has_key(x, source, target, edge_type, topic) {
                let i = choose|i: int| 0 <= i < edges.len() && edges[i] == x;
                if i < edges.len() - 1 {
                    assert(prev[i] == x);
                    assert(wp.contains(x));
                    let k = choose|k: int| 0 <= k < wp.len() && wp[k] == x;
                    if !has_key(last, source, target, edge_type, topic) {
                        assert(w[k] == x);
                    }
                } else {
                    assert(w[w.len() - 1] == x);
                }
            }
        }
    }
}

/// A query returns exactly the stored edges that match it.
pub proof fn lemma_selected(
    edges: Seq<Edge>,
    source: Option<[u8; 32]>,
    target: Option<[u8; 32]>,
    edge_type: Option<EdgeType>,
)
    ensures
        forall|x: Edge| #[trigger]
            selected(edges, source, target, edge_type).contains(x) <==> (edges.contains(x)
                && matches_query(x, source, target, edge_type)),
    decreases edges.len(),
{
    if edges.len() > 0 {
        let prev = edges.drop_last();
        let last = edges.last();
        lemma_selected(prev, source, target, edge_type);
        let sl = selected(edges, source, target, edge_type);
        let sp = selected(prev, source, target, edge_type);
        assert forall|x: Edge| #[trigger] sl.contains(x) <==> (edges.contains(x) && matches_query(
            x,
            source,
            target,
            edge_type,
        )) by {
            if sl.contains(x) {
                let k = choose|k: int| 0 <= k < sl.len() && sl[k] == x;
                if k < sp.len() {
                    assert(sp[k] == x);
                    assert(sp.contains(x));
                    let i = choose|i: int| 0 <= i < prev.len() && prev[i] == x;
                    assert(edges[i] == x);
                } else {
                    assert(edges[edges.len() - 1] == x);
                }
            }
            if edges.contains(x) && matches_query(x, source, target, edge_type) {
                let i = choose|i: int| 0 <= i < edges.len() && edges[i] == x;
                if i < edges.len() - 1 {
                    assert(prev[i] == x);
                    assert(sp.contains(x));
                    let k = choose|k: int| 0 <= k < sp.len() && sp[k] == x;
                    if matches_query(last, source, target, edge_type) {
                        assert(sl[k] == x);
                    } else {
                        assert(sl[k] == x);
                    }
                } else {
                    assert(sl[sl.len() - 1] == x);
                }
            }
        }
    }
}

/// Removing a key twice removes no more than removing it once.
pub proof fn lemma_without_key_idempotent(
    edges: Seq<Edge>,
    source: [u8; 32],
    target: [u8; 32],
    edge_type: EdgeType,
    topic: [u8; 32],
)
    ensures
        without_key(without_key(edges, source, target, edge_type, topic), source, target, edge_type, topic)
            == without_key(edges, source, target, edge_type, topic),
    decreases edges.len(),
{
    if edges.len() > 0 {
        let prev = edges.drop_last();
        lemma_without_key_idempotent(prev, source, target, edge_type, topic);
        let wp = without_key(prev, source, target, edge_type, topic);
        if !has_key(edges.last(), source, target, edge_type, topic) {
            assert(wp.push(edges.last()).drop_last() =~= wp);
        }
    }
}

/// Inserting an edge replaces any edge with its key: afterwards the edge is
/// stored, every stored edge with its key is that edge, every edge with
/// another key is kept, and nothing else is added.
pub proof fn lemma_upsert(edges: Seq<Edge>, e: Edge)
    ensures
        upserted(edges, e).contains(e),
        forall|x: Edge| #[trigger] upserted(edges, e).contains(x) && same_key(x, e) ==> x == e,
        forall|x: Edge|
            edges.contains(x) && !same_key(x, e) ==> #[trigger] upserted(edges, e).contains(x),
        forall|x: Edge| #[trigger] upserted(edges, e).contains(x) ==> x == e || edges.contains(x),
{
    let w = without_key(edges, e.source_pubkey, e.target_pubkey, e.edge_type, e.topic_scope);
    lemma_without_key(edges, e.source_pubkey, e.target_pubkey, e.edge_type, e.topic_scope);
    let u = upserted(edges, e);
    assert(u[u.len() - 1] == e);
    assert forall|x: Edge| #[trigger] u.contains(x) implies x == e || w.contains(x) by {
        let k = choose|k: int| 0 <= k < u.len() && u[k] == x;
        if k < w.len() {
            assert(w[k] == x);
        }
    }
    assert forall|x: Edge| w.contains(x) implies #[trigger] u.contains(x) by {
        let k = choose|k: int| 0 <= k < w.len() && w[k] == x;
        assert(u[k] == x);
    }
}

/// Removing an edge's key right after inserting the edge leaves the edges
/// that removing the key before would have left.
pub proof fn lemma_remove_after_upsert(edges: Seq<Edge>, e: Edge)
    ensures
        without_key(upserted(edges, e), e.source_pubkey, e.target_pubkey, e.edge_type, e.topic_scope)
            == without_key(edges, e.source_pubkey, e.target_pubkey, e.edge_type, e.topic_scope),
{
    let w = without_key(edges, e.source_pubkey, e.target_pubkey, e.edge_type, e.topic_scope);
    assert(w.push(e).drop_last() =~= w);
    lemma_without_key_idempotent(edges, e.source_pubkey, e.target_pubkey, e.edge_type, e.topic_scope);
}

/// Whether some edge has the key.
pub open spec fn contains_key(
    edges: Seq<Edge>,
    source: [u8; 32],
    target: [u8; 32],
    edge_type: EdgeType,
    topic: [u8; 32],
) -> bool {
    exists|i: int| 0 <= i < edges.len() && has_key(#[trigger] edges[i], source, target, edge_type, topic)
}

/// Storage for the social graph: the edges in storage order.
pub struct GraphStore {
    edges: Vec<Edge>,
}

impl View for GraphStore {
    type V = Seq<Edge>;

    closed spec fn view(&self) -> Seq<Edge> {
        self.edges@
    }
}

impl GraphStore {
    /// A new, empty graph store.
    pub fn new() -> (r: Self)
        ensures
            r@ == Seq::<Edge>::empty(),
    {
        GraphStore { edges: Vec::new() }
    }

    /// Open an in-memory graph store, empty.
    pub fn open_in_memory() -> (r: Result<Self, GraphStoreError>)
        ensures
            r matches Ok(s) && s@ == Seq::<Edge>::empty(),
    {
        Ok(Self::new())
    }

    fn key_matches(e: &Edge, source: &[u8; 32], target: &[u8; 32], edge_type: EdgeType, topic: &[u8; 32]) -> (r: bool)
        ensures
            r == has_key(*e, *source, *target, edge_type, *topic),
    {
        bytes32_eq(&e.source_pubkey, source) && bytes32_eq(&e.target_pubkey, target)
            && e.edge_type == edge_type && bytes32_eq(&e.topic_scope, topic)
    }

    /// Removes every edge with the key; returns whether one was there.
    fn remove_key(
        &mut self,
        source: &[u8; 32],
        target: &[u8; 32],
        edge_type: EdgeType,
        topic: &[u8; 32],
    ) -> (r: bool)
        ensures
            final(self)@ == without_key(old(self)@, *source, *target, edge_type, *topic),
            r == contains_key(old(self)@, *source, *target, edge_type, *topic),
    {
        let ghost old_edges = self.edges@;
        let mut kept: Vec<Edge> = Vec::new();
        let mut found = false;
        let n = self.edges.len();
        let mut i: usize = 0;
        while i < n
            invariant
                n == old_edges.len(),
                self.edges@ == old_edges,
                0 <= i <= n,
                kept@ == without_key(old_edges.take(i as int), *source, *target, edge_type, *topic),
                found == contains_key(old_edges.take(i as int), *source, *target, edge_type, *topic),
            decreases n - i,
        {
            let e = self.edges[i];
            assert(old_edges.take(i + 1).drop_last() =~= old_edges.take(i as int));
            assert(old_edges.take(i + 1).last() == e);
            let ghost found_before = found;
            let m = Self::key_matches(&e, source, target, edge_type, topic);
            if m {
                found = true;
            } else {
                kept.push(e);
            }
            proof {
                let t0 = old_edges.take(i as int);
                let t1 = old_edges.take(i + 1);
                assert(t1[i as int] == e);
                if contains_key(t0, *source, *target, edge_type, *topic) {
                    let j = choose|j: int|
                        0 <= j < i && has_key(#[trigger] t0[j], *source, *target, edge_type, *topic);
                    assert(t1[j] == t0[j]);
                }
                if contains_key(t1, *source, *target, edge_type, *topic) && !m {
                    let j = choose|j: int|
                        0 <= j < i + 1 && has_key(#[trigger] t1[j], *source, *target, edge_type, *topic);
                    assert(t0[j] == t1[j]);
                }
            }
            i += 1;
        }
        assert(old_edges.take(n as int) =~= old_edges);
        self.edges = kept;
        found
    }

    /// The edges that match a query, in storage order.
    fn select(
        &self,
        source: Option<&[u8; 32]>,
        target: Option<&[u8; 32]>,
        edge_type: Option<EdgeType>,
    ) -> (r: Vec<Edge>)
        ensures
            r@ == selected(
                self@,
                match source {
                    Some(s) => Some(*s),
                    None => None,
                },
                match target {
                    Some(t) => Some(*t),
                    None => None,
                },
                edge_type,
            ),
    {
        let ghost src = match source {
            Some(s) => Some(*s),
            None => None,
        };
        let ghost tgt = match target {
            Some(t) => Some(*t),
            None => None,
        };
        let mut out: Vec<Edge> = Vec::new();
        let n = self.edges.len();
        let mut i: usize = 0;
        while i < n
            invariant
                n == self.edges@.len(),
                0 <= i <= n,
                out@ == selected(self.edges@.take(i as int), src, tgt, edge_type),
                src == match source {
                    Some(s) => Some(*s),
                    None => None,
                },
                tgt == match target {
                    Some(t) => Some(*t),
                    None => None,
                },
            decreases n - i,
        {
            let e = self.edges[i];
            assert(self.edges@.take(i + 1).drop_last() =~= self.edges@.take(i as int));
            assert(self.edges@.take(i + 1).last() == e);
            let ok_source = match source {
                Some(s) => bytes32_eq(&e.source_pubkey, s),
                None => true,
            };
            let ok_target = match target {
                Some(t) => bytes32_eq(&e.target_pubkey, t),
                None => true,
            };
            let ok_type = match edge_type {
                Some(k) => e.edge_type == k,
                None => true,
            };
            assert(ok_source <==> (src matches Some(x) ==> e.source_pubkey == x));
            assert(ok_target <==> (tgt matches Some(x) ==> e.target_pubkey == x));
            assert(ok_type <==> (edge_type matches Some(x) ==> e.edge_type == x));
            assert(ok_source && ok_target && ok_type <==> matches_query(e, src, tgt, edge_type));
            if ok_source && ok_target && ok_type {
                out.push(e);
            }
            i += 1;
        }
        assert(self.edges@.take(n as int) =~= self.edges@);
        out
    }

    /// Insert or update an edge: an edge with the same key is replaced.
    pub fn put_edge(&mut self, edge: &Edge) -> (r: Result<(), GraphStoreError>)
        ensures
            r is Ok,
            final(self)@ == upserted(old(self)@, *edge),
    {
        self.remove_key(&edge.source_pubkey, &edge.target_pubkey, edge.edge_type, &edge.topic_scope);
        self.edges.push(*edge);
        Ok(())
    }

    /// Remove an edge; returns whether there was one with the key.
    pub fn remove_edge(
        &mut self,
        source: &[u8; 32],
        target: &[u8; 32],
        edge_type: EdgeType,
        topic_scope: &[u8; 32],
    ) -> (r: Result<bool, GraphStoreError>)
        ensures
            r matches Ok(b) && b == contains_key(old(self)@, *source, *target, edge_type, *topic_scope),
            final(self)@ == without_key(old(self)@, *source, *target, edge_type, *topic_scope),
    {
        Ok(self.remove_key(source, target, edge_type, topic_scope))
    }

    /// Get all outbound edges from a source.
    pub fn get_outbound(&self, source: &[u8; 32]) -> (r: Result<Vec<Edge>, GraphStoreError>)
        ensures
            r matches Ok(v) && v@ == selected(self@, Some(*source), None, None),
    {
        Ok(self.select(Some(source), None, None))
    }

    /// Get all inbound edges to a target.
    pub fn get_inbound(&self, target: &[u8; 32]) -> (r: Result<Vec<Edge>, GraphStoreError>)
        ensures
            r matches Ok(v) && v@ == selected(self@, None, Some(*target), None),
    {
        Ok(self.select(None, Some(target), None))
    }

    /// Get all outbound edges of a specific type.
    pub fn get_outbound_by_type(&self, source: &[u8; 32], edge_type: EdgeType) -> (r: Result<
        Vec<Edge>,
        GraphStoreError,
    >)
        ensures
            r matches Ok(v) && v@ == selected(self@, Some(*source), None, Some(edge_type)),
    {
        Ok(self.select(Some(source), None, Some(edge_type)))
    }

    /// Get all inbound edges of a specific type.
    pub fn get_inbound_by_type(&self, target: &[u8; 32], edge_type: EdgeType) -> (r: Result<
        Vec<Edge>,
        GraphStoreError,
    >)
        ensures
            r matches Ok(v) && v@ == selected(self@, None, Some(*target), Some(edge_type)),
    {
        Ok(self.select(None, Some(target), Some(edge_type)))
    }

    /// Count inbound trust edges (trust density — basic).
    pub fn trust_density(&self, target: &[u8; 32]) -> (r: Result<usize, GraphStoreError>)
        ensures
            r matches Ok(n) && n == selected(self@, None, Some(*target), Some(EdgeType::Trust)).len(),
    {
        Ok(self.select(None, Some(target), Some(EdgeType::Trust)).len())
    }

    /// Count inbound watch edges.
    pub fn watch_count(&self, target: &[u8; 32]) -> (r: Result<usize, GraphStoreError>)
        ensures
            r matches Ok(n) && n == selected(self@, None, Some(*target), Some(EdgeType::Watch)).len(),
    {
        Ok(self.select(None, Some(target), Some(EdgeType::Watch)).len())
    }

    /// Count inbound silence edges.
    pub fn silence_count(&self, target: &[u8; 32]) -> (r: Result<usize, GraphStoreError>)
        ensures
            r matches Ok(n) && n == selected(self@, None, Some(*target), Some(EdgeType::Silence)).len(),
    {
        Ok(self.select(None, Some(target), Some(EdgeType::Silence)).len())
    }

    /// Get all edges (for sync).
    pub fn get_all_edges(&self) -> (r: Result<Vec<Edge>, GraphStoreError>)
        ensures
            r matches Ok(v) && v@ == self@,
    {
        Ok(self.edges.clone())
    }

    /// Check if a specific identity is silenced by a source.
    pub fn is_silenced(&self, source: &[u8; 32], target: &[u8; 32]) -> (r: Result<bool, GraphStoreError>)
        ensures
            r matches Ok(b) && b == (selected(self@, Some(*source), Some(*target), Some(EdgeType::Silence)).len() > 0),
    {
        Ok(self.select(Some(source), Some(target), Some(EdgeType::Silence)).len() > 0)
    }
}

} // verus!
