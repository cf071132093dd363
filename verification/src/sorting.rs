//! Stable sorting by integer key: insertion sort, with its specification,
//! and the laws that its result is ordered and a permutation of its input.
use vstd::prelude::*;

verus! {

/// Inserts `x` into `s` after the last element whose key is at most `x`'s
/// key, searching from the end.
pub open spec fn insert_by_key<V>(s: Seq<(i128, V)>, x: (i128, V)) -> Seq<(i128, V)>
    decreases s.len(),
{
    if s.len() == 0 {
        seq![x]
    } else if s.last().0 <= x.0 {
        s.push(x)
    } else {
        insert_by_key(s.drop_last(), x).push(s.last())
    }
}

/// Stable insertion sort by key: elements with equal keys keep their order.
pub open spec fn sort_by_key<V>(s: Seq<(i128, V)>) -> Seq<(i128, V)>
    decreases s.len(),
{
    if s.len() == 0 {
        s
    } else {
        insert_by_key(sort_by_key(s.drop_last()), s.last())
    }
}

/// Keys never decrease along the sequence.
pub open spec fn sorted_by_key<V>(s: Seq<(i128, V)>) -> bool {
    forall|i: int, j: int| 0 <= i < j < s.len() ==> #[trigger] s[i].0 <= #[trigger] s[j].0
}

/// Where `insert_by_key` puts `x`: at `j`, when every element from `j` on
/// has a greater key and the one before `j` (if any) does not.
pub proof fn lemma_insert_position<V>(s: Seq<(i128, V)>, x: (i128, V), j: int)
    requires
        0 <= j <= s.len(),
        forall|k: int| j <= k < s.len() ==> #[trigger] s[k].0 > x.0,
        j == 0 || s[j - 1].0 <= x.0,
    ensures
        insert_by_key(s, x) == s.insert(j, x),
    decreases s.len(),
{
    if s.len() == 0 {
        assert(s.insert(j, x) =~= seq![x]);
    } else if j == s.len() {
        assert(s.insert(j, x) =~= s.push(x));
    } else {
        let p = s.drop_last();
        lemma_insert_position(p, x, j);
        assert(s.insert(j, x) =~= p.insert(j, x).push(s.last()));
    }
}

/// Inserting into an ordered sequence keeps it ordered.
pub proof fn lemma_insert_sorted<V>(s: Seq<(i128, V)>, x: (i128, V))
    requires
        sorted_by_key(s),
    ensures
        sorted_by_key(insert_by_key(s, x)),
        insert_by_key(s, x).len() == s.len() + 1,
        insert_by_key(s, x).to_multiset() == s.to_multiset().insert(x),
    decreases s.len(),
{
    broadcast use vstd::seq_lib::to_multiset_build, vstd::seq_lib::to_multiset_contains;

    if s.len() == 0 {
        assert(seq![x] =~= Seq::<(i128, V)>::empty().push(x));
    } else if s.last().0 <= x.0 {
    } else {
        let p = s.drop_last();
        assert(sorted_by_key(p));
        lemma_insert_sorted(p, x);
        let q = insert_by_key(p, x);
        assert forall|i: int| 0 <= i < q.len() implies #[trigger] q[i].0 <= s.last().0 by {
            assert(q.contains(q[i]));
            assert(q.to_multiset().count(q[i]) > 0);
            if q[i] == x {
            } else {
                assert(p.to_multiset().insert(x).count(q[i]) > 0);
                assert(p.to_multiset().count(q[i]) > 0);
                assert(p.contains(q[i]));
                let k = choose|k: int| 0 <= k < p.len() && p[k] == q[i];
                assert(s[k] == p[k]);
            }
        }
        assert(s =~= p.push(s.last()));
    }
}

/// The sort's result is ordered by key and is a permutation of its input.
pub proof fn lemma_sort_by_key<V>(s: Seq<(i128, V)>)
    ensures
        sorted_by_key(sort_by_key(s)),
        sort_by_key(s).len() == s.len(),
        sort_by_key(s).to_multiset() == s.to_multiset(),
    decreases s.len(),
{
    broadcast use vstd::seq_lib::to_multiset_build;

    if s.len() > 0 {
        lemma_sort_by_key(s.drop_last());
        lemma_insert_sorted(sort_by_key(s.drop_last()), s.last());
        assert(s =~= s.drop_last().push(s.last()));
    }
}

/// Stable sort by key (insertion sort).
pub fn stable_sort_by_key<V: Copy>(v: &Vec<(i128, V)>) -> (r: Vec<(i128, V)>)
    ensures
        r@ == sort_by_key(v@),
{
    let mut out: Vec<(i128, V)> = Vec::new();
    let n = v.len();
    let mut i: usize = 0;
    while i < n
        invariant
            n == v@.len(),
            0 <= i <= n,
            out@ == sort_by_key(v@.take(i as int)),
        decreases n - i,
    {
        let x = v[i];
        let mut j = out.len();
        while j > 0 && out[j - 1].0 > x.0
            invariant
                0 <= j <= out@.len(),
                forall|k: int| j <= k < out@.len() ==> #[trigger] out@[k].0 > x.0,
            decreases j,
        {
            j -= 1;
        }
        proof {
            lemma_insert_position(out@, x, j as int);
            assert(v@.take(i + 1).drop_last() =~= v@.take(i as int));
            assert(v@.take(i + 1).last() == x);
        }
        out.insert(j, x);
        i += 1;
    }
    assert(v@.take(n as int) =~= v@);
    out
}

/// Stable sort by key (insertion sort), taking the elements by value.
pub fn stable_sort_by_key_owned<V>(v: Vec<(i128, V)>) -> (r: Vec<(i128, V)>)
    ensures
        r@ == sort_by_key(v@),
{
    let ghost orig = v@;
    let mut rest = v;
    let mut out: Vec<(i128, V)> = Vec::new();
    let n = rest.len();
    let mut i: usize = 0;
    while i < n
        invariant
            n == orig.len(),
            0 <= i <= n,
            rest@ == orig.skip(i as int),
            out@ == sort_by_key(orig.take(i as int)),
        decreases n - i,
    {
        let x = rest.remove(0);
        let mut j = out.len();
        while j > 0 && out[j - 1].0 > x.0
            invariant
                0 <= j <= out@.len(),
                forall|k: int| j <= k < out@.len() ==> #[trigger] out@[k].0 > x.0,
            decreases j,
        {
            j -= 1;
        }
        proof {
            lemma_insert_position(out@, x, j as int);
            assert(orig.take(i + 1).drop_last() =~= orig.take(i as int));
            assert(orig.take(i + 1).last() == x);
            assert(orig.skip(i as int).drop_first() =~= orig.skip(i + 1));
        }
        out.insert(j, x);
        i += 1;
    }
    assert(orig.take(n as int) =~= orig);
    out
}

} // verus!
