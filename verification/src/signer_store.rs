//! Signers of content: the same text posted by different people (or by the
//! same person at different times) is one content hash with several signer
//! records.
use vstd::prelude::*;
use vstd::string::StringExecFns;

use crate::branch_store::signed_time;
use crate::bytes::bytes32_eq;
use crate::sorting::{sort_by_key, stable_sort_by_key};

verus! {

/// Errors of the signer store. The in-memory store itself never fails; a
/// persistent backing store reports its failures with this type.
#[derive(Debug)]
pub enum SignerStoreError {
    Db(String),
}

impl SignerStoreError {
    /// The text of the error.
    pub open spec fn spec_message(&self) -> Seq<char> {
        match self {
            SignerStoreError::Db(m) => "SQLite error: "@ + m@,
        }
    }

    /// The text of the error.
    pub fn message(&self) -> (r: String)
        ensures
            r@ == self.spec_message(),
    {
        match self {
            SignerStoreError::Db(m) => {
                let mut r = String::from_str("SQLite error: ");
                r.append(m.as_str());
                r
            },
        }
    }
}

/// A signer record — one person's signature on a content hash.
#[derive(Debug, Clone, Copy)]
pub struct SignerRecord {
    pub content_hash: [u8; 32],
    pub author_pubkey: [u8; 32],
    pub timestamp: u64,
    pub signature: [u8; 64],
}

/// Whether two records share their key (content hash, author, timestamp).
pub open spec fn same_signer_key(a: SignerRecord, b: SignerRecord) -> bool {
    a.content_hash == b.content_hash && a.author_pubkey == b.author_pubkey && a.timestamp
        == b.timestamp
}

/// Whether a record with the key of `r` is stored.
pub open spec fn has_signer_key(records: Seq<SignerRecord>, r: SignerRecord) -> bool {
    exists|i: int| 0 <= i < records.len() && same_signer_key(#[trigger] records[i], r)
}

/// The records after adding `r`: kept as they are when a record with its
/// key is stored, else with `r` appended.
pub open spec fn signers_after_add(records: Seq<SignerRecord>, r: SignerRecord) -> Seq<SignerRecord> {
    if has_signer_key(records, r) {
        records
    } else {
        records.push(r)
    }
}

/// Adding a signer record stores its key, and adding the same record again
/// changes nothing.
pub proof fn lemma_add_signer_idempotent(records: Seq<SignerRecord>, r: SignerRecord)
    ensures
        has_signer_key(signers_after_add(records, r), r),
        signers_after_add(signers_after_add(records, r), r) == signers_after_add(records, r),
{
    let a = signers_after_add(records, r);
    if !has_signer_key(records, r) {
        assert(same_signer_key(a[a.len() - 1], r));
    }
}

/// The records of a content hash, keyed by timestamp, in storage order.
pub open spec fn records_for(records: Seq<SignerRecord>, content_hash: [u8; 32]) -> Seq<
    (i128, SignerRecord),
>
    decreases records.len(),
{
    if records.len() == 0 {
        Seq::empty()
    } else {
        let rest = records_for(records.drop_last(), content_hash);
        if records.last().content_hash == content_hash {
            rest.push((signed_time(records.last().timestamp), records.last()))
        } else {
            rest
        }
    }
}

/// The number of distinct authors among keyed records.
pub open spec fn distinct_authors(s: Seq<(i128, SignerRecord)>) -> nat
    decreases s.len(),
{
    if s.len() == 0 {
        0
    } else {
        let prev = s.drop_last();
        distinct_authors(prev) + if exists|k: int|
            0 <= k < prev.len() && (#[trigger] prev[k]).1.author_pubkey == s.last().1.author_pubkey {
            0nat
        } else {
            1nat
        }
    }
}

/// There are never more distinct authors than records.
pub proof fn lemma_distinct_authors_bound(s: Seq<(i128, SignerRecord)>)
    ensures
        distinct_authors(s) <= s.len(),
    decreases s.len(),
{
    if s.len() > 0 {
        lemma_distinct_authors_bound(s.drop_last());
    }
}

/// The authors of the stored records of content `h`.
pub open spec fn signer_authors(records: Seq<SignerRecord>, h: [u8; 32]) -> Set<[u8; 32]> {
    Set::new(
        |a: [u8; 32]|
            exists|k: int|
                0 <= k < records.len() && (#[trigger] records[k]).content_hash == h
                    && records[k].author_pubkey == a,
    )
}

/// The distinct-author count of the records of `h` is the number of
/// authors among them, and an author is among them exactly when one of the
/// records of `h` names it.
proof fn lemma_authors_counted(records: Seq<SignerRecord>, h: [u8; 32])
    ensures
        signer_authors(records, h).finite(),
        distinct_authors(records_for(records, h)) == signer_authors(records, h).len(),
        forall|a: [u8; 32]|
            #[trigger] signer_authors(records, h).contains(a) <==> exists|i: int|
                0 <= i < records_for(records, h).len() && (#[trigger] records_for(
                    records,
                    h,
                )[i]).1.author_pubkey == a,
    decreases records.len(),
{
    let all = signer_authors(records, h);
    let rf = records_for(records, h);
    if records.len() == 0 {
        assert(all =~= Set::<[u8; 32]>::empty());
    } else {
        let d = records.drop_last();
        let last = records.last();
        lemma_authors_counted(d, h);
        let ad = signer_authors(d, h);
        let rfd = records_for(d, h);
        if last.content_hash == h {
            assert(rf == rfd.push((signed_time(last.timestamp), last)));
            assert(rf.drop_last() =~= rfd);
            assert forall|a: [u8; 32]| all.contains(a) <==> ad.insert(last.author_pubkey).contains(a) by {
                if all.contains(a) {
                    let k = choose|k: int|
                        0 <= k < records.len() && (#[trigger] records[k]).content_hash == h
                            && records[k].author_pubkey == a;
                    if k < d.len() {
                        assert(d[k] == records[k]);
                    }
                }
                if ad.contains(a) {
                    let k = choose|k: int|
                        0 <= k < d.len() && (#[trigger] d[k]).content_hash == h
                            && d[k].author_pubkey == a;
                    assert(records[k] == d[k]);
                }
                if a == last.author_pubkey {
                    assert(records[records.len() - 1] == last);
                }
            }
            assert(all =~= ad.insert(last.author_pubkey));
            let seen = exists|k: int|
                0 <= k < rfd.len() && (#[trigger] rfd[k]).1.author_pubkey == last.author_pubkey;
            assert(seen <==> ad.contains(last.author_pubkey));
            if !seen {
                assert(!ad.contains(last.author_pubkey));
            }
            assert forall|a: [u8; 32]| #[trigger] all.contains(a) <==> exists|i: int|
                0 <= i < rf.len() && (#[trigger] rf[i]).1.author_pubkey == a by {
                if ad.contains(a) {
                    let i = choose|i: int| 0 <= i < rfd.len() && (#[trigger] rfd[i]).1.author_pubkey == a;
                    assert(rf[i] == rfd[i]);
                }
                if a == last.author_pubkey {
                    assert(rf[rf.len() - 1].1 == last);
                }
                if exists|i: int| 0 <= i < rf.len() && (#[trigger] rf[i]).1.author_pubkey == a {
                    let i = choose|i: int| 0 <= i < rf.len() && (#[trigger] rf[i]).1.author_pubkey == a;
                    if i < rfd.len() {
                        assert(rf[i] == rfd[i]);
                    }
                }
            }
        } else {
            assert(rf == rfd);
            assert forall|a: [u8; 32]| all.contains(a) <==> ad.contains(a) by {
                if all.contains(a) {
                    let k = choose|k: int|
                        0 <= k < records.len() && (#[trigger] records[k]).content_hash == h
                            && records[k].author_pubkey == a;
                    if k < d.len() {
                        assert(d[k] == records[k]);
                    }
                }
                if ad.contains(a) {
                    let k = choose|k: int|
                        0 <= k < d.len() && (#[trigger] d[k]).content_hash == h
                            && d[k].author_pubkey == a;
                    assert(records[k] == d[k]);
                }
            }
            assert(all =~= ad);
        }
    }
}

/// The number of unique authors that `unique_author_count` gives for a
/// content hash is the number of distinct authors among its stored signer
/// records: each author counts once, however many records name it and in
/// whatever order they were stored.
pub proof fn lemma_unique_authors_of_records(records: Seq<SignerRecord>, h: [u8; 32])
    ensures
        signer_authors(records, h).finite(),
        distinct_authors(records_for(records, h)) == signer_authors(records, h).len(),
{
    lemma_authors_counted(records, h);
}

/// Tracks multiple signers per content hash.
pub struct SignerStore {
    records: Vec<SignerRecord>,
}

impl View for SignerStore {
    type V = Seq<SignerRecord>;

    closed spec fn view(&self) -> Seq<SignerRecord> {
        self.records@
    }
}

impl SignerStore {
    /// A new, empty signer store.
    pub fn new() -> (r: Self)
        ensures
            r@ == Seq::<SignerRecord>::empty(),
    {
        SignerStore { records: Vec::new() }
    }

    /// Open an in-memory signer store, empty.
    pub fn open_in_memory() -> (r: Result<Self, SignerStoreError>)
        ensures
            r matches Ok(s) && s@ == Seq::<SignerRecord>::empty(),
    {
        Ok(Self::new())
    }

    /// Record a signer for a content hash; a record with the same content
    /// hash, author and timestamp is kept and the new one ignored.
    pub fn add_signer(&mut self, record: &SignerRecord) -> (r: Result<(), SignerStoreError>)
        ensures
            r is Ok,
            final(self)@ == signers_after_add(old(self)@, *record),
    {
        let n = self.records.len();
        let mut i: usize = 0;
        while i < n
            invariant
                n == self.records@.len(),
                0 <= i <= n,
                forall|k: int| 0 <= k < i ==> !same_signer_key(#[trigger] self.records@[k], *record),
            decreases n - i,
        {
            let x = self.records[i];
            if bytes32_eq(&x.content_hash, &record.content_hash) && bytes32_eq(
                &x.author_pubkey,
                &record.author_pubkey,
            ) && x.timestamp == record.timestamp {
                return Ok(());
            }
            i += 1;
        }
        self.records.push(*record);
        Ok(())
    }

    fn keyed_records(&self, content_hash: &[u8; 32]) -> (r: Vec<(i128, SignerRecord)>)
        ensures
            r@ == records_for(self@, *content_hash),
    {
        let mut keyed: Vec<(i128, SignerRecord)> = Vec::new();
        let n = self.records.len();
        let mut i: usize = 0;
        while i < n
            invariant
                n == self.records@.len(),
                0 <= i <= n,
                keyed@ == records_for(self.records@.take(i as int), *content_hash),
            decreases n - i,
        {
            let x = self.records[i];
            assert(self.records@.take(i + 1).drop_last() =~= self.records@.take(i as int));
            assert(self.records@.take(i + 1).last() == x);
            if bytes32_eq(&x.content_hash, content_hash) {
                keyed.push(((x.timestamp as i64) as i128, x));
            }
            i += 1;
        }
        assert(self.records@.take(n as int) =~= self.records@);
        keyed
    }

    /// Get all signers for a content hash, ordered by timestamp (stable).
    pub fn get_signers(&self, content_hash: &[u8; 32]) -> (r: Result<Vec<SignerRecord>, SignerStoreError>)
        ensures
            r matches Ok(v) && v@ == sort_by_key(records_for(self@, *content_hash)).map_values(
                |p: (i128, SignerRecord)| p.1,
            ),
    {
        let keyed = self.keyed_records(content_hash);
        let sorted = stable_sort_by_key(&keyed);
        let mut out: Vec<SignerRecord> = Vec::new();
        let m = sorted.len();
        let mut j: usize = 0;
        while j < m
            invariant
                m == sorted@.len(),
                0 <= j <= m,
                out@ == sorted@.take(j as int).map_values(|p: (i128, SignerRecord)| p.1),
            decreases m - j,
        {
            out.push(sorted[j].1);
            assert(sorted@.take(j + 1).map_values(|p: (i128, SignerRecord)| p.1) =~= sorted@.take(
                j as int,
            ).map_values(|p: (i128, SignerRecord)| p.1).push(sorted@[j as int].1));
            j += 1;
        }
        assert(sorted@.take(m as int) =~= sorted@);
        Ok(out)
    }

    /// Count signers for a content hash.
    pub fn signer_count(&self, content_hash: &[u8; 32]) -> (r: Result<usize, SignerStoreError>)
        ensures
            r matches Ok(n) && n == records_for(self@, *content_hash).len(),
    {
        Ok(self.keyed_records(content_hash).len())
    }

    /// Count unique authors for a content hash.
    pub fn unique_author_count(&self, content_hash: &[u8; 32]) -> (r: Result<usize, SignerStoreError>)
        ensures
            r matches Ok(n) && n == distinct_authors(records_for(self@, *content_hash)),
    {
        let keyed = self.keyed_records(content_hash);
        let m = keyed.len();
        let mut count: usize = 0;
        let mut j: usize = 0;
        while j < m
            invariant
                m == keyed@.len(),
                0 <= j <= m,
                count == distinct_authors(keyed@.take(j as int)),
                count <= j,
            decreases m - j,
        {
            let author = keyed[j].1.author_pubkey;
            let mut seen = false;
            let mut k: usize = 0;
            while k < j
                invariant
                    0 <= k <= j < m,
                    m == keyed@.len(),
                    author == keyed@[j as int].1.author_pubkey,
                    seen == exists|q: int|
                        0 <= q < k && (#[trigger] keyed@[q]).1.author_pubkey == author,
                decreases j - k,
            {
                if bytes32_eq(&keyed[k].1.author_pubkey, &author) {
                    seen = true;
                }
                k += 1;
            }
            proof {
                let t = keyed@.take(j + 1);
                let prev = t.drop_last();
                assert(prev =~= keyed@.take(j as int));
                assert(t.last() == keyed@[j as int]);
                if seen {
                    let q = choose|q: int| 0 <= q < j && (#[trigger] keyed@[q]).1.author_pubkey == author;
                    assert(prev[q] == keyed@[q]);
                }
                if exists|q: int| 0 <= q < prev.len() && (#[trigger] prev[q]).1.author_pubkey == author {
                    let q = choose|q: int| 0 <= q < prev.len() && (#[trigger] prev[q]).1.author_pubkey == author;
                    assert(keyed@[q] == prev[q]);
                }
            }
            if !seen {
                count += 1;
            }
            j += 1;
        }
        assert(keyed@.take(m as int) =~= keyed@);
        Ok(count)
    }
}

} // verus!
