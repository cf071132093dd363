//! Profile metadata (display name, avatar) per identity. A newer timestamp
//! wins; names can be searched with a case-insensitive partial match.
//!
//! Timestamps are compared as signed 64-bit integers, the way a SQL store
//! holds them. The name search finds the names that contain the query,
//! every character of the query taken literally and ASCII letters compared
//! regardless of case.
use vstd::prelude::*;
use vstd::string::StringExecFns;
use vstd::string::StrSliceExecFns;

use crate::bytes::bytes32_eq;

verus! {

/// Errors of the profile store. The in-memory store itself never fails; a
/// persistent backing store reports its failures with this type.
#[derive(Debug)]
pub enum ProfileStoreError {
    Db(String),
}

impl ProfileStoreError {
    /// The text of the error.
    pub open spec fn spec_message(&self) -> Seq<char> {
        match self {
            ProfileStoreError::Db(m) => "SQLite error: "@ + m@,
        }
    }

    /// The text of the error.
    pub fn message(&self) -> (r: String)
        ensures
            r@ == self.spec_message(),
    {
        match self {
            ProfileStoreError::Db(m) => {
                let mut r = String::from_str("SQLite error: ");
                r.append(m.as_str());
                r
            },
        }
    }
}

/// Profile metadata for an identity — display name, avatar, etc.
#[derive(Debug)]
pub struct ProfileMeta {
    pub pubkey: [u8; 32],
    pub display_name: Option<String>,
    pub avatar: Option<String>,
    pub timestamp: u64,
}

impl Clone for ProfileMeta {
    fn clone(&self) -> (r: Self)
        ensures
            r == *self,
    {
        ProfileMeta {
            pubkey: self.pubkey,
            display_name: match &self.display_name {
                Some(n) => Some(n.clone()),
                None => None,
            },
            avatar: match &self.avatar {
                Some(a) => Some(a.clone()),
                None => None,
            },
            timestamp: self.timestamp,
        }
    }
}

/// The code of a character with ASCII capitals folded to lower case.
pub open spec fn folded(c: char) -> u32 {
    if 65 <= (c as u32) <= 90 {
        ((c as u32) + 32) as u32
    } else {
        c as u32
    }
}

/// Whether `query` occurs in `text` at offset `o`, ASCII letters compared
/// regardless of case.
pub open spec fn occurs_folded_at(query: Seq<char>, text: Seq<char>, o: int) -> bool {
    &&& 0 <= o
    &&& o + query.len() <= text.len()
    &&& forall|j: int| 0 <= j < query.len() ==> folded(#[trigger] query[j]) == folded(text[o + j])
}

/// Whether `query` occurs anywhere in `text`, ASCII letters compared
/// regardless of case. Every character of the query stands for itself.
pub open spec fn contains_folded(query: Seq<char>, text: Seq<char>) -> bool {
    exists|o: int| occurs_folded_at(query, text, o)
}

/// Whether a profile's display name matches a search.
pub open spec fn name_matches(m: ProfileMeta, query: Seq<char>) -> bool {
    m.display_name matches Some(n) && contains_folded(query, n@)
}

/// The profiles whose display name matches a search, in storage order.
pub open spec fn profiles_matching(profiles: Seq<ProfileMeta>, query: Seq<char>) -> Seq<ProfileMeta>
    decreases profiles.len(),
{
    if profiles.len() == 0 {
        profiles
    } else {
        let rest = profiles_matching(profiles.drop_last(), query);
        if name_matches(profiles.last(), query) {
            rest.push(profiles.last())
        } else {
            rest
        }
    }
}

/// The index of the profile of a public key, if stored.
pub open spec fn profile_index(profiles: Seq<ProfileMeta>, pubkey: [u8; 32]) -> Option<int>
    decreases profiles.len(),
{
    if profiles.len() == 0 {
        None
    } else {
        match profile_index(profiles.drop_last(), pubkey) {
            Some(i) => Some(i),
            None => if profiles.last().pubkey == pubkey {
                Some(profiles.len() - 1)
            } else {
                None
            },
        }
    }
}

/// The profiles after `set_profile(meta)`: a new key is appended; a stored
/// one takes the new values only when the new timestamp is later (as
/// signed integers).
pub open spec fn profiles_after_set(profiles: Seq<ProfileMeta>, meta: ProfileMeta) -> Seq<
    ProfileMeta,
> {
    match profile_index(profiles, meta.pubkey) {
        None => profiles.push(meta),
        Some(i) => if (meta.timestamp as i64) > (profiles[i].timestamp as i64) {
            profiles.update(i, meta)
        } else {
            profiles
        },
    }
}

/// The stored profile of a public key, as `get_profile` reads it.
pub open spec fn stored_profile(profiles: Seq<ProfileMeta>, pubkey: [u8; 32]) -> Option<ProfileMeta> {
    match profile_index(profiles, pubkey) {
        Some(i) => Some(profiles[i]),
        None => None,
    }
}

/// Where a profile index points: at a profile of that key.
proof fn lemma_profile_index_bound(profiles: Seq<ProfileMeta>, pubkey: [u8; 32])
    ensures
        profile_index(profiles, pubkey) matches Some(i) ==> 0 <= i < profiles.len()
            && profiles[i].pubkey == pubkey,
    decreases profiles.len(),
{
    if profiles.len() > 0 {
        lemma_profile_index_bound(profiles.drop_last(), pubkey);
    }
}

/// The profile index depends on the keys alone.
proof fn lemma_profile_index_keys(a: Seq<ProfileMeta>, b: Seq<ProfileMeta>, pubkey: [u8; 32])
    requires
        a.len() == b.len(),
        forall|j: int| 0 <= j < a.len() ==> #[trigger] a[j].pubkey == b[j].pubkey,
    ensures
        profile_index(a, pubkey) == profile_index(b, pubkey),
    decreases a.len(),
{
    if a.len() > 0 {
        lemma_profile_index_keys(a.drop_last(), b.drop_last(), pubkey);
        assert(a.last().pubkey == b.last().pubkey);
    }
}

/// Setting a profile keeps the newest profile of its key: afterwards the
/// key reads the new profile when it had none or the new one is later (as
/// signed integers), and the old one otherwise. Every other key reads what
/// it read before.
pub proof fn lemma_set_profile(profiles: Seq<ProfileMeta>, meta: ProfileMeta)
    ensures
        stored_profile(profiles_after_set(profiles, meta), meta.pubkey) == Some(
            match stored_profile(profiles, meta.pubkey) {
                None => meta,
                Some(old) => if (meta.timestamp as i64) > (old.timestamp as i64) {
                    meta
                } else {
                    old
                },
            },
        ),
        forall|k: [u8; 32]|
            k != meta.pubkey ==> #[trigger] stored_profile(profiles_after_set(profiles, meta), k)
                == stored_profile(profiles, k),
{
    let after = profiles_after_set(profiles, meta);
    lemma_profile_index_bound(profiles, meta.pubkey);
    match profile_index(profiles, meta.pubkey) {
        None => {
            assert(after.drop_last() =~= profiles);
            assert forall|k: [u8; 32]| k != meta.pubkey implies #[trigger] stored_profile(after, k)
                == stored_profile(profiles, k) by {
                lemma_profile_index_bound(profiles, k);
            }
        },
        Some(i) => {
            if (meta.timestamp as i64) > (profiles[i].timestamp as i64) {
                assert forall|k: [u8; 32]| #[trigger] profile_index(after, k) == profile_index(profiles, k) by {
                    lemma_profile_index_keys(after, profiles, k);
                }
                assert forall|k: [u8; 32]| k != meta.pubkey implies #[trigger] stored_profile(after, k)
                    == stored_profile(profiles, k) by {
                    lemma_profile_index_bound(profiles, k);
                    assert(profile_index(after, k) == profile_index(profiles, k));
                }
                assert(profile_index(after, meta.pubkey) == profile_index(profiles, meta.pubkey));
            }
        },
    }
}

/// Profile metadata storage: the profiles in storage order.
pub struct ProfileStore {
    profiles: Vec<ProfileMeta>,
}

impl View for ProfileStore {
    type V = Seq<ProfileMeta>;

    closed spec fn view(&self) -> Seq<ProfileMeta> {
        self.profiles@
    }
}

/// The characters of a string.
pub(crate) fn chars_of(s: &str) -> (r: Vec<char>)
    ensures
        r@ == s@,
{
    let n = s.unicode_len();
    let mut out: Vec<char> = Vec::new();
    let mut i: usize = 0;
    while i < n
        invariant
            n == s@.len(),
            0 <= i <= n,
            out@ == s@.take(i as int),
        decreases n - i,
    {
        out.push(s.get_char(i));
        i += 1;
        assert(out@ =~= s@.take(i as int));
    }
    assert(s@.take(n as int) =~= s@);
    out
}

fn fold_char(c: char) -> (r: u32)
    ensures
        r == folded(c),
{
    let code = c as u32;
    if code >= 65 && code <= 90 {
        code + 32
    } else {
        code
    }
}

/// Whether `query` occurs in `text` at offset `o`.
fn occurs_at(query: &Vec<char>, text: &Vec<char>, o: usize) -> (r: bool)
    requires
        o + query@.len() <= text@.len(),
    ensures
        r == occurs_folded_at(query@, text@, o as int),
{
    let n = query.len();
    let mut j: usize = 0;
    while j < n
        invariant
            n == query@.len(),
            o + n <= text.len(),
            0 <= j <= n,
            forall|k: int| 0 <= k < j ==> folded(#[trigger] query@[k]) == folded(text@[o + k]),
        decreases n - j,
    {
        if fold_char(query[j]) != fold_char(text[o + j]) {
            return false;
        }
        j += 1;
    }
    true
}

/// Whether `query` occurs anywhere in `text`.
fn contains_query(query: &Vec<char>, text: &Vec<char>) -> (r: bool)
    ensures
        r == contains_folded(query@, text@),
{
    let n = query.len();
    let m = text.len();
    if n > m {
        assert forall|o: int| !occurs_folded_at(query@, text@, o) by {}
        return false;
    }
    let mut o: usize = 0;
    while o <= m - n
        invariant
            n == query@.len(),
            m == text@.len(),
            n <= m,
            0 <= o <= m - n + 1,
            forall|p: int| 0 <= p < o ==> !#[trigger] occurs_folded_at(query@, text@, p),
        decreases m - n + 1 - o,
    {
        if occurs_at(query, text, o) {
            return true;
        }
        o += 1;
    }
    assert forall|p: int| !occurs_folded_at(query@, text@, p) by {
        if 0 <= p < o {
        }
    }
    false
}

impl ProfileStore {
    /// A new, empty profile store.
    pub fn new() -> (r: Self)
        ensures
            r@ == Seq::<ProfileMeta>::empty(),
    {
        ProfileStore { profiles: Vec::new() }
    }

    /// Open an in-memory profile store, empty.
    pub fn open_in_memory() -> (r: Result<Self, ProfileStoreError>)
        ensures
            r matches Ok(s) && s@ == Seq::<ProfileMeta>::empty(),
    {
        Ok(Self::new())
    }

    fn find(&self, pubkey: &[u8; 32]) -> (r: Option<usize>)
        ensures
            r is None <==> profile_index(self@, *pubkey) is None,
            r matches Some(i) ==> profile_index(self@, *pubkey) == Some(i as int) && i
                < self@.len(),
    {
        let n = self.profiles.len();
        let mut i: usize = 0;
        while i < n
            invariant
                n == self.profiles@.len(),
                0 <= i <= n,
                profile_index(self.profiles@.take(i as int), *pubkey) is None,
            decreases n - i,
        {
            assert(self.profiles@.take(i + 1).drop_last() =~= self.profiles@.take(i as int));
            if bytes32_eq(&self.profiles[i].pubkey, pubkey) {
                proof {
                    lemma_profile_index_prefix(self.profiles@, *pubkey, i as int);
                }
                return Some(i);
            }
            i += 1;
        }
        assert(self.profiles@.take(n as int) =~= self.profiles@);
        None
    }

    /// Set or update profile metadata. Only updates if timestamp is newer.
    pub fn set_profile(&mut self, meta: &ProfileMeta) -> (r: Result<(), ProfileStoreError>)
        ensures
            r is Ok,
            final(self)@ == profiles_after_set(old(self)@, *meta),
    {
        match self.find(&meta.pubkey) {
            None => {
                self.profiles.push(meta.clone());
            },
            Some(i) => {
                if (meta.timestamp as i64) > (self.profiles[i].timestamp as i64) {
                    self.profiles.set(i, meta.clone());
                }
            },
        }
        Ok(())
    }

    /// Get profile metadata for a pubkey.
    pub fn get_profile(&self, pubkey: &[u8; 32]) -> (r: Result<Option<ProfileMeta>, ProfileStoreError>)
        ensures
            r matches Ok(o) && o == match profile_index(self@, *pubkey) {
                Some(i) => Some(self@[i]),
                None => None,
            },
    {
        match self.find(pubkey) {
            Some(i) => Ok(Some(self.profiles[i].clone())),
            None => Ok(None),
        }
    }

    /// Get display name for a pubkey (convenience).
    pub fn get_display_name(&self, pubkey: &[u8; 32]) -> (r: Result<Option<String>, ProfileStoreError>)
        ensures
            r matches Ok(o) && o == match profile_index(self@, *pubkey) {
                Some(i) => self@[i].display_name,
                None => None,
            },
    {
        match self.get_profile(pubkey) {
            Ok(Some(p)) => Ok(p.display_name),
            _ => Ok(None),
        }
    }

    /// Get all profiles (for sync).
    pub fn get_all_profiles(&self) -> (r: Result<Vec<ProfileMeta>, ProfileStoreError>)
        ensures
            r matches Ok(v) && v@ == self@,
    {
        let mut out: Vec<ProfileMeta> = Vec::new();
        let n = self.profiles.len();
        let mut i: usize = 0;
        while i < n
            invariant
                n == self.profiles@.len(),
                0 <= i <= n,
                out@ == self.profiles@.take(i as int),
            decreases n - i,
        {
            out.push(self.profiles[i].clone());
            i += 1;
            assert(out@ =~= self.profiles@.take(i as int));
        }
        assert(self.profiles@.take(n as int) =~= self.profiles@);
        Ok(out)
    }

    /// Search profiles by display name (case-insensitive partial match).
    pub fn search_by_name(&self, query: &str) -> (r: Result<Vec<ProfileMeta>, ProfileStoreError>)
        ensures
            r matches Ok(v) && v@ == profiles_matching(self@, query@),
    {
        let q = chars_of(query);
        let mut out: Vec<ProfileMeta> = Vec::new();
        let n = self.profiles.len();
        let mut i: usize = 0;
        while i < n
            invariant
                n == self.profiles@.len(),
                0 <= i <= n,
                q@ == query@,
                out@ == profiles_matching(self.profiles@.take(i as int), query@),
            decreases n - i,
        {
            assert(self.profiles@.take(i + 1).drop_last() =~= self.profiles@.take(i as int));
            assert(self.profiles@.take(i + 1).last() == self.profiles@[i as int]);
            let hit = match &self.profiles[i].display_name {
                Some(name) => {
                    let chars = chars_of(name.as_str());
                    contains_query(&q, &chars)
                },
                None => false,
            };
            if hit {
                out.push(self.profiles[i].clone());
            }
            i += 1;
        }
        assert(self.profiles@.take(n as int) =~= self.profiles@);
        Ok(out)
    }
}

/// Once a prefix holds no profile of the key, the first one at `i` is the
/// answer.
proof fn lemma_profile_index_prefix(profiles: Seq<ProfileMeta>, pubkey: [u8; 32], i: int)
    requires
        0 <= i < profiles.len(),
        profile_index(profiles.take(i), pubkey) is None,
        profiles[i].pubkey == pubkey,
    ensures
        profile_index(profiles, pubkey) == Some(i),
    decreases profiles.len(),
{
    if i == profiles.len() - 1 {
        assert(profiles.drop_last() =~= profiles.take(i));
    } else {
        assert(profiles.drop_last().take(i) =~= profiles.take(i));
        lemma_profile_index_prefix(profiles.drop_last(), pubkey, i);
    }
}

} // verus!
