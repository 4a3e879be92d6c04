//! The key-value backend the limiter checks against: the interface the
//! surrounding service implements for its real store, and a verified
//! in-memory implementation.

use vstd::prelude::*;

verus! {

/// The backend failed a read or a write; the limiter fails closed on it.
#[derive(Clone, Copy, Debug, PartialEq, Eq)]
pub struct StoreError;

/// A key-value store holding one serialized window record per client.
///
/// `contents` is the map of entries the store holds, as the running
/// process observes it; `expiries` is the TTL each entry was last written
/// with, which the backend uses to discard an idle entry on its own.
/// `get` reads `contents` and a successful `put` replaces one entry of
/// both maps. Expiry between calls is the backend's business and not
/// modelled here.
pub trait KeyValueStore {
    /// The entries the store currently holds.
    spec fn contents(&self) -> Map<Seq<char>, Seq<char>>;

    /// The TTL each entry was last written with.
    spec fn expiries(&self) -> Map<Seq<char>, Option<u64>>;

    /// Read the value stored under `key`, if any.
    fn get(&self, key: &str) -> (r: Result<Option<String>, StoreError>)
        ensures
            r matches Ok(Some(v)) ==> self.contents().contains_key(key@) && self.contents()[key@]
                == v@,
            r matches Ok(None) ==> !self.contents().contains_key(key@),
    ;

    /// Store `value` under `key`, asking the backend to discard the entry
    /// after `ttl_seconds` of silence. A failed write either did not land
    /// or landed whole; it never touches another key.
    fn put(&mut self, key: &str, value: &str, ttl_seconds: Option<u64>) -> (r: Result<
        (),
        StoreError,
    >)
        ensures
            r is Ok ==> final(self).contents() == old(self).contents().insert(key@, value@)
                && final(self).expiries() == old(self).expiries().insert(key@, ttl_seconds),
            r is Err ==> (final(self).contents() == old(self).contents() && final(self).expiries()
                == old(self).expiries()) || (final(self).contents() == old(self).contents().insert(
                key@,
                value@,
            ) && final(self).expiries() == old(self).expiries().insert(key@, ttl_seconds)),
    ;
}

/// An in-memory store: a list of entries in which the newest entry for a
/// key shadows the older ones. It never fails, and it keeps the TTL each
/// entry was written with without acting on it, which makes it the
/// reference implementation for tests.
pub struct MemStore {
    entries: Vec<(String, String, Option<u64>)>,
}

impl MemStore {
    /// The value map an entry list holds, earlier entries shadowing later
    /// ones.
    pub closed spec fn map_of(s: Seq<(String, String, Option<u64>)>) -> Map<Seq<char>, Seq<char>>
        decreases s.len(),
    {
        if s.len() == 0 {
            Map::empty()
        } else {
            Self::map_of(s.skip(1)).insert(s[0].0@, s[0].1@)
        }
    }

    /// The TTL map of the same list, shadowed the same way.
    pub closed spec fn ttls_of(s: Seq<(String, String, Option<u64>)>) -> Map<
        Seq<char>,
        Option<u64>,
    >
        decreases s.len(),
    {
        if s.len() == 0 {
            Map::empty()
        } else {
            Self::ttls_of(s.skip(1)).insert(s[0].0@, s[0].2)
        }
    }

    /// An empty store.
    pub fn new() -> (r: Self)
        ensures
            r.contents() == Map::<Seq<char>, Seq<char>>::empty(),
            r.expiries() == Map::<Seq<char>, Option<u64>>::empty(),
    {
        MemStore { entries: Vec::new() }
    }

    /// The TTL the entry under `key` was last written with: `None` for no
    /// entry, otherwise the stored `ttl_seconds` argument.
    pub fn stored_ttl(&self, key: &str) -> (r: Option<Option<u64>>)
        ensures
            r is Some <==> self.expiries().contains_key(key@),
            r is Some ==> r.unwrap() == self.expiries()[key@],
    {
        let wanted = key.to_owned();
        let mut i: usize = 0;
        while i < self.entries.len()
            invariant
                i <= self.entries.len(),
                wanted@ == key@,
                forall|j: int| 0 <= j < i ==> (#[trigger] self.entries@[j]).0@ != key@,
            decreases self.entries.len() - i,
        {
            if self.entries[i].0 == wanted {
                proof {
                    Self::lemma_first_entry(self.entries@, i as int);
                }
                return Some(self.entries[i].2);
            }
            i = i + 1;
        }
        proof {
            Self::lemma_no_entry(self.entries@, key@);
        }
        None
    }

    /// A list without an entry for `k` maps no value and no TTL to `k`.
    proof fn lemma_no_entry(s: Seq<(String, String, Option<u64>)>, k: Seq<char>)
        requires
            forall|j: int| 0 <= j < s.len() ==> (#[trigger] s[j]).0@ != k,
        ensures
            !Self::map_of(s).contains_key(k),
            !Self::ttls_of(s).contains_key(k),
        decreases s.len(),
    {
        if s.len() > 0 {
            assert(forall|j: int| 0 <= j < s.skip(1).len() ==> (#[trigger] s.skip(1)[j]).0@ != k);
            Self::lemma_no_entry(s.skip(1), k);
        }
    }

    /// The first entry for a key decides the value and the TTL the list
    /// maps it to.
    proof fn lemma_first_entry(s: Seq<(String, String, Option<u64>)>, i: int)
        requires
            0 <= i < s.len(),
            forall|j: int| 0 <= j < i ==> (#[trigger] s[j]).0@ != s[i].0@,
        ensures
            Self::map_of(s).contains_key(s[i].0@),
            Self::map_of(s)[s[i].0@] == s[i].1@,
            Self::ttls_of(s).contains_key(s[i].0@),
            Self::ttls_of(s)[s[i].0@] == s[i].2,
        decreases i,
    {
        if i > 0 {
            assert(s.skip(1)[i - 1] == s[i]);
            assert(forall|j: int| 0 <= j < i - 1 ==> (#[trigger] s.skip(1)[j]).0@ == s[j + 1].0@);
            Self::lemma_first_entry(s.skip(1), i - 1);
        }
    }
}

impl KeyValueStore for MemStore {
    closed spec fn contents(&self) -> Map<Seq<char>, Seq<char>> {
        Self::map_of(self.entries@)
    }

    closed spec fn expiries(&self) -> Map<Seq<char>, Option<u64>> {
        Self::ttls_of(self.entries@)
    }

    fn get(&self, key: &str) -> (r: Result<Option<String>, StoreError>)
        ensures
            r is Ok,
    {
        let wanted = key.to_owned();
        let mut i: usize = 0;
        while i < self.entries.len()
            invariant
                i <= self.entries.len(),
                wanted@ == key@,
                forall|j: int| 0 <= j < i ==> (#[trigger] self.entries@[j]).0@ != key@,
            decreases self.entries.len() - i,
        {
            if self.entries[i].0 == wanted {
                proof {
                    Self::lemma_first_entry(self.entries@, i as int);
                }
                return Ok(Some(self.entries[i].1.clone()));
            }
            i = i + 1;
        }
        proof {
            Self::lemma_no_entry(self.entries@, key@);
        }
        Ok(None)
    }

    fn put(&mut self, key: &str, value: &str, ttl_seconds: Option<u64>) -> (r: Result<
        (),
        StoreError,
    >)
        ensures
            r is Ok,
    {
        let entry = (key.to_owned(), value.to_owned(), ttl_seconds);
        self.entries.insert(0, entry);
        proof {
            assert(self.entries@.skip(1) =~= old(self).entries@);
        }
        Ok(())
    }
}

} // verus!
