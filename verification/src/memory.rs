//! The in-memory key/value store: an ordered map from byte-string keys to
//! byte-string values with a cached content hash.
//!
//! Entries are held sorted by key in the lexicographic order, so the sequence
//! of entries is a canonical form of the key/value content: two stores that
//! hold the same content hold the same entries in the same order, and the
//! content hash — computed over the entries in key order — depends on the
//! content alone, not on the order of insertion.

use vstd::prelude::*;
use vstd::slice::slice_to_vec;

use crate::bytes::{byte_cmp, lemma_lex_transitive, lemma_lex_trichotomy, lex_lt, ByteOrder};
use crate::errors::HostError;
use crate::hashing::{content_bytes, content_hash_of, entries_bytes, entry_bytes, sha3_256};

verus! {

/// The entries of a store, each as a pair of byte sequences.
pub open spec fn pairs_view(s: Seq<(Vec<u8>, Vec<u8>)>) -> Seq<(Seq<u8>, Seq<u8>)> {
    s.map_values(|p: (Vec<u8>, Vec<u8>)| (p.0@, p.1@))
}

/// Whether the entries' keys are strictly increasing in the lexicographic
/// order; strictness makes every key unique.
pub open spec fn entries_sorted(s: Seq<(Seq<u8>, Seq<u8>)>) -> bool {
    forall|i: int, j: int|
        0 <= i < j < s.len() ==> #[trigger] lex_lt(s[i].0, s[j].0)
}

/// The key/value mapping that a run of entries holds; a later entry under the
/// same key wins.
pub open spec fn map_of(s: Seq<(Seq<u8>, Seq<u8>)>) -> Map<Seq<u8>, Seq<u8>>
    decreases s.len(),
{
    if s.len() == 0 {
        Map::empty()
    } else {
        map_of(s.drop_last()).insert(s.last().0, s.last().1)
    }
}

/// A run of entries holds a key exactly when one of its entries carries it.
pub proof fn lemma_map_of_contains(s: Seq<(Seq<u8>, Seq<u8>)>, k: Seq<u8>)
    ensures
        map_of(s).contains_key(k) <==> exists|i: int| 0 <= i < s.len() && (#[trigger] s[i]).0 == k,
    decreases s.len(),
{
    if s.len() > 0 {
        lemma_map_of_contains(s.drop_last(), k);
        if s.last().0 == k {
            assert((s[s.len() - 1]).0 == k);
        } else {
            if exists|i: int| 0 <= i < s.len() && (#[trigger] s[i]).0 == k {
                let i = choose|i: int| 0 <= i < s.len() && (#[trigger] s[i]).0 == k;
                assert(s.drop_last()[i] == s[i]);
            }
            if exists|i: int| 0 <= i < s.drop_last().len() && (#[trigger] s.drop_last()[i]).0
                == k {
                let i = choose|i: int|
                    0 <= i < s.drop_last().len() && (#[trigger] s.drop_last()[i]).0 == k;
                assert(s[i] == s.drop_last()[i]);
            }
        }
    }
}

/// Dropping the last entry keeps the keys strictly increasing.
pub proof fn lemma_sorted_drop_last(s: Seq<(Seq<u8>, Seq<u8>)>)
    requires
        entries_sorted(s),
        s.len() > 0,
    ensures
        entries_sorted(s.drop_last()),
{
    assert forall|i: int, j: int| 0 <= i < j < s.drop_last().len() implies #[trigger] lex_lt(
        s.drop_last()[i].0,
        s.drop_last()[j].0,
    ) by {
        assert(s.drop_last()[i] == s[i]);
        assert(s.drop_last()[j] == s[j]);
        assert(lex_lt(s[i].0, s[j].0));
    }
}

/// In sorted entries, each entry's key maps to that entry's value.
pub proof fn lemma_map_of_index(s: Seq<(Seq<u8>, Seq<u8>)>, i: int)
    requires
        entries_sorted(s),
        0 <= i < s.len(),
    ensures
        map_of(s).contains_key(s[i].0),
        map_of(s)[s[i].0] == s[i].1,
    decreases s.len(),
{
    if i == s.len() - 1 {
    } else {
        lemma_sorted_drop_last(s);
        assert(lex_lt(s[i].0, s[s.len() - 1].0));
        lemma_lex_trichotomy(s[i].0, s[s.len() - 1].0);
        assert(s.drop_last()[i] == s[i]);
        lemma_map_of_index(s.drop_last(), i);
    }
}

/// Dropping the last entry of sorted entries removes exactly its key.
pub proof fn lemma_map_of_drop_last(s: Seq<(Seq<u8>, Seq<u8>)>)
    requires
        entries_sorted(s),
        s.len() > 0,
    ensures
        map_of(s.drop_last()) == map_of(s).remove(s.last().0),
{
    let d = s.drop_last();
    let k = s.last().0;
    lemma_sorted_drop_last(s);
    lemma_map_of_contains(d, k);
    assert forall|i: int| 0 <= i < d.len() implies (#[trigger] d[i]).0 != k by {
        assert(d[i] == s[i]);
        assert(lex_lt(s[i].0, s[s.len() - 1].0));
        lemma_lex_trichotomy(s[i].0, k);
    }
    assert(!map_of(d).contains_key(k));
    assert(map_of(d) =~= map_of(s).remove(k));
}

/// Sorted entries are a canonical form: two sorted runs that hold the same
/// mapping are the same sequence of entries.
pub proof fn lemma_sorted_canonical(e1: Seq<(Seq<u8>, Seq<u8>)>, e2: Seq<(Seq<u8>, Seq<u8>)>)
    requires
        entries_sorted(e1),
        entries_sorted(e2),
        map_of(e1) == map_of(e2),
    ensures
        e1 == e2,
    decreases e1.len(),
{
    lemma_map_of_contains(e1, if e1.len() > 0 { e1.last().0 } else { Seq::empty() });
    lemma_map_of_contains(e2, if e2.len() > 0 { e2.last().0 } else { Seq::empty() });
    if e1.len() == 0 {
        if e2.len() > 0 {
            assert(map_of(e2).contains_key(e2.last().0));
            assert(map_of(e1) =~= Map::empty());
        }
        assert(e1 =~= e2);
    } else if e2.len() == 0 {
        assert(map_of(e1).contains_key(e1.last().0));
        assert(map_of(e2) =~= Map::empty());
        assert(e1 =~= e2);
    } else {
        let k1 = e1.last().0;
        let k2 = e2.last().0;
        // The largest key of the common domain ends both runs: k1 == k2.
        assert(map_of(e1).contains_key(k1));
        assert(map_of(e2).contains_key(k2));
        lemma_map_of_contains(e2, k1);
        lemma_map_of_contains(e1, k2);
        let i2 = choose|i: int| 0 <= i < e2.len() && (#[trigger] e2[i]).0 == k1;
        let i1 = choose|i: int| 0 <= i < e1.len() && (#[trigger] e1[i]).0 == k2;
        if i2 < e2.len() - 1 {
            assert(lex_lt(e2[i2].0, e2[e2.len() - 1].0));
            if i1 < e1.len() - 1 {
                assert(lex_lt(e1[i1].0, e1[e1.len() - 1].0));
                lemma_lex_trichotomy(k1, k2);
                assert(false);
            } else {
                lemma_lex_trichotomy(k1, k2);
                assert(false);
            }
        }
        assert(k1 == k2);
        // The last values agree, since both equal the mapping at that key.
        lemma_map_of_index(e1, e1.len() - 1);
        lemma_map_of_index(e2, e2.len() - 1);
        assert(e1.last().1 == e2.last().1);
        // The remainders hold the same mapping; recurse.
        lemma_map_of_drop_last(e1);
        lemma_map_of_drop_last(e2);
        lemma_sorted_drop_last(e1);
        lemma_sorted_drop_last(e2);
        lemma_sorted_canonical(e1.drop_last(), e2.drop_last());
        assert(e1.drop_last().len() == e2.drop_last().len());
        assert forall|i: int| 0 <= i < e1.len() implies e1[i] == e2[i] by {
            if i < e1.len() - 1 {
                assert(e1.drop_last()[i] == e1[i]);
                assert(e2.drop_last()[i] == e2[i]);
                assert(e1.drop_last()[i] == e2.drop_last()[i]);
            } else {
                assert(e1[i] == e1.last() && e2[i] == e2.last());
                assert(e1.last().1 == e2.last().1 && e1.last().0 == e2.last().0);
            }
        }
        assert(e1 =~= e2);
    }
}

/// Inserting an entry where the scan stopped keeps the keys sorted and adds
/// exactly that key to the mapping.
pub proof fn lemma_map_of_insert_at(s: Seq<(Seq<u8>, Seq<u8>)>, i: int, k: Seq<u8>, v: Seq<u8>)
    requires
        entries_sorted(s),
        0 <= i <= s.len(),
        forall|j: int| 0 <= j < i ==> lex_lt((#[trigger] s[j]).0, k),
        forall|j: int| i <= j < s.len() ==> lex_lt(k, (#[trigger] s[j]).0),
    ensures
        entries_sorted(s.insert(i, (k, v))),
        map_of(s.insert(i, (k, v))) == map_of(s).insert(k, v),
    decreases s.len(),
{
    let t = s.insert(i, (k, v));
    assert forall|a: int, b: int| 0 <= a < b < t.len() implies #[trigger] lex_lt(t[a].0, t[b].0) by {
        if a < i && b < i {
            assert(t[a] == s[a] && t[b] == s[b]);
        } else if a < i && b == i {
            assert(t[a] == s[a]);
        } else if a < i && b > i {
            assert(t[a] == s[a] && t[b] == s[b - 1]);
        } else if a == i && b > i {
            assert(t[b] == s[b - 1]);
        } else {
            assert(t[a] == s[a - 1] && t[b] == s[b - 1]);
        }
    }
    if i == s.len() {
        assert(t.drop_last() =~= s);
        assert(t.last() == (k, v));
    } else {
        assert(t.last() == s.last());
        assert(t.drop_last() =~= s.drop_last().insert(i, (k, v)));
        lemma_sorted_drop_last(s);
        assert forall|j: int| 0 <= j < i implies lex_lt((#[trigger] s.drop_last()[j]).0, k) by {
            assert(s.drop_last()[j] == s[j]);
        }
        assert forall|j: int| i <= j < s.drop_last().len() implies lex_lt(
            k,
            (#[trigger] s.drop_last()[j]).0,
        ) by {
            assert(s.drop_last()[j] == s[j]);
        }
        lemma_map_of_insert_at(s.drop_last(), i, k, v);
        // k comes before the last key, so the two inserts commute.
        assert(lex_lt(k, s.last().0));
        lemma_lex_trichotomy(k, s.last().0);
        assert(map_of(t) =~= map_of(s).insert(k, v));
    }
}

/// Replacing the value at one entry keeps the keys sorted and updates exactly
/// that key's mapping.
pub proof fn lemma_map_of_update_at(s: Seq<(Seq<u8>, Seq<u8>)>, i: int, v: Seq<u8>)
    requires
        entries_sorted(s),
        0 <= i < s.len(),
    ensures
        entries_sorted(s.update(i, (s[i].0, v))),
        map_of(s.update(i, (s[i].0, v))) == map_of(s).insert(s[i].0, v),
    decreases s.len(),
{
    let t = s.update(i, (s[i].0, v));
    assert forall|a: int, b: int| 0 <= a < b < t.len() implies #[trigger] lex_lt(t[a].0, t[b].0) by {
        assert(t[a].0 == s[a].0 && t[b].0 == s[b].0);
        assert(lex_lt(s[a].0, s[b].0));
    }
    if i == s.len() - 1 {
        assert(t.drop_last() =~= s.drop_last());
        assert(t.last() == (s[i].0, v));
        assert(map_of(t) =~= map_of(s).insert(s[i].0, v));
    } else {
        assert(t.last() == s.last());
        assert(t.drop_last() =~= s.drop_last().update(i, (s[i].0, v)));
        lemma_sorted_drop_last(s);
        assert(s.drop_last()[i] == s[i]);
        lemma_map_of_update_at(s.drop_last(), i, v);
        assert(lex_lt(s[i].0, s.last().0));
        lemma_lex_trichotomy(s[i].0, s.last().0);
        assert(map_of(t) =~= map_of(s).insert(s[i].0, v));
    }
}

/// Removing one entry keeps the keys sorted and removes exactly its key from
/// the mapping.
pub proof fn lemma_map_of_remove_at(s: Seq<(Seq<u8>, Seq<u8>)>, i: int)
    requires
        entries_sorted(s),
        0 <= i < s.len(),
    ensures
        entries_sorted(s.remove(i)),
        map_of(s.remove(i)) == map_of(s).remove(s[i].0),
    decreases s.len(),
{
    let t = s.remove(i);
    assert forall|a: int, b: int| 0 <= a < b < t.len() implies #[trigger] lex_lt(t[a].0, t[b].0) by {
        let sa = if a < i { a } else { a + 1 };
        let sb = if b < i { b } else { b + 1 };
        assert(t[a] == s[sa] && t[b] == s[sb]);
        assert(lex_lt(s[sa].0, s[sb].0));
    }
    if i == s.len() - 1 {
        assert(t =~= s.drop_last());
        lemma_map_of_drop_last(s);
    } else {
        assert(t.last() == s.last());
        assert(t.drop_last() =~= s.drop_last().remove(i));
        lemma_sorted_drop_last(s);
        assert(s.drop_last()[i] == s[i]);
        lemma_map_of_remove_at(s.drop_last(), i);
        assert(lex_lt(s[i].0, s.last().0));
        lemma_lex_trichotomy(s[i].0, s.last().0);
        assert(map_of(t) =~= map_of(s).remove(s[i].0));
    }
}

/// The in-memory key/value store: entries sorted by key, and a cached content
/// hash that every mutation invalidates.
#[derive(Debug)]
pub struct MemoryStorage {
    /// The entries, strictly increasing by key in the lexicographic order.
    pub entries: Vec<(Vec<u8>, Vec<u8>)>,
    /// The cached content hash; `None` after a mutation.
    pub cached_hash: Option<Vec<u8>>,
}

impl View for MemoryStorage {
    type V = Map<Seq<u8>, Seq<u8>>;

    /// The key/value mapping the store holds.
    open spec fn view(&self) -> Map<Seq<u8>, Seq<u8>> {
        map_of(pairs_view(self.entries@))
    }
}

impl MemoryStorage {
    /// The store's entries as pairs of byte sequences, in key order.
    pub open spec fn entries_view(&self) -> Seq<(Seq<u8>, Seq<u8>)> {
        pairs_view(self.entries@)
    }

    /// Well-formedness: keys strictly increasing, and a cached hash — if one
    /// is held — equal to the content hash of the entries.
    pub open spec fn wf(&self) -> bool {
        &&& entries_sorted(self.entries_view())
        &&& (self.cached_hash matches Some(h) ==> h@ == content_hash_of(self.entries_view()))
    }

    /// The content hash that `hash` returns.
    pub open spec fn spec_hash(&self) -> Seq<u8> {
        content_hash_of(self.entries_view())
    }

    /// The index of the entry holding `key`, if one does.
    fn find(&self, key: &[u8]) -> (r: Option<usize>)
        ensures
            r matches Some(i) ==> i < self.entries@.len() && self.entries_view()[i as int].0
                == key@,
            r is None ==> forall|i: int|
                0 <= i < self.entries@.len() ==> (#[trigger] self.entries_view()[i]).0 != key@,
    {
        let mut i: usize = 0;
        while i < self.entries.len()
            invariant
                i <= self.entries@.len(),
                forall|j: int| 0 <= j < i ==> (#[trigger] self.entries_view()[j]).0 != key@,
            decreases self.entries@.len() - i,
        {
            if byte_cmp(self.entries[i].0.as_slice(), key) == ByteOrder::Eq {
                return Some(i);
            }
            i += 1;
        }
        None
    }

    /// Reads the value stored under `key`, or absent. Never fails.
    pub fn get(&self, key: &[u8]) -> (r: Result<Option<Vec<u8>>, HostError>)
        requires
            self.wf(),
        ensures
            self@.contains_key(key@) ==> (r matches Ok(o) && o matches Some(v) && v@
                == self@[key@]),
            !self@.contains_key(key@) ==> (r matches Ok(o) && o is None),
    {
        proof {
            lemma_map_of_contains(self.entries_view(), key@);
        }
        match self.find(key) {
            Some(i) => {
                proof {
                    lemma_map_of_index(self.entries_view(), i as int);
                }
                Ok(Some(slice_to_vec(self.entries[i].1.as_slice())))
            },
            None => Ok(None),
        }
    }

    /// Stores `value` under `key`, replacing any earlier value, and drops the
    /// cached hash.
    pub fn insert(&mut self, key: Vec<u8>, value: Vec<u8>)
        requires
            old(self).wf(),
        ensures
            final(self).wf(),
            final(self)@ == old(self)@.insert(key@, value@),
    {
        self.cached_hash = None;
        let ghost s = old(self).entries_view();
        let mut i: usize = 0;
        loop
            invariant
                old(self).wf(),
                i <= self.entries@.len(),
                self.entries == old(self).entries,
                self.cached_hash is None,
                s == self.entries_view(),
                forall|j: int| 0 <= j < i ==> lex_lt((#[trigger] s[j]).0, key@),
            decreases self.entries@.len() - i,
        {
            if i == self.entries.len() {
                self.entries.push((key, value));
                proof {
                    assert forall|j: int| i <= j < s.len() implies lex_lt(
                        key@,
                        (#[trigger] s[j]).0,
                    ) by {}
                    lemma_map_of_insert_at(s, i as int, key@, value@);
                    assert(self.entries_view() =~= s.insert(i as int, (key@, value@)));
                }
                return ;
            }
            match byte_cmp(self.entries[i].0.as_slice(), key.as_slice()) {
                ByteOrder::Lt => {
                    i += 1;
                },
                ByteOrder::Eq => {
                    self.entries[i] = (key, value);
                    proof {
                        lemma_map_of_update_at(s, i as int, value@);
                        assert(self.entries_view() =~= s.update(i as int, (key@, value@)));
                    }
                    return ;
                },
                ByteOrder::Gt => {
                    self.entries.insert(i, (key, value));
                    proof {
                        assert forall|j: int| i <= j < s.len() implies lex_lt(
                            key@,
                            (#[trigger] s[j]).0,
                        ) by {
                            if j > i {
                                assert(lex_lt(s[i as int].0, s[j].0));
                                lemma_lex_transitive(key@, s[i as int].0, s[j].0);
                            }
                        }
                        lemma_map_of_insert_at(s, i as int, key@, value@);
                        assert(self.entries_view() =~= s.insert(i as int, (key@, value@)));
                    }
                    return ;
                },
            }
        }
    }

    /// Stores `value` under `key`. Never fails.
    pub fn set(&mut self, key: Vec<u8>, value: Vec<u8>) -> (r: Result<(), HostError>)
        requires
            old(self).wf(),
        ensures
            final(self).wf(),
            r is Ok,
            final(self)@ == old(self)@.insert(key@, value@),
    {
        self.insert(key, value);
        Ok(())
    }

    /// Removes the entry under `key`, if one is held, and drops the cached
    /// hash. Never fails.
    pub fn del(&mut self, key: &[u8]) -> (r: Result<(), HostError>)
        requires
            old(self).wf(),
        ensures
            final(self).wf(),
            r is Ok,
            final(self)@ == old(self)@.remove(key@),
    {
        self.cached_hash = None;
        let ghost s = old(self).entries_view();
        proof {
            lemma_map_of_contains(s, key@);
        }
        match self.find(key) {
            Some(i) => {
                self.entries.remove(i);
                proof {
                    lemma_map_of_remove_at(s, i as int);
                    assert(self.entries_view() =~= s.remove(i as int));
                }
            },
            None => {
                proof {
                    assert forall|i: int| 0 <= i < s.len() implies (#[trigger] s[i]).0 != key@ by {
                        assert(self.entries_view()[i] == s[i]);
                    }
                    assert(!old(self)@.contains_key(key@));
                    assert(old(self)@.remove(key@) =~= old(self)@);
                }
            },
        }
        Ok(())
    }

    /// Whether an entry is held under `key`.
    pub fn contains(&self, key: &[u8]) -> (r: bool)
        requires
            self.wf(),
        ensures
            r == self@.contains_key(key@),
    {
        proof {
            lemma_map_of_contains(self.entries_view(), key@);
        }
        self.find(key).is_some()
    }

    /// The length of the value held under `key`, or absent.
    pub fn size(&self, key: &[u8]) -> (r: Option<usize>)
        requires
            self.wf(),
        ensures
            self@.contains_key(key@) ==> (r matches Some(n) && n == self@[key@].len()),
            !self@.contains_key(key@) ==> r is None,
    {
        proof {
            lemma_map_of_contains(self.entries_view(), key@);
        }
        match self.find(key) {
            Some(i) => {
                proof {
                    lemma_map_of_index(self.entries_view(), i as int);
                }
                Some(self.entries[i].1.len())
            },
            None => None,
        }
    }

    /// The content hash of the store's key/value content, from the cache when
    /// no mutation has happened since it was last computed.
    pub fn hash(&mut self) -> (r: Vec<u8>)
        requires
            old(self).wf(),
        ensures
            final(self).wf(),
            final(self).entries == old(self).entries,
            final(self)@ == old(self)@,
            r@ == old(self).spec_hash(),
    {
        let ghost ev = old(self).entries_view();
        match &self.cached_hash {
            Some(h) => {
                return slice_to_vec(h.as_slice());
            },
            None => {},
        }
        let mut buf: Vec<u8> = Vec::new();
        buf.push(0u8);
        let mut i: usize = 0;
        while i < self.entries.len()
            invariant
                old(self).wf(),
                i <= self.entries@.len(),
                self == old(self),
                ev == self.entries_view(),
                buf@ == seq![0u8] + entries_bytes(ev.take(i as int)),
            decreases self.entries@.len() - i,
        {
            buf.push(107u8);
            buf.push(101u8);
            buf.push(121u8);
            buf.push(1u8);
            buf.extend_from_slice(self.entries[i].0.as_slice());
            buf.push(107u8);
            buf.push(101u8);
            buf.push(121u8);
            buf.push(2u8);
            buf.extend_from_slice(self.entries[i].1.as_slice());
            proof {
                assert(ev.take(i + 1).drop_last() =~= ev.take(i as int));
                assert(ev.take(i + 1).last() == ev[i as int]);
                assert(buf@ =~= seq![0u8] + entries_bytes(ev.take(i + 1)));
            }
            i += 1;
        }
        buf.push(3u8);
        proof {
            assert(ev.take(self.entries@.len() as int) =~= ev);
            assert(buf@ =~= content_bytes(ev));
        }
        let h = sha3_256(buf.as_slice());
        self.cached_hash = Some(slice_to_vec(h.as_slice()));
        h
    }

    /// An in-memory store has nothing to flush: `commit` never fails and
    /// changes nothing.
    pub fn commit(&mut self) -> (r: Result<(), HostError>)
        ensures
            *final(self) == *old(self),
            r is Ok,
    {
        Ok(())
    }
}

impl Default for MemoryStorage {
    /// The empty store.
    fn default() -> (r: Self)
        ensures
            r.wf(),
            r@ == Map::<Seq<u8>, Seq<u8>>::empty(),
            r.entries@.len() == 0,
    {
        let r = MemoryStorage { entries: Vec::new(), cached_hash: None };
        proof {
            assert(r.entries_view() =~= Seq::<(Seq<u8>, Seq<u8>)>::empty());
        }
        r
    }
}

/// After `set(key, value)`, `get(key)` returns exactly the bytes written;
/// after `del(key)`, `get(key)` returns absent. Stated over the store's
/// mapping, which `set`, `del` and `get` are specified against.
pub proof fn lemma_get_after_set_and_delete(m: Map<Seq<u8>, Seq<u8>>, key: Seq<u8>, value: Seq<u8>)
    ensures
        m.insert(key, value).contains_key(key),
        m.insert(key, value)[key] == value,
        !m.remove(key).contains_key(key),
{
}

/// The content hash is a function of the store's key/value content alone:
/// two well-formed stores holding the same content — whatever order their
/// entries were inserted or removed in — hash to the same digest, and
/// re-hashing without mutation yields the same value.
pub proof fn lemma_content_hash_order_independent(s1: &MemoryStorage, s2: &MemoryStorage)
    requires
        s1.wf(),
        s2.wf(),
        s1@ == s2@,
    ensures
        s1.spec_hash() == s2.spec_hash(),
{
    lemma_sorted_canonical(s1.entries_view(), s2.entries_view());
}

} // verus!
