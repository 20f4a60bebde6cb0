//! The storage layer: pluggable key/value backends, shared storage
//! references that prepend a namespace prefix to every key, and the named
//! library of references built once from configuration.
//!
//! A backend lives in the library; a reference names its backend by index and
//! carries an optional prefix. Two references naming the same backend share
//! one store, so a root reference and its prefixed derivations give namespace
//! isolation without duplicating storage.

use vstd::prelude::*;
use vstd::slice::slice_to_vec;

use crate::errors::HostError;
use crate::memory::MemoryStorage;

verus! {

/// The key/value store that discards everything: every read returns absent,
/// every write is accepted and dropped, the hash is the empty digest.
#[derive(Debug)]
pub struct NullKvStore;

impl NullKvStore {
    /// Always absent.
    pub fn get(&self, key: &[u8]) -> (r: Result<Option<Vec<u8>>, HostError>)
        ensures
            r matches Ok(o) && o is None,
    {
        let _ = key;
        Ok(None)
    }

    /// Accepted and discarded.
    pub fn set(&mut self, key: Vec<u8>, value: Vec<u8>) -> (r: Result<(), HostError>)
        ensures
            r is Ok,
    {
        let _ = (key, value);
        Ok(())
    }

    /// Accepted and discarded.
    pub fn del(&mut self, key: &[u8]) -> (r: Result<(), HostError>)
        ensures
            r is Ok,
    {
        let _ = key;
        Ok(())
    }

    /// Never holds a key.
    pub fn contains(&self, key: &[u8]) -> (r: bool)
        ensures
            !r,
    {
        let _ = key;
        false
    }

    /// Never holds a key.
    pub fn size(&self, key: &[u8]) -> (r: Option<usize>)
        ensures
            r is None,
    {
        let _ = key;
        None
    }

    /// The empty digest.
    pub fn hash(&self) -> (r: Vec<u8>)
        ensures
            r@ == Seq::<u8>::empty(),
    {
        let r: Vec<u8> = Vec::new();
        proof {
            assert(r@ =~= Seq::<u8>::empty());
        }
        r
    }

    /// Nothing to flush.
    pub fn commit(&mut self) -> (r: Result<(), HostError>)
        ensures
            r is Ok,
    {
        Ok(())
    }
}

/// One backing store of the library: the closed set of store kinds.
#[derive(Debug)]
pub enum Backend {
    /// Discards everything.
    Null(NullKvStore),
    /// The ordered in-memory store.
    Memory(MemoryStorage),
}

impl Backend {
    /// Well-formedness of the store behind the variant.
    pub open spec fn wf(&self) -> bool {
        match self {
            Backend::Null(_) => true,
            Backend::Memory(m) => m.wf(),
        }
    }

    /// The key/value mapping the backend holds; a null backend holds none.
    pub open spec fn map_view(&self) -> Map<Seq<u8>, Seq<u8>> {
        match self {
            Backend::Null(_) => Map::empty(),
            Backend::Memory(m) => m@,
        }
    }

    /// The mapping after a write: a null backend discards it.
    pub open spec fn map_after_set(&self, key: Seq<u8>, value: Seq<u8>) -> Map<Seq<u8>, Seq<u8>> {
        match self {
            Backend::Null(_) => Map::empty(),
            Backend::Memory(m) => m@.insert(key, value),
        }
    }

    /// The mapping after a delete: a null backend discards it.
    pub open spec fn map_after_del(&self, key: Seq<u8>) -> Map<Seq<u8>, Seq<u8>> {
        match self {
            Backend::Null(_) => Map::empty(),
            Backend::Memory(m) => m@.remove(key),
        }
    }

    /// The content hash that `hash` returns: the store's digest, or the empty
    /// digest for a null backend.
    pub open spec fn spec_hash(&self) -> Seq<u8> {
        match self {
            Backend::Null(_) => Seq::empty(),
            Backend::Memory(m) => m.spec_hash(),
        }
    }

    /// Reads the value under `key`, or absent. Never fails.
    pub fn get(&self, key: &[u8]) -> (r: Result<Option<Vec<u8>>, HostError>)
        requires
            self.wf(),
        ensures
            self.map_view().contains_key(key@) ==> (r matches Ok(o) && o matches Some(v) && v@
                == self.map_view()[key@]),
            !self.map_view().contains_key(key@) ==> (r matches Ok(o) && o is None),
    {
        match self {
            Backend::Null(n) => n.get(key),
            Backend::Memory(m) => m.get(key),
        }
    }

    /// Stores `value` under `key`. Never fails.
    pub fn set(&mut self, key: Vec<u8>, value: Vec<u8>) -> (r: Result<(), HostError>)
        requires
            old(self).wf(),
        ensures
            final(self).wf(),
            r is Ok,
            final(self).map_view() == old(self).map_after_set(key@, value@),
            (*final(self)) is Null <==> (*old(self)) is Null,
    {
        match self {
            Backend::Null(n) => n.set(key, value),
            Backend::Memory(m) => m.set(key, value),
        }
    }

    /// Removes the entry under `key`. Never fails.
    pub fn del(&mut self, key: &[u8]) -> (r: Result<(), HostError>)
        requires
            old(self).wf(),
        ensures
            final(self).wf(),
            r is Ok,
            final(self).map_view() == old(self).map_after_del(key@),
            (*final(self)) is Null <==> (*old(self)) is Null,
    {
        match self {
            Backend::Null(n) => n.del(key),
            Backend::Memory(m) => m.del(key),
        }
    }

    /// Whether an entry is held under `key`.
    pub fn contains(&self, key: &[u8]) -> (r: bool)
        requires
            self.wf(),
        ensures
            r == self.map_view().contains_key(key@),
    {
        match self {
            Backend::Null(n) => n.contains(key),
            Backend::Memory(m) => m.contains(key),
        }
    }

    /// The length of the value held under `key`, or absent.
    pub fn size(&self, key: &[u8]) -> (r: Option<usize>)
        requires
            self.wf(),
        ensures
            self.map_view().contains_key(key@) ==> (r matches Some(n) && n
                == self.map_view()[key@].len()),
            !self.map_view().contains_key(key@) ==> r is None,
    {
        match self {
            Backend::Null(n) => n.size(key),
            Backend::Memory(m) => m.size(key),
        }
    }

    /// The backend's content hash.
    pub fn hash(&mut self) -> (r: Vec<u8>)
        requires
            old(self).wf(),
        ensures
            final(self).wf(),
            final(self).map_view() == old(self).map_view(),
            (*final(self)) is Null <==> (*old(self)) is Null,
            r@ == old(self).spec_hash(),
    {
        match self {
            Backend::Null(n) => n.hash(),
            Backend::Memory(m) => m.hash(),
        }
    }

    /// Flushes buffered writes; the in-memory kinds have none. Never fails.
    pub fn commit(&mut self) -> (r: Result<(), HostError>)
        requires
            old(self).wf(),
        ensures
            final(self).wf(),
            r is Ok,
            final(self).map_view() == old(self).map_view(),
            (*final(self)) is Null <==> (*old(self)) is Null,
    {
        match self {
            Backend::Null(n) => n.commit(),
            Backend::Memory(m) => m.commit(),
        }
    }
}

/// A shared, optionally namespaced view onto one backing store of the
/// library: the backend's index, and a prefix prepended to every key.
#[derive(Debug)]
pub struct StorageRef {
    /// Which backend of the library the reference reads and writes.
    pub backend: usize,
    /// The namespace prefix, if any.
    pub prefix: Option<Vec<u8>>,
}

impl StorageRef {
    /// The prefix as bytes; no prefix reads as the empty prefix.
    pub open spec fn prefix_view(&self) -> Seq<u8> {
        match self.prefix {
            None => Seq::empty(),
            Some(p) => p@,
        }
    }

    /// The key the backend sees for a caller key: prefix, then key.
    pub open spec fn effective_key(&self, key: Seq<u8>) -> Seq<u8> {
        self.prefix_view() + key
    }

    /// A reference onto the same backend with no prefix.
    pub fn cloned_root(&self) -> (r: StorageRef)
        ensures
            r.backend == self.backend,
            r.prefix is None,
    {
        StorageRef { backend: self.backend, prefix: None }
    }

    /// A reference onto the same backend whose prefix is this reference's
    /// prefix followed by `prefix`.
    pub fn cloned_prefixed(&self, prefix: Vec<u8>) -> (r: StorageRef)
        ensures
            r.backend == self.backend,
            r.prefix_view() == self.prefix_view() + prefix@,
    {
        let new_prefix: Vec<u8> = match &self.prefix {
            None => {
                proof {
                    assert(self.prefix_view() + prefix@ =~= prefix@);
                }
                prefix
            },
            Some(p) => {
                let mut v = slice_to_vec(p.as_slice());
                v.extend_from_slice(prefix.as_slice());
                v
            },
        };
        StorageRef { backend: self.backend, prefix: Some(new_prefix) }
    }

    /// A copy of the reference: same backend, same prefix.
    pub fn duplicate(&self) -> (r: StorageRef)
        ensures
            r.backend == self.backend,
            r.prefix_view() == self.prefix_view(),
            r.prefix is None <==> self.prefix is None,
    {
        match &self.prefix {
            None => (StorageRef { backend: self.backend, prefix: None }),
            Some(p) => (StorageRef {
                backend: self.backend,
                prefix: Some(slice_to_vec(p.as_slice())),
            }),
        }
    }
}

/// Prefix composition: a reference derived with prefix `p1` from a reference
/// derived with prefix `p2` from a root behaves identically to a reference
/// derived from the root with the single prefix `p2 ++ p1`: both name the
/// root's backend, and both turn every caller key into the same backend key.
/// The hypotheses are exactly what `cloned_prefixed` ensures of each
/// derivation.
pub proof fn lemma_prefix_composition(
    root: StorageRef,
    mid: StorageRef,
    d2: StorageRef,
    d1: StorageRef,
    p1: Seq<u8>,
    p2: Seq<u8>,
)
    requires
        mid.backend == root.backend,
        mid.prefix_view() == root.prefix_view() + p2,
        d2.backend == mid.backend,
        d2.prefix_view() == mid.prefix_view() + p1,
        d1.backend == root.backend,
        d1.prefix_view() == root.prefix_view() + (p2 + p1),
    ensures
        d2.backend == d1.backend,
        forall|key: Seq<u8>| #[trigger] d2.effective_key(key) == d1.effective_key(key),
{
    assert forall|key: Seq<u8>| #[trigger] d2.effective_key(key) == d1.effective_key(key) by {
        assert(d2.effective_key(key) =~= d1.effective_key(key));
    }
}

/// The named registry of storage references, and the owner of every backing
/// store they read and write.
#[derive(Debug)]
pub struct StorageLibrary {
    /// The backing stores; a reference names one by index.
    pub backends: Vec<Backend>,
    /// The named references, in the order configuration built them; names are
    /// unique.
    pub named: Vec<(String, StorageRef)>,
}

impl StorageLibrary {
    /// Whether a reference names a backend this library owns.
    pub open spec fn ref_valid(&self, r: StorageRef) -> bool {
        r.backend < self.backends@.len()
    }

    /// Well-formedness: every backend well-formed, every named reference
    /// valid, and no name bound twice.
    pub open spec fn wf(&self) -> bool {
        &&& forall|i: int|
            0 <= i < self.backends@.len() ==> (#[trigger] self.backends@[i]).wf()
        &&& forall|i: int|
            0 <= i < self.named@.len() ==> self.ref_valid((#[trigger] self.named@[i]).1)
        &&& forall|i: int, j: int|
            0 <= i < j < self.named@.len() ==> (#[trigger] self.named@[i]).0@ != (
            #[trigger] self.named@[j]).0@
    }

    /// Whether some entry binds `name`.
    pub open spec fn has_name(&self, name: Seq<char>) -> bool {
        exists|i: int| 0 <= i < self.named@.len() && (#[trigger] self.named@[i]).0@ == name
    }

    /// The mapping a backend holds, by index.
    pub open spec fn backend_map(&self, idx: int) -> Map<Seq<u8>, Seq<u8>> {
        self.backends@[idx].map_view()
    }

    /// An empty library.
    pub fn new() -> (r: Self)
        ensures
            r.wf(),
            r.backends@.len() == 0,
            r.named@.len() == 0,
    {
        StorageLibrary { backends: Vec::new(), named: Vec::new() }
    }

    /// Takes ownership of a store and returns an unprefixed reference to it.
    pub fn new_ref(&mut self, store: Backend) -> (r: StorageRef)
        requires
            old(self).wf(),
            store.wf(),
        ensures
            final(self).wf(),
            final(self).backends@ == old(self).backends@.push(store),
            final(self).named == old(self).named,
            r.backend == old(self).backends@.len(),
            r.prefix is None,
    {
        let idx = self.backends.len();
        self.backends.push(store);
        StorageRef { backend: idx, prefix: None }
    }

    /// The reference bound to `name`, if one is.
    pub fn get(&self, name: &str) -> (r: Option<&StorageRef>)
        ensures
            r matches Some(sr) ==> exists|i: int|
                0 <= i < self.named@.len() && (#[trigger] self.named@[i]).0@ == name@
                    && self.named@[i].1 == *sr,
            r is None ==> !self.has_name(name@),
    {
        let mut i: usize = 0;
        while i < self.named.len()
            invariant
                i <= self.named@.len(),
                forall|j: int| 0 <= j < i ==> (#[trigger] self.named@[j]).0@ != name@,
            decreases self.named@.len() - i,
        {
            if crate::strings::str_eq(self.named[i].0.as_str(), name) {
                return Some(&self.named[i].1);
            }
            i += 1;
        }
        None
    }

    /// Binds `name` to a reference. The caller checks for duplicates first;
    /// configuration building does so and fails on one.
    pub fn bind(&mut self, name: String, r: StorageRef)
        requires
            old(self).wf(),
            old(self).ref_valid(r),
            !old(self).has_name(name@),
        ensures
            final(self).wf(),
            final(self).backends == old(self).backends,
            final(self).named@ == old(self).named@.push((name, r)),
            final(self).has_name(name@),
    {
        self.named.push((name, r));
        proof {
            assert((final(self)).named@[final(self).named@.len() - 1].0@ == name@);
        }
    }

    /// Reads through a reference: the backend's value under the prefixed key.
    pub fn ref_get(&self, r: &StorageRef, key: &[u8]) -> (res: Result<
        Option<Vec<u8>>,
        HostError,
    >)
        requires
            self.wf(),
            self.ref_valid(*r),
        ensures
            ({
                let m = self.backend_map(r.backend as int);
                let k = r.effective_key(key@);
                &&& m.contains_key(k) ==> (res matches Ok(o) && o matches Some(v) && v@ == m[k])
                &&& !m.contains_key(k) ==> (res matches Ok(o) && o is None)
            }),
    {
        let full_key = prefixed_key(&r.prefix, key);
        self.backends[r.backend].get(full_key.as_slice())
    }

    /// Writes through a reference: stores the value under the prefixed key in
    /// the reference's backend. Other backends are untouched.
    pub fn ref_set(&mut self, r: &StorageRef, key: &[u8], value: Vec<u8>) -> (res: Result<
        (),
        HostError,
    >)
        requires
            old(self).wf(),
            old(self).ref_valid(*r),
        ensures
            final(self).wf(),
            res is Ok,
            final(self).named == old(self).named,
            final(self).backends@.len() == old(self).backends@.len(),
            final(self).backend_map(r.backend as int) == old(self).backends@[r.backend as int]
                .map_after_set(r.effective_key(key@), value@),
            forall|i: int|
                0 <= i < old(self).backends@.len() && i != r.backend ==> final(self).backends@[i]
                    == old(self).backends@[i],
    {
        let full_key = prefixed_key(&r.prefix, key);
        let idx = r.backend;
        let mut b = self.backends.remove(idx);
        let res = b.set(full_key, value);
        self.backends.insert(idx, b);
        proof {
            assert(final(self).backends@ =~= old(self).backends@.update(
                idx as int,
                final(self).backends@[idx as int],
            ));
        }
        res
    }

    /// Deletes through a reference: removes the prefixed key from the
    /// reference's backend. Other backends are untouched.
    pub fn ref_del(&mut self, r: &StorageRef, key: &[u8]) -> (res: Result<(), HostError>)
        requires
            old(self).wf(),
            old(self).ref_valid(*r),
        ensures
            final(self).wf(),
            res is Ok,
            final(self).named == old(self).named,
            final(self).backends@.len() == old(self).backends@.len(),
            final(self).backend_map(r.backend as int) == old(self).backends@[r.backend as int]
                .map_after_del(r.effective_key(key@)),
            forall|i: int|
                0 <= i < old(self).backends@.len() && i != r.backend ==> final(self).backends@[i]
                    == old(self).backends@[i],
    {
        let full_key = prefixed_key(&r.prefix, key);
        let idx = r.backend;
        let mut b = self.backends.remove(idx);
        let res = b.del(full_key.as_slice());
        self.backends.insert(idx, b);
        proof {
            assert(final(self).backends@ =~= old(self).backends@.update(
                idx as int,
                final(self).backends@[idx as int],
            ));
        }
        res
    }

    /// Whether the reference's backend holds the prefixed key.
    pub fn ref_contains(&self, r: &StorageRef, key: &[u8]) -> (res: bool)
        requires
            self.wf(),
            self.ref_valid(*r),
        ensures
            res == self.backend_map(r.backend as int).contains_key(r.effective_key(key@)),
    {
        let full_key = prefixed_key(&r.prefix, key);
        self.backends[r.backend].contains(full_key.as_slice())
    }

    /// The length of the value under the prefixed key, or absent.
    pub fn ref_size(&self, r: &StorageRef, key: &[u8]) -> (res: Option<usize>)
        requires
            self.wf(),
            self.ref_valid(*r),
        ensures
            ({
                let m = self.backend_map(r.backend as int);
                let k = r.effective_key(key@);
                &&& m.contains_key(k) ==> (res matches Some(n) && n == m[k].len())
                &&& !m.contains_key(k) ==> res is None
            }),
    {
        let full_key = prefixed_key(&r.prefix, key);
        self.backends[r.backend].size(full_key.as_slice())
    }

    /// The content hash of the reference's whole backing store. The prefix
    /// plays no part: a prefixed view hashes the entire backend, not just its
    /// namespace.
    pub fn ref_hash(&mut self, r: &StorageRef) -> (res: Vec<u8>)
        requires
            old(self).wf(),
            old(self).ref_valid(*r),
        ensures
            final(self).wf(),
            final(self).named == old(self).named,
            final(self).backends@.len() == old(self).backends@.len(),
            forall|i: int|
                0 <= i < old(self).backends@.len() ==> final(self).backend_map(i) == old(
                    self,
                ).backend_map(i),
            res@ == old(self).backends@[r.backend as int].spec_hash(),
    {
        let idx = r.backend;
        let mut b = self.backends.remove(idx);
        let res = b.hash();
        self.backends.insert(idx, b);
        proof {
            assert(final(self).backends@ =~= old(self).backends@.update(
                idx as int,
                final(self).backends@[idx as int],
            ));
        }
        res
    }

    /// Flushes the reference's whole backing store. Never fails for the
    /// in-memory kinds.
    pub fn ref_commit(&mut self, r: &StorageRef) -> (res: Result<(), HostError>)
        requires
            old(self).wf(),
            old(self).ref_valid(*r),
        ensures
            final(self).wf(),
            res is Ok,
            final(self).named == old(self).named,
            final(self).backends@.len() == old(self).backends@.len(),
            forall|i: int|
                0 <= i < old(self).backends@.len() ==> final(self).backend_map(i) == old(
                    self,
                ).backend_map(i),
    {
        let idx = r.backend;
        let mut b = self.backends.remove(idx);
        let res = b.commit();
        self.backends.insert(idx, b);
        proof {
            assert(final(self).backends@ =~= old(self).backends@.update(
                idx as int,
                final(self).backends@[idx as int],
            ));
        }
        res
    }
}

/// The key a backend sees: the reference's prefix, then the caller's key.
fn prefixed_key(prefix: &Option<Vec<u8>>, key: &[u8]) -> (r: Vec<u8>)
    ensures
        r@ == (match prefix {
            Option::None => key@,
            Option::Some(p) => p@ + key@,
        }),
{
    match prefix {
        None => slice_to_vec(key),
        Some(p) => {
            let mut v = slice_to_vec(p.as_slice());
            v.extend_from_slice(key);
            v
        },
    }
}

} // verus!
