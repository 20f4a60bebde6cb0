//! The handle registry: a table of host-side objects that sandboxed code
//! references by opaque integer handles. Handles are minted monotonically,
//! never reused and never freed; a handle is valid only for the registry that
//! minted it.
//!
//! Uniqueness is per registry, not process-wide: the host keeps one registry
//! per engine, behind the one session arena the design calls for, so two
//! registries of one process would mint overlapping handle values. Callers
//! must never hand a handle from one registry to another.

use vstd::prelude::*;

use crate::errors::{has_arg_key, Fault, HostError};
use crate::storage::StorageRef;

verus! {

/// An opaque integer capability onto a host-side object; it never exposes a
/// raw address to sandboxed code.
#[derive(Clone, Copy, PartialEq, Eq, Structural, Debug)]
pub struct RegistryHandle(pub u32);

impl RegistryHandle {
    /// The handle with the given identity.
    pub fn new(id: u32) -> (r: Self)
        ensures
            r.0 == id,
    {
        RegistryHandle(id)
    }

    /// The handle that references nothing.
    pub fn null() -> (r: Self)
        ensures
            r.0 == u32::MAX,
    {
        RegistryHandle(u32::MAX)
    }

    /// Whether this is the null handle.
    pub fn is_null(&self) -> (r: bool)
        ensures
            r == (self.0 == u32::MAX),
    {
        self.0 == u32::MAX
    }

    /// The handle's identity as an index.
    pub fn usize(&self) -> (r: usize)
        ensures
            r == self.0 as usize,
    {
        self.0 as usize
    }
}

/// A host-side object reachable through a handle: the closed set of kinds.
pub enum RegistryObject {
    /// An application error under construction.
    Error(HostError),
    /// An opened storage reference.
    Storage(StorageRef),
}

impl RegistryObject {
    /// The error under construction, if this object is one.
    pub fn as_error(&self) -> (r: Option<&HostError>)
        ensures
            *self matches RegistryObject::Error(e) ==> (r matches Some(re) && *re == e),
            !(*self is Error) ==> r is None,
    {
        match self {
            RegistryObject::Error(e) => Some(e),
            _ => None,
        }
    }

    /// The opened storage reference, if this object is one.
    pub fn as_storage(&self) -> (r: Option<&StorageRef>)
        ensures
            *self matches RegistryObject::Storage(s) ==> (r matches Some(rs) && *rs == s),
            !(*self is Storage) ==> r is None,
    {
        match self {
            RegistryObject::Storage(s) => Some(s),
            _ => None,
        }
    }
}

/// The table itself: the handle minted for an object is its index, so handles
/// increase monotonically and are never reused. Nothing is ever freed.
pub struct HandleRegistry {
    /// The objects, in minting order; the object of handle `h` is `objects[h]`.
    pub objects: Vec<RegistryObject>,
}

impl HandleRegistry {
    /// Well-formedness: the next handle to mint stays below the null handle.
    pub open spec fn wf(&self) -> bool {
        self.objects@.len() <= u32::MAX as usize
    }

    /// Whether `h` was minted by this registry.
    pub open spec fn valid_handle(&self, h: u32) -> bool {
        (h as int) < self.objects@.len()
    }

    /// An empty registry.
    pub fn new() -> (r: Self)
        ensures
            r.wf(),
            r.objects@.len() == 0,
    {
        HandleRegistry { objects: Vec::new() }
    }

    /// Mints the next handle for an object; fails only when the handle space
    /// is exhausted.
    fn create(&mut self, object: RegistryObject) -> (r: Result<RegistryHandle, Fault>)
        requires
            old(self).wf(),
        ensures
            final(self).wf(),
            r is Ok <==> old(self).objects@.len() < u32::MAX as usize,
            r matches Ok(h) ==> h.0 == old(self).objects@.len()
                && final(self).objects@ == old(self).objects@.push(object),
            r is Err ==> r == Err::<RegistryHandle, Fault>(Fault::RegistryFull) && *final(self)
                == *old(self),
    {
        if self.objects.len() < (u32::MAX as usize) {
            let handle = RegistryHandle::new(self.objects.len() as u32);
            self.objects.push(object);
            Ok(handle)
        } else {
            Err(Fault::RegistryFull)
        }
    }

    /// Mints a handle for a fresh error carrying only a code.
    pub fn error(&mut self, code: i32) -> (r: Result<RegistryHandle, Fault>)
        requires
            old(self).wf(),
        ensures
            final(self).wf(),
            r is Ok <==> old(self).objects@.len() < u32::MAX as usize,
            r matches Ok(h) ==> h.0 == old(self).objects@.len() && final(self).objects@.len()
                == old(self).objects@.len() + 1 && (forall|i: int|
                0 <= i < old(self).objects@.len()
                    ==> final(self).objects@[i] == old(self).objects@[i]) && (final(
            self).objects@[h.0 as int] matches RegistryObject::Error(e)
                && e.code == code as i64 && e.message is None && e.arguments@.len() == 0),
            r is Err ==> r == Err::<RegistryHandle, Fault>(Fault::RegistryFull) && *final(self)
                == *old(self),
    {
        self.create(RegistryObject::Error(HostError::new(code as i64)))
    }

    /// Mints a handle for an opened storage reference.
    pub fn create_storage(&mut self, storage_ref: StorageRef) -> (r: Result<RegistryHandle, Fault>)
        requires
            old(self).wf(),
        ensures
            final(self).wf(),
            r is Ok <==> old(self).objects@.len() < u32::MAX as usize,
            r matches Ok(h) ==> h.0 == old(self).objects@.len()
                && final(self).objects@ == old(self).objects@.push(RegistryObject::Storage(storage_ref)),
            r is Err ==> r == Err::<RegistryHandle, Fault>(Fault::RegistryFull) && *final(self)
                == *old(self),
    {
        self.create(RegistryObject::Storage(storage_ref))
    }

    /// The error behind a handle, or absent for an unknown handle or one of
    /// another kind.
    pub fn get_error(&self, handle: RegistryHandle) -> (r: Option<&HostError>)
        ensures
            r is Some <==> self.valid_handle(handle.0) && self.objects@[handle.0 as int] is Error,
            r matches Some(e) ==> (self.objects@[handle.0 as int] matches RegistryObject::Error(e2)
                && e2 == *e),
    {
        if (handle.0 as usize) < self.objects.len() {
            self.objects[handle.0 as usize].as_error()
        } else {
            None
        }
    }

    /// The storage reference behind a handle, or absent for an unknown handle
    /// or one of another kind.
    pub fn get_storage(&self, handle: RegistryHandle) -> (r: Option<&StorageRef>)
        ensures
            r is Some <==> self.valid_handle(handle.0) && self.objects@[handle.0 as int]
                is Storage,
            r matches Some(s) ==> (self.objects@[handle.0 as int] matches
                RegistryObject::Storage(s2) && s2 == *s),
    {
        if (handle.0 as usize) < self.objects.len() {
            self.objects[handle.0 as usize].as_storage()
        } else {
            None
        }
    }

    /// Replaces the message of the error behind a handle.
    pub fn set_error_message(&mut self, handle: RegistryHandle, message: Option<String>) -> (r:
        Result<(), Fault>)
        requires
            old(self).wf(),
        ensures
            final(self).wf(),
            r is Ok <==> old(self).valid_handle(handle.0) && old(self).objects@[handle.0 as int]
                is Error,
            r is Err ==> r == Err::<(), Fault>(Fault::InvalidHandle) && final(self).objects@
                == old(self).objects@,
            final(self).objects@.len() == old(self).objects@.len(),
            forall|i: int|
                0 <= i < old(self).objects@.len() && i != handle.0 as int
                    ==> final(self).objects@[i] == old(self).objects@[i],
            r is Ok ==> (old(self).objects@[handle.0 as int] matches RegistryObject::Error(e)
                && final(self).objects@[handle.0 as int] matches RegistryObject::Error(e2)
                && e2.code == e.code && e2.message == message && e2.arguments == e.arguments),
    {
        let idx = handle.0 as usize;
        if idx >= self.objects.len() {
            return Err(Fault::InvalidHandle);
        }
        let mut object = self.objects.remove(idx);
        match &mut object {
            RegistryObject::Error(e) => {
                e.set_message(message);
                self.objects.insert(idx, object);
                proof {
                    assert(final(self).objects@ =~= old(self).objects@.update(
                        idx as int,
                        final(self).objects@[idx as int],
                    ));
                }
                Ok(())
            },
            _ => {
                self.objects.insert(idx, object);
                proof {
                    assert(final(self).objects@ =~= old(self).objects@);
                }
                Err(Fault::InvalidHandle)
            },
        }
    }

    /// Adds one named argument to the error behind a handle; a key already
    /// present has its value replaced.
    pub fn add_error_argument(
        &mut self,
        handle: RegistryHandle,
        key: String,
        value: String,
    ) -> (r: Result<(), Fault>)
        requires
            old(self).wf(),
        ensures
            final(self).wf(),
            r is Ok <==> old(self).valid_handle(handle.0) && old(self).objects@[handle.0 as int]
                is Error,
            r is Err ==> r == Err::<(), Fault>(Fault::InvalidHandle) && final(self).objects@
                == old(self).objects@,
            final(self).objects@.len() == old(self).objects@.len(),
            forall|i: int|
                0 <= i < old(self).objects@.len() && i != handle.0 as int
                    ==> final(self).objects@[i] == old(self).objects@[i],
            r is Ok ==> (old(self).objects@[handle.0 as int] matches RegistryObject::Error(e)
                && final(self).objects@[handle.0 as int] matches RegistryObject::Error(e2)
                && e2.code == e.code && e2.message == e.message && (!has_arg_key(
                e.arguments@,
                key@,
            ) ==> e2.arguments@ =~= e.arguments@.push((key, value))) && (has_arg_key(
                e.arguments@,
                key@,
            ) ==> exists|j: int|
                0 <= j < e.arguments@.len() && e.arguments@[j].0@ == key@ && e2.arguments@
                    =~= e.arguments@.update(j, (key, value)))),
    {
        let idx = handle.0 as usize;
        if idx >= self.objects.len() {
            return Err(Fault::InvalidHandle);
        }
        let mut object = self.objects.remove(idx);
        match &mut object {
            RegistryObject::Error(e) => {
                e.add_argument(key, value);
                self.objects.insert(idx, object);
                proof {
                    assert(final(self).objects@ =~= old(self).objects@.update(
                        idx as int,
                        final(self).objects@[idx as int],
                    ));
                }
                Ok(())
            },
            _ => {
                self.objects.insert(idx, object);
                proof {
                    assert(final(self).objects@ =~= old(self).objects@);
                }
                Err(Fault::InvalidHandle)
            },
        }
    }
}

} // verus!
