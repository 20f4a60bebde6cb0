//! The per-call context: the decoded request bound for the current session,
//! the single response slot that makes "exactly one response per call" hold,
//! the handle registry of the session's host-side objects, and the cache that
//! makes repeated opens of one storage name within a call idempotent.

use vstd::prelude::*;
use vstd::slice::slice_to_vec;

use crate::errors::Fault;
use crate::errors::HostError;
use crate::registry::{HandleRegistry, RegistryHandle, RegistryObject};
use crate::storage::{StorageLibrary, StorageRef};

verus! {

/// A decoded inbound request, as the host core reads it: a method name, a
/// payload, the caller's identity bytes if any were given, and the
/// destination identity bytes.
pub struct Request {
    /// The method name that picks the endpoint.
    pub method: String,
    /// The request payload.
    pub data: Vec<u8>,
    /// The caller's identity bytes; absent stands for the anonymous identity.
    pub from: Option<Vec<u8>>,
    /// The destination identity bytes.
    pub to: Vec<u8>,
}

/// The bytes of the anonymous identity: a single zero byte.
pub open spec fn spec_anonymous() -> Seq<u8> {
    seq![0u8]
}

/// The sender a request reports: its caller, or the anonymous identity.
pub open spec fn spec_sender(req: Request) -> Seq<u8> {
    match req.from {
        Some(f) => f@,
        None => spec_anonymous(),
    }
}

/// The call context's states: *Idle* outside any call, *Initialize* while an
/// initialization payload is bound, and a bound request with its single
/// response slot while a call runs.
pub enum CallContext {
    /// No call in flight; request accessors fault.
    Idle,
    /// A module's initialization payload is bound.
    Initialize(Vec<u8>),
    /// A request is bound; the slot holds at most one response.
    ManyRequest(Request, Option<Result<Vec<u8>, HostError>>),
}

impl CallContext {
    /// The initialization payload, if one is bound.
    pub fn as_initialize(&self) -> (r: Option<&Vec<u8>>)
        ensures
            *self matches CallContext::Initialize(v) ==> (r matches Some(rv) && *rv == v),
            !(*self is Initialize) ==> r is None,
    {
        match self {
            CallContext::Initialize(v) => Some(v),
            _ => None,
        }
    }

    /// The bound request and response slot, if a request is bound.
    pub fn as_many_request(&self) -> (r: Option<(&Request, &Option<Result<Vec<u8>, HostError>>)>)
        ensures
            *self matches CallContext::ManyRequest(req, res) ==> (r matches Some(p) && *p.0 == req
                && *p.1 == res),
            !(*self is ManyRequest) ==> r is None,
    {
        match self {
            CallContext::ManyRequest(req, res) => Some((req, res)),
            _ => None,
        }
    }
}

/// The per-session state the ABI layer works against: the call context, the
/// handle registry, the storage library, and the per-session cache from
/// storage name to its handle.
pub struct WasmContext {
    /// The current call's state.
    pub call_context: CallContext,
    /// The session's host-side objects.
    pub registry: HandleRegistry,
    /// The named stores the host serves.
    pub storage_library: StorageLibrary,
    /// Names already opened this session, each with its handle.
    pub storage_cache: Vec<(String, RegistryHandle)>,
}

impl WasmContext {
    /// Well-formedness: registry and library well-formed, every storage
    /// object valid against the library, and the cache a map from unique
    /// names to storage handles.
    pub open spec fn wf(&self) -> bool {
        &&& self.registry.wf()
        &&& self.storage_library.wf()
        &&& forall|i: int|
            0 <= i < self.registry.objects@.len() ==> ((#[trigger] self.registry.objects@[i])
                matches RegistryObject::Storage(sr) ==> self.storage_library.ref_valid(sr))
        &&& forall|i: int|
            0 <= i < self.storage_cache@.len() ==> self.registry.valid_handle(
                (#[trigger] self.storage_cache@[i]).1.0,
            ) && self.registry.objects@[self.storage_cache@[i].1.0 as int] is Storage
        &&& forall|i: int, j: int|
            0 <= i < j < self.storage_cache@.len() ==> (#[trigger] self.storage_cache@[i]).0@ != (
            #[trigger] self.storage_cache@[j]).0@
    }

    /// Whether no call is in flight.
    pub open spec fn is_idle(&self) -> bool {
        self.call_context is Idle
    }

    /// Whether a request is bound with its response slot still empty.
    pub open spec fn is_bound(&self) -> bool {
        self.call_context matches CallContext::ManyRequest(_, None)
    }

    /// Whether a request is bound and its response slot holds a response.
    pub open spec fn is_responded(&self) -> bool {
        self.call_context matches CallContext::ManyRequest(_, Some(_))
    }

    /// Whether a name was already opened this session.
    pub open spec fn has_cached(&self, name: Seq<char>) -> bool {
        exists|i: int|
            0 <= i < self.storage_cache@.len() && (#[trigger] self.storage_cache@[i]).0@ == name
    }

    /// A fresh context over a storage library: idle, no objects, no cache.
    pub fn new(storage_library: StorageLibrary) -> (r: Self)
        requires
            storage_library.wf(),
        ensures
            r.wf(),
            r.is_idle(),
            r.registry.objects@.len() == 0,
            r.storage_cache@.len() == 0,
            r.storage_library == storage_library,
    {
        WasmContext {
            call_context: CallContext::Idle,
            registry: HandleRegistry::new(),
            storage_library,
            storage_cache: Vec::new(),
        }
    }

    /// Back to *Idle*: drops any bound request or response, and clears the
    /// session's storage-name cache.
    pub fn reset(&mut self)
        ensures
            final(self).is_idle(),
            final(self).storage_cache@.len() == 0,
            final(self).registry == old(self).registry,
            final(self).storage_library == old(self).storage_library,
            old(self).wf() ==> final(self).wf(),
    {
        self.call_context = CallContext::Idle;
        self.storage_cache.clear();
    }

    /// Takes the response out of the slot: the single response of the call,
    /// or the fault that none was ever set ("no return value was set"), or
    /// the fault that no request is bound.
    pub fn response(&mut self) -> (r: Result<Result<Vec<u8>, HostError>, Fault>)
        ensures
            final(self).registry == old(self).registry,
            final(self).storage_library == old(self).storage_library,
            final(self).storage_cache == old(self).storage_cache,
            old(self).wf() ==> final(self).wf(),
            old(self).call_context matches CallContext::ManyRequest(req, Some(res)) ==> (r
                == Ok::<Result<Vec<u8>, HostError>, Fault>(res) && final(self).call_context
                == CallContext::ManyRequest(req, None)),
            old(self).is_bound() ==> (r == Err::<Result<Vec<u8>, HostError>, Fault>(
                Fault::NoReturnValueSet,
            ) && final(self).call_context == old(self).call_context),
            (old(self).is_idle() || old(self).call_context is Initialize) ==> (r == Err::<
                Result<Vec<u8>, HostError>,
                Fault,
            >(Fault::InvalidContext) && final(self).call_context == old(self).call_context),
    {
        let mut taken = CallContext::Idle;
        core::mem::swap(&mut self.call_context, &mut taken);
        match taken {
            CallContext::ManyRequest(req, Some(res)) => {
                self.call_context = CallContext::ManyRequest(req, None);
                Ok(res)
            },
            CallContext::ManyRequest(req, None) => {
                self.call_context = CallContext::ManyRequest(req, None);
                Err(Fault::NoReturnValueSet)
            },
            other => {
                self.call_context = other;
                Err(Fault::InvalidContext)
            },
        }
    }

    /// Replaces the call context wholesale.
    pub fn set_call_context(&mut self, ctx: CallContext)
        ensures
            final(self).call_context == ctx,
            final(self).registry == old(self).registry,
            final(self).storage_library == old(self).storage_library,
            final(self).storage_cache == old(self).storage_cache,
            old(self).wf() ==> final(self).wf(),
    {
        self.call_context = ctx;
    }

    /// Binds a request: the response slot starts empty.
    pub fn set_request(&mut self, request: Request)
        ensures
            final(self).call_context == CallContext::ManyRequest(request, None),
            final(self).registry == old(self).registry,
            final(self).storage_library == old(self).storage_library,
            final(self).storage_cache == old(self).storage_cache,
            old(self).wf() ==> final(self).wf(),
    {
        self.call_context = CallContext::ManyRequest(request, None);
    }

    /// Delivers the call's single response. A second delivery within one call
    /// faults ("return state already set"); delivery outside a call faults.
    pub fn set_return_value(&mut self, value: Result<Vec<u8>, HostError>) -> (r: Result<(), Fault>)
        ensures
            final(self).registry == old(self).registry,
            final(self).storage_library == old(self).storage_library,
            final(self).storage_cache == old(self).storage_cache,
            old(self).wf() ==> final(self).wf(),
            old(self).call_context matches CallContext::ManyRequest(req, None) ==> (r
                == Ok::<(), Fault>(()) && final(self).call_context == CallContext::ManyRequest(
                req,
                Some(value),
            )),
            old(self).is_responded() ==> (r == Err::<(), Fault>(Fault::ReturnAlreadySet) && final(self).call_context == old(self).call_context),
            (old(self).is_idle() || old(self).call_context is Initialize) ==> (r == Err::<
                (),
                Fault,
            >(Fault::InvalidCallContext) && final(self).call_context == old(self).call_context),
    {
        let mut taken = CallContext::Idle;
        core::mem::swap(&mut self.call_context, &mut taken);
        match taken {
            CallContext::ManyRequest(req, None) => {
                self.call_context = CallContext::ManyRequest(req, Some(value));
                Ok(())
            },
            CallContext::ManyRequest(req, Some(prev)) => {
                self.call_context = CallContext::ManyRequest(req, Some(prev));
                Err(Fault::ReturnAlreadySet)
            },
            other => {
                self.call_context = other;
                Err(Fault::InvalidCallContext)
            },
        }
    }

    /// The initialization payload, if one is bound.
    pub fn arg(&self) -> (r: Option<&Vec<u8>>)
        ensures
            self.call_context matches CallContext::Initialize(v) ==> (r matches Some(rv) && *rv
                == v),
            !(self.call_context is Initialize) ==> r is None,
    {
        self.call_context.as_initialize()
    }

    /// The bound request; faults ("invalid context") while none is bound.
    pub fn request(&self) -> (r: Result<&Request, Fault>)
        ensures
            self.call_context matches CallContext::ManyRequest(req, _) ==> (r matches Ok(rr)
                && *rr == req),
            !(self.call_context is ManyRequest) ==> r == Err::<&Request, Fault>(
                Fault::InvalidContext,
            ),
    {
        match &self.call_context {
            CallContext::ManyRequest(req, _) => Ok(req),
            _ => Err(Fault::InvalidContext),
        }
    }

    /// The bound request's payload length.
    pub fn payload_size(&self) -> (r: Result<usize, Fault>)
        ensures
            self.call_context matches CallContext::ManyRequest(req, _) ==> r == Ok::<usize, Fault>(
                req.data.len(),
            ),
            !(self.call_context is ManyRequest) ==> r == Err::<usize, Fault>(Fault::InvalidContext),
    {
        match self.request() {
            Ok(req) => Ok(req.data.len()),
            Err(f) => Err(f),
        }
    }

    /// The bound request's payload bytes.
    pub fn payload_bytes(&self) -> (r: Result<&Vec<u8>, Fault>)
        ensures
            self.call_context matches CallContext::ManyRequest(req, _) ==> (r matches Ok(d) && *d
                == req.data),
            !(self.call_context is ManyRequest) ==> r == Err::<&Vec<u8>, Fault>(
                Fault::InvalidContext,
            ),
    {
        match self.request() {
            Ok(req) => Ok(&req.data),
            Err(f) => Err(f),
        }
    }

    /// The caller's identity bytes: the bound request's sender, or the
    /// anonymous identity — one zero byte — when none was given.
    pub fn sender(&self) -> (r: Result<Vec<u8>, Fault>)
        ensures
            self.call_context matches CallContext::ManyRequest(req, _) ==> (r matches Ok(s) && s@
                == spec_sender(req)),
            !(self.call_context is ManyRequest) ==> r == Err::<Vec<u8>, Fault>(
                Fault::InvalidContext,
            ),
    {
        match self.request() {
            Ok(req) => match &req.from {
                Some(f) => Ok(slice_to_vec(f.as_slice())),
                None => {
                    let mut anon: Vec<u8> = Vec::new();
                    anon.push(0u8);
                    proof {
                        assert(anon@ =~= spec_anonymous());
                    }
                    Ok(anon)
                },
            },
            Err(f) => Err(f),
        }
    }

    /// The destination identity bytes of the bound request.
    pub fn dest(&self) -> (r: Result<Vec<u8>, Fault>)
        ensures
            self.call_context matches CallContext::ManyRequest(req, _) ==> (r matches Ok(d) && d@
                == req.to@),
            !(self.call_context is ManyRequest) ==> r == Err::<Vec<u8>, Fault>(
                Fault::InvalidContext,
            ),
    {
        match self.request() {
            Ok(req) => Ok(slice_to_vec(req.to.as_slice())),
            Err(f) => Err(f),
        }
    }

    /// The error behind a handle; faults ("invalid handle") for an unknown
    /// handle or one of another kind.
    pub fn get_error(&self, handle: RegistryHandle) -> (r: Result<&HostError, Fault>)
        ensures
            (self.registry.valid_handle(handle.0) && self.registry.objects@[handle.0 as int]
                is Error) <==> r is Ok,
            r matches Ok(e) ==> (self.registry.objects@[handle.0 as int] matches
                RegistryObject::Error(e2) && e2 == *e),
            r is Err ==> r == Err::<&HostError, Fault>(Fault::InvalidHandle),
    {
        match self.registry.get_error(handle) {
            Some(e) => Ok(e),
            None => Err(Fault::InvalidHandle),
        }
    }

    /// Mints a handle for a fresh error carrying only a code.
    pub fn create_error(&mut self, code: i32) -> (r: Result<RegistryHandle, Fault>)
        requires
            old(self).wf(),
        ensures
            final(self).wf(),
            final(self).call_context == old(self).call_context,
            final(self).storage_library == old(self).storage_library,
            final(self).storage_cache == old(self).storage_cache,
            r is Ok <==> old(self).registry.objects@.len() < u32::MAX as usize,
            r matches Ok(h) ==> h.0 == old(self).registry.objects@.len() && final(self).registry.objects@.len() == old(self).registry.objects@.len() + 1 && (final(self).registry.objects@[h.0 as int] matches RegistryObject::Error(e) && e.code
                == code as i64 && e.message is None && e.arguments@.len() == 0),
            r is Err ==> r == Err::<RegistryHandle, Fault>(Fault::RegistryFull) && final(self).registry.objects@ == old(self).registry.objects@,
            forall|i: int|
                0 <= i < old(self).registry.objects@.len() ==> final(self).registry.objects@[i]
                    == old(self).registry.objects@[i],
    {
        self.registry.error(code)
    }

    /// Replaces the message of the error behind a handle.
    pub fn set_error_message(&mut self, handle: RegistryHandle, message: Option<String>) -> (r:
        Result<(), Fault>)
        requires
            old(self).wf(),
        ensures
            final(self).wf(),
            final(self).call_context == old(self).call_context,
            final(self).storage_library == old(self).storage_library,
            final(self).storage_cache == old(self).storage_cache,
            r is Ok <==> (old(self).registry.valid_handle(handle.0) && old(self).registry.objects@[handle.0 as int] is Error),
            r is Err ==> r == Err::<(), Fault>(Fault::InvalidHandle) && final(self).registry.objects@ == old(self).registry.objects@,
            final(self).registry.objects@.len() == old(self).registry.objects@.len(),
            r is Ok ==> (old(self).registry.objects@[handle.0 as int] matches
                RegistryObject::Error(e) && final(self).registry.objects@[handle.0 as int] matches
                RegistryObject::Error(e2) && e2.code == e.code && e2.message == message
                && e2.arguments == e.arguments),
            forall|i: int|
                0 <= i < old(self).registry.objects@.len() && i != handle.0 as int ==> final(self).registry.objects@[i] == old(self).registry.objects@[i],
    {
        let r = self.registry.set_error_message(handle, message);
        proof {
            assert forall|i: int|
                0 <= i < final(self).registry.objects@.len() implies ((
            #[trigger] final(self).registry.objects@[i]) matches RegistryObject::Storage(sr)
                ==> final(self).storage_library.ref_valid(sr)) by {
                if i != handle.0 as int {
                    assert(final(self).registry.objects@[i] == old(self).registry.objects@[i]);
                }
            }
        }
        r
    }

    /// Adds one named argument to the error behind a handle.
    pub fn add_error_argument(&mut self, handle: RegistryHandle, key: String, value: String) -> (r:
        Result<(), Fault>)
        requires
            old(self).wf(),
        ensures
            final(self).wf(),
            final(self).call_context == old(self).call_context,
            final(self).storage_library == old(self).storage_library,
            final(self).storage_cache == old(self).storage_cache,
            r is Ok <==> (old(self).registry.valid_handle(handle.0) && old(self).registry.objects@[handle.0 as int] is Error),
            r is Err ==> r == Err::<(), Fault>(Fault::InvalidHandle) && final(self).registry.objects@ == old(self).registry.objects@,
            r is Ok ==> (old(self).registry.objects@[handle.0 as int] matches
                RegistryObject::Error(e) && final(self).registry.objects@[handle.0 as int] matches
                RegistryObject::Error(e2) && e2.code == e.code && e2.message == e.message && (
            !crate::errors::has_arg_key(e.arguments@, key@) ==> e2.arguments@ =~= e.arguments@.push(
                (key, value),
            )) && (crate::errors::has_arg_key(e.arguments@, key@) ==> exists|j: int|
                0 <= j < e.arguments@.len() && e.arguments@[j].0@ == key@ && e2.arguments@
                    =~= e.arguments@.update(j, (key, value)))),
            final(self).registry.objects@.len() == old(self).registry.objects@.len(),
            forall|i: int|
                0 <= i < old(self).registry.objects@.len() && i != handle.0 as int ==> final(self).registry.objects@[i] == old(self).registry.objects@[i],
    {
        let r = self.registry.add_error_argument(handle, key, value);
        proof {
            assert forall|i: int|
                0 <= i < final(self).registry.objects@.len() implies ((
            #[trigger] final(self).registry.objects@[i]) matches RegistryObject::Storage(sr)
                ==> final(self).storage_library.ref_valid(sr)) by {
                if i != handle.0 as int {
                    assert(final(self).registry.objects@[i] == old(self).registry.objects@[i]);
                }
            }
        }
        r
    }

    /// Opens the storage bound to `name` and mints (or returns the cached)
    /// handle: within one session, repeated opens of the same name return the
    /// same handle and touch nothing. An unknown name faults
    /// ("unknown storage name").
    pub fn create_storage(&mut self, name: &str) -> (r: Result<RegistryHandle, Fault>)
        requires
            old(self).wf(),
        ensures
            final(self).wf(),
            final(self).call_context == old(self).call_context,
            final(self).storage_library == old(self).storage_library,
            old(self).has_cached(name@) ==> (*final(self) == *old(self) && exists|i: int|
                0 <= i < old(self).storage_cache@.len() && (#[trigger] old(self).storage_cache@[i]).0@ == name@ && r == Ok::<RegistryHandle, Fault>(
                    old(self).storage_cache@[i].1,
                )),
            (!old(self).has_cached(name@) && !old(self).storage_library.has_name(name@)) ==> (r
                == Err::<RegistryHandle, Fault>(Fault::UnknownStorageName) && *final(self) == *old(self)),
            (!old(self).has_cached(name@) && old(self).storage_library.has_name(name@) && old(self).registry.objects@.len() < u32::MAX as usize) ==> (exists|h: RegistryHandle|
                r == Ok::<RegistryHandle, Fault>(h) && h.0 == old(self).registry.objects@.len()
                    && final(self).registry.objects@.len() == old(self).registry.objects@.len() + 1
                    && final(self).registry.objects@[h.0 as int] is Storage && final(self).storage_cache@.len() == old(self).storage_cache@.len() + 1 && final(self).storage_cache@[old(self).storage_cache@.len() as int].1 == h && final(self).storage_cache@[old(self).storage_cache@.len() as int].0@ == name@
                    && (exists|i: int|
                    0 <= i < old(self).storage_library.named@.len() && (#[trigger] old(self).storage_library.named@[i]).0@ == name@ && (final(self).registry.objects@[h.0 as int] matches RegistryObject::Storage(sr)
                        && sr.backend == old(self).storage_library.named@[i].1.backend
                        && sr.prefix_view() == old(self).storage_library.named@[i].1.prefix_view()))),
            (!old(self).has_cached(name@) && old(self).storage_library.has_name(name@) && old(self).registry.objects@.len() >= u32::MAX as usize) ==> (r == Err::<
                RegistryHandle,
                Fault,
            >(Fault::RegistryFull) && final(self).registry.objects@ == old(self).registry.objects@ && final(self).storage_cache == old(self).storage_cache),
            forall|i: int|
                0 <= i < old(self).registry.objects@.len() ==> final(self).registry.objects@[i]
                    == old(self).registry.objects@[i],
            forall|i: int|
                0 <= i < old(self).storage_cache@.len() ==> final(self).storage_cache@[i] == old(self).storage_cache@[i],
            r matches Ok(h) ==> final(self).registry.valid_handle(h.0)
                && final(self).registry.objects@[h.0 as int] is Storage,
    {
        // A name opened earlier this session answers with its cached handle.
        let mut i: usize = 0;
        while i < self.storage_cache.len()
            invariant
                i <= self.storage_cache@.len(),
                forall|j: int| 0 <= j < i ==> (#[trigger] self.storage_cache@[j]).0@ != name@,
                *self == *old(self),
                old(self).wf(),
            decreases self.storage_cache@.len() - i,
        {
            if crate::strings::str_eq(self.storage_cache[i].0.as_str(), name) {
                proof {
                    assert((#[trigger] old(self).storage_cache@[i as int]).0@ == name@);
                }
                return Ok(self.storage_cache[i].1);
            }
            i += 1;
        }
        proof {
            assert(!old(self).has_cached(name@));
        }
        let sref = match self.storage_library.get(name) {
            Some(s) => s.duplicate(),
            None => {
                return Err(Fault::UnknownStorageName);
            },
        };
        proof {
            let gi = choose|gi: int|
                0 <= gi < self.storage_library.named@.len() && (
                #[trigger] self.storage_library.named@[gi]).0@ == name@
                    && self.storage_library.named@[gi].1.backend == sref.backend;
            assert(old(self).storage_library.has_name(name@));
            assert(self.storage_library.ref_valid(self.storage_library.named@[gi].1));
            assert(self.storage_library.ref_valid(sref));
        }
        let ghost pre = *self;
        let handle = match self.registry.create_storage(sref) {
            Ok(h) => h,
            Err(f) => {
                return Err(f);
            },
        };
        self.storage_cache.push((name.to_owned(), handle));
        proof {
            assert(self.storage_cache@[pre.storage_cache@.len() as int].0@ == name@);
            assert forall|i2: int| 0 <= i2 < self.registry.objects@.len() implies ((
            #[trigger] self.registry.objects@[i2]) matches RegistryObject::Storage(sr)
                ==> self.storage_library.ref_valid(sr)) by {
                if i2 < pre.registry.objects@.len() {
                    assert(self.registry.objects@[i2] == pre.registry.objects@[i2]);
                } else {
                    assert(self.registry.objects@[i2] == RegistryObject::Storage(sref));
                }
            }
            assert forall|i2: int| 0 <= i2 < self.storage_cache@.len() implies self.registry.valid_handle(
                (#[trigger] self.storage_cache@[i2]).1.0,
            ) && self.registry.objects@[self.storage_cache@[i2].1.0 as int] is Storage by {
                if i2 < pre.storage_cache@.len() {
                    assert(self.storage_cache@[i2] == pre.storage_cache@[i2]);
                    assert(self.registry.objects@[self.storage_cache@[i2].1.0 as int]
                        == pre.registry.objects@[self.storage_cache@[i2].1.0 as int]);
                }
            }
            assert forall|i2: int, j2: int| 0 <= i2 < j2 < self.storage_cache@.len() implies (
            #[trigger] self.storage_cache@[i2]).0@ != (#[trigger] self.storage_cache@[j2]).0@ by {
                if j2 < pre.storage_cache@.len() {
                    assert(self.storage_cache@[i2] == pre.storage_cache@[i2]);
                    assert(self.storage_cache@[j2] == pre.storage_cache@[j2]);
                } else {
                    assert(self.storage_cache@[i2] == pre.storage_cache@[i2]);
                    assert(self.storage_cache@[j2].0@ == name@);
                }
            }
        }
        Ok(handle)
    }

    /// The storage reference behind a handle; faults ("unknown handle or not
    /// a storage") for an unknown handle or one of another kind.
    pub fn get_storage(&self, handle: u32) -> (r: Result<&StorageRef, Fault>)
        ensures
            (self.registry.valid_handle(handle) && self.registry.objects@[handle as int]
                is Storage) <==> r is Ok,
            r matches Ok(s) ==> (self.registry.objects@[handle as int] matches
                RegistryObject::Storage(s2) && s2 == *s),
            r is Err ==> r == Err::<&StorageRef, Fault>(Fault::NotAStorage),
    {
        match self.registry.get_storage(RegistryHandle::new(handle)) {
            Some(s) => Ok(s),
            None => Err(Fault::NotAStorage),
        }
    }

    /// Reads through the storage behind a handle: the backend's value under
    /// the reference's prefixed key.
    pub fn storage_get(&self, handle: u32, key: &[u8]) -> (r: Result<Option<Vec<u8>>, Fault>)
        requires
            self.wf(),
        ensures
            r is Ok <==> (self.registry.valid_handle(handle) && self.registry.objects@[handle as int]
                is Storage),
            r is Err ==> r == Err::<Option<Vec<u8>>, Fault>(Fault::NotAStorage),
            r matches Ok(o) ==> self.registry.objects@[handle as int] matches
                RegistryObject::Storage(sr) ==> ({
                let m = self.storage_library.backend_map(sr.backend as int);
                let k = sr.effective_key(key@);
                &&& m.contains_key(k) ==> (o matches Some(v) && v@ == m[k])
                &&& !m.contains_key(k) ==> o is None
            }),
    {
        let sref = match self.get_storage(handle) {
            Ok(s) => s,
            Err(f) => {
                return Err(f);
            },
        };
        match self.storage_library.ref_get(sref, key) {
            Ok(o) => Ok(o),
            Err(_) => Err(Fault::NotAStorage),
        }
    }

    /// The length of the value behind a handle's prefixed key, or absent.
    pub fn storage_size(&self, handle: u32, key: &[u8]) -> (r: Result<Option<usize>, Fault>)
        requires
            self.wf(),
        ensures
            r is Ok <==> (self.registry.valid_handle(handle) && self.registry.objects@[handle as int]
                is Storage),
            r is Err ==> r == Err::<Option<usize>, Fault>(Fault::NotAStorage),
            r matches Ok(o) ==> self.registry.objects@[handle as int] matches
                RegistryObject::Storage(sr) ==> ({
                let m = self.storage_library.backend_map(sr.backend as int);
                let k = sr.effective_key(key@);
                &&& m.contains_key(k) ==> (o matches Some(n) && n == m[k].len())
                &&& !m.contains_key(k) ==> o is None
            }),
    {
        let sref = match self.get_storage(handle) {
            Ok(s) => s,
            Err(f) => {
                return Err(f);
            },
        };
        Ok(self.storage_library.ref_size(sref, key))
    }

    /// Writes through the storage behind a handle: stores the value under the
    /// reference's prefixed key in its backend.
    pub fn storage_set(&mut self, handle: u32, key: &[u8], value: Vec<u8>) -> (r: Result<(), Fault>)
        requires
            old(self).wf(),
        ensures
            final(self).wf(),
            final(self).call_context == old(self).call_context,
            final(self).registry == old(self).registry,
            final(self).storage_cache == old(self).storage_cache,
            final(self).storage_library.named == old(self).storage_library.named,
            final(self).storage_library.backends@.len() == old(self).storage_library.backends@.len(),
            r is Ok <==> (old(self).registry.valid_handle(handle) && old(self).registry.objects@[handle as int] is Storage),
            r is Err ==> r == Err::<(), Fault>(Fault::NotAStorage) && final(self).storage_library
                == old(self).storage_library,
            old(self).registry.objects@[handle as int] matches RegistryObject::Storage(sr) ==> (r
                is Ok ==> (final(self).storage_library.backend_map(sr.backend as int) == old(self).storage_library.backends@[sr.backend as int].map_after_set(
                sr.effective_key(key@),
                value@,
            ) && (forall|i: int|
                0 <= i < old(self).storage_library.backends@.len() && i != sr.backend
                    ==> final(self).storage_library.backends@[i] == old(self).storage_library.backends@[i]))),
    {
        let sref = match self.get_storage(handle) {
            Ok(s) => s.duplicate(),
            Err(f) => {
                return Err(f);
            },
        };
        proof {
            assert(old(self).registry.objects@[handle as int] matches RegistryObject::Storage(s2)
                && s2.backend == sref.backend && s2.prefix_view() == sref.prefix_view());
        }
        match self.storage_library.ref_set(&sref, key, value) {
            Ok(()) => Ok(()),
            Err(_) => Err(Fault::NotAStorage),
        }
    }
}

} // verus!
