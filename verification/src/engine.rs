//! The module library and engine: the registry from exported endpoint names
//! to modules, and the call flow around one dispatch — look the method up,
//! bind the request, let the instantiated module run against the ABI layer,
//! then take the single response and reset.
//!
//! The compiled modules themselves and their instantiation live with the
//! caller; the library names each module by the index `add` returned for it.

use vstd::prelude::*;
use vstd::string::StringExecFns;

use crate::context::{CallContext, Request, WasmContext};
use crate::errors::{HostError, UNKNOWN_ERROR_CODE};
use crate::storage::StorageLibrary;
use crate::strings::{spec_starts_with, str_eq, str_starts_with, str_suffix_from};

verus! {

/// The marker an export name carries to serve as an endpoint.
pub open spec fn endpoint_marker() -> Seq<char> {
    "endpoint "@
}

/// Whether an export name carries the endpoint marker.
pub open spec fn is_endpoint_export(s: Seq<char>) -> bool {
    spec_starts_with(s, endpoint_marker())
}

/// The endpoint name of a marked export: what follows the marker.
pub open spec fn endpoint_of(s: Seq<char>) -> Seq<char> {
    s.skip(endpoint_marker().len() as int)
}

/// The registry of loaded modules: each module's index, its display name, and
/// the endpoint names its exports registered — each endpoint name owned by
/// exactly one module.
pub struct ModuleLibrary {
    /// Endpoint name to owning module index; names are unique.
    pub endpoints: Vec<(String, usize)>,
    /// Display name to module index, in loading order.
    pub names: Vec<(String, usize)>,
    /// How many modules were added; indices run below this count.
    pub module_count: usize,
}

impl ModuleLibrary {
    /// Well-formedness: indices in range, endpoint names unique.
    pub open spec fn wf(&self) -> bool {
        &&& forall|i: int|
            0 <= i < self.endpoints@.len() ==> (#[trigger] self.endpoints@[i]).1
                < self.module_count
        &&& forall|i: int|
            0 <= i < self.names@.len() ==> (#[trigger] self.names@[i]).1 < self.module_count
        &&& forall|i: int, j: int|
            0 <= i < j < self.endpoints@.len() ==> (#[trigger] self.endpoints@[i]).0@ != (
            #[trigger] self.endpoints@[j]).0@
    }

    /// Whether some module registered `ep`.
    pub open spec fn has_endpoint(&self, ep: Seq<char>) -> bool {
        exists|i: int| 0 <= i < self.endpoints@.len() && (#[trigger] self.endpoints@[i]).0@ == ep
    }

    /// An empty library.
    pub fn new() -> (r: Self)
        ensures
            r.wf(),
            r.endpoints@.len() == 0,
            r.names@.len() == 0,
            r.module_count == 0,
    {
        ModuleLibrary { endpoints: Vec::new(), names: Vec::new(), module_count: 0 }
    }

    /// Whether some module registered `ep`.
    pub fn has_endpoint_exec(&self, ep: &str) -> (r: bool)
        ensures
            r == self.has_endpoint(ep@),
    {
        let mut i: usize = 0;
        while i < self.endpoints.len()
            invariant
                i <= self.endpoints@.len(),
                forall|j: int| 0 <= j < i ==> (#[trigger] self.endpoints@[j]).0@ != ep@,
            decreases self.endpoints@.len() - i,
        {
            if str_eq(self.endpoints[i].0.as_str(), ep) {
                return true;
            }
            i += 1;
        }
        false
    }

    /// Registers a module by its export names: every export carrying the
    /// endpoint marker registers the rest of its name. An endpoint name some
    /// module — this one or an earlier one — already registered fails the
    /// whole load, and then nothing is registered: the library is unchanged.
    pub fn add(&mut self, exports: &Vec<String>, name: String) -> (r: Result<usize, HostError>)
        requires
            old(self).wf(),
            old(self).module_count < usize::MAX,
        ensures
            final(self).wf(),
            r is Err <==> exists|j: int|
                0 <= j < exports@.len() && is_endpoint_export((#[trigger] exports@[j])@) && old(self).has_endpoint(endpoint_of(exports@[j]@)),
            r is Err ==> *final(self) == *old(self),
            r matches Ok(idx) ==> idx == old(self).module_count && final(self).module_count == old(self).module_count + 1 && final(self).names@ == old(self).names@.push((name, idx)),
            r is Ok ==> (forall|i: int|
                0 <= i < old(self).endpoints@.len() ==> final(self).endpoints@[i] == old(self).endpoints@[i]),
            r is Ok ==> (forall|i: int|
                old(self).endpoints@.len() <= i < final(self).endpoints@.len() ==> (
                #[trigger] final(self).endpoints@[i]).1 == old(self).module_count && exists|j: int|
                    0 <= j < exports@.len() && is_endpoint_export((#[trigger] exports@[j])@)
                        && endpoint_of(exports@[j]@) == final(self).endpoints@[i].0@),
            r is Ok ==> (forall|j: int|
                0 <= j < exports@.len() && is_endpoint_export((#[trigger] exports@[j])@) ==> final(self).has_endpoint(endpoint_of(exports@[j]@))),
    {
        proof {
            reveal_strlit("endpoint ");
        }
        // First pass: an endpoint some module already registered fails the
        // whole load before anything is registered.
        let mut j: usize = 0;
        while j < exports.len()
            invariant
                j <= exports@.len(),
                *self == *old(self),
                old(self).wf(),
                forall|j2: int|
                    0 <= j2 < j && is_endpoint_export((#[trigger] exports@[j2])@) ==> !old(
                        self,
                    ).has_endpoint(endpoint_of(exports@[j2]@)),
            decreases exports@.len() - j,
        {
            proof {
                reveal_strlit("endpoint ");
            }
            let e = exports[j].as_str();
            if str_starts_with(e, "endpoint ") {
                let ep = str_suffix_from(e, 9);
                proof {
                    assert(ep@ == endpoint_of(exports@[j as int]@));
                }
                if self.has_endpoint_exec(ep.as_str()) {
                    let msg = String::from_str("Endpoint ").concat(ep.as_str()).concat(
                        " already registered.",
                    );
                    return Err(HostError::unknown(msg.as_str()));
                }
            }
            j += 1;
        }
        // Second pass: register each endpoint once, all owned by this module.
        let idx = self.module_count;
        self.module_count = self.module_count + 1;
        let mut n: usize = 0;
        while n < exports.len()
            invariant
                n <= exports@.len(),
                idx == old(self).module_count,
                self.module_count == old(self).module_count + 1,
                self.names == old(self).names,
                old(self).endpoints@.len() <= self.endpoints@.len(),
                forall|i: int|
                    0 <= i < old(self).endpoints@.len() ==> (#[trigger] self.endpoints@[i]) == old(
                        self,
                    ).endpoints@[i],
                forall|i: int|
                    old(self).endpoints@.len() <= i < self.endpoints@.len() ==> (
                    #[trigger] self.endpoints@[i]).1 == idx && (exists|j2: int|
                        0 <= j2 < exports@.len() && is_endpoint_export((#[trigger] exports@[j2])@)
                            && endpoint_of(exports@[j2]@) == self.endpoints@[i].0@),
                forall|j2: int|
                    0 <= j2 < exports@.len() && is_endpoint_export((#[trigger] exports@[j2])@)
                        ==> !old(self).has_endpoint(endpoint_of(exports@[j2]@)),
                forall|j2: int|
                    0 <= j2 < n && is_endpoint_export((#[trigger] exports@[j2])@)
                        ==> self.has_endpoint(endpoint_of(exports@[j2]@)),
                forall|i: int, i2: int|
                    0 <= i < i2 < self.endpoints@.len() ==> (#[trigger] self.endpoints@[i]).0@ != (
                    #[trigger] self.endpoints@[i2]).0@,
            decreases exports@.len() - n,
        {
            proof {
                reveal_strlit("endpoint ");
            }
            let ghost pre = self.endpoints@;
            let e = exports[n].as_str();
            if str_starts_with(e, "endpoint ") {
                let ep = str_suffix_from(e, 9);
                proof {
                    assert(ep@ == endpoint_of(exports@[n as int]@));
                }
                if !self.has_endpoint_exec(ep.as_str()) {
                    let ghost epv = ep@;
                    self.endpoints.push((ep, idx));
                    proof {
                        assert(self.endpoints@[pre.len() as int].0@ == endpoint_of(
                            exports@[n as int]@,
                        ));
                        assert forall|j2: int|
                            0 <= j2 < n + 1 && is_endpoint_export(
                                (#[trigger] exports@[j2])@,
                            ) implies self.has_endpoint(endpoint_of(exports@[j2]@)) by {
                            if j2 < n {
                                let wi = choose|wi: int|
                                    0 <= wi < pre.len() && (#[trigger] pre[wi]).0@ == endpoint_of(
                                        exports@[j2]@,
                                    );
                                assert(self.endpoints@[wi].0@ == endpoint_of(exports@[j2]@));
                            } else {
                                assert(self.endpoints@[pre.len() as int].0@ == endpoint_of(
                                    exports@[j2]@,
                                ));
                            }
                        }
                        assert forall|i: int, i2: int|
                            0 <= i < i2 < self.endpoints@.len() implies (
                        #[trigger] self.endpoints@[i]).0@ != (#[trigger] self.endpoints@[i2]).0@ by {
                            if i2 < pre.len() {
                                assert(self.endpoints@[i] == pre[i]);
                                assert(self.endpoints@[i2] == pre[i2]);
                            } else {
                                assert(self.endpoints@[i] == pre[i]);
                                assert(self.endpoints@[i2].0@ == epv);
                            }
                        }
                    }
                }
            }
            n += 1;
        }
        self.names.push((name, idx));
        proof {
            assert forall|i: int|
                0 <= i < self.endpoints@.len() implies (#[trigger] self.endpoints@[i]).1
                < self.module_count by {
                if i < old(self).endpoints@.len() {
                    assert(self.endpoints@[i] == old(self).endpoints@[i]);
                }
            }
            assert forall|i: int|
                0 <= i < self.names@.len() implies (#[trigger] self.names@[i]).1
                < self.module_count by {
                if i < old(self).names@.len() {
                    assert(self.names@[i] == old(self).names@[i]);
                }
            }
        }
        Ok(idx)
    }

    /// The module that registered `endpoint`, by index.
    pub fn by_endpoint(&self, endpoint: &str) -> (r: Option<usize>)
        ensures
            r is Some <==> self.has_endpoint(endpoint@),
            r matches Some(idx) ==> exists|i: int|
                0 <= i < self.endpoints@.len() && (#[trigger] self.endpoints@[i]).0@ == endpoint@
                    && self.endpoints@[i].1 == idx,
    {
        let mut i: usize = 0;
        while i < self.endpoints.len()
            invariant
                i <= self.endpoints@.len(),
                forall|j: int| 0 <= j < i ==> (#[trigger] self.endpoints@[j]).0@ != endpoint@,
            decreases self.endpoints@.len() - i,
        {
            if str_eq(self.endpoints[i].0.as_str(), endpoint) {
                return Some(self.endpoints[i].1);
            }
            i += 1;
        }
        None
    }

    /// The module loaded under the display name, by index; a display name
    /// used twice answers with its latest registration.
    pub fn by_name(&self, name: &str) -> (r: Option<usize>)
        ensures
            r is Some <==> exists|i: int|
                0 <= i < self.names@.len() && (#[trigger] self.names@[i]).0@ == name@,
            r matches Some(idx) ==> exists|i: int|
                0 <= i < self.names@.len() && (#[trigger] self.names@[i]).0@ == name@
                    && self.names@[i].1 == idx && (forall|j: int|
                    i < j < self.names@.len() ==> (#[trigger] self.names@[j]).0@ != name@),
    {
        let mut i: usize = self.names.len();
        while i > 0
            invariant
                i <= self.names@.len(),
                forall|j: int| i <= j < self.names@.len() ==> (#[trigger] self.names@[j]).0@ != name@,
            decreases i,
        {
            i -= 1;
            if str_eq(self.names[i].0.as_str(), name) {
                return Some(self.names[i].1);
            }
        }
        None
    }
}

/// The engine: the loaded modules' endpoint registry and the per-call
/// context. The execution substrate instantiates the module the engine picks,
/// runs its endpoint export against the ABI layer, and hands control back.
pub struct WasmEngine {
    /// The endpoint registry over the loaded modules.
    pub modules: ModuleLibrary,
    /// The per-call context the ABI layer works against.
    pub ctx: WasmContext,
}

/// The export name serving a method: the endpoint marker, then the method.
pub fn endpoint_export_name(method: &str) -> (r: String)
    ensures
        r@ == endpoint_marker() + method@,
{
    String::from_str("endpoint ").concat(method)
}

impl WasmEngine {
    /// Well-formedness of both halves.
    pub open spec fn wf(&self) -> bool {
        self.modules.wf() && self.ctx.wf()
    }

    /// A fresh engine over a storage library: no modules, idle context.
    pub fn new(storage: StorageLibrary) -> (r: Self)
        requires
            storage.wf(),
        ensures
            r.wf(),
            r.ctx.is_idle(),
            r.modules.endpoints@.len() == 0,
            r.modules.module_count == 0,
            r.ctx.storage_library == storage,
    {
        WasmEngine { modules: ModuleLibrary::new(), ctx: WasmContext::new(storage) }
    }

    /// Registers a module by its export names; the caller keeps the compiled
    /// module under the returned index.
    pub fn add_module(&mut self, exports: &Vec<String>, name: String) -> (r: Result<
        usize,
        HostError,
    >)
        requires
            old(self).wf(),
            old(self).modules.module_count < usize::MAX,
        ensures
            final(self).wf(),
            final(self).ctx == old(self).ctx,
            r is Err <==> exists|j: int|
                0 <= j < exports@.len() && is_endpoint_export((#[trigger] exports@[j])@) && old(self).modules.has_endpoint(endpoint_of(exports@[j]@)),
            r is Err ==> *final(self) == *old(self),
            r matches Ok(idx) ==> idx == old(self).modules.module_count && final(self).modules.module_count == old(self).modules.module_count + 1,
            r is Ok ==> (forall|j: int|
                0 <= j < exports@.len() && is_endpoint_export((#[trigger] exports@[j])@) ==> final(self).modules.has_endpoint(endpoint_of(exports@[j]@))),
    {
        self.modules.add(exports, name)
    }

    /// Begins one dispatch: resolves the request's method to a module. A
    /// method no module registered faults with "endpoint not found" and
    /// leaves the call context idle and the whole engine untouched; otherwise
    /// the request is bound and the module's index returned, for the caller
    /// to instantiate and invoke its endpoint export.
    pub fn begin_call(&mut self, request: Request) -> (r: Result<usize, HostError>)
        requires
            old(self).wf(),
            old(self).ctx.is_idle(),
        ensures
            final(self).wf(),
            final(self).modules == old(self).modules,
            !old(self).modules.has_endpoint(request.method@) ==> (r matches Err(e) && e.code
                == UNKNOWN_ERROR_CODE && (e.message matches Some(m) && m@ == "Endpoint not found"@)
                && *final(self) == *old(self) && final(self).ctx.is_idle()),
            old(self).modules.has_endpoint(request.method@) ==> (r matches Ok(idx) && (exists|
                i: int,
            |
                0 <= i < old(self).modules.endpoints@.len() && (#[trigger] old(self).modules.endpoints@[i]).0@ == request.method@ && old(self).modules.endpoints@[i].1
                    == idx) && final(self).ctx.call_context == CallContext::ManyRequest(
                request,
                None,
            ) && final(self).ctx.registry == old(self).ctx.registry
                && final(self).ctx.storage_library == old(self).ctx.storage_library
                && final(self).ctx.storage_cache == old(self).ctx.storage_cache),
    {
        match self.modules.by_endpoint(request.method.as_str()) {
            None => Err(HostError::unknown("Endpoint not found")),
            Some(idx) => {
                self.ctx.set_request(request);
                Ok(idx)
            },
        }
    }

    /// Ends one dispatch: takes the single response out of the context —
    /// faulting with "no return value was set" when the module never
    /// delivered one — and resets the context to idle on every path.
    pub fn end_call(&mut self) -> (r: Result<Vec<u8>, HostError>)
        requires
            old(self).wf(),
        ensures
            final(self).wf(),
            final(self).modules == old(self).modules,
            final(self).ctx.is_idle(),
            final(self).ctx.storage_cache@.len() == 0,
            final(self).ctx.registry == old(self).ctx.registry,
            final(self).ctx.storage_library == old(self).ctx.storage_library,
            old(self).ctx.call_context matches CallContext::ManyRequest(_, Some(res)) ==> r == res,
            old(self).ctx.is_bound() ==> (r matches Err(e) && e.code == UNKNOWN_ERROR_CODE && (
            e.message matches Some(m) && m@ == "No return value was set"@)),
            (old(self).ctx.is_idle() || old(self).ctx.call_context is Initialize) ==> (r matches
                Err(e) && e.code == UNKNOWN_ERROR_CODE && (e.message matches Some(m) && m@
                == "Invalid context"@)),
    {
        let res = self.ctx.response();
        self.ctx.reset();
        match res {
            Ok(response) => response,
            Err(f) => Err(f.to_host_error()),
        }
    }
}

} // verus!

