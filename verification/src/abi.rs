//! The marshalling layer between sandboxed code and the host: every host
//! call that receives a (pointer, length) pair validates it against the
//! guest's linear memory before touching a byte, string reads additionally
//! validate UTF-8, and writes copy only into the validated window. The host
//! calls themselves are thin compositions of these reads and writes with the
//! per-call context.
//!
//! The guest's linear memory is handed in as plain bytes; the caller owns
//! finding the memory export and copying the bytes across.

use vstd::prelude::*;
use vstd::slice::{slice_subrange, slice_to_vec};
use vstd::string::{StrSliceExecFns, StringSliceAdditionalSpecFns};
use vstd::utf8::{decode_utf8, encode_utf8, valid_utf8};

use crate::context::WasmContext;
use crate::errors::Fault;
use crate::registry::RegistryHandle;

verus! {

/// Whether `[ptr, ptr + len)` lies within a memory of `mem_len` bytes.
pub open spec fn in_bounds(mem_len: int, ptr: u32, len: u32) -> bool {
    ptr + len <= mem_len
}

/// Relies on core::str::from_utf8: it succeeds exactly on valid UTF-8, and
/// the returned string's bytes are the input bytes.
#[verifier::external_body]
fn bytes_to_str(v: &[u8]) -> (r: Option<&str>)
    ensures
        r is Some <==> valid_utf8(v@),
        r matches Some(s) ==> s.spec_bytes() == v@,
{
    core::str::from_utf8(v).ok()
}

/// Reads `len` bytes at guest pointer `ptr`, bounds-checked: out of range
/// faults, it never reads past the memory.
pub fn read_bytes(mem: &[u8], ptr: u32, len: u32) -> (r: Result<Vec<u8>, Fault>)
    ensures
        r is Ok <==> in_bounds(mem@.len() as int, ptr, len),
        r matches Ok(v) ==> v@ == mem@.subrange(ptr as int, ptr as int + len as int),
        r is Err ==> r == Err::<Vec<u8>, Fault>(Fault::OutOfBounds),
{
    if (len as usize) <= mem.len() && (ptr as usize) <= mem.len() - (len as usize) {
        let start = ptr as usize;
        let end = start + (len as usize);
        Ok(slice_to_vec(slice_subrange(mem, start, end)))
    } else {
        Err(Fault::OutOfBounds)
    }
}

/// Reads a UTF-8 string of `len` bytes at guest pointer `ptr`: out of range
/// or invalid encoding faults.
pub fn read_string(mem: &[u8], ptr: u32, len: u32) -> (r: Result<String, Fault>)
    ensures
        r is Ok <==> in_bounds(mem@.len() as int, ptr, len) && valid_utf8(
            mem@.subrange(ptr as int, ptr as int + len as int),
        ),
        r matches Ok(s) ==> encode_utf8(s@) == mem@.subrange(ptr as int, ptr as int + len as int),
        !in_bounds(mem@.len() as int, ptr, len) ==> r == Err::<String, Fault>(Fault::OutOfBounds),
        in_bounds(mem@.len() as int, ptr, len) && !valid_utf8(
            mem@.subrange(ptr as int, ptr as int + len as int),
        ) ==> r == Err::<String, Fault>(Fault::InvalidUtf8),
{
    let bytes = match read_bytes(mem, ptr, len) {
        Ok(b) => b,
        Err(f) => {
            return Err(f);
        },
    };
    match bytes_to_str(bytes.as_slice()) {
        Some(s) => Ok(s.to_owned()),
        None => Err(Fault::InvalidUtf8),
    }
}

/// Copies as much of `data` as fits into the window `[ptr, ptr + len)` of
/// the guest's memory, bounds-checked; the destination shorter than the
/// source takes only the available part. Returns how many bytes were copied.
pub fn write_bytes(mem: &mut Vec<u8>, ptr: u32, len: u32, data: &[u8]) -> (r: Result<usize, Fault>)
    ensures
        r is Ok <==> in_bounds(old(mem)@.len() as int, ptr, len),
        r is Err ==> r == Err::<usize, Fault>(Fault::OutOfBounds) && *final(mem) == *old(mem),
        r matches Ok(k) ==> ({
            &&& k == if data@.len() < len as int {
                data@.len() as int
            } else {
                len as int
            }
            &&& final(mem)@.len() == old(mem)@.len()
            &&& (forall|i: int| 0 <= i < k ==> final(mem)@[ptr + i] == data@[i])
            &&& (forall|i: int|
                0 <= i < old(mem)@.len() && !(ptr <= i < ptr + k) ==> final(mem)@[i] == old(mem)@[i])
        }),
{
    if !((len as usize) <= mem.len() && (ptr as usize) <= mem.len() - (len as usize)) {
        return Err(Fault::OutOfBounds);
    }
    let k: usize = if data.len() < (len as usize) {
        data.len()
    } else {
        len as usize
    };
    let mut i: usize = 0;
    while i < k
        invariant
            i <= k,
            k <= len as usize,
            k <= data@.len(),
            ptr as int + len as int <= mem@.len(),
            mem@.len() == old(mem)@.len(),
            forall|j: int| 0 <= j < i ==> mem@[ptr + j] == data@[j],
            forall|j: int|
                0 <= j < old(mem)@.len() && !(ptr <= j < ptr + i) ==> mem@[j] == old(mem)@[j],
        decreases k - i,
    {
        let ml: usize = mem.len();
        proof {
            assert((ptr as int) + (i as int) < ml as int);
        }
        let idx = (ptr as usize) + i;
        mem[idx] = data[i];
        i += 1;
    }
    Ok(k)
}

/// Validates and returns the guest's log text; the caller hands it to its
/// logging sink.
pub fn log_str(mem: &[u8], ptr: u32, len: u32) -> (r: Result<String, Fault>)
    ensures
        r is Ok <==> in_bounds(mem@.len() as int, ptr, len) && valid_utf8(
            mem@.subrange(ptr as int, ptr as int + len as int),
        ),
        r matches Ok(s) ==> encode_utf8(s@) == mem@.subrange(ptr as int, ptr as int + len as int),
{
    read_string(mem, ptr, len)
}

/// The bound request's payload length, as the two-phase read reports it; 0
/// while no request is bound.
#[verifier::truncate]
pub fn payload_size(ctx: &WasmContext) -> (r: u32)
    ensures
        ctx.call_context matches crate::context::CallContext::ManyRequest(req, _) ==> r
            == req.data.len() as u32,
        !(ctx.call_context is ManyRequest) ==> r == 0,
{
    match ctx.payload_size() {
        Ok(n) => n as u32,
        Err(_) => 0,
    }
}

/// Copies the bound request's payload into the guest window: the window is
/// bounds-checked, the copy takes what fits, and the copied length comes
/// back. Faults while no request is bound.
pub fn payload_copy(ctx: &WasmContext, mem: &mut Vec<u8>, ptr: u32, len: u32) -> (r: Result<
    u32,
    Fault,
>)
    ensures
        !(ctx.call_context is ManyRequest) ==> r == Err::<u32, Fault>(Fault::InvalidContext)
            && *final(mem) == *old(mem),
        ctx.call_context matches crate::context::CallContext::ManyRequest(req, _) ==> ({
            &&& !in_bounds(old(mem)@.len() as int, ptr, len) ==> r == Err::<u32, Fault>(
                Fault::OutOfBounds,
            ) && *final(mem) == *old(mem)
            &&& in_bounds(old(mem)@.len() as int, ptr, len) ==> ({
                let k = if req.data@.len() < len as int {
                    req.data@.len() as int
                } else {
                    len as int
                };
                &&& r == Ok::<u32, Fault>(k as u32)
                &&& final(mem)@.len() == old(mem)@.len()
                &&& (forall|i: int| 0 <= i < k ==> final(mem)@[ptr + i] == req.data@[i])
                &&& (forall|i: int|
                    0 <= i < old(mem)@.len() && !(ptr <= i < ptr + k) ==> final(mem)@[i] == old(mem)@[i])
            })
        }),
{
    let data = match ctx.payload_bytes() {
        Ok(d) => d,
        Err(f) => {
            return Err(f);
        },
    };
    match write_bytes(mem, ptr, len, data.as_slice()) {
        Ok(k) => Ok(k as u32),
        Err(f) => Err(f),
    }
}

/// The length of the caller's identity bytes. Faults while no request is
/// bound.
#[verifier::truncate]
pub fn sender_size(ctx: &WasmContext) -> (r: Result<u32, Fault>)
    ensures
        ctx.call_context matches crate::context::CallContext::ManyRequest(req, _) ==> r == Ok::<
            u32,
            Fault,
        >(crate::context::spec_sender(req).len() as u32),
        !(ctx.call_context is ManyRequest) ==> r == Err::<u32, Fault>(Fault::InvalidContext),
{
    match ctx.sender() {
        Ok(s) => Ok(s.len() as u32),
        Err(f) => Err(f),
    }
}

/// Copies the caller's identity bytes to guest pointer `ptr`, bounds-checked
/// against a window of exactly their length. Faults while no request is
/// bound.
pub fn sender_copy(ctx: &WasmContext, mem: &mut Vec<u8>, ptr: u32) -> (r: Result<u32, Fault>)
    // The identity bytes fit a u32 length: machine identities are short.
    requires
        ctx.call_context matches crate::context::CallContext::ManyRequest(req, _)
            ==> crate::context::spec_sender(req).len() <= u32::MAX,
    ensures
        !(ctx.call_context is ManyRequest) ==> r == Err::<u32, Fault>(Fault::InvalidContext)
            && *final(mem) == *old(mem),
        ctx.call_context matches crate::context::CallContext::ManyRequest(req, _) ==> ({
            let sender = crate::context::spec_sender(req);
            &&& sender.len() <= u32::MAX
            &&& (!in_bounds(old(mem)@.len() as int, ptr, sender.len() as u32) ==> (r == Err::<
                u32,
                Fault,
            >(Fault::OutOfBounds) && *final(mem) == *old(mem)))
            &&& (in_bounds(old(mem)@.len() as int, ptr, sender.len() as u32) ==> ({
                &&& r == Ok::<u32, Fault>(sender.len() as u32)
                &&& final(mem)@.len() == old(mem)@.len()
                &&& (forall|i: int| 0 <= i < sender.len() ==> final(mem)@[ptr + i] == sender[i])
                &&& (forall|i: int|
                    0 <= i < old(mem)@.len() && !(ptr <= i < ptr + sender.len()) ==> final(mem)@[i] == old(mem)@[i])
            }))
        }),
{
    let sender = match ctx.sender() {
        Ok(s) => s,
        Err(f) => {
            return Err(f);
        },
    };
    let len = sender.len() as u32;
    match write_bytes(mem, ptr, len, sender.as_slice()) {
        Ok(_) => Ok(len),
        Err(f) => Err(f),
    }
}

/// Mints a handle for a fresh error carrying `code`.
pub fn error_create(ctx: &mut WasmContext, code: i32) -> (r: Result<u32, Fault>)
    requires
        old(ctx).wf(),
    ensures
        final(ctx).wf(),
        final(ctx).call_context == old(ctx).call_context,
        final(ctx).storage_library == old(ctx).storage_library,
        final(ctx).storage_cache == old(ctx).storage_cache,
        forall|i: int|
            0 <= i < old(ctx).registry.objects@.len() ==> final(ctx).registry.objects@[i] == old(ctx).registry.objects@[i],
        r is Ok <==> old(ctx).registry.objects@.len() < u32::MAX as usize,
        r matches Ok(h) ==> h == old(ctx).registry.objects@.len() as u32 && final(ctx).registry.objects@.len() == old(ctx).registry.objects@.len() + 1 && (final(ctx).registry.objects@[h as int] matches crate::registry::RegistryObject::Error(e) && e.code
            == code as i64 && e.message is None && e.arguments@.len() == 0),
        r is Err ==> r == Err::<u32, Fault>(Fault::RegistryFull) && final(ctx).registry.objects@
            == old(ctx).registry.objects@,
{
    match ctx.create_error(code) {
        Ok(h) => Ok(h.0),
        Err(f) => Err(f),
    }
}

/// Sets the message of the error behind `handle` to the guest string at
/// `(msg_ptr, msg_len)`.
pub fn error_message(
    ctx: &mut WasmContext,
    mem: &[u8],
    handle: u32,
    msg_ptr: u32,
    msg_len: u32,
) -> (r: Result<(), Fault>)
    requires
        old(ctx).wf(),
    ensures
        final(ctx).wf(),
        final(ctx).call_context == old(ctx).call_context,
        final(ctx).storage_library == old(ctx).storage_library,
        final(ctx).storage_cache == old(ctx).storage_cache,
        final(ctx).registry.objects@.len() == old(ctx).registry.objects@.len(),
        forall|i: int|
            0 <= i < old(ctx).registry.objects@.len() && i != handle as int ==> final(ctx).registry.objects@[i] == old(ctx).registry.objects@[i],
        r is Err ==> final(ctx).registry.objects@ == old(ctx).registry.objects@,
        !in_bounds(mem@.len() as int, msg_ptr, msg_len) ==> r == Err::<(), Fault>(
            Fault::OutOfBounds,
        ),
        in_bounds(mem@.len() as int, msg_ptr, msg_len) && !valid_utf8(
            mem@.subrange(msg_ptr as int, msg_ptr as int + msg_len as int),
        ) ==> r == Err::<(), Fault>(Fault::InvalidUtf8),
        in_bounds(mem@.len() as int, msg_ptr, msg_len) && valid_utf8(
            mem@.subrange(msg_ptr as int, msg_ptr as int + msg_len as int),
        ) && !(old(ctx).registry.valid_handle(handle) && old(ctx).registry.objects@[handle as int]
            is Error) ==> r == Err::<(), Fault>(Fault::InvalidHandle),
        r is Ok <==> (in_bounds(mem@.len() as int, msg_ptr, msg_len) && valid_utf8(
            mem@.subrange(msg_ptr as int, msg_ptr as int + msg_len as int),
        ) && old(ctx).registry.valid_handle(handle) && old(ctx).registry.objects@[handle as int]
            is Error),
        r is Ok ==> (old(ctx).registry.objects@[handle as int] matches
            crate::registry::RegistryObject::Error(e) && final(ctx).registry.objects@[handle as int] matches crate::registry::RegistryObject::Error(e2)
            && e2.code == e.code && e2.arguments == e.arguments && (e2.message matches Some(m)
            && encode_utf8(m@) == mem@.subrange(msg_ptr as int, msg_ptr as int + msg_len as int))),
{
    let message = match read_string(mem, msg_ptr, msg_len) {
        Ok(s) => s,
        Err(f) => {
            return Err(f);
        },
    };
    ctx.set_error_message(RegistryHandle::new(handle), Some(message))
}

/// Adds one named argument, both key and value guest strings, to the error
/// behind `handle`.
pub fn error_argument(
    ctx: &mut WasmContext,
    mem: &[u8],
    handle: u32,
    key_ptr: u32,
    key_len: u32,
    value_ptr: u32,
    value_len: u32,
) -> (r: Result<(), Fault>)
    requires
        old(ctx).wf(),
    ensures
        final(ctx).wf(),
        final(ctx).call_context == old(ctx).call_context,
        final(ctx).storage_library == old(ctx).storage_library,
        final(ctx).storage_cache == old(ctx).storage_cache,
        final(ctx).registry.objects@.len() == old(ctx).registry.objects@.len(),
        forall|i: int|
            0 <= i < old(ctx).registry.objects@.len() && i != handle as int ==> final(ctx).registry.objects@[i] == old(ctx).registry.objects@[i],
        r is Err ==> final(ctx).registry.objects@ == old(ctx).registry.objects@,
        r is Ok <==> (in_bounds(mem@.len() as int, key_ptr, key_len) && valid_utf8(
            mem@.subrange(key_ptr as int, key_ptr as int + key_len as int),
        ) && in_bounds(mem@.len() as int, value_ptr, value_len) && valid_utf8(
            mem@.subrange(value_ptr as int, value_ptr as int + value_len as int),
        ) && old(ctx).registry.valid_handle(handle) && old(ctx).registry.objects@[handle as int]
            is Error),
        !in_bounds(mem@.len() as int, key_ptr, key_len) ==> r == Err::<(), Fault>(
            Fault::OutOfBounds,
        ),
        in_bounds(mem@.len() as int, key_ptr, key_len) && !valid_utf8(
            mem@.subrange(key_ptr as int, key_ptr as int + key_len as int),
        ) ==> r == Err::<(), Fault>(Fault::InvalidUtf8),
        in_bounds(mem@.len() as int, key_ptr, key_len) && valid_utf8(
            mem@.subrange(key_ptr as int, key_ptr as int + key_len as int),
        ) && !in_bounds(mem@.len() as int, value_ptr, value_len) ==> r == Err::<(), Fault>(
            Fault::OutOfBounds,
        ),
        in_bounds(mem@.len() as int, key_ptr, key_len) && valid_utf8(
            mem@.subrange(key_ptr as int, key_ptr as int + key_len as int),
        ) && in_bounds(mem@.len() as int, value_ptr, value_len) && !valid_utf8(
            mem@.subrange(value_ptr as int, value_ptr as int + value_len as int),
        ) ==> r == Err::<(), Fault>(Fault::InvalidUtf8),
        in_bounds(mem@.len() as int, key_ptr, key_len) && valid_utf8(
            mem@.subrange(key_ptr as int, key_ptr as int + key_len as int),
        ) && in_bounds(mem@.len() as int, value_ptr, value_len) && valid_utf8(
            mem@.subrange(value_ptr as int, value_ptr as int + value_len as int),
        ) && !(old(ctx).registry.valid_handle(handle) && old(ctx).registry.objects@[handle as int]
            is Error) ==> r == Err::<(), Fault>(Fault::InvalidHandle),
        r is Ok ==> (old(ctx).registry.objects@[handle as int] matches
            crate::registry::RegistryObject::Error(e) && final(ctx).registry.objects@[handle as int] matches crate::registry::RegistryObject::Error(e2)
            && e2.code == e.code && e2.message == e.message && ({
            let k = decode_utf8(mem@.subrange(key_ptr as int, key_ptr as int + key_len as int));
            let v = decode_utf8(
                mem@.subrange(value_ptr as int, value_ptr as int + value_len as int),
            );
            &&& !crate::errors::has_arg_key(e.arguments@, k) ==> (e2.arguments@.len()
                == e.arguments@.len() + 1 && (forall|j: int|
                0 <= j < e.arguments@.len() ==> e2.arguments@[j] == e.arguments@[j])
                && e2.arguments@[e.arguments@.len() as int].0@ == k
                && e2.arguments@[e.arguments@.len() as int].1@ == v)
            &&& crate::errors::has_arg_key(e.arguments@, k) ==> exists|j: int|
                0 <= j < e.arguments@.len() && (#[trigger] e.arguments@[j]).0@ == k
                    && e2.arguments@.len() == e.arguments@.len() && (forall|j2: int|
                    0 <= j2 < e.arguments@.len() && j2 != j ==> e2.arguments@[j2]
                        == e.arguments@[j2]) && e2.arguments@[j].0@ == k && e2.arguments@[j].1@
                    == v
        })),
{
    let key = match read_string(mem, key_ptr, key_len) {
        Ok(s) => s,
        Err(f) => {
            return Err(f);
        },
    };
    let value = match read_string(mem, value_ptr, value_len) {
        Ok(s) => s,
        Err(f) => {
            return Err(f);
        },
    };
    proof {
        vstd::utf8::encode_utf8_decode_utf8(key@);
        vstd::utf8::encode_utf8_decode_utf8(value@);
    }
    ctx.add_error_argument(RegistryHandle::new(handle), key, value)
}

/// Delivers the error behind `handle` as the call's single response: a
/// second delivery within one call faults.
pub fn return_error(ctx: &mut WasmContext, handle: u32) -> (r: Result<(), Fault>)
    requires
        old(ctx).wf(),
    ensures
        final(ctx).wf(),
        final(ctx).registry == old(ctx).registry,
        final(ctx).storage_library == old(ctx).storage_library,
        final(ctx).storage_cache == old(ctx).storage_cache,
        !(old(ctx).registry.valid_handle(handle) && old(ctx).registry.objects@[handle as int]
            is Error) ==> r == Err::<(), Fault>(Fault::InvalidHandle) && *final(ctx) == *old(ctx),
        (old(ctx).registry.valid_handle(handle) && old(ctx).registry.objects@[handle as int]
            is Error) ==> ({
            &&& old(ctx).is_bound() ==> (r is Ok && final(ctx).is_responded() && (old(ctx).registry.objects@[handle as int] matches crate::registry::RegistryObject::Error(e)
                && final(ctx).call_context matches crate::context::CallContext::ManyRequest(
                _,
                Some(res),
            ) && res matches Err(e2) && e2.code == e.code && e2.message == e.message
                && e2.arguments@ == e.arguments@))
            &&& old(ctx).is_responded() ==> r == Err::<(), Fault>(Fault::ReturnAlreadySet)
            &&& (old(ctx).is_idle() || old(ctx).call_context is Initialize) ==> r == Err::<
                (),
                Fault,
            >(Fault::InvalidCallContext)
        }),
{
    let err = match ctx.get_error(RegistryHandle::new(handle)) {
        Ok(e) => e.duplicate(),
        Err(f) => {
            return Err(f);
        },
    };
    ctx.set_return_value(Err(err))
}

/// Delivers the guest bytes at `(ptr, len)` as the call's single response: a
/// second delivery within one call faults.
pub fn return_data(ctx: &mut WasmContext, mem: &[u8], ptr: u32, len: u32) -> (r: Result<(), Fault>)
    requires
        old(ctx).wf(),
    ensures
        final(ctx).wf(),
        final(ctx).registry == old(ctx).registry,
        final(ctx).storage_library == old(ctx).storage_library,
        final(ctx).storage_cache == old(ctx).storage_cache,
        !in_bounds(mem@.len() as int, ptr, len) ==> r == Err::<(), Fault>(Fault::OutOfBounds)
            && *final(ctx) == *old(ctx),
        in_bounds(mem@.len() as int, ptr, len) ==> ({
            &&& old(ctx).is_bound() ==> (r is Ok && final(ctx).is_responded() && (final(ctx).call_context matches crate::context::CallContext::ManyRequest(_, Some(res)) && res
                matches Ok(d) && d@ == mem@.subrange(ptr as int, ptr as int + len as int)))
            &&& old(ctx).is_responded() ==> r == Err::<(), Fault>(Fault::ReturnAlreadySet)
            &&& (old(ctx).is_idle() || old(ctx).call_context is Initialize) ==> r == Err::<
                (),
                Fault,
            >(Fault::InvalidCallContext)
        }),
{
    let data = match read_bytes(mem, ptr, len) {
        Ok(d) => d,
        Err(f) => {
            return Err(f);
        },
    };
    ctx.set_return_value(Ok(data))
}

/// Opens the storage named by the guest string at `(name_ptr, name_len)` and
/// returns its handle; within one call, repeated opens of one name return
/// the same handle.
pub fn storage(ctx: &mut WasmContext, mem: &[u8], name_ptr: u32, name_len: u32) -> (r: Result<
    u32,
    Fault,
>)
    requires
        old(ctx).wf(),
    ensures
        final(ctx).wf(),
        final(ctx).call_context == old(ctx).call_context,
        final(ctx).storage_library == old(ctx).storage_library,
        forall|i: int|
            0 <= i < old(ctx).registry.objects@.len() ==> final(ctx).registry.objects@[i] == old(ctx).registry.objects@[i],
        forall|i: int|
            0 <= i < old(ctx).storage_cache@.len() ==> final(ctx).storage_cache@[i] == old(ctx).storage_cache@[i],
        r matches Ok(h) ==> final(ctx).registry.valid_handle(h) && final(ctx).registry.objects@[h as int] is Storage,
        !in_bounds(mem@.len() as int, name_ptr, name_len) ==> (r == Err::<u32, Fault>(
            Fault::OutOfBounds,
        ) && *final(ctx) == *old(ctx)),
        in_bounds(mem@.len() as int, name_ptr, name_len) && !valid_utf8(
            mem@.subrange(name_ptr as int, name_ptr as int + name_len as int),
        ) ==> (r == Err::<u32, Fault>(Fault::InvalidUtf8) && *final(ctx) == *old(ctx)),
        in_bounds(mem@.len() as int, name_ptr, name_len) && valid_utf8(
            mem@.subrange(name_ptr as int, name_ptr as int + name_len as int),
        ) ==> ({
            let name = decode_utf8(
                mem@.subrange(name_ptr as int, name_ptr as int + name_len as int),
            );
            &&& old(ctx).has_cached(name) ==> (*final(ctx) == *old(ctx) && exists|i: int|
                0 <= i < old(ctx).storage_cache@.len() && (#[trigger] old(ctx).storage_cache@[i]).0@ == name && r == Ok::<u32, Fault>(
                    old(ctx).storage_cache@[i].1.0,
                ))
            &&& (!old(ctx).has_cached(name) && !old(ctx).storage_library.has_name(name)) ==> (r
                == Err::<u32, Fault>(Fault::UnknownStorageName) && *final(ctx) == *old(ctx))
            &&& (!old(ctx).has_cached(name) && old(ctx).storage_library.has_name(name) && old(ctx).registry.objects@.len() < u32::MAX as usize) ==> (r matches Ok(h) && h == old(ctx).registry.objects@.len() as u32 && final(ctx).registry.objects@.len() == old(ctx).registry.objects@.len() + 1 && (exists|i: int|
                0 <= i < old(ctx).storage_library.named@.len() && (#[trigger] old(ctx).storage_library.named@[i]).0@ == name && (final(ctx).registry.objects@[h as int] matches crate::registry::RegistryObject::Storage(sr)
                    && sr.backend == old(ctx).storage_library.named@[i].1.backend
                    && sr.prefix_view() == old(ctx).storage_library.named@[i].1.prefix_view()))
                && final(ctx).storage_cache@.len() == old(ctx).storage_cache@.len() + 1 && final(ctx).storage_cache@[old(ctx).storage_cache@.len() as int].0@ == name && final(ctx).storage_cache@[old(ctx).storage_cache@.len() as int].1.0 == h)
            &&& (!old(ctx).has_cached(name) && old(ctx).storage_library.has_name(name) && old(ctx).registry.objects@.len() >= u32::MAX as usize) ==> (r == Err::<u32, Fault>(
                Fault::RegistryFull,
            ) && final(ctx).registry.objects@ == old(ctx).registry.objects@ && final(ctx).storage_cache == old(ctx).storage_cache)
        }),
{
    let name = match read_string(mem, name_ptr, name_len) {
        Ok(s) => s,
        Err(f) => {
            return Err(f);
        },
    };
    proof {
        vstd::utf8::encode_utf8_decode_utf8(name@);
    }
    match ctx.create_storage(name.as_str()) {
        Ok(h) => Ok(h.0),
        Err(f) => Err(f),
    }
}

/// The length of the value under the guest key, through the storage behind
/// `handle`; 0 when the key is absent.
#[verifier::truncate]
pub fn size(ctx: &WasmContext, mem: &[u8], handle: u32, key_ptr: u32, key_len: u32) -> (r: Result<
    u32,
    Fault,
>)
    requires
        ctx.wf(),
    ensures
        !in_bounds(mem@.len() as int, key_ptr, key_len) ==> r == Err::<u32, Fault>(
            Fault::OutOfBounds,
        ),
        in_bounds(mem@.len() as int, key_ptr, key_len) && !(ctx.registry.valid_handle(handle)
            && ctx.registry.objects@[handle as int] is Storage) ==> r == Err::<u32, Fault>(
            Fault::NotAStorage,
        ),
        ctx.registry.objects@[handle as int] matches crate::registry::RegistryObject::Storage(sr)
            ==> ((ctx.registry.valid_handle(handle) && in_bounds(mem@.len() as int, key_ptr, key_len))
            ==> ({
            let m = ctx.storage_library.backend_map(sr.backend as int);
            let k = sr.effective_key(mem@.subrange(key_ptr as int, key_ptr as int + key_len as int));
            &&& m.contains_key(k) ==> r == Ok::<u32, Fault>(m[k].len() as u32)
            &&& !m.contains_key(k) ==> r == Ok::<u32, Fault>(0)
        })),
{
    let key = match read_bytes(mem, key_ptr, key_len) {
        Ok(k) => k,
        Err(f) => {
            return Err(f);
        },
    };
    match ctx.storage_size(handle, key.as_slice()) {
        Ok(Some(n)) => Ok(n as u32),
        Ok(None) => Ok(0),
        Err(f) => Err(f),
    }
}

/// Reads the value under the guest key through the storage behind `handle`
/// into the guest buffer — only what fits — and returns the value's full
/// length, or 0 when the key is absent; the guest asks the size first and
/// allocates accordingly.
#[verifier::truncate]
pub fn get(
    ctx: &WasmContext,
    mem: &mut Vec<u8>,
    handle: u32,
    key_ptr: u32,
    key_len: u32,
    buffer_ptr: u32,
    buffer_len: u32,
) -> (r: Result<u32, Fault>)
    requires
        ctx.wf(),
    ensures
        ctx.registry.objects@[handle as int] matches crate::registry::RegistryObject::Storage(sr)
            ==> ((ctx.registry.valid_handle(handle) && in_bounds(
            old(mem)@.len() as int,
            key_ptr,
            key_len,
        )) ==> ({
            let m = ctx.storage_library.backend_map(sr.backend as int);
            let k = sr.effective_key(
                old(mem)@.subrange(key_ptr as int, key_ptr as int + key_len as int),
            );
            &&& !m.contains_key(k) ==> r == Ok::<u32, Fault>(0) && *final(mem) == *old(mem)
            &&& (m.contains_key(k) && in_bounds(old(mem)@.len() as int, buffer_ptr, buffer_len))
                ==> ({
                let copied = if m[k].len() < buffer_len as int {
                    m[k].len() as int
                } else {
                    buffer_len as int
                };
                &&& r == Ok::<u32, Fault>(m[k].len() as u32)
                &&& final(mem)@.len() == old(mem)@.len()
                &&& (forall|i: int| 0 <= i < copied ==> final(mem)@[buffer_ptr + i] == m[k][i])
                &&& (forall|i: int|
                    0 <= i < old(mem)@.len() && !(buffer_ptr <= i < buffer_ptr + copied)
                        ==> final(mem)@[i] == old(mem)@[i])
            })
            &&& (m.contains_key(k) && !in_bounds(old(mem)@.len() as int, buffer_ptr, buffer_len))
                ==> r == Err::<u32, Fault>(Fault::OutOfBounds) && *final(mem) == *old(mem)
        })),
        !in_bounds(old(mem)@.len() as int, key_ptr, key_len) ==> r == Err::<u32, Fault>(
            Fault::OutOfBounds,
        ) && *final(mem) == *old(mem),
        in_bounds(old(mem)@.len() as int, key_ptr, key_len) && !(ctx.registry.valid_handle(handle)
            && ctx.registry.objects@[handle as int] is Storage) ==> r == Err::<u32, Fault>(
            Fault::NotAStorage,
        ) && *final(mem) == *old(mem),
{
    let key = match read_bytes(mem.as_slice(), key_ptr, key_len) {
        Ok(k) => k,
        Err(f) => {
            return Err(f);
        },
    };
    let value = match ctx.storage_get(handle, key.as_slice()) {
        Ok(v) => v,
        Err(f) => {
            return Err(f);
        },
    };
    match value {
        Some(value) => {
            match write_bytes(mem, buffer_ptr, buffer_len, value.as_slice()) {
                Ok(_) => Ok(value.len() as u32),
                Err(f) => Err(f),
            }
        },
        None => Ok(0),
    }
}

/// Stores the guest value under the guest key through the storage behind
/// `handle`.
pub fn set(
    ctx: &mut WasmContext,
    mem: &[u8],
    handle: u32,
    key_ptr: u32,
    key_len: u32,
    value_ptr: u32,
    value_len: u32,
) -> (r: Result<(), Fault>)
    requires
        old(ctx).wf(),
    ensures
        final(ctx).wf(),
        final(ctx).call_context == old(ctx).call_context,
        final(ctx).registry == old(ctx).registry,
        final(ctx).storage_cache == old(ctx).storage_cache,
        final(ctx).storage_library.named == old(ctx).storage_library.named,
        final(ctx).storage_library.backends@.len() == old(ctx).storage_library.backends@.len(),
        r is Ok <==> (in_bounds(mem@.len() as int, key_ptr, key_len) && in_bounds(
            mem@.len() as int,
            value_ptr,
            value_len,
        ) && old(ctx).registry.valid_handle(handle) && old(ctx).registry.objects@[handle as int]
            is Storage),
        r is Err ==> final(ctx).storage_library == old(ctx).storage_library,
        !in_bounds(mem@.len() as int, key_ptr, key_len) ==> r == Err::<(), Fault>(
            Fault::OutOfBounds,
        ),
        in_bounds(mem@.len() as int, key_ptr, key_len) && !in_bounds(
            mem@.len() as int,
            value_ptr,
            value_len,
        ) ==> r == Err::<(), Fault>(Fault::OutOfBounds),
        in_bounds(mem@.len() as int, key_ptr, key_len) && in_bounds(
            mem@.len() as int,
            value_ptr,
            value_len,
        ) && !(old(ctx).registry.valid_handle(handle) && old(ctx).registry.objects@[handle as int]
            is Storage) ==> r == Err::<(), Fault>(Fault::NotAStorage),
        old(ctx).registry.objects@[handle as int] matches
            crate::registry::RegistryObject::Storage(sr) ==> (r is Ok ==> (final(ctx).storage_library.backend_map(sr.backend as int) == old(ctx).storage_library.backends@[sr.backend as int].map_after_set(
            sr.effective_key(mem@.subrange(key_ptr as int, key_ptr as int + key_len as int)),
            mem@.subrange(value_ptr as int, value_ptr as int + value_len as int),
        ) && (forall|i: int|
            0 <= i < old(ctx).storage_library.backends@.len() && i != sr.backend ==> final(ctx).storage_library.backends@[i] == old(ctx).storage_library.backends@[i]))),
{
    let key = match read_bytes(mem, key_ptr, key_len) {
        Ok(k) => k,
        Err(f) => {
            return Err(f);
        },
    };
    let value = match read_bytes(mem, value_ptr, value_len) {
        Ok(v) => v,
        Err(f) => {
            return Err(f);
        },
    };
    ctx.storage_set(handle, key.as_slice(), value)
}

} // verus!
