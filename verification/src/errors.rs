//! Error taxonomy: boundary/protocol faults that abort one call, and the
//! application error object that sandboxed code builds incrementally and
//! returns through the response slot.

use vstd::prelude::*;

verus! {

/// The error code carried by errors that have no specific code of their own.
pub const UNKNOWN_ERROR_CODE: i64 = -1;

/// A boundary or protocol-invariant fault. It aborts the in-flight call only;
/// the host stays usable for the next request.
#[derive(Clone, Copy, PartialEq, Eq, Structural, Debug)]
pub enum Fault {
    /// A guest pointer/length pair fell outside the guest's linear memory.
    OutOfBounds,
    /// The guest exports no linear memory to check a pointer against.
    MemoryMissing,
    /// Guest bytes that had to be text were not valid UTF-8.
    InvalidUtf8,
    /// A handle that no registry entry answers to, or one of the wrong kind.
    InvalidHandle,
    /// A handle that is not an opened storage reference.
    NotAStorage,
    /// A request accessor was called while no request is bound.
    InvalidContext,
    /// A response was delivered while no request is bound.
    InvalidCallContext,
    /// A second response was delivered within one call.
    ReturnAlreadySet,
    /// The call ended without any response having been set.
    NoReturnValueSet,
    /// A storage name that the storage library does not know.
    UnknownStorageName,
    /// A request method that no loaded module exports.
    EndpointNotFound,
    /// The handle registry can mint no further handle.
    RegistryFull,
}

impl Fault {
    /// What `message` returns, as a sequence of characters.
    pub open spec fn spec_message(self) -> Seq<char> {
        match self {
            Fault::OutOfBounds => "pointer/length out of bounds"@,
            Fault::MemoryMissing => "failed to find client memory"@,
            Fault::InvalidUtf8 => "invalid utf-8 string"@,
            Fault::InvalidHandle => "invalid handle"@,
            Fault::NotAStorage => "Unknown handle or not a storage."@,
            Fault::InvalidContext => "Invalid context"@,
            Fault::InvalidCallContext => "Invalid call context"@,
            Fault::ReturnAlreadySet => "return state already set"@,
            Fault::NoReturnValueSet => "No return value was set"@,
            Fault::UnknownStorageName => "Unknown storage name."@,
            Fault::EndpointNotFound => "Endpoint not found"@,
            Fault::RegistryFull => "handle space exhausted"@,
        }
    }

    /// The fault's text, as it is surfaced to the transport layer.
    pub fn message(&self) -> (r: &'static str)
        ensures
            r@ == self.spec_message(),
    {
        match self {
            Fault::OutOfBounds => "pointer/length out of bounds",
            Fault::MemoryMissing => "failed to find client memory",
            Fault::InvalidUtf8 => "invalid utf-8 string",
            Fault::InvalidHandle => "invalid handle",
            Fault::NotAStorage => "Unknown handle or not a storage.",
            Fault::InvalidContext => "Invalid context",
            Fault::InvalidCallContext => "Invalid call context",
            Fault::ReturnAlreadySet => "return state already set",
            Fault::NoReturnValueSet => "No return value was set",
            Fault::UnknownStorageName => "Unknown storage name.",
            Fault::EndpointNotFound => "Endpoint not found",
            Fault::RegistryFull => "handle space exhausted",
        }
    }

    /// The fault as an application-level error with the unknown code.
    pub fn to_host_error(&self) -> (r: HostError)
        ensures
            r.code == UNKNOWN_ERROR_CODE,
            r.message matches Some(m) && m@ == self.spec_message(),
            r.arguments@.len() == 0,
    {
        HostError {
            code: UNKNOWN_ERROR_CODE,
            message: Some(self.message().to_owned()),
            arguments: Vec::new(),
        }
    }
}

/// Whether an argument list already holds the key `k`.
pub open spec fn has_arg_key(args: Seq<(String, String)>, k: Seq<char>) -> bool {
    exists|i: int| 0 <= i < args.len() && (#[trigger] args[i]).0@ == k
}

/// An application error: a numeric code, an optional human message, and a
/// key/value argument map, built incrementally by sandboxed code and
/// delivered through the response slot.
#[derive(Debug)]
pub struct HostError {
    /// The numeric error code.
    pub code: i64,
    /// An optional human-readable message.
    pub message: Option<String>,
    /// Named arguments; keys are unique.
    pub arguments: Vec<(String, String)>,
}

impl HostError {
    /// A fresh error carrying only a code.
    pub fn new(code: i64) -> (r: Self)
        ensures
            r.code == code,
            r.message is None,
            r.arguments@.len() == 0,
    {
        HostError { code, message: None, arguments: Vec::new() }
    }

    /// An error with the unknown code and the given message.
    pub fn unknown(message: &str) -> (r: Self)
        ensures
            r.code == UNKNOWN_ERROR_CODE,
            r.message matches Some(m) && m@ == message@,
            r.arguments@.len() == 0,
    {
        HostError {
            code: UNKNOWN_ERROR_CODE,
            message: Some(message.to_owned()),
            arguments: Vec::new(),
        }
    }

    /// A copy of the error: same code, message and arguments.
    pub fn duplicate(&self) -> (r: Self)
        ensures
            r.code == self.code,
            r.message == self.message,
            r.arguments@ == self.arguments@,
    {
        let message = match &self.message {
            Some(m) => Some(m.clone()),
            None => None,
        };
        let mut arguments: Vec<(String, String)> = Vec::new();
        let mut i: usize = 0;
        while i < self.arguments.len()
            invariant
                i <= self.arguments@.len(),
                arguments@.len() == i,
                forall|j: int| 0 <= j < i ==> arguments@[j] == self.arguments@[j],
            decreases self.arguments@.len() - i,
        {
            arguments.push((self.arguments[i].0.clone(), self.arguments[i].1.clone()));
            i += 1;
        }
        proof {
            assert(arguments@ =~= self.arguments@);
        }
        HostError { code: self.code, message, arguments }
    }

    /// Replaces the error's message.
    pub fn set_message(&mut self, message: Option<String>)
        ensures
            final(self).code == old(self).code,
            final(self).message == message,
            final(self).arguments == old(self).arguments,
    {
        self.message = message;
    }

    /// Adds one named argument; a key already present has its value replaced.
    pub fn add_argument(&mut self, key: String, value: String)
        ensures
            final(self).code == old(self).code,
            final(self).message == old(self).message,
            !has_arg_key(old(self).arguments@, key@) ==> final(self).arguments@
                =~= old(self).arguments@.push((key, value)),
            has_arg_key(old(self).arguments@, key@) ==> exists|i: int|
                0 <= i < old(self).arguments@.len() && old(self).arguments@[i].0@ == key@
                    && final(self).arguments@ =~= old(self).arguments@.update(i, (key, value)),
    {
        let mut i: usize = 0;
        while i < self.arguments.len()
            invariant
                i <= self.arguments@.len(),
                self.code == old(self).code,
                self.message == old(self).message,
                self.arguments == old(self).arguments,
                forall|j: int| 0 <= j < i ==> (#[trigger] self.arguments@[j]).0@ != key@,
            decreases self.arguments@.len() - i,
        {
            if self.arguments[i].0 == key {
                self.arguments[i] = (key, value);
                return ;
            }
            i += 1;
        }
        self.arguments.push((key, value));
    }
}

} // verus!
