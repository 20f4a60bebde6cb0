//! The content digest behind the in-memory store's `hash`.
//!
//! A store's content hash commits to its full key/value content: a fixed
//! domain-separation byte, then for each entry (in key order) a tag before the
//! key and a second tag before the value, then a trailing domain-separation
//! byte, all fed to SHA3-256.

use vstd::prelude::*;

verus! {

/// The SHA3-256 digest of a byte sequence. The digest is a pure function of
/// the input bytes; nothing more is assumed of it here.
pub uninterp spec fn sha3_256_of(bytes: Seq<u8>) -> Seq<u8>;

/// Relies on sha3::Sha3_256 (through digest::Digest::digest): the digest is a
/// function of the input bytes alone, and is 32 bytes long.
#[verifier::external_body]
pub fn sha3_256(bytes: &[u8]) -> (r: Vec<u8>)
    ensures
        r@ == sha3_256_of(bytes@),
        r@.len() == 32,
{
    <sha3::Sha3_256 as sha3::Digest>::digest(bytes).to_vec()
}

/// The bytes hashed for one entry: a tag, the key, a second tag, the value.
pub open spec fn entry_bytes(key: Seq<u8>, value: Seq<u8>) -> Seq<u8> {
    seq![107u8, 101u8, 121u8, 1u8] + key + seq![107u8, 101u8, 121u8, 2u8] + value
}

/// The bytes hashed for a run of entries, each in order.
pub open spec fn entries_bytes(entries: Seq<(Seq<u8>, Seq<u8>)>) -> Seq<u8>
    decreases entries.len(),
{
    if entries.len() == 0 {
        Seq::empty()
    } else {
        entries_bytes(entries.drop_last()) + entry_bytes(entries.last().0, entries.last().1)
    }
}

/// The bytes hashed for a whole store: a leading zero byte, each entry in
/// order, a trailing end byte.
pub open spec fn content_bytes(entries: Seq<(Seq<u8>, Seq<u8>)>) -> Seq<u8> {
    seq![0u8] + entries_bytes(entries) + seq![3u8]
}

/// The content hash of a store whose entries, in key order, are `entries`.
pub open spec fn content_hash_of(entries: Seq<(Seq<u8>, Seq<u8>)>) -> Seq<u8> {
    sha3_256_of(content_bytes(entries))
}

} // verus!
