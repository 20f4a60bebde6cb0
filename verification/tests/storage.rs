//! Tests for the storage layer: the in-memory store, the content hash, the
//! null store, prefixed references, and configuration building.

use many_wasm_server::config::{hex_decode, SingleStorageConfig, StorageConfig};
use many_wasm_server::hashing::sha3_256;
use many_wasm_server::memory::MemoryStorage;
use many_wasm_server::storage::{Backend, StorageLibrary};
use sha3::Digest;

fn memory_library_with(name: &str) -> (many_wasm_server::storage::StorageRef, StorageLibrary) {
    let mut lib = StorageLibrary::new();
    let r = lib.new_ref(Backend::Memory(MemoryStorage::default()));
    lib.bind(name.to_string(), r.duplicate());
    (r, lib)
}

#[test]
fn get_after_set_returns_exact_bytes() {
    let mut store = MemoryStorage::default();
    store.set(b"alpha".to_vec(), b"one".to_vec()).unwrap();
    store.set(b"beta".to_vec(), b"two".to_vec()).unwrap();
    assert_eq!(store.get(b"alpha").unwrap(), Some(b"one".to_vec()));
    assert_eq!(store.get(b"beta").unwrap(), Some(b"two".to_vec()));
    store.set(b"alpha".to_vec(), b"uno".to_vec()).unwrap();
    assert_eq!(store.get(b"alpha").unwrap(), Some(b"uno".to_vec()));
}

#[test]
fn get_after_delete_returns_absent() {
    let mut store = MemoryStorage::default();
    store.set(b"alpha".to_vec(), b"one".to_vec()).unwrap();
    store.del(b"alpha").unwrap();
    assert_eq!(store.get(b"alpha").unwrap(), None);
    assert!(!store.contains(b"alpha"));
    // Deleting an absent key is fine and changes nothing else.
    store.set(b"beta".to_vec(), b"two".to_vec()).unwrap();
    store.del(b"alpha").unwrap();
    assert_eq!(store.get(b"beta").unwrap(), Some(b"two".to_vec()));
}

#[test]
fn delete_through_a_reference_removes_the_entry() {
    let (root, mut lib) = memory_library_with("root");
    lib.ref_set(&root, b"k", b"v".to_vec()).unwrap();
    lib.ref_del(&root, b"k").unwrap();
    assert_eq!(lib.ref_get(&root, b"k").unwrap(), None);
    lib.ref_commit(&root).unwrap();
}

#[test]
fn contains_and_size_report_entries() {
    let mut store = MemoryStorage::default();
    assert!(!store.contains(b"k"));
    assert_eq!(store.size(b"k"), None);
    store.set(b"k".to_vec(), b"value".to_vec()).unwrap();
    assert!(store.contains(b"k"));
    assert_eq!(store.size(b"k"), Some(5));
}

#[test]
fn content_hash_ignores_insertion_order() {
    let mut a = MemoryStorage::default();
    a.set(b"k1".to_vec(), b"v1".to_vec()).unwrap();
    a.set(b"k2".to_vec(), b"v2".to_vec()).unwrap();
    a.set(b"k3".to_vec(), b"v3".to_vec()).unwrap();
    let mut b = MemoryStorage::default();
    b.set(b"k3".to_vec(), b"v3".to_vec()).unwrap();
    b.set(b"k1".to_vec(), b"other".to_vec()).unwrap();
    b.set(b"k2".to_vec(), b"v2".to_vec()).unwrap();
    b.set(b"k1".to_vec(), b"v1".to_vec()).unwrap();
    assert_eq!(a.hash(), b.hash());
}

#[test]
fn content_hash_changes_on_mutation_and_is_idempotent() {
    let mut store = MemoryStorage::default();
    store.set(b"k".to_vec(), b"v".to_vec()).unwrap();
    let h1 = store.hash();
    let h1_again = store.hash();
    assert_eq!(h1, h1_again);
    store.set(b"k".to_vec(), b"w".to_vec()).unwrap();
    let h2 = store.hash();
    assert_ne!(h1, h2);
    store.del(b"k").unwrap();
    let h3 = store.hash();
    assert_ne!(h2, h3);
}

#[test]
fn content_hash_matches_domain_separated_digest() {
    // The store's hash must equal SHA3-256 over the documented stream: a
    // leading zero byte, per entry a tag + key + second tag + value in key
    // order, and a trailing end byte.
    let mut store = MemoryStorage::default();
    store.set(b"bb".to_vec(), b"2".to_vec()).unwrap();
    store.set(b"aa".to_vec(), b"1".to_vec()).unwrap();
    let mut stream: Vec<u8> = Vec::new();
    stream.extend_from_slice(b"\0");
    stream.extend_from_slice(b"key\x01");
    stream.extend_from_slice(b"aa");
    stream.extend_from_slice(b"key\x02");
    stream.extend_from_slice(b"1");
    stream.extend_from_slice(b"key\x01");
    stream.extend_from_slice(b"bb");
    stream.extend_from_slice(b"key\x02");
    stream.extend_from_slice(b"2");
    stream.extend_from_slice(b"\x03");
    let expected = sha3::Sha3_256::digest(&stream).to_vec();
    assert_eq!(store.hash(), expected);
    // The library's own digest wrapper agrees as well.
    assert_eq!(sha3_256(&stream), expected);
}

#[test]
fn null_store_discards_everything() {
    let mut lib = StorageLibrary::new();
    let r = lib.new_ref(Backend::Null(many_wasm_server::storage::NullKvStore));
    lib.ref_set(&r, b"k", b"v".to_vec()).unwrap();
    assert_eq!(lib.ref_get(&r, b"k").unwrap(), None);
    assert!(!lib.ref_contains(&r, b"k"));
    assert_eq!(lib.ref_size(&r, b"k"), None);
    assert_eq!(lib.ref_hash(&r), Vec::<u8>::new());
    lib.ref_commit(&r).unwrap();
}

#[test]
fn prefix_composition_behaves_like_concatenated_prefix() {
    let (root, mut lib) = memory_library_with("root");
    let twice = root.cloned_prefixed(b"p2".to_vec()).cloned_prefixed(b"p1".to_vec());
    let once = root.cloned_prefixed(b"p2p1".to_vec());
    assert_eq!(twice.backend, once.backend);
    lib.ref_set(&twice, b"key", b"value".to_vec()).unwrap();
    assert_eq!(lib.ref_get(&once, b"key").unwrap(), Some(b"value".to_vec()));
    lib.ref_set(&once, b"other", b"w".to_vec()).unwrap();
    assert_eq!(lib.ref_get(&twice, b"other").unwrap(), Some(b"w".to_vec()));
}

#[test]
fn prefixed_reference_shares_backing_store() {
    let (root, mut lib) = memory_library_with("root");
    let ns = root.cloned_prefixed(b"ns/".to_vec());
    lib.ref_set(&ns, b"k", b"v".to_vec()).unwrap();
    // The root sees the write under the full key; the namespace does not see
    // unprefixed keys.
    assert_eq!(lib.ref_get(&root, b"ns/k").unwrap(), Some(b"v".to_vec()));
    assert_eq!(lib.ref_get(&root, b"k").unwrap(), None);
    // The prefixed view's hash commits to the whole backing store.
    let h_ns = lib.ref_hash(&ns);
    let h_root = lib.ref_hash(&root);
    assert_eq!(h_ns, h_root);
    // cloned_root drops the namespace again.
    let back = ns.cloned_root();
    assert_eq!(lib.ref_get(&back, b"ns/k").unwrap(), Some(b"v".to_vec()));
}

#[test]
fn hex_decode_accepts_exactly_hex_digit_pairs() {
    assert_eq!(hex_decode("00ff10"), Some(vec![0x00, 0xff, 0x10]));
    assert_eq!(hex_decode("AbCd"), Some(vec![0xab, 0xcd]));
    assert_eq!(hex_decode(""), Some(vec![]));
    assert_eq!(hex_decode("0"), None);
    assert_eq!(hex_decode("0g"), None);
    assert_eq!(hex_decode("zz"), None);
}

#[test]
fn storage_config_builds_seeded_memory() {
    let config = StorageConfig(vec![SingleStorageConfig::Memory {
        name: "balances".to_string(),
        values: Some(vec![("00ff".to_string(), "0a0b".to_string())]),
    }]);
    let lib = StorageLibrary::create(config).unwrap();
    let r = lib.get("balances").unwrap().duplicate();
    assert_eq!(lib.ref_get(&r, &[0x00, 0xff]).unwrap(), Some(vec![0x0a, 0x0b]));
}

#[test]
fn storage_config_rejects_bad_hex_seed() {
    let config = StorageConfig(vec![SingleStorageConfig::Memory {
        name: "balances".to_string(),
        values: Some(vec![("xy".to_string(), "0a".to_string())]),
    }]);
    let err = StorageLibrary::create(config).unwrap_err();
    assert_eq!(err.message.as_deref(), Some("invalid hex in storage values"));
}

#[test]
fn storage_config_rejects_duplicate_name() {
    let config = StorageConfig(vec![
        SingleStorageConfig::Null { name: "a".to_string() },
        SingleStorageConfig::Memory { name: "a".to_string(), values: None },
    ]);
    let err = StorageLibrary::create(config).unwrap_err();
    assert_eq!(err.message.as_deref(), Some("Storage name already exists."));
}

#[test]
fn storage_config_resolves_prefixed_backend() {
    let config = StorageConfig(vec![
        SingleStorageConfig::Memory { name: "root".to_string(), values: None },
        SingleStorageConfig::Prefixed {
            name: "ns".to_string(),
            prefix: "p/".to_string(),
            backend: "root".to_string(),
        },
    ]);
    let mut lib = StorageLibrary::create(config).unwrap();
    let ns = lib.get("ns").unwrap().duplicate();
    let root = lib.get("root").unwrap().duplicate();
    lib.ref_set(&ns, b"k", b"v".to_vec()).unwrap();
    assert_eq!(lib.ref_get(&root, b"p/k").unwrap(), Some(b"v".to_vec()));
}

#[test]
fn storage_config_rejects_unknown_backend() {
    let config = StorageConfig(vec![SingleStorageConfig::Prefixed {
        name: "ns".to_string(),
        prefix: "p/".to_string(),
        backend: "missing".to_string(),
    }]);
    let err = StorageLibrary::create(config).unwrap_err();
    assert_eq!(err.message.as_deref(), Some("Unknown backend storage."));
}

#[test]
fn storage_config_order_matters_for_prefixed() {
    // A derived entry must name a backend built earlier in the list.
    let config = StorageConfig(vec![
        SingleStorageConfig::Prefixed {
            name: "ns".to_string(),
            prefix: "p/".to_string(),
            backend: "root".to_string(),
        },
        SingleStorageConfig::Memory { name: "root".to_string(), values: None },
    ]);
    assert!(StorageLibrary::create(config).is_err());
}
