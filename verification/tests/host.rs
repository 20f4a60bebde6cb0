//! Tests for the host side: endpoint registration and dispatch, the per-call
//! context's single-response invariant, handle registry behaviour, the ABI
//! marshalling layer, and one end-to-end ledger-style exchange with a
//! simulated guest.

use many_wasm_server::abi;
use many_wasm_server::config::{SingleStorageConfig, StorageConfig};
use many_wasm_server::context::{CallContext, Request, WasmContext};
use many_wasm_server::engine::{endpoint_export_name, ModuleLibrary, WasmEngine};
use many_wasm_server::errors::Fault;
use many_wasm_server::memory::MemoryStorage;
use many_wasm_server::storage::{Backend, StorageLibrary};

fn balances_library() -> StorageLibrary {
    StorageLibrary::create(StorageConfig(vec![SingleStorageConfig::Memory {
        name: "balances".to_string(),
        values: None,
    }]))
    .unwrap()
}

fn request(method: &str, data: Vec<u8>, from: Option<Vec<u8>>) -> Request {
    Request { method: method.to_string(), data, from, to: vec![1u8] }
}

#[test]
fn module_library_registers_marked_exports() {
    let mut lib = ModuleLibrary::new();
    let exports = vec![
        "endpoint ledger.balance".to_string(),
        "init".to_string(),
        "memory".to_string(),
    ];
    let idx = lib.add(&exports, "ledger".to_string()).unwrap();
    assert_eq!(idx, 0);
    assert_eq!(lib.by_endpoint("ledger.balance"), Some(0));
    assert_eq!(lib.by_endpoint("init"), None);
    assert_eq!(lib.by_name("ledger"), Some(0));
}

#[test]
fn duplicate_endpoint_fails_load_and_registers_nothing() {
    let mut lib = ModuleLibrary::new();
    lib.add(&vec!["endpoint foo".to_string()], "first".to_string()).unwrap();
    let err = lib
        .add(
            &vec!["endpoint foo".to_string(), "endpoint bar".to_string()],
            "second".to_string(),
        )
        .unwrap_err();
    assert_eq!(err.message.as_deref(), Some("Endpoint foo already registered."));
    // Nothing of the failing module was registered: not even its other
    // endpoint, and its name is unknown.
    assert_eq!(lib.by_endpoint("bar"), None);
    assert_eq!(lib.by_name("second"), None);
    assert_eq!(lib.by_endpoint("foo"), Some(0));
}

#[test]
fn duplicate_display_name_answers_with_latest() {
    let mut lib = ModuleLibrary::new();
    lib.add(&vec!["endpoint a".to_string()], "worker".to_string()).unwrap();
    lib.add(&vec!["endpoint b".to_string()], "worker".to_string()).unwrap();
    assert_eq!(lib.by_name("worker"), Some(1));
    assert_eq!(lib.by_name("other"), None);
}

#[test]
fn endpoint_export_name_carries_marker() {
    assert_eq!(endpoint_export_name("ledger.balance"), "endpoint ledger.balance");
}

#[test]
fn dispatch_unknown_method_faults_and_leaves_idle() {
    let mut engine = WasmEngine::new(balances_library());
    let err = engine.begin_call(request("no.such.method", vec![], None)).unwrap_err();
    assert_eq!(err.message.as_deref(), Some("Endpoint not found"));
    assert!(matches!(engine.ctx.call_context, CallContext::Idle));
}

#[test]
fn call_without_response_faults() {
    let mut engine = WasmEngine::new(balances_library());
    engine.add_module(&vec!["endpoint echo".to_string()], "echo".to_string()).unwrap();
    engine.begin_call(request("echo", vec![], None)).unwrap();
    // The module returned without delivering any response.
    let err = engine.end_call().unwrap_err();
    assert_eq!(err.message.as_deref(), Some("No return value was set"));
    assert!(matches!(engine.ctx.call_context, CallContext::Idle));
}

#[test]
fn second_response_in_one_call_faults() {
    let mut engine = WasmEngine::new(balances_library());
    engine.add_module(&vec!["endpoint echo".to_string()], "echo".to_string()).unwrap();
    engine.begin_call(request("echo", vec![], None)).unwrap();
    let mem: Vec<u8> = b"hello".to_vec();
    abi::return_data(&mut engine.ctx, &mem, 0, 5).unwrap();
    let second = abi::return_data(&mut engine.ctx, &mem, 0, 5);
    assert_eq!(second, Err(Fault::ReturnAlreadySet));
    // The first response stands.
    assert_eq!(engine.end_call().unwrap(), b"hello".to_vec());
}

#[test]
fn returning_data_outside_a_call_faults() {
    let mut ctx = WasmContext::new(balances_library());
    let mem: Vec<u8> = vec![0u8; 4];
    assert_eq!(abi::return_data(&mut ctx, &mem, 0, 4), Err(Fault::InvalidCallContext));
}

#[test]
fn open_storage_twice_returns_same_handle() {
    let mut ctx = WasmContext::new(balances_library());
    let h1 = ctx.create_storage("balances").unwrap();
    let h2 = ctx.create_storage("balances").unwrap();
    assert_eq!(h1, h2);
    // Reading through either behaves identically.
    ctx.storage_set(h1.0, b"k", b"v".to_vec()).unwrap();
    assert_eq!(ctx.storage_get(h1.0, b"k").unwrap(), Some(b"v".to_vec()));
    assert_eq!(ctx.storage_get(h2.0, b"k").unwrap(), Some(b"v".to_vec()));
}

#[test]
fn unknown_storage_name_faults() {
    let mut ctx = WasmContext::new(balances_library());
    assert_eq!(ctx.create_storage("nope"), Err(Fault::UnknownStorageName));
}

#[test]
fn handles_are_minted_monotonically() {
    let mut ctx = WasmContext::new(balances_library());
    let h1 = ctx.create_error(7).unwrap();
    let h2 = ctx.create_error(8).unwrap();
    let h3 = ctx.create_storage("balances").unwrap();
    assert_eq!(h1.0, 0);
    assert_eq!(h2.0, 1);
    assert_eq!(h3.0, 2);
    assert!(!h1.is_null());
    assert_eq!(h1.usize(), 0);
    assert!(many_wasm_server::registry::RegistryHandle::null().is_null());
}

#[test]
fn wrong_handle_kind_faults() {
    let mut ctx = WasmContext::new(balances_library());
    let err_handle = ctx.create_error(7).unwrap();
    let sto_handle = ctx.create_storage("balances").unwrap();
    assert!(ctx.get_storage(err_handle.0).is_err());
    assert!(ctx.get_error(sto_handle).is_err());
    assert!(ctx.get_error(many_wasm_server::registry::RegistryHandle::new(99)).is_err());
    assert_eq!(ctx.storage_get(err_handle.0, b"k"), Err(Fault::NotAStorage));
}

#[test]
fn read_bytes_is_bounds_checked() {
    let mem: Vec<u8> = vec![1, 2, 3, 4];
    assert_eq!(abi::read_bytes(&mem, 1, 2).unwrap(), vec![2, 3]);
    assert_eq!(abi::read_bytes(&mem, 0, 4).unwrap(), vec![1, 2, 3, 4]);
    assert_eq!(abi::read_bytes(&mem, 3, 2), Err(Fault::OutOfBounds));
    assert_eq!(abi::read_bytes(&mem, 5, 0), Err(Fault::OutOfBounds));
    assert_eq!(abi::read_bytes(&mem, u32::MAX, 1), Err(Fault::OutOfBounds));
    assert_eq!(abi::read_bytes(&mem, 4, 0).unwrap(), Vec::<u8>::new());
}

#[test]
fn read_string_validates_utf8() {
    let mem: Vec<u8> = b"ok\xff\xfe".to_vec();
    assert_eq!(abi::read_string(&mem, 0, 2).unwrap(), "ok");
    assert_eq!(abi::read_string(&mem, 2, 2), Err(Fault::InvalidUtf8));
    assert_eq!(abi::read_string(&mem, 3, 4), Err(Fault::OutOfBounds));
    assert_eq!(abi::log_str(&mem, 0, 2).unwrap(), "ok");
}

#[test]
fn write_bytes_copies_what_fits() {
    let mut mem: Vec<u8> = vec![0; 6];
    // The destination window is shorter than the source: only the available
    // part is copied.
    assert_eq!(abi::write_bytes(&mut mem, 1, 3, b"abcdef").unwrap(), 3);
    assert_eq!(mem, vec![0, b'a', b'b', b'c', 0, 0]);
    // The source is shorter than the window: the copy stops at the source.
    assert_eq!(abi::write_bytes(&mut mem, 4, 2, b"Z").unwrap(), 1);
    assert_eq!(mem, vec![0, b'a', b'b', b'c', b'Z', 0]);
    assert_eq!(abi::write_bytes(&mut mem, 5, 2, b"xy"), Err(Fault::OutOfBounds));
}

#[test]
fn payload_two_phase_read() {
    let mut ctx = WasmContext::new(balances_library());
    ctx.set_request(request("m", b"payload!".to_vec(), None));
    assert_eq!(abi::payload_size(&ctx), 8);
    let mut mem: Vec<u8> = vec![0; 8];
    assert_eq!(abi::payload_copy(&ctx, &mut mem, 0, 8).unwrap(), 8);
    assert_eq!(mem, b"payload!".to_vec());
    // A shorter buffer takes a shorter copy.
    let mut small: Vec<u8> = vec![0; 3];
    assert_eq!(abi::payload_copy(&ctx, &mut small, 0, 3).unwrap(), 3);
    assert_eq!(small, b"pay".to_vec());
}

#[test]
fn sender_defaults_to_anonymous() {
    let mut ctx = WasmContext::new(balances_library());
    ctx.set_request(request("m", vec![], None));
    assert_eq!(abi::sender_size(&ctx).unwrap(), 1);
    let mut mem: Vec<u8> = vec![9; 3];
    assert_eq!(abi::sender_copy(&ctx, &mut mem, 1).unwrap(), 1);
    assert_eq!(mem, vec![9, 0, 9]);
}

#[test]
fn payload_access_outside_call_faults() {
    let ctx = WasmContext::new(balances_library());
    assert_eq!(abi::payload_size(&ctx), 0);
    let mut mem: Vec<u8> = vec![0; 4];
    assert_eq!(abi::payload_copy(&ctx, &mut mem, 0, 4), Err(Fault::InvalidContext));
    assert_eq!(abi::sender_size(&ctx), Err(Fault::InvalidContext));
}

#[test]
fn error_object_built_incrementally_and_returned() {
    let mut engine = WasmEngine::new(balances_library());
    engine.add_module(&vec!["endpoint fail".to_string()], "fail".to_string()).unwrap();
    engine.begin_call(request("fail", vec![], None)).unwrap();

    // The guest's memory holds the message and one key/value argument.
    let mut mem: Vec<u8> = Vec::new();
    mem.extend_from_slice(b"not enough funds");  // 0..16
    mem.extend_from_slice(b"account");  // 16..23
    mem.extend_from_slice(b"alice");  // 23..28

    let handle = abi::error_create(&mut engine.ctx, 4).unwrap();
    abi::error_message(&mut engine.ctx, &mem, handle, 0, 16).unwrap();
    abi::error_argument(&mut engine.ctx, &mem, handle, 16, 7, 23, 5).unwrap();
    abi::return_error(&mut engine.ctx, handle).unwrap();

    let err = engine.end_call().unwrap_err();
    assert_eq!(err.code, 4);
    assert_eq!(err.message.as_deref(), Some("not enough funds"));
    assert_eq!(err.arguments, vec![("account".to_string(), "alice".to_string())]);
}

#[test]
fn abi_storage_open_twice_returns_same_handle() {
    let mut ctx = WasmContext::new(balances_library());
    let mut mem: Vec<u8> = vec![0; 16];
    mem[0..8].copy_from_slice(b"balances");
    let h1 = abi::storage(&mut ctx, &mem, 0, 8).unwrap();
    let h2 = abi::storage(&mut ctx, &mem, 0, 8).unwrap();
    assert_eq!(h1, h2);
    assert_eq!(abi::storage(&mut ctx, &mem, 0, 20), Err(Fault::OutOfBounds));
    assert_eq!(abi::storage(&mut ctx, &mem, 8, 4), Err(Fault::UnknownStorageName));
}

#[test]
fn error_argument_replaces_an_existing_key() {
    let mut ctx = WasmContext::new(balances_library());
    let mut mem: Vec<u8> = Vec::new();
    mem.extend_from_slice(b"account");  // 0..7
    mem.extend_from_slice(b"alice");  // 7..12
    mem.extend_from_slice(b"bob");  // 12..15
    let handle = abi::error_create(&mut ctx, 9).unwrap();
    abi::error_argument(&mut ctx, &mem, handle, 0, 7, 7, 5).unwrap();
    abi::error_argument(&mut ctx, &mem, handle, 0, 7, 12, 3).unwrap();
    let e = ctx
        .get_error(many_wasm_server::registry::RegistryHandle::new(handle))
        .unwrap();
    assert_eq!(e.arguments, vec![("account".to_string(), "bob".to_string())]);
}

#[test]
fn error_calls_check_their_handle() {
    let mut ctx = WasmContext::new(balances_library());
    let mem: Vec<u8> = b"msg".to_vec();
    assert_eq!(abi::error_message(&mut ctx, &mem, 0, 0, 3), Err(Fault::InvalidHandle));
    assert_eq!(abi::return_error(&mut ctx, 0), Err(Fault::InvalidHandle));
    let sto = ctx.create_storage("balances").unwrap();
    assert_eq!(abi::error_message(&mut ctx, &mem, sto.0, 0, 3), Err(Fault::InvalidHandle));
}

/// The simulated guest of the end-to-end exchange: reads its sender, builds
/// the balance key `sender ++ symbol`, reads the stored amount through the
/// `balances` storage, and returns it — or `0` when nothing is stored.
fn guest_balance(ctx: &mut WasmContext, symbol: &[u8]) {
    let mut mem: Vec<u8> = vec![0; 256];

    // Two-phase read of the caller identity into guest memory at 0.
    let sender_len = abi::sender_size(ctx).unwrap();
    abi::sender_copy(ctx, &mut mem, 0).unwrap();

    // Key = sender bytes ++ symbol, assembled in guest memory at 32.
    let key_at = 32u32;
    let mut key_len = 0u32;
    for i in 0..sender_len {
        mem[(key_at + key_len) as usize] = mem[i as usize];
        key_len += 1;
    }
    for &b in symbol {
        mem[(key_at + key_len) as usize] = b;
        key_len += 1;
    }

    // Open the storage by name; the name bytes live in guest memory at 128.
    mem[128..136].copy_from_slice(b"balances");
    let handle = abi::storage(ctx, &mem.clone(), 128, 8).unwrap();

    // Two-phase read of the value into guest memory at 160.
    let size = abi::size(ctx, &mem, handle, key_at, key_len).unwrap();
    let value_at = 160u32;
    if size == 0 {
        mem[value_at as usize] = b'0';
        abi::return_data(ctx, &mem, value_at, 1).unwrap();
    } else {
        abi::get(ctx, &mut mem, handle, key_at, key_len, value_at, size).unwrap();
        abi::return_data(ctx, &mem, value_at, size).unwrap();
    }
}

/// The simulated guest of the raw-write call: stores the payload under
/// `sender ++ symbol` through the same storage name.
fn guest_set(ctx: &mut WasmContext, symbol: &[u8]) {
    let mut mem: Vec<u8> = vec![0; 256];

    let sender_len = abi::sender_size(ctx).unwrap();
    abi::sender_copy(ctx, &mut mem, 0).unwrap();

    let key_at = 32u32;
    let mut key_len = 0u32;
    for i in 0..sender_len {
        mem[(key_at + key_len) as usize] = mem[i as usize];
        key_len += 1;
    }
    for &b in symbol {
        mem[(key_at + key_len) as usize] = b;
        key_len += 1;
    }

    mem[128..136].copy_from_slice(b"balances");
    let handle = abi::storage(ctx, &mem.clone(), 128, 8).unwrap();

    // The payload is the amount to store; copy it into guest memory at 160.
    let amount_len = abi::payload_size(ctx);
    abi::payload_copy(ctx, &mut mem, 160, amount_len).unwrap();
    abi::set(ctx, &mem, handle, key_at, key_len, 160, amount_len).unwrap();

    mem[200] = b'k';
    abi::return_data(ctx, &mem, 200, 1).unwrap();
}

#[test]
fn end_to_end_ledger_balance() {
    let mut engine = WasmEngine::new(balances_library());
    engine
        .add_module(
            &vec!["endpoint ledger.balance".to_string(), "endpoint ledger.set".to_string()],
            "ledger".to_string(),
        )
        .unwrap();

    let identity_a: Vec<u8> = vec![0x01, 0xaa, 0xbb];
    let symbol: &[u8] = b"/MWS";

    // A balance never written reads as zero.
    engine
        .begin_call(request("ledger.balance", vec![], Some(identity_a.clone())))
        .unwrap();
    guest_balance(&mut engine.ctx, symbol);
    assert_eq!(engine.end_call().unwrap(), b"0".to_vec());

    // A separate call writes a raw amount through the same storage name.
    engine
        .begin_call(request("ledger.set", b"12345".to_vec(), Some(identity_a.clone())))
        .unwrap();
    guest_set(&mut engine.ctx, symbol);
    assert_eq!(engine.end_call().unwrap(), b"k".to_vec());

    // A subsequent balance call observes the written value.
    engine
        .begin_call(request("ledger.balance", vec![], Some(identity_a.clone())))
        .unwrap();
    guest_balance(&mut engine.ctx, symbol);
    assert_eq!(engine.end_call().unwrap(), b"12345".to_vec());

    // Another identity still reads zero.
    engine
        .begin_call(request("ledger.balance", vec![], Some(vec![0x02])))
        .unwrap();
    guest_balance(&mut engine.ctx, symbol);
    assert_eq!(engine.end_call().unwrap(), b"0".to_vec());
}
