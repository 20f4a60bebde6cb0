//! The configuration the storage library and module list are built from:
//! an ordered list of storage definitions (in-memory with optional
//! hex-encoded seed values, derived-with-prefix from an earlier entry, or
//! null), and an ordered list of module definitions. Reading configuration
//! text from disk is the caller's business; this module owns the rules:
//! names must be unique, and a derived entry's backend must have been built
//! earlier in configuration order.

use vstd::prelude::*;
use vstd::string::{StrSliceExecFns, StringSliceAdditionalSpecFns};
use vstd::utf8::encode_utf8;

use crate::errors::HostError;
use crate::memory::MemoryStorage;
use crate::storage::{Backend, NullKvStore, StorageLibrary, StorageRef};

verus! {

/// Whether a byte is an ASCII hexadecimal digit.
pub open spec fn is_hex_digit(b: u8) -> bool {
    (48 <= b <= 57) || (97 <= b <= 102) || (65 <= b <= 70)
}

/// The value of an ASCII hexadecimal digit.
pub open spec fn hex_digit_val(b: u8) -> u8 {
    if 48 <= b <= 57 {
        (b - 48) as u8
    } else if 97 <= b <= 102 {
        (b - 87) as u8
    } else {
        (b - 55) as u8
    }
}

/// Whether a byte string is decodable hexadecimal: an even number of digits.
pub open spec fn valid_hex(s: Seq<u8>) -> bool {
    s.len() % 2 == 0 && forall|i: int| 0 <= i < s.len() ==> is_hex_digit(#[trigger] s[i])
}

/// The bytes a hexadecimal string decodes to: one byte per digit pair, high
/// digit first.
pub open spec fn hex_decoded(s: Seq<u8>) -> Seq<u8>
    decreases s.len(),
{
    if s.len() < 2 {
        Seq::empty()
    } else {
        seq![((hex_digit_val(s[0]) * 16 + hex_digit_val(s[1])) as u8)] + hex_decoded(s.skip(2))
    }
}

/// Relies on hex::decode: it succeeds exactly on an even number of ASCII
/// hexadecimal digit bytes, and maps each digit pair to one byte, high digit
/// first.
#[verifier::external_body]
pub fn hex_decode(s: &str) -> (r: Option<Vec<u8>>)
    ensures
        r is Some <==> valid_hex(s.spec_bytes()),
        r matches Some(v) ==> v@ == hex_decoded(s.spec_bytes()),
{
    hex::decode(s).ok()
}

/// One storage definition.
pub enum SingleStorageConfig {
    /// A fresh in-memory store, optionally seeded with hex-encoded key/value
    /// pairs.
    Memory { name: String, values: Option<Vec<(String, String)>> },
    /// A namespaced view: the named backend, already built, behind a prefix.
    Prefixed { name: String, prefix: String, backend: String },
    /// A store that discards everything.
    Null { name: String },
}

/// The ordered list of storage definitions.
pub struct StorageConfig(pub Vec<SingleStorageConfig>);

/// The name a definition binds.
pub open spec fn entry_name(c: SingleStorageConfig) -> Seq<char> {
    match c {
        SingleStorageConfig::Memory { name, .. } => name@,
        SingleStorageConfig::Prefixed { name, .. } => name@,
        SingleStorageConfig::Null { name } => name@,
    }
}

/// Whether every seed key and value is decodable hexadecimal.
pub open spec fn seeds_ok(values: Option<Vec<(String, String)>>) -> bool {
    match values {
        None => true,
        Some(vs) => forall|i: int|
            0 <= i < vs@.len() ==> valid_hex(encode_utf8((#[trigger] vs@[i]).0@)) && valid_hex(
                encode_utf8(vs@[i].1@),
            ),
    }
}

/// The mapping a seeded in-memory store starts with: the decoded pairs,
/// inserted in order.
pub open spec fn seeds_map(vs: Seq<(String, String)>) -> Map<Seq<u8>, Seq<u8>>
    decreases vs.len(),
{
    if vs.len() == 0 {
        Map::empty()
    } else {
        seeds_map(vs.drop_last()).insert(
            hex_decoded(encode_utf8(vs.last().0@)),
            hex_decoded(encode_utf8(vs.last().1@)),
        )
    }
}

/// The mapping a definition's fresh store starts with; a derived entry makes
/// no store of its own.
pub open spec fn entry_map(c: SingleStorageConfig) -> Map<Seq<u8>, Seq<u8>> {
    match c {
        SingleStorageConfig::Memory { values: Some(vs), .. } => seeds_map(vs@),
        _ => Map::empty(),
    }
}

/// The error a definition fails its building step with: undecodable seeds
/// for a memory entry, an unknown backend for a derived one. A null entry's
/// building step never fails.
pub open spec fn entry_error_message(c: SingleStorageConfig) -> Seq<char> {
    match c {
        SingleStorageConfig::Memory { .. } => "invalid hex in storage values"@,
        SingleStorageConfig::Prefixed { .. } => "Unknown backend storage."@,
        SingleStorageConfig::Null { .. } => Seq::empty(),
    }
}

/// Whether one definition can be built against a library holding the entries
/// built before it: seeds decodable, and a derived entry's backend known.
pub open spec fn entry_ok(c: SingleStorageConfig, lib: StorageLibrary) -> bool {
    match c {
        SingleStorageConfig::Memory { values, .. } => seeds_ok(values),
        SingleStorageConfig::Prefixed { backend, .. } => lib.has_name(backend@),
        SingleStorageConfig::Null { .. } => true,
    }
}

impl SingleStorageConfig {
    /// Builds this definition against the library holding the definitions
    /// built before it: a fresh backend for a memory or null entry, a
    /// prefixed derivation of a named reference for a derived entry.
    #[verifier::loop_isolation(false)]
    pub fn create_ref(self, storage: &mut StorageLibrary) -> (r: Result<
        (String, StorageRef),
        HostError,
    >)
        requires
            old(storage).wf(),
        ensures
            final(storage).wf(),
            final(storage).named == old(storage).named,
            r is Ok <==> entry_ok(self, *old(storage)),
            r is Err ==> final(storage).backends == old(storage).backends,
            r matches Err(e) ==> (e.code == crate::errors::UNKNOWN_ERROR_CODE && (e.message
                matches Some(m) && m@ == entry_error_message(self))),
            r matches Ok(p) ==> p.0@ == entry_name(self) && final(storage).ref_valid(p.1),
            r matches Ok(p) ==> (match self {
                SingleStorageConfig::Memory { .. } => {
                    &&& final(storage).backends@.len() == old(storage).backends@.len() + 1
                    &&& forall|i: int|
                        0 <= i < old(storage).backends@.len() ==> final(storage).backends@[i]
                            == old(storage).backends@[i]
                    &&& p.1.backend == old(storage).backends@.len()
                    &&& p.1.prefix is None
                    &&& final(storage).backend_map(p.1.backend as int) == entry_map(self)
                },
                SingleStorageConfig::Null { .. } => {
                    &&& final(storage).backends@.len() == old(storage).backends@.len() + 1
                    &&& forall|i: int|
                        0 <= i < old(storage).backends@.len() ==> final(storage).backends@[i]
                            == old(storage).backends@[i]
                    &&& p.1.backend == old(storage).backends@.len()
                    &&& p.1.prefix is None
                    &&& final(storage).backend_map(p.1.backend as int) == entry_map(self)
                    &&& final(storage).backends@[p.1.backend as int] is Null
                },
                SingleStorageConfig::Prefixed { prefix, backend, .. } => {
                    &&& final(storage).backends == old(storage).backends
                    &&& exists|i: int|
                        0 <= i < old(storage).named@.len() && (#[trigger] old(
                            storage,
                        ).named@[i]).0@ == backend@ && p.1.backend == old(
                            storage,
                        ).named@[i].1.backend && p.1.prefix_view() == old(
                            storage,
                        ).named@[i].1.prefix_view() + encode_utf8(prefix@)
                },
            }),
    {
        match self {
            SingleStorageConfig::Memory { name, values } => {
                let mut memory = MemoryStorage::default();
                if let Some(values) = &values {
                    let ghost vs = values@;
                    let mut i: usize = 0;
                    while i < values.len()
                        invariant
                            i <= vs.len(),
                            vs == values@,
                            memory.wf(),
                            memory@ == seeds_map(vs.take(i as int)),
                            forall|j: int|
                                0 <= j < i ==> valid_hex(encode_utf8((#[trigger] vs[j]).0@))
                                    && valid_hex(encode_utf8(vs[j].1@)),
                        decreases vs.len() - i,
                    {
                        let key = match hex_decode(values[i].0.as_str()) {
                            Some(k) => k,
                            None => {
                                proof {
                                    assert(!(valid_hex(encode_utf8((#[trigger] vs[i as int]).0@))
                                        && valid_hex(encode_utf8(vs[i as int].1@))));
                                }
                                return Err(HostError::unknown("invalid hex in storage values"));
                            },
                        };
                        let value = match hex_decode(values[i].1.as_str()) {
                            Some(v) => v,
                            None => {
                                proof {
                                    assert(!(valid_hex(encode_utf8((#[trigger] vs[i as int]).0@))
                                        && valid_hex(encode_utf8(vs[i as int].1@))));
                                }
                                return Err(HostError::unknown("invalid hex in storage values"));
                            },
                        };
                        memory.insert(key, value);
                        proof {
                            assert(vs.take(i + 1).drop_last() =~= vs.take(i as int));
                            assert(vs.take(i + 1).last() == vs[i as int]);
                        }
                        i += 1;
                    }
                    proof {
                        assert(vs.take(vs.len() as int) =~= vs);
                    }
                }
                let sref = storage.new_ref(Backend::Memory(memory));
                Ok((name, sref))
            },
            SingleStorageConfig::Prefixed { name, prefix, backend } => {
                let parent = match storage.get(backend.as_str()) {
                    Some(p) => p,
                    None => {
                        return Err(HostError::unknown("Unknown backend storage."));
                    },
                };
                let sref = parent.cloned_prefixed(prefix.as_str().as_bytes_vec());
                Ok((name, sref))
            },
            SingleStorageConfig::Null { name } => {
                let sref = storage.new_ref(Backend::Null(NullKvStore));
                Ok((name, sref))
            },
        }
    }
}

/// Whether a whole configuration builds, given the names bound so far: each
/// entry in order must carry an unbound name, decodable seeds, and — for a
/// derived entry — a backend name bound earlier.
pub open spec fn names_ok(cfg: Seq<SingleStorageConfig>, taken: Set<Seq<char>>) -> bool
    decreases cfg.len(),
{
    if cfg.len() == 0 {
        true
    } else {
        let c = cfg.first();
        &&& !taken.contains(entry_name(c))
        &&& (match c {
            SingleStorageConfig::Memory { values, .. } => seeds_ok(values),
            SingleStorageConfig::Prefixed { backend, .. } => taken.contains(backend@),
            SingleStorageConfig::Null { .. } => true,
        })
        &&& names_ok(cfg.skip(1), taken.insert(entry_name(c)))
    }
}

/// The error a failed build reports: walking the definitions in order with
/// the names bound so far, the first failing step decides — a failing
/// building step (bad seeds, unknown backend) before the duplicate-name
/// check, as the build performs them.
pub open spec fn build_error_message(cfg: Seq<SingleStorageConfig>, taken: Set<Seq<char>>) -> Seq<
    char,
>
    decreases cfg.len(),
{
    if cfg.len() == 0 {
        Seq::empty()
    } else {
        let c = cfg.first();
        let step_fails = match c {
            SingleStorageConfig::Memory { values, .. } => !seeds_ok(values),
            SingleStorageConfig::Prefixed { backend, .. } => !taken.contains(backend@),
            SingleStorageConfig::Null { .. } => false,
        };
        if step_fails {
            entry_error_message(c)
        } else if taken.contains(entry_name(c)) {
            "Storage name already exists."@
        } else {
            build_error_message(cfg.skip(1), taken.insert(entry_name(c)))
        }
    }
}

/// The set of names a library binds.
pub open spec fn names_set(lib: StorageLibrary) -> Set<Seq<char>> {
    Set::new(|n: Seq<char>| lib.has_name(n))
}

/// What the build bound the name at position `i` to: a memory or null entry
/// wraps a fresh store of its kind — unprefixed, holding exactly its decoded
/// seeds, and shared with no earlier entry — while a derived entry shares an
/// earlier entry's backend, with that entry's prefix extended by its own.
pub open spec fn entry_bound(c: SingleStorageConfig, lib: StorageLibrary, i: int) -> bool {
    match c {
        SingleStorageConfig::Memory { .. } => {
            &&& lib.named@[i].1.prefix is None
            &&& lib.backend_map(lib.named@[i].1.backend as int) == entry_map(c)
            &&& forall|j: int|
                0 <= j < i ==> (#[trigger] lib.named@[j]).1.backend != lib.named@[i].1.backend
        },
        SingleStorageConfig::Null { .. } => {
            &&& lib.named@[i].1.prefix is None
            &&& lib.backends@[lib.named@[i].1.backend as int] is Null
            &&& lib.backend_map(lib.named@[i].1.backend as int) == entry_map(c)
            &&& forall|j: int|
                0 <= j < i ==> (#[trigger] lib.named@[j]).1.backend != lib.named@[i].1.backend
        },
        SingleStorageConfig::Prefixed { prefix, backend, .. } => exists|p: int|
            0 <= p < i && (#[trigger] lib.named@[p]).0@ == backend@ && lib.named@[i].1.backend
                == lib.named@[p].1.backend && lib.named@[i].1.prefix_view()
                == lib.named@[p].1.prefix_view() + encode_utf8(prefix@),
    }
}

/// A bound entry stays bound while the library only grows: later building
/// steps touch neither the earlier names nor the earlier backends.
proof fn lemma_entry_bound_stable(
    c: SingleStorageConfig,
    pre: StorageLibrary,
    post: StorageLibrary,
    i: int,
)
    requires
        entry_bound(c, pre, i),
        0 <= i < pre.named@.len(),
        pre.wf(),
        pre.named@.len() <= post.named@.len(),
        forall|j: int| 0 <= j < pre.named@.len() ==> #[trigger] post.named@[j] == pre.named@[j],
        pre.backends@.len() <= post.backends@.len(),
        forall|b: int|
            0 <= b < pre.backends@.len() ==> #[trigger] post.backends@[b] == pre.backends@[b],
    ensures
        entry_bound(c, post, i),
{
    assert(post.named@[i] == pre.named@[i]);
    assert(pre.ref_valid(pre.named@[i].1));
    match c {
        SingleStorageConfig::Memory { .. } => {
            assert(post.backends@[pre.named@[i].1.backend as int] == pre.backends@[pre.named@[i].1.backend as int]);
            assert forall|j: int|
                0 <= j < i implies (#[trigger] post.named@[j]).1.backend
                != post.named@[i].1.backend by {
                assert(post.named@[j] == pre.named@[j]);
            }
        },
        SingleStorageConfig::Null { .. } => {
            assert(post.backends@[pre.named@[i].1.backend as int] == pre.backends@[pre.named@[i].1.backend as int]);
            assert forall|j: int|
                0 <= j < i implies (#[trigger] post.named@[j]).1.backend
                != post.named@[i].1.backend by {
                assert(post.named@[j] == pre.named@[j]);
            }
        },
        SingleStorageConfig::Prefixed { prefix, backend, .. } => {
            let p = choose|p: int|
                0 <= p < i && (#[trigger] pre.named@[p]).0@ == backend@ && pre.named@[i].1.backend
                    == pre.named@[p].1.backend && pre.named@[i].1.prefix_view()
                    == pre.named@[p].1.prefix_view() + encode_utf8(prefix@);
            assert(post.named@[p] == pre.named@[p]);
        },
    }
}

impl StorageLibrary {
    /// Builds the whole library from a configuration: each definition in
    /// order, failing on a duplicate name, undecodable seeds, or a derived
    /// entry whose backend is not yet bound.
    #[verifier::loop_isolation(false)]
    pub fn create(config: StorageConfig) -> (r: Result<StorageLibrary, HostError>)
        ensures
            r is Ok <==> names_ok(config.0@, Set::empty()),
            r matches Ok(lib) ==> lib.wf() && lib.named@.len() == config.0@.len() && (forall|
                i: int,
            |
                0 <= i < config.0@.len() ==> (#[trigger] lib.named@[i]).0@ == entry_name(
                    config.0@[i],
                )),
            r matches Ok(lib) ==> (forall|i: int|
                0 <= i < config.0@.len() ==> entry_bound(#[trigger] config.0@[i], lib, i)),
            r matches Err(e) ==> (e.code == crate::errors::UNKNOWN_ERROR_CODE && (e.message
                matches Some(m) && m@ == build_error_message(config.0@, Set::empty()))),
    {
        let mut storage = StorageLibrary::new();
        let mut entries = config.0;
        let ghost full = entries@;
        proof {
            assert(names_set(storage) =~= Set::empty());
            assert(entries@ =~= full.skip(0));
        }
        let ghost mut done: int = 0;
        while entries.len() > 0
            invariant
                storage.wf(),
                0 <= done <= full.len(),
                entries@ == full.skip(done),
                storage.named@.len() == done,
                forall|j: int|
                    0 <= j < done ==> (#[trigger] storage.named@[j]).0@ == entry_name(full[j]),
                forall|j: int| 0 <= j < done ==> entry_bound(#[trigger] full[j], storage, j),
                names_ok(full, Set::empty()) <==> names_ok(entries@, names_set(storage)),
                !names_ok(entries@, names_set(storage)) ==> build_error_message(
                    full,
                    Set::empty(),
                ) == build_error_message(entries@, names_set(storage)),
            decreases entries@.len(),
        {
            let ghost taken = names_set(storage);
            let ghost rest = entries@;
            let ghost pre_lib = storage;
            let c = entries.remove(0);
            proof {
                assert(c == rest.first());
                assert(entries@ =~= rest.skip(1));
            }
            let (name, sref) = match c.create_ref(&mut storage) {
                Ok(p) => p,
                Err(e) => {
                    proof {
                        assert(!entry_ok(rest.first(), storage));
                        assert(!names_ok(rest, taken));
                        assert(build_error_message(rest, taken) == entry_error_message(
                            rest.first(),
                        ));
                    }
                    return Err(e);
                },
            };
            if storage.get(name.as_str()).is_some() {
                proof {
                    assert(taken.contains(entry_name(rest.first())));
                    assert(!names_ok(rest, taken));
                    assert(entry_ok(rest.first(), pre_lib));
                    assert(build_error_message(rest, taken) == "Storage name already exists."@);
                }
                return Err(HostError::unknown("Storage name already exists."));
            }
            proof {
                assert(!storage.has_name(name@));
            }
            let ghost pre_named = storage.named@;
            let ghost bound = name@;
            let ghost sref_g = sref;
            storage.bind(name, sref);
            proof {
                done = done + 1;
                assert(entries@ =~= full.skip(done));
                assert(bound == entry_name(rest.first()));
                assert forall|n: Seq<char>|
                    names_set(storage).contains(n) == taken.insert(bound).contains(n) by {
                    if names_set(storage).contains(n) {
                        let i = choose|i: int|
                            0 <= i < storage.named@.len() && (#[trigger] storage.named@[i]).0@
                                == n;
                        if i < pre_named.len() {
                            assert(pre_named[i].0@ == n);
                            assert(taken.contains(n));
                        } else {
                            assert(n == bound);
                        }
                    }
                    if taken.insert(bound).contains(n) {
                        if n == bound {
                            assert(storage.named@[storage.named@.len() - 1].0@ == n);
                            assert(names_set(storage).contains(n));
                        } else {
                            assert(taken.contains(n));
                            let i = choose|i: int|
                                0 <= i < pre_named.len() && (#[trigger] pre_named[i]).0@ == n;
                            assert(storage.named@[i].0@ == n);
                            assert(names_set(storage).contains(n));
                        }
                    }
                }
                assert(names_set(storage) =~= taken.insert(bound));
                assert(!names_ok(rest.skip(1), taken.insert(bound)) ==> build_error_message(
                    rest,
                    taken,
                ) == build_error_message(rest.skip(1), taken.insert(bound)));
                // Each earlier binding still stands, and the fresh one is
                // bound by this step's building facts.
                assert forall|j2: int|
                    0 <= j2 < pre_lib.named@.len() implies #[trigger] storage.named@[j2]
                    == pre_lib.named@[j2] by {}
                assert forall|b: int|
                    0 <= b < pre_lib.backends@.len() implies #[trigger] storage.backends@[b]
                    == pre_lib.backends@[b] by {}
                assert forall|j: int| 0 <= j < done implies entry_bound(
                    #[trigger] full[j],
                    storage,
                    j,
                ) by {
                    if j < done - 1 {
                        lemma_entry_bound_stable(full[j], pre_lib, storage, j);
                    } else {
                        assert(full[j] == rest.first());
                        assert(storage.named@[j].1 == sref_g);
                        match rest.first() {
                            SingleStorageConfig::Memory { .. } => {
                                assert forall|j2: int|
                                    0 <= j2 < j implies (#[trigger] storage.named@[j2]).1.backend
                                    != storage.named@[j].1.backend by {
                                    assert(pre_lib.ref_valid(pre_lib.named@[j2].1));
                                }
                            },
                            SingleStorageConfig::Null { .. } => {
                                assert forall|j2: int|
                                    0 <= j2 < j implies (#[trigger] storage.named@[j2]).1.backend
                                    != storage.named@[j].1.backend by {
                                    assert(pre_lib.ref_valid(pre_lib.named@[j2].1));
                                }
                            },
                            SingleStorageConfig::Prefixed { prefix, backend, .. } => {
                                let p = choose|p: int|
                                    0 <= p < pre_lib.named@.len() && (
                                    #[trigger] pre_lib.named@[p]).0@ == backend@ && sref_g.backend
                                        == pre_lib.named@[p].1.backend && sref_g.prefix_view()
                                        == pre_lib.named@[p].1.prefix_view() + encode_utf8(
                                        prefix@,
                                    );
                                assert(storage.named@[p] == pre_lib.named@[p]);
                            },
                        }
                        assert(entry_bound(rest.first(), storage, j));
                    }
                }
            }
        }
        proof {
            assert(entries@.len() == 0);
            assert(names_ok(entries@, names_set(storage)));
        }
        Ok(storage)
    }
}

/// One module definition: where the compiled module lives, an optional
/// display name, and the initialization argument handed to its `init` export.
pub struct SingleModuleConfig {
    /// The module's display name, if one was configured.
    pub name: Option<String>,
    /// The path the module was compiled from, as text.
    pub path: String,
    /// The initialization argument, as text.
    pub arg: String,
}

/// The characters of a path after its last `/`; the whole path when it holds
/// none.
pub open spec fn after_last_slash(p: Seq<char>) -> Seq<char>
    decreases p.len(),
{
    if p.len() == 0 {
        Seq::empty()
    } else if p.last() == '/' {
        Seq::empty()
    } else {
        after_last_slash(p.drop_last()).push(p.last())
    }
}

/// A cut point after the last slash reaches exactly `after_last_slash`.
proof fn lemma_after_last_slash(p: Seq<char>, cut: int)
    requires
        0 <= cut <= p.len(),
        forall|k: int| cut <= k < p.len() ==> p[k] != '/',
        cut > 0 ==> p[cut - 1] == '/',
    ensures
        after_last_slash(p) == p.skip(cut),
    decreases p.len(),
{
    if p.len() == 0 {
        assert(after_last_slash(p) =~= p.skip(cut));
    } else if p.last() == '/' {
        assert(cut == p.len());
        assert(after_last_slash(p) =~= p.skip(cut));
    } else {
        assert(cut < p.len());
        assert forall|k: int| cut <= k < p.drop_last().len() implies p.drop_last()[k] != '/' by {
            assert(p.drop_last()[k] == p[k]);
        }
        if cut > 0 {
            assert(p.drop_last()[cut - 1] == p[cut - 1]);
        }
        lemma_after_last_slash(p.drop_last(), cut);
        assert(after_last_slash(p) =~= p.skip(cut));
    }
}

impl SingleModuleConfig {
    /// The module's display name: the configured one, or the file name — the
    /// part of the path after its last `/` — when none was configured.
    pub fn name(&self) -> (r: String)
        ensures
            self.name matches Some(n) ==> r@ == n@,
            self.name is None ==> r@ == after_last_slash(self.path@),
    {
        match &self.name {
            Some(n) => n.clone(),
            None => {
                let p = self.path.as_str();
                let len = p.unicode_len();
                let mut cut: usize = 0;
                let mut i: usize = 0;
                while i < len
                    invariant
                        len == p@.len(),
                        0 <= cut <= i <= len,
                        forall|k: int| cut <= k < i ==> p@[k] != '/',
                        cut > 0 ==> p@[cut - 1] == '/',
                    decreases len - i,
                {
                    if p.get_char(i) == '/' {
                        cut = i + 1;
                    }
                    i += 1;
                }
                proof {
                    lemma_after_last_slash(p@, cut as int);
                }
                crate::strings::str_suffix_from(p, cut)
            },
        }
    }
}

/// The ordered list of module definitions.
pub struct ModuleConfig(pub Vec<SingleModuleConfig>);

/// The whole configuration: initialization modules, endpoint modules, and
/// storage definitions.
pub struct WasmConfig {
    /// Modules run once at startup, in order.
    pub init: ModuleConfig,
    /// Modules whose exported endpoints serve requests.
    pub modules: ModuleConfig,
    /// The storage definitions the library is built from.
    pub storages: StorageConfig,
}

} // verus!
