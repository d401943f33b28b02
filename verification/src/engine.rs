//! The module registry: owns the loaded modules, resolves imports between
//! them, and serves the invocation entry point that drives the adapter
//! interpreter. Core Wasm execution itself belongs to the embedder, which
//! supplies it through the `CoreRuntime` trait; inter-module calls re-enter
//! the registry through the engine handle that trait receives.
use vstd::prelude::*;
use vstd::string::StringExecFns;

use crate::errors::EngineError;
use crate::generator::{
    generate_export_adapter, derive_core_signature, adapter_program, arg_types, core_params,
    core_results,
};
use crate::instr::{Instruction, CoreFuncType, CORE_EXPORT_BASE};
use crate::interp::{execute_instruction, StepResult, push_core_value};
use crate::itype::{
    CoreType, CoreValue, FunctionSignature, IType, IValue, IValueModel, RecordRegistry, RecordType,
    check_value_type, value_has_itype, ivalue_model, clone_itypes, records_registrable,
    record_registrable, register_step, registry_after, lemma_registrable_prefix,
    lemma_registry_after_len, itype_refs_below,
};
use crate::json::{JsonValue, json_to_ivalues, ivalues_to_json, json_encodes, json_args_decodable};
use crate::module::{ModuleState, MAX_MEMORY_BYTES};

verus! {

/// One declared import of a module: the providing module's name and the
/// imported function's name.
#[derive(Debug)]
pub struct ImportDescriptor {
    pub module_name: String,
    pub function_name: String,
}

/// What the embedder provides of one compiled guest module: its typed
/// exports, its declared imports, the raw core exports the module-ABI check
/// runs against, and the initial linear-memory size in bytes.
#[derive(Debug)]
pub struct ModuleDefinition {
    pub exports: Vec<FunctionSignature>,
    pub imports: Vec<ImportDescriptor>,
    pub abi_exports: Vec<(String, CoreFuncType)>,
    pub host_namespaces: Vec<String>,
    pub record_types: Vec<RecordType>,
    pub initial_memory: usize,
}

/// One export of a loaded module: its signature, its generated adapter
/// program, and the core function index the adapter calls.
#[derive(Debug)]
pub struct ExportFunction {
    pub signature: FunctionSignature,
    pub adapter: Vec<Instruction>,
    pub core_index: u32,
}

/// A loaded module: its run-time state, its exports with their adapters,
/// the core signatures of its exports, its record types, and — after a
/// module it imported from was unloaded — the name of that module.
#[derive(Debug)]
pub struct Module {
    pub name: String,
    pub state: ModuleState,
    pub exports: Vec<ExportFunction>,
    pub core_types: Vec<CoreFuncType>,
    pub records: RecordRegistry,
    pub imports: Vec<ImportDescriptor>,
    pub host_namespaces: Vec<String>,
    pub broken_by: Option<String>,
}

/// The registry of loaded modules, in insertion order, names unique.
/// `interface_cache` is a write-through cache of module interfaces keyed by
/// module name, invalidated on every load or unload.
pub struct Engine {
    pub modules: Vec<Module>,
    pub interface_cache: Vec<(String, Vec<FunctionSignature>)>,
}

/// The embedder's core runtime: runs core function `function_index` of
/// module `module_index` on the given core operands. It receives the engine
/// back, so guest code it runs may read and write that module's memory and
/// registers through the engine and may re-enter `call` for an
/// inter-module call. Nothing is assumed about what it does.
pub trait CoreRuntime {
    fn call_core(
        &mut self,
        engine: &mut Engine,
        module_index: usize,
        function_index: u32,
        args: Vec<CoreValue>,
    ) -> Result<Vec<CoreValue>, String>;
}

/// The six export names and core signatures every guest module must provide.
pub open spec fn abi_signature_of(i: int) -> (Seq<char>, Seq<CoreType>, Seq<CoreType>) {
    if i == 0 {
        ("allocate"@, seq![CoreType::I32], seq![CoreType::I32])
    } else if i == 1 {
        ("deallocate"@, seq![CoreType::I32, CoreType::I32], Seq::empty())
    } else if i == 2 {
        ("get_result_size"@, Seq::empty(), seq![CoreType::I32])
    } else if i == 3 {
        ("get_result_ptr"@, Seq::empty(), seq![CoreType::I32])
    } else if i == 4 {
        ("set_result_size"@, seq![CoreType::I32], Seq::empty())
    } else {
        ("set_result_ptr"@, seq![CoreType::I32], Seq::empty())
    }
}

/// Whether the declared core exports satisfy the module ABI requirement `i`.
pub open spec fn abi_export_satisfied(exports: Seq<(String, CoreFuncType)>, i: int) -> bool {
    exists|j: int|
        0 <= j < exports.len() && {
            let (name, params, results) = abi_signature_of(i);
            &&& (#[trigger] exports[j]).0@ == name
            &&& exports[j].1@.0 == params
            &&& exports[j].1@.1 == results
        }
}

/// Checks that all six module-ABI helpers are exported with their required
/// core signatures; fails with `MissingAbiExport` naming the first absent
/// helper, or `AbiSignatureMismatch` naming a helper exported with the
/// wrong signature.
pub fn check_abi_exports(exports: &Vec<(String, CoreFuncType)>) -> (r: Result<(), EngineError>)
    ensures
        r is Ok <==> forall|i: int| 0 <= i < 6 ==> abi_export_satisfied(exports@, i),
        r matches Err(e) ==> match e {
            EngineError::MissingAbiExport(n) | EngineError::AbiSignatureMismatch(n) => exists|
                i: int,
            |
                0 <= i < 6 && !abi_export_satisfied(exports@, i) && n@ == abi_signature_of(i).0,
            _ => false,
        },
{
    let mut i: usize = 0;
    while i < 6
        invariant
            i <= 6,
            forall|k: int| 0 <= k < i ==> abi_export_satisfied(exports@, k),
        decreases 6 - i,
    {
        let req_name: String = match i {
            0 => String::from_str("allocate"),
            1 => String::from_str("deallocate"),
            2 => String::from_str("get_result_size"),
            3 => String::from_str("get_result_ptr"),
            4 => String::from_str("set_result_size"),
            _ => String::from_str("set_result_ptr"),
        };
        let req_params: Vec<CoreType> = match i {
            0 => vec![CoreType::I32],
            1 => vec![CoreType::I32, CoreType::I32],
            2 => Vec::new(),
            3 => Vec::new(),
            4 => vec![CoreType::I32],
            _ => vec![CoreType::I32],
        };
        let req_results: Vec<CoreType> = match i {
            0 => vec![CoreType::I32],
            1 => Vec::new(),
            2 => vec![CoreType::I32],
            3 => vec![CoreType::I32],
            4 => Vec::new(),
            _ => Vec::new(),
        };
        proof {
            assert(req_name@ == abi_signature_of(i as int).0);
            assert(req_params@ =~= abi_signature_of(i as int).1);
            assert(req_results@ =~= abi_signature_of(i as int).2);
        }
        let mut found = false;
        let mut name_seen = false;
        let mut j: usize = 0;
        while j < exports.len()
            invariant
                j <= exports@.len(),
                req_name@ == abi_signature_of(i as int).0,
                req_params@ == abi_signature_of(i as int).1,
                req_results@ == abi_signature_of(i as int).2,
                found ==> abi_export_satisfied(exports@, i as int),
                !found ==> forall|m: int|
                    0 <= m < j ==> !((#[trigger] exports@[m]).0@ == abi_signature_of(i as int).0
                        && exports@[m].1@.0 == abi_signature_of(i as int).1 && exports@[m].1@.1
                        == abi_signature_of(i as int).2),
            decreases exports@.len() - j,
        {
            if !found && exports[j].0 == req_name {
                name_seen = true;
                if core_types_eq(&exports[j].1.params, &req_params) && core_types_eq(
                    &exports[j].1.results,
                    &req_results,
                ) {
                    found = true;
                }
            }
            j = j + 1;
        }
        if !found {
            proof {
                assert(!abi_export_satisfied(exports@, i as int));
            }
            if name_seen {
                return Err(EngineError::AbiSignatureMismatch(req_name));
            } else {
                return Err(EngineError::MissingAbiExport(req_name));
            }
        }
        i = i + 1;
    }
    Ok(())
}

/// Elementwise equality of two core-type lists.
pub fn core_types_eq(a: &Vec<CoreType>, b: &Vec<CoreType>) -> (r: bool)
    ensures
        r <==> a@ == b@,
{
    if a.len() != b.len() {
        return false;
    }
    let mut i: usize = 0;
    while i < a.len()
        invariant
            i <= a@.len(),
            a@.len() == b@.len(),
            forall|j: int| 0 <= j < i ==> a@[j] == b@[j],
        decreases a@.len() - i,
    {
        if !matches_core_type(&a[i], &b[i]) {
            return false;
        }
        i = i + 1;
    }
    proof {
        assert(a@ =~= b@);
    }
    true
}

/// Equality of two core types.
fn matches_core_type(a: &CoreType, b: &CoreType) -> (r: bool)
    ensures
        r <==> *a == *b,
{
    match (a, b) {
        (CoreType::I32, CoreType::I32) => true,
        (CoreType::I64, CoreType::I64) => true,
        (CoreType::F32, CoreType::F32) => true,
        (CoreType::F64, CoreType::F64) => true,
        _ => false,
    }
}

/// Whether some loaded module bears this name.
pub open spec fn has_module(e: Engine, name: Seq<char>) -> bool {
    exists|i: int| 0 <= i < e.modules@.len() && (#[trigger] e.modules@[i]).name@ == name
}

/// Whether a module value exports a function with this name.
pub open spec fn module_has_export(m: Module, fname: Seq<char>) -> bool {
    exists|j: int| 0 <= j < m.exports@.len() && (#[trigger] m.exports@[j]).signature.name@ == fname
}

/// Whether the adapter generator refuses a signature of this shape: more
/// than one output, an argument list beyond the index range, or a record or
/// array type among the arguments or outputs.
pub open spec fn sig_unsupported(dv: (Seq<char>, Seq<(Seq<char>, IType)>, Seq<IType>)) -> bool {
    ||| dv.2.len() > 1
    ||| dv.1.len() > 0xffff_ffff
    ||| exists|k: int| 0 <= k < dv.1.len() && !crate::generator::generator_supports((#[trigger] dv.1[k]).1)
    ||| exists|k: int| 0 <= k < dv.2.len() && !crate::generator::generator_supports(#[trigger] dv.2[k])
}

/// The conditions a module definition itself must meet to load: memory and
/// export counts within bounds, all six ABI helpers exported as required,
/// every export signature supported by the adapter generator, and every
/// record type registrable in order.
pub open spec fn def_conditions(def: ModuleDefinition) -> bool {
    &&& def.initial_memory <= MAX_MEMORY_BYTES
    &&& def.exports@.len() <= 0xfff_ffff
    &&& (forall|i: int| 0 <= i < 6 ==> abi_export_satisfied(def.abi_exports@, i))
    &&& (forall|k: int|
        0 <= k < def.exports@.len() ==> !sig_unsupported((#[trigger] def.exports@[k]).deep_view()))
    &&& records_registrable(def.record_types@)
}

/// Whether loading `def` under `name` into `e` is owed success, imports
/// aside: the name is fresh and the definition meets its own conditions.
pub open spec fn def_loadable(e: Engine, name: Seq<char>, def: ModuleDefinition) -> bool {
    !has_module(e, name) && def_conditions(def)
}

/// Whether some definition in the set, under its name, exports the function.
pub open spec fn set_provides(
    defs: Seq<(String, ModuleDefinition)>,
    module_name: Seq<char>,
    function_name: Seq<char>,
) -> bool {
    exists|j: int, k: int|
        0 <= j < defs.len() && defs[j].0@ == module_name && 0 <= k < defs[j].1.exports@.len() && (
        #[trigger] defs[j].1.exports@[k]).name@ == function_name
}

/// Whether an import `(module, function)` has a provider within a set of
/// definitions: a host namespace of the importing module, or a definition
/// of that name exporting the function.
pub open spec fn import_provided(
    defs: Seq<(String, ModuleDefinition)>,
    hosts: Seq<String>,
    module_name: Seq<char>,
    function_name: Seq<char>,
) -> bool {
    ||| exists|h: int| 0 <= h < hosts.len() && (#[trigger] hosts[h])@ == module_name
    ||| set_provides(defs, module_name, function_name)
}

/// Whether a whole set of definitions is owed a successful load: names
/// pairwise distinct, every definition meets its own conditions, and every
/// declared import is provided within the set.
pub open spec fn defs_loadable(defs: Seq<(String, ModuleDefinition)>) -> bool {
    &&& (forall|i: int, j: int|
        0 <= i < j < defs.len() ==> (#[trigger] defs[i]).0@ != (#[trigger] defs[j]).0@)
    &&& (forall|i: int| 0 <= i < defs.len() ==> def_conditions((#[trigger] defs[i]).1))
    &&& (forall|i: int, k: int|
        0 <= i < defs.len() && 0 <= k < defs[i].1.imports@.len() ==> import_provided(
            defs,
            defs[i].1.host_namespaces@,
            (#[trigger] defs[i].1.imports@[k]).module_name@,
            defs[i].1.imports@[k].function_name@,
        ))
}

/// Whether an import `(module, function)` has a provider: a host namespace
/// of that name, or a loaded module of that name exporting the function.
pub open spec fn import_satisfied(
    e: Engine,
    module_name: Seq<char>,
    function_name: Seq<char>,
    host_namespaces: Seq<String>,
) -> bool {
    ||| exists|h: int| 0 <= h < host_namespaces.len() && (#[trigger] host_namespaces[h])@
        == module_name
    ||| exists|i: int|
        0 <= i < e.modules@.len() && (#[trigger] e.modules@[i]).name@ == module_name
            && module_has_export(e.modules@[i], function_name)
}

/// Every cache entry mirrors the export signatures of a loaded module of
/// that name.
pub open spec fn cache_coherent(e: Engine) -> bool {
    forall|c: int|
        0 <= c < e.interface_cache@.len() ==> exists|i: int|
            0 <= i < e.modules@.len() && (#[trigger] e.modules@[i]).name@
                == (#[trigger] e.interface_cache@[c]).0@ && sigs_mirror(
                e.interface_cache@[c].1@,
                e.modules@[i].exports@,
            )
}

/// No two loaded modules bear the same name. `load_module` and
/// `with_modules` refuse duplicates, so every registry they build satisfies
/// this.
pub open spec fn names_unique(e: Engine) -> bool {
    forall|i: int, j: int|
        0 <= i < j < e.modules@.len() ==> (#[trigger] e.modules@[i]).name@ != (
        #[trigger] e.modules@[j]).name@
}

/// The cached signatures equal the exports' signatures, elementwise.
pub open spec fn sigs_mirror(sigs: Seq<FunctionSignature>, exports: Seq<ExportFunction>) -> bool {
    sigs.len() == exports.len() && forall|k: int|
        0 <= k < sigs.len() ==> (#[trigger] sigs[k]).deep_view() == exports[k].signature.deep_view()
}

impl Engine {
    /// An empty registry.
    pub fn new() -> (r: Engine)
        ensures
            r.modules@.len() == 0,
            r.interface_cache@.len() == 0,
            names_unique(r),
            cache_coherent(r),
    {
        Engine { modules: Vec::new(), interface_cache: Vec::new() }
    }

    /// The index of the first module with this name.
    pub fn find_module_index(&self, name: &String) -> (r: Option<usize>)
        ensures
            r matches Some(i) ==> i < self.modules@.len() && self.modules@[i as int].name@
                == name@,
            r is None ==> !has_module(*self, name@),
    {
        let mut i: usize = 0;
        while i < self.modules.len()
            invariant
                i <= self.modules@.len(),
                forall|j: int| 0 <= j < i ==> (#[trigger] self.modules@[j]).name@ != name@,
            decreases self.modules@.len() - i,
        {
            if self.modules[i].name == *name {
                return Some(i);
            }
            i = i + 1;
        }
        None
    }

    /// Loads a module and immediately requires all its declared imports to
    /// resolve. With unique names, success is owed whenever the name is
    /// fresh, the definition meets its own conditions (`def_loadable`) and
    /// every declared import is satisfied. Fails with `InstantiationError`
    /// on a duplicate name, an oversized memory request, or exhausted
    /// export or record ID space; with `MissingAbiExport` or
    /// `AbiSignatureMismatch` naming an ABI helper that is not exported as
    /// required; with `AdapterTypeMismatch` when an export signature cannot
    /// be lowered; with `DuplicateRecord` or `UnresolvedRecordRef` exactly
    /// when the record types do not register; and with `UnresolvedImport`
    /// for an unsatisfied import. No other error arises, and on failure the
    /// registry is unchanged.
    pub fn load_module(&mut self, name: String, def: ModuleDefinition) -> (r: Result<
        (),
        EngineError,
    >)
        ensures
            r is Ok ==> {
                &&& final(self).modules@.len() == old(self).modules@.len() + 1
                &&& final(self).modules@.last().name@ == name@
                &&& final(self).modules@.subrange(0, old(self).modules@.len() as int) == old(
                    self,
                ).modules@
                &&& final(self).interface_cache@.len() == 0
                &&& final(self).modules@.last().exports@.len() == def.exports@.len()
                &&& forall|k: int|
                    0 <= k < def.exports@.len() ==> {
                        &&& (#[trigger] final(self).modules@.last().exports@[
                            k
                        ]).signature.deep_view() == def.exports@[k].deep_view()
                        &&& final(self).modules@.last().exports@[k].adapter@ == adapter_program(
                            arg_types(final(self).modules@.last().exports@[k].signature),
                            final(self).modules@.last().exports@[k].signature.outputs@,
                            (CORE_EXPORT_BASE + k) as u32,
                        )
                    }
                &&& (names_unique(*old(self)) ==> names_unique(*final(self)))
            },
            r is Ok ==> forall|k: int|
                0 <= k < def.imports@.len() ==> import_satisfied(
                    *old(self),
                    (#[trigger] def.imports@[k]).module_name@,
                    def.imports@[k].function_name@,
                    def.host_namespaces@,
                ),
            r is Err ==> final(self).modules@ == old(self).modules@ && final(self).interface_cache@
                == old(self).interface_cache@,
            r matches Err(e) ==> match e {
                EngineError::InstantiationError(_) => has_module(*old(self), name@)
                    || def.initial_memory > MAX_MEMORY_BYTES || def.exports@.len() > 0xfff_ffff
                    || def.record_types@.len() >= 0xffff_fffe,
                EngineError::MissingAbiExport(n) | EngineError::AbiSignatureMismatch(n) => exists|
                    i: int,
                |
                    0 <= i < 6 && !abi_export_satisfied(def.abi_exports@, i) && n@
                        == abi_signature_of(i).0,
                EngineError::AdapterTypeMismatch => exists|k: int|
                    0 <= k < def.exports@.len() && sig_unsupported(
                        (#[trigger] def.exports@[k]).deep_view(),
                    ),
                EngineError::UnresolvedImport(m, f) => exists|k: int|
                    {
                        &&& 0 <= k < def.imports@.len()
                        &&& (#[trigger] def.imports@[k]).module_name@ == m@
                        &&& def.imports@[k].function_name@ == f@
                        &&& (names_unique(*old(self)) ==> !import_satisfied(
                            *old(self),
                            m@,
                            f@,
                            def.host_namespaces@,
                        ))
                    },
                EngineError::DuplicateRecord(n) => !records_registrable(def.record_types@)
                    && exists|p: int|
                    0 <= p < def.record_types@.len() && (#[trigger] def.record_types@[p]).name@
                        == n@,
                EngineError::UnresolvedRecordRef(_) => !records_registrable(def.record_types@),
                _ => false,
            },
            (names_unique(*old(self)) && def_loadable(*old(self), name@, def) && (forall|k: int|
                0 <= k < def.imports@.len() ==> import_satisfied(
                    *old(self),
                    (#[trigger] def.imports@[k]).module_name@,
                    def.imports@[k].function_name@,
                    def.host_namespaces@,
                ))) ==> r is Ok,
    {
        let loaded = self.build_module(name, def)?;
        // All imports must resolve against the registry as it stands, or be
        // served by a host namespace the module declared.
        let mut k: usize = 0;
        while k < loaded.imports.len()
            invariant
                k <= loaded.imports@.len(),
                *self == *old(self),
                loaded.imports@ == def.imports@,
                loaded.host_namespaces@ == def.host_namespaces@,
                forall|k2: int|
                    0 <= k2 < k ==> import_satisfied(
                        *old(self),
                        (#[trigger] loaded.imports@[k2]).module_name@,
                        loaded.imports@[k2].function_name@,
                        def.host_namespaces@,
                    ),
            decreases loaded.imports@.len() - k,
        {
            if !self.import_resolves(
                &loaded.imports[k].module_name,
                &loaded.imports[k].function_name,
                &loaded.host_namespaces,
            ) {
                return Err(
                    EngineError::UnresolvedImport(
                        loaded.imports[k].module_name.clone(),
                        loaded.imports[k].function_name.clone(),
                    ),
                );
            }
            k = k + 1;
        }
        self.modules.push(loaded);
        proof {
            if names_unique(*old(self)) {
                assert forall|i: int, j: int|
                    0 <= i < j < self.modules@.len() implies (#[trigger] self.modules@[i]).name@
                    != (#[trigger] self.modules@[j]).name@ by {
                    if j == self.modules@.len() - 1 {
                        assert(self.modules@[i] == old(self).modules@[i]);
                        assert(self.modules@[j].name@ == name@);
                    } else {
                        assert(self.modules@[i] == old(self).modules@[i]);
                        assert(self.modules@[j] == old(self).modules@[j]);
                    }
                }
            }
        }
        self.interface_cache = Vec::new();
        Ok(())
    }

    /// Builds a module from its definition without registering it: checks
    /// the name is fresh and the module ABI complete, generates the export
    /// adapters and core signatures, and registers the record types. Every
    /// error names its cause.
    fn build_module(&self, name: String, def: ModuleDefinition) -> (r: Result<Module, EngineError>)
        ensures
            r matches Ok(m) ==> {
                &&& m.name@ == name@
                &&& !has_module(*self, name@)
                &&& m.imports@ == def.imports@
                &&& m.host_namespaces@ == def.host_namespaces@
                &&& m.records@ == registry_after(def.record_types@)
                &&& m.broken_by is None
                &&& m.exports@.len() == def.exports@.len()
                &&& m.core_types@.len() == def.exports@.len()
                &&& forall|k: int|
                    0 <= k < def.exports@.len() ==> {
                        &&& (#[trigger] m.exports@[k]).signature.deep_view() == def.exports@[
                            k
                        ].deep_view()
                        &&& m.exports@[k].core_index == CORE_EXPORT_BASE + k
                        &&& m.exports@[k].adapter@ == adapter_program(
                            arg_types(m.exports@[k].signature),
                            m.exports@[k].signature.outputs@,
                            (CORE_EXPORT_BASE + k) as u32,
                        )
                        &&& m.core_types@[k]@.0 == core_params(
                            arg_types(m.exports@[k].signature),
                            0,
                        )
                        &&& m.core_types@[k]@.1 == core_results(m.exports@[k].signature.outputs@)
                    }
            },
            r matches Err(e) ==> match e {
                EngineError::InstantiationError(_) => has_module(*self, name@)
                    || def.initial_memory > MAX_MEMORY_BYTES || def.exports@.len() > 0xfff_ffff
                    || def.record_types@.len() >= 0xffff_fffe,
                EngineError::MissingAbiExport(n) | EngineError::AbiSignatureMismatch(n) => exists|
                    i: int,
                |
                    0 <= i < 6 && !abi_export_satisfied(def.abi_exports@, i) && n@
                        == abi_signature_of(i).0,
                EngineError::AdapterTypeMismatch => exists|k: int|
                    0 <= k < def.exports@.len() && sig_unsupported(
                        (#[trigger] def.exports@[k]).deep_view(),
                    ),
                EngineError::DuplicateRecord(n) => !records_registrable(def.record_types@)
                    && exists|p: int|
                    0 <= p < def.record_types@.len() && (#[trigger] def.record_types@[p]).name@
                        == n@,
                EngineError::UnresolvedRecordRef(_) => !records_registrable(def.record_types@),
                _ => false,
            },
            def_loadable(*self, name@, def) ==> r is Ok,
    {
        match self.find_module_index(&name) {
            Some(_) => {
                proof {
                    assert(has_module(*self, name@));
                }
                return Err(EngineError::InstantiationError(name));
            },
            None => {},
        }
        if def.initial_memory > MAX_MEMORY_BYTES {
            return Err(EngineError::InstantiationError(name));
        }
        check_abi_exports(&def.abi_exports)?;
        if def.exports.len() > 0xfff_ffff {
            return Err(EngineError::InstantiationError(name));
        }
        let ghost all_rts = def.record_types@;
        let mut records = RecordRegistry::new();
        let mut rts = def.record_types;
        while rts.len() > 0
            invariant
                all_rts == def.record_types@,
                records.well_formed(),
                rts@.len() <= all_rts.len(),
                rts@ =~= all_rts.subrange(all_rts.len() - rts@.len(), all_rts.len() as int),
                records@ == registry_after(all_rts.subrange(0, all_rts.len() - rts@.len())),
            decreases rts@.len(),
        {
            let ghost pdone = all_rts.len() - rts@.len();
            let rt = rts.remove(0);
            let ghost rt_g = rt;
            proof {
                assert(rt_g == all_rts[pdone as int]);
                assert(rts@ =~= all_rts.subrange(pdone as int + 1, all_rts.len() as int));
                lemma_registry_after_len(all_rts.subrange(0, pdone as int));
            }
            let ghost regs_before = records@;
            match records.register_record(rt.name, rt.fields) {
                Ok(_) => {
                    proof {
                        let done = all_rts.subrange(0, pdone as int + 1);
                        assert(done.drop_last() =~= all_rts.subrange(0, pdone as int));
                        assert(done.last() == rt_g);
                        assert(RecordType { name: rt_g.name, fields: rt_g.fields } == rt_g);
                        assert(records@ == register_step(regs_before, rt_g));
                        assert(records@ == registry_after(done));
                    }
                },
                Err(e) => {
                    proof {
                        let done = all_rts.subrange(0, pdone as int + 1);
                        assert(done.drop_last() =~= all_rts.subrange(0, pdone as int));
                        assert(done.last() == rt_g);
                        assert(RecordType { name: rt_g.name, fields: rt_g.fields } == rt_g);
                        if records_registrable(all_rts) {
                            lemma_registrable_prefix(all_rts, pdone as int + 1);
                            assert(records_registrable(done));
                            assert(record_registrable(regs_before, rt_g));
                            assert(false);
                        }
                    }
                    return Err(e);
                },
            }
        }
        let mut exports: Vec<ExportFunction> = Vec::new();
        let mut core_types: Vec<CoreFuncType> = Vec::new();
        let mut i: usize = 0;
        while i < def.exports.len()
            invariant
                i <= def.exports@.len(),
                def.exports@.len() <= 0xfff_ffff,
                exports@.len() == i,
                core_types@.len() == i,
                forall|k: int|
                    0 <= k < i ==> {
                        &&& (#[trigger] exports@[k]).signature.deep_view() == def.exports@[
                            k
                        ].deep_view()
                        &&& exports@[k].core_index == CORE_EXPORT_BASE + k
                        &&& exports@[k].adapter@ == adapter_program(
                            arg_types(exports@[k].signature),
                            exports@[k].signature.outputs@,
                            (CORE_EXPORT_BASE + k) as u32,
                        )
                        &&& core_types@[k]@.0 == core_params(arg_types(exports@[k].signature), 0)
                        &&& core_types@[k]@.1 == core_results(exports@[k].signature.outputs@)
                    },
            decreases def.exports@.len() - i,
        {
            let sig = def.exports[i].clone();
            let core_index = CORE_EXPORT_BASE + (i as u32);
            let adapter = match generate_export_adapter(&sig, core_index) {
                Ok(adapter) => adapter,
                Err(e) => {
                    proof {
                        if exists|kk: int|
                            0 <= kk < sig.arguments@.len() && !crate::generator::generator_supports(
                                (#[trigger] sig.arguments@[kk]).ty,
                            ) {
                            let kk = choose|kk: int|
                                0 <= kk < sig.arguments@.len()
                                    && !crate::generator::generator_supports(
                                    (#[trigger] sig.arguments@[kk]).ty,
                                );
                            assert(sig.deep_view().1[kk] == sig.arguments@[kk].deep_view());
                            assert(!crate::generator::generator_supports(
                                (sig.deep_view().1[kk]).1,
                            ));
                        }
                        assert(sig_unsupported(sig.deep_view()));
                        assert(sig.deep_view() == def.exports@[i as int].deep_view());
                    }
                    return Err(EngineError::AdapterTypeMismatch);
                },
            };
            let core_sig = derive_core_signature(&sig);
            exports.push(ExportFunction { signature: sig, adapter, core_index });
            core_types.push(core_sig);
            i = i + 1;
        }
        proof {
            assert(all_rts.subrange(0, all_rts.len() as int) =~= all_rts);
        }
        Ok(
            Module {
                name,
                state: ModuleState::new(def.initial_memory),
                exports,
                core_types,
                records,
                imports: def.imports,
                host_namespaces: def.host_namespaces,
                broken_by: None,
            },
        )
    }

    /// Whether an import `(module, function)` is satisfied: a loaded module
    /// of that name exports the function, or the namespace is one the
    /// embedder declared it serves as host imports. With unique names this
    /// decides `import_satisfied` exactly.
    pub fn import_resolves(
        &self,
        module_name: &String,
        function_name: &String,
        host_namespaces: &Vec<String>,
    ) -> (r: bool)
        ensures
            r ==> import_satisfied(*self, module_name@, function_name@, host_namespaces@),
            names_unique(*self) ==> (r <==> import_satisfied(
                *self,
                module_name@,
                function_name@,
                host_namespaces@,
            )),
    {
        let mut h: usize = 0;
        while h < host_namespaces.len()
            invariant
                h <= host_namespaces@.len(),
                forall|h2: int| 0 <= h2 < h ==> (#[trigger] host_namespaces@[h2])@ != module_name@,
            decreases host_namespaces@.len() - h,
        {
            if host_namespaces[h] == *module_name {
                return true;
            }
            h = h + 1;
        }
        let mi = match self.find_module_index(module_name) {
            Some(mi) => mi,
            None => {
                return false;
            },
        };
        let found = self.modules[mi].find_export_index(function_name).is_some();
        proof {
            if found {
                let ej = choose|j: int|
                    0 <= j < self.modules@[mi as int].exports@.len() && (
                    #[trigger] self.modules@[mi as int].exports@[j]).signature.name@
                        == function_name@;
                assert(module_has_export(self.modules@[mi as int], function_name@));
            }
            if names_unique(*self) && !found {
                assert forall|i: int|
                    0 <= i < self.modules@.len() && (#[trigger] self.modules@[i]).name@
                        == module_name@ implies !module_has_export(
                    self.modules@[i],
                    function_name@,
                ) by {
                    assert(i == mi);
                }
            }
        }
        found
    }

    /// Loads a set of modules in two phases — register all, then resolve
    /// every import across the whole set — so modules that import from each
    /// other load regardless of order. Success is owed whenever the set is
    /// loadable (`defs_loadable`): names pairwise distinct, each definition
    /// meeting its own conditions, every import provided within the set. On
    /// success every named module is registered, in the given order, with
    /// its declared exports and an empty interface cache; every error names
    /// a definition that caused it.
    pub fn with_modules(defs: Vec<(String, ModuleDefinition)>) -> (r: Result<Engine, EngineError>)
        ensures
            r matches Ok(e) ==> {
                &&& e.modules@.len() == defs@.len()
                &&& forall|i: int|
                    0 <= i < defs@.len() ==> (#[trigger] e.modules@[i]).name@ == defs@[i].0@
                &&& forall|i: int|
                    0 <= i < defs@.len() ==> (#[trigger] e.modules@[i]).exports@.len() == defs@[
                        i
                    ].1.exports@.len() && (forall|k: int|
                        0 <= k < defs@[i].1.exports@.len() ==> (#[trigger] e.modules@[i].exports@[
                            k
                        ]).signature.deep_view() == defs@[i].1.exports@[k].deep_view())
                &&& e.interface_cache@.len() == 0
                &&& names_unique(e)
                &&& cache_coherent(e)
            },
            r matches Err(e) ==> match e {
                EngineError::InstantiationError(_) => (exists|i: int, j: int|
                    0 <= i < j < defs@.len() && (#[trigger] defs@[i]).0@ == (
                    #[trigger] defs@[j]).0@) || (exists|i: int|
                    0 <= i < defs@.len() && ((#[trigger] defs@[i]).1.initial_memory
                        > MAX_MEMORY_BYTES || defs@[i].1.exports@.len() > 0xfff_ffff || defs@[
                        i
                    ].1.record_types@.len() >= 0xffff_fffe)),
                EngineError::MissingAbiExport(n) | EngineError::AbiSignatureMismatch(n) => exists|
                    i: int,
                    h: int,
                |
                    0 <= i < defs@.len() && 0 <= h < 6 && !(#[trigger] abi_export_satisfied(
                        defs@[i].1.abi_exports@,
                        h,
                    )) && n@ == abi_signature_of(h).0,
                EngineError::AdapterTypeMismatch => exists|i: int, k: int|
                    0 <= i < defs@.len() && 0 <= k < defs@[i].1.exports@.len() && sig_unsupported(
                        (#[trigger] defs@[i].1.exports@[k]).deep_view(),
                    ),
                EngineError::DuplicateRecord(_) | EngineError::UnresolvedRecordRef(_) => exists|
                    i: int,
                |
                    0 <= i < defs@.len() && !records_registrable(
                        (#[trigger] defs@[i]).1.record_types@,
                    ),
                EngineError::UnresolvedImport(m, f) => exists|i: int, k: int|
                    {
                        &&& 0 <= i < defs@.len()
                        &&& 0 <= k < defs@[i].1.imports@.len()
                        &&& (#[trigger] defs@[i].1.imports@[k]).module_name@ == m@
                        &&& defs@[i].1.imports@[k].function_name@ == f@
                        &&& !import_provided(defs@, defs@[i].1.host_namespaces@, m@, f@)
                    },
                _ => false,
            },
            defs_loadable(defs@) ==> r is Ok,
    {
        let mut engine = Engine::new();
        let ghost all = defs@;
        let mut remaining = defs;
        while remaining.len() > 0
            invariant
                all == defs@,
                engine.modules@.len() + remaining@.len() == all.len(),
                engine.interface_cache@.len() == 0,
                names_unique(engine),
                remaining@ =~= all.subrange(
                    all.len() - remaining@.len(),
                    all.len() as int,
                ),
                forall|i: int|
                    0 <= i < engine.modules@.len() ==> {
                        &&& (#[trigger] engine.modules@[i]).name@ == all[i].0@
                        &&& engine.modules@[i].imports@ == all[i].1.imports@
                        &&& engine.modules@[i].host_namespaces@ == all[i].1.host_namespaces@
                        &&& engine.modules@[i].exports@.len() == all[i].1.exports@.len()
                        &&& forall|k: int|
                            0 <= k < all[i].1.exports@.len() ==> (
                            #[trigger] engine.modules@[i].exports@[k]).signature.deep_view()
                                == all[i].1.exports@[k].deep_view()
                    },
            decreases remaining@.len(),
        {
            let ghost k = engine.modules@.len() as int;
            let ghost before = engine;
            let (name, def) = remaining.remove(0);
            proof {
                assert((name, def) == all[k]);
                assert(name == all[k].0 && def == all[k].1);
            }
            let m = match engine.build_module(name, def) {
                Ok(m) => m,
                Err(e) => {
                    proof {
                        if has_module(engine, all[k].0@) {
                            let i0 = choose|i0: int|
                                0 <= i0 < engine.modules@.len() && (
                                #[trigger] engine.modules@[i0]).name@ == all[k].0@;
                            assert(all[i0].0@ == all[k].0@ && i0 < k);
                        }
                        if defs_loadable(all) {
                            assert(def_conditions(all[k].1));
                            assert(!has_module(engine, all[k].0@));
                            assert(false);
                        }
                    }
                    return Err(e);
                },
            };
            engine.modules.push(m);
            proof {
                assert forall|i: int, j: int|
                    0 <= i < j < engine.modules@.len() implies (
                #[trigger] engine.modules@[i]).name@ != (#[trigger] engine.modules@[j]).name@ by {
                    if j == engine.modules@.len() - 1 {
                        assert(engine.modules@[i] == before.modules@[i]);
                        assert(!has_module(before, m.name@));
                    } else {
                        assert(engine.modules@[i] == before.modules@[i]);
                        assert(engine.modules@[j] == before.modules@[j]);
                    }
                }
            }
        }
        let mut i: usize = 0;
        while i < engine.modules.len()
            invariant
                all == defs@,
                engine.modules@.len() == all.len(),
                engine.interface_cache@.len() == 0,
                names_unique(engine),
                forall|i2: int|
                    0 <= i2 < engine.modules@.len() ==> {
                        &&& (#[trigger] engine.modules@[i2]).name@ == all[i2].0@
                        &&& engine.modules@[i2].imports@ == all[i2].1.imports@
                        &&& engine.modules@[i2].host_namespaces@ == all[i2].1.host_namespaces@
                        &&& engine.modules@[i2].exports@.len() == all[i2].1.exports@.len()
                        &&& forall|k: int|
                            0 <= k < all[i2].1.exports@.len() ==> (
                            #[trigger] engine.modules@[i2].exports@[k]).signature.deep_view()
                                == all[i2].1.exports@[k].deep_view()
                    },
            decreases engine.modules@.len() - i,
        {
            let mut k: usize = 0;
            while k < engine.modules[i].imports.len()
                invariant
                    all == defs@,
                    i < engine.modules@.len(),
                    engine.modules@.len() == all.len(),
                    engine.interface_cache@.len() == 0,
                    names_unique(engine),
                    forall|i2: int|
                        0 <= i2 < engine.modules@.len() ==> {
                            &&& (#[trigger] engine.modules@[i2]).name@ == all[i2].0@
                            &&& engine.modules@[i2].imports@ == all[i2].1.imports@
                            &&& engine.modules@[i2].host_namespaces@ == all[i2].1.host_namespaces@
                            &&& engine.modules@[i2].exports@.len() == all[i2].1.exports@.len()
                            &&& forall|k2: int|
                                0 <= k2 < all[i2].1.exports@.len() ==> (
                                #[trigger] engine.modules@[i2].exports@[
                                    k2
                                ]).signature.deep_view() == all[i2].1.exports@[k2].deep_view()
                        },
                decreases engine.modules@[i as int].imports@.len() - k,
            {
                let mn = engine.modules[i].imports[k].module_name.clone();
                let fname = engine.modules[i].imports[k].function_name.clone();
                if !engine.import_resolves(&mn, &fname, &engine.modules[i].host_namespaces) {
                    proof {
                        let hosts = all[i as int].1.host_namespaces@;
                        assert(!import_satisfied(engine, mn@, fname@, hosts));
                        if import_provided(all, hosts, mn@, fname@) {
                            if exists|h: int|
                                0 <= h < hosts.len() && (#[trigger] hosts[h])@ == mn@ {
                                assert(import_satisfied(engine, mn@, fname@, hosts));
                            } else {
                                let (j0, k0) = choose|j0: int, k0: int|
                                    0 <= j0 < all.len() && all[j0].0@ == mn@ && 0 <= k0 < all[
                                        j0
                                    ].1.exports@.len() && (#[trigger] all[j0].1.exports@[
                                        k0
                                    ]).name@ == fname@;
                                assert(engine.modules@[j0].exports@[k0].signature.deep_view()
                                    == all[j0].1.exports@[k0].deep_view());
                                assert(engine.modules@[j0].exports@[k0].signature.name@
                                    == fname@);
                                assert(module_has_export(engine.modules@[j0], fname@));
                                assert(import_satisfied(engine, mn@, fname@, hosts));
                            }
                            assert(false);
                        }
                        assert(all[i as int].1.imports@[k as int].module_name@ == mn@);
                        assert(all[i as int].1.imports@[k as int].function_name@ == fname@);
                        if defs_loadable(all) {
                            assert(import_provided(all, hosts, mn@, fname@));
                            assert(false);
                        }
                    }
                    return Err(EngineError::UnresolvedImport(mn, fname));
                }
                k = k + 1;
            }
            i = i + 1;
        }
        Ok(engine)
    }

    /// Unloads the named module: with unique names, no module of that name
    /// remains, every remaining module that declared an import from it is
    /// marked broken (and will fail on its next call), and the interface
    /// cache is invalidated. Fails with `NoSuchModule` exactly when no
    /// module bears the name, leaving the registry and cache unchanged.
    pub fn unload_module(&mut self, module_name: &String) -> (r: Result<(), EngineError>)
        ensures
            r is Err <==> !has_module(*old(self), module_name@),
            r matches Err(e) ==> (e matches EngineError::NoSuchModule(n) && n@ == module_name@
                && *final(self) == *old(self)),
            r is Ok ==> {
                &&& final(self).modules@.len() == old(self).modules@.len() - 1
                &&& final(self).interface_cache@.len() == 0
                &&& (names_unique(*old(self)) ==> !has_module(*final(self), module_name@))
                &&& (names_unique(*old(self)) ==> names_unique(*final(self)))
                &&& forall|i: int|
                    0 <= i < final(self).modules@.len() && (exists|k: int|
                        0 <= k < (#[trigger] final(self).modules@[i]).imports@.len() && (
                        #[trigger] final(self).modules@[i].imports@[k]).module_name@
                            == module_name@) ==> (final(self).modules@[i].broken_by matches Some(
                        nn,
                    ) && nn@ == module_name@)
            },
    {
        let mi = match self.find_module_index(module_name) {
            Some(mi) => mi,
            None => {
                return Err(EngineError::NoSuchModule(module_name.clone()));
            },
        };
        let _ = self.modules.remove(mi);
        proof {
            assert(self.modules@ =~= old(self).modules@.remove(mi as int));
        }
        let mut i: usize = 0;
        while i < self.modules.len()
            invariant
                i <= self.modules@.len(),
                mi <= self.modules@.len(),
                self.modules@.len() == old(self).modules@.len() - 1,
                old(self).modules@[mi as int].name@ == module_name@,
                forall|t: int|
                    0 <= t < self.modules@.len() ==> (#[trigger] self.modules@[t]).name@ == old(
                        self,
                    ).modules@[
                        if t < mi {
                            t
                        } else {
                            t + 1
                        }
                    ].name@,
                forall|t: int|
                    0 <= t < i ==> ((exists|k: int|
                        0 <= k < (#[trigger] self.modules@[t]).imports@.len() && (
                        #[trigger] self.modules@[t].imports@[k]).module_name@ == module_name@)
                        ==> (self.modules@[t].broken_by matches Some(nn) && nn@ == module_name@)),
            decreases self.modules@.len() - i,
        {
            let mut imported = false;
            let mut k: usize = 0;
            while k < self.modules[i].imports.len()
                invariant
                    i < self.modules@.len(),
                    mi <= self.modules@.len(),
                    k <= self.modules@[i as int].imports@.len(),
                    self.modules@.len() == old(self).modules@.len() - 1,
                    old(self).modules@[mi as int].name@ == module_name@,
                    forall|t: int|
                        0 <= t < self.modules@.len() ==> (#[trigger] self.modules@[t]).name@
                            == old(self).modules@[
                            if t < mi {
                                t
                            } else {
                                t + 1
                            }
                        ].name@,
                    forall|t: int|
                        0 <= t < i ==> ((exists|k2: int|
                            0 <= k2 < (#[trigger] self.modules@[t]).imports@.len() && (
                            #[trigger] self.modules@[t].imports@[k2]).module_name@
                                == module_name@) ==> (self.modules@[t].broken_by matches Some(nn)
                            && nn@ == module_name@)),
                    imported <==> exists|k2: int|
                        0 <= k2 < k && (#[trigger] self.modules@[i as int].imports@[
                            k2
                        ]).module_name@ == module_name@,
                decreases self.modules@[i as int].imports@.len() - k,
            {
                if self.modules[i].imports[k].module_name == *module_name {
                    imported = true;
                }
                k = k + 1;
            }
            if imported {
                self.modules[i].broken_by = Some(module_name.clone());
            }
            i = i + 1;
        }
        proof {
            if names_unique(*old(self)) {
                assert forall|t: int|
                    0 <= t < self.modules@.len() implies (#[trigger] self.modules@[t]).name@
                    != module_name@ by {
                    if t < mi {
                        assert(old(self).modules@[t].name@ != old(self).modules@[
                            mi as int
                        ].name@);
                    } else {
                        assert(old(self).modules@[t + 1].name@ != old(self).modules@[
                            mi as int
                        ].name@);
                    }
                }
                assert forall|t1: int, t2: int|
                    0 <= t1 < t2 < self.modules@.len() implies (
                #[trigger] self.modules@[t1]).name@ != (#[trigger] self.modules@[t2]).name@ by {
                    let o1: int = if t1 < mi {
                        t1
                    } else {
                        t1 + 1
                    };
                    let o2: int = if t2 < mi {
                        t2
                    } else {
                        t2 + 1
                    };
                    assert(old(self).modules@[o1].name@ != old(self).modules@[o2].name@);
                }
            }
        }
        self.interface_cache = Vec::new();
        Ok(())
    }
}

impl Module {
    /// The index of the first export with this function name.
    pub fn find_export_index(&self, fname: &String) -> (r: Option<usize>)
        ensures
            r matches Some(j) ==> j < self.exports@.len() && self.exports@[
                j as int
            ].signature.name@ == fname@,
            r is None ==> !module_has_export(*self, fname@),
    {
        let mut j: usize = 0;
        while j < self.exports.len()
            invariant
                j <= self.exports@.len(),
                forall|m: int|
                    0 <= m < j ==> (#[trigger] self.exports@[m]).signature.name@ != fname@,
            decreases self.exports@.len() - j,
        {
            if self.exports[j].signature.name == *fname {
                return Some(j);
            }
            j = j + 1;
        }
        None
    }
}

impl Engine {
    /// Drives one adapter program to completion for the named module: ABI
    /// core calls run against the module model; export core calls go to the
    /// embedder's runtime, which may re-enter this registry, so the module
    /// is re-acquired by name after every such call. On success the program
    /// left exactly one value per declared output, each inhabiting its
    /// declared type against the module's record registry.
    fn run_adapter<G: CoreRuntime>(
        &mut self,
        module_name: &String,
        prog: &Vec<Instruction>,
        args: &Vec<IValue>,
        outputs: &Vec<IType>,
        guest: &mut G,
    ) -> (r: Result<Vec<IValue>, EngineError>)
        ensures
            r matches Err(e) ==> (e is NoSuchModule || e is WasmTrap || e is AdapterResidualStack
                || e is AdapterStackUnderflow || e is AdapterTypeMismatch
                || e is NumericRangeExceeded || e is InvalidUtf8 || e is MemoryAccessOutOfBounds
                || e is UnknownRecord),
            r matches Ok(vals) ==> {
                let ms = final(self).modules@;
                &&& vals@.len() == outputs@.len()
                &&& exists|i: int|
                    0 <= i < ms.len() && (#[trigger] ms[i]).name@ == module_name@ && (forall|
                        k: int,
                    |
                        0 <= k < vals@.len() ==> value_has_itype(
                            ivalue_model(#[trigger] vals@[k]),
                            outputs@[k],
                            ms[i].records@,
                        ))
            },
    {
        let mut stack: Vec<IValue> = Vec::new();
        let mut pc: usize = 0;
        while pc < prog.len()
            decreases prog@.len() - pc,
        {
            let mi = match self.find_module_index(module_name) {
                Some(mi) => mi,
                None => {
                    return Err(EngineError::NoSuchModule(module_name.clone()));
                },
            };
            let instr = prog[pc];
            let m = &mut self.modules[mi];
            if m.state.memory_size() > MAX_MEMORY_BYTES {
                return Err(EngineError::WasmTrap(String::from_str("memory model overflow")));
            }
            let step = execute_instruction(
                &instr,
                args,
                &mut stack,
                &mut m.state,
                &m.core_types,
                &m.records,
            )?;
            match step {
                StepResult::Continue => {},
                StepResult::CallExternal { function_index, args: cargs } => {
                    let k = (function_index - CORE_EXPORT_BASE) as usize;
                    let m = &self.modules[mi];
                    let mut expected: Vec<CoreType> = Vec::new();
                    let mut t: usize = 0;
                    while t < m.core_types[k].results.len()
                        invariant
                            k < m.core_types@.len(),
                            m == &self.modules@[mi as int],
                            mi < self.modules@.len(),
                        decreases m.core_types@[k as int].results@.len() - t,
                    {
                        expected.push(m.core_types[k].results[t]);
                        t = t + 1;
                    }
                    let results = match guest.call_core(self, mi, function_index, cargs) {
                        Ok(results) => results,
                        Err(cause) => {
                            return Err(EngineError::WasmTrap(cause));
                        },
                    };
                    if results.len() != expected.len() {
                        return Err(EngineError::AdapterTypeMismatch);
                    }
                    let mut t: usize = 0;
                    while t < results.len()
                        invariant
                            results@.len() == expected@.len(),
                        decreases results@.len() - t,
                    {
                        let ok = match (&results[t], &expected[t]) {
                            (CoreValue::I32(_), CoreType::I32) => true,
                            (CoreValue::I64(_), CoreType::I64) => true,
                            (CoreValue::F32Bits(_), CoreType::F32) => true,
                            (CoreValue::F64Bits(_), CoreType::F64) => true,
                            _ => false,
                        };
                        if !ok {
                            return Err(EngineError::AdapterTypeMismatch);
                        }
                        push_core_value(&mut stack, results[t]);
                        t = t + 1;
                    }
                },
            }
            pc = pc + 1;
        }
        if stack.len() != outputs.len() {
            return Err(EngineError::AdapterResidualStack);
        }
        let mi = match self.find_module_index(module_name) {
            Some(mi) => mi,
            None => {
                return Err(EngineError::NoSuchModule(module_name.clone()));
            },
        };
        let m = &self.modules[mi];
        let mut k: usize = 0;
        while k < stack.len()
            invariant
                k <= stack@.len(),
                stack@.len() == outputs@.len(),
                mi < self.modules@.len(),
                m == &self.modules@[mi as int],
                self.modules@[mi as int].name@ == module_name@,
                forall|j: int|
                    0 <= j < k ==> value_has_itype(
                        ivalue_model(#[trigger] stack@[j]),
                        outputs@[j],
                        self.modules@[mi as int].records@,
                    ),
            decreases stack@.len() - k,
        {
            if !check_value_type(&stack[k], &outputs[k], &m.records) {
                return Err(EngineError::AdapterTypeMismatch);
            }
            k = k + 1;
        }
        Ok(stack)
    }

    /// Calls an exported function of a loaded module with interface values.
    /// Fails with `NoSuchModule` when no module bears the name, with
    /// `UnresolvedImport` exactly when the module was broken by an unload,
    /// and with `MissingFunction` exactly when the module exports no
    /// function of that name; a success returns one well-typed value per
    /// declared output.
    pub fn call_with_ivalues<G: CoreRuntime>(
        &mut self,
        module_name: &String,
        func_name: &String,
        args: &Vec<IValue>,
        guest: &mut G,
    ) -> (r: Result<Vec<IValue>, EngineError>)
        ensures
            names_unique(*old(self)) ==> forall|i: int|
                (0 <= i < old(self).modules@.len() && (#[trigger] old(self).modules@[i]).name@
                    == module_name@) ==> match old(self).modules@[i].broken_by {
                    Some(cause) => (r matches Err(e) && e matches EngineError::UnresolvedImport(
                        n1,
                        n2,
                    ) && n1@ == module_name@ && n2@ == cause@),
                    None => true,
                },
            r matches Err(e) ==> match e {
                EngineError::UnresolvedImport(n1, n2) => n1@ == module_name@ && exists|i: int|
                    0 <= i < old(self).modules@.len() && (#[trigger] old(self).modules@[i]).name@
                        == module_name@ && (match old(self).modules@[i].broken_by {
                        Some(cause) => cause@ == n2@,
                        None => false,
                    }),
                EngineError::MissingFunction(n) => n@ == func_name@ && has_module(
                    *old(self),
                    module_name@,
                ) && (names_unique(*old(self)) ==> forall|i: int|
                    0 <= i < old(self).modules@.len() && (#[trigger] old(self).modules@[i]).name@
                        == module_name@ ==> !module_has_export(
                        old(self).modules@[i],
                        func_name@,
                    )),
                _ => true,
            },
            !has_module(*old(self), module_name@) ==> (r matches Err(e) && e matches
                EngineError::NoSuchModule(n) && n@ == module_name@ && *final(self) == *old(self)),
            (forall|i: int|
                0 <= i < old(self).modules@.len() && (#[trigger] old(self).modules@[i]).name@
                    == module_name@ ==> old(self).modules@[i].broken_by is None
                    && !module_has_export(old(self).modules@[i], func_name@)) && has_module(
                *old(self),
                module_name@,
            ) ==> (r matches Err(e) && (e matches EngineError::MissingFunction(n) && n@
                == func_name@)),
            r matches Ok(vals) ==> exists|i: int, j: int|
                {
                    &&& 0 <= i < old(self).modules@.len()
                    &&& (#[trigger] old(self).modules@[i]).name@ == module_name@
                    &&& 0 <= j < old(self).modules@[i].exports@.len()
                    &&& (#[trigger] old(self).modules@[i].exports@[j]).signature.name@
                        == func_name@
                    &&& vals@.len() == old(self).modules@[i].exports@[j].signature.outputs@.len()
                    &&& exists|i2: int|
                        0 <= i2 < final(self).modules@.len() && (#[trigger] final(self).modules@[
                            i2
                        ]).name@ == module_name@ && (forall|k: int|
                            0 <= k < vals@.len() ==> value_has_itype(
                                ivalue_model(#[trigger] vals@[k]),
                                old(self).modules@[i].exports@[j].signature.outputs@[k],
                                final(self).modules@[i2].records@,
                            ))
                },
    {
        let mi = match self.find_module_index(module_name) {
            Some(mi) => mi,
            None => {
                return Err(EngineError::NoSuchModule(module_name.clone()));
            },
        };
        match &self.modules[mi].broken_by {
            Some(cause) => {
                return Err(EngineError::UnresolvedImport(module_name.clone(), cause.clone()));
            },
            None => {},
        }
        let ej = match self.modules[mi].find_export_index(func_name) {
            Some(ej) => ej,
            None => {
                return Err(EngineError::MissingFunction(func_name.clone()));
            },
        };
        // Copy the program and output types: the guest may reshape the
        // registry while the program runs.
        let export = &self.modules[mi].exports[ej];
        let mut prog: Vec<Instruction> = Vec::new();
        let mut p: usize = 0;
        while p < export.adapter.len()
            invariant
                mi < self.modules@.len(),
                ej < self.modules@[mi as int].exports@.len(),
                export == &self.modules@[mi as int].exports@[ej as int],
            decreases export.adapter@.len() - p,
        {
            prog.push(export.adapter[p]);
            p = p + 1;
        }
        let outputs = clone_itypes(&export.signature.outputs);
        proof {
            assert(outputs@.len() == old(self).modules@[mi as int].exports@[
                ej as int
            ].signature.outputs@.len());
        }
        let vals = self.run_adapter(module_name, &prog, args, &outputs, guest)?;
        Ok(vals)
    }

    /// Lists every module and its exported signatures, in insertion order.
    pub fn get_interface(&self) -> (r: Vec<(String, Vec<FunctionSignature>)>)
        ensures
            r@.len() == self.modules@.len(),
            forall|i: int|
                0 <= i < r@.len() ==> (#[trigger] r@[i]).0@ == self.modules@[i].name@
                    && sigs_mirror(r@[i].1@, self.modules@[i].exports@),
    {
        let mut out: Vec<(String, Vec<FunctionSignature>)> = Vec::new();
        let mut i: usize = 0;
        while i < self.modules.len()
            invariant
                i <= self.modules@.len(),
                out@.len() == i,
                forall|j: int|
                    0 <= j < i ==> (#[trigger] out@[j]).0@ == self.modules@[j].name@
                        && sigs_mirror(out@[j].1@, self.modules@[j].exports@),
            decreases self.modules@.len() - i,
        {
            let sigs = clone_export_signatures(&self.modules[i].exports);
            out.push((self.modules[i].name.clone(), sigs));
            i = i + 1;
        }
        out
    }

    /// Looks a function signature up through the interface cache, which is
    /// keyed by module name; a miss fills the cache from the module's
    /// exports, so cached and uncached lookups agree. When the cache mirrors
    /// the registry and names are unique: an absent module fails with
    /// `NoSuchModule` and nothing else does; a loaded module that exports
    /// the function yields exactly the signature of its first export of
    /// that name; and `MissingFunction` comes exactly when the module
    /// exports no function of that name.
    pub fn lookup_module_interface(&mut self, module_name: &String, func_name: &String) -> (r:
        Result<FunctionSignature, EngineError>)
        ensures
            final(self).modules@ == old(self).modules@,
            cache_coherent(*old(self)) ==> cache_coherent(*final(self)),
            cache_coherent(*old(self)) && names_unique(*old(self)) ==> {
                &&& (!has_module(*old(self), module_name@) <==> (r matches Err(e) && e matches
                    EngineError::NoSuchModule(n) && n@ == module_name@))
                &&& forall|i: int|
                    0 <= i < old(self).modules@.len() && (#[trigger] old(self).modules@[i]).name@
                        == module_name@ ==> match r {
                        Ok(sig) => exists|j: int|
                            {
                                &&& 0 <= j < old(self).modules@[i].exports@.len()
                                &&& (#[trigger] old(self).modules@[i].exports@[
                                    j
                                ]).signature.name@ == func_name@
                                &&& (forall|j2: int|
                                    0 <= j2 < j ==> old(self).modules@[i].exports@[
                                        j2
                                    ].signature.name@ != func_name@)
                                &&& sig.deep_view() == old(self).modules@[i].exports@[
                                    j
                                ].signature.deep_view()
                            },
                        Err(e) => e matches EngineError::MissingFunction(n) && n@ == func_name@
                            && !module_has_export(old(self).modules@[i], func_name@),
                    }
            },
    {
        let ghost pre = *self;
        let mut c: usize = 0;
        while c < self.interface_cache.len()
            invariant
                *self == pre,
                c <= self.interface_cache@.len(),
            decreases self.interface_cache@.len() - c,
        {
            if self.interface_cache[c].0 == *module_name {
                let r = lookup_in_sigs(&self.interface_cache[c].1, func_name);
                proof {
                    if cache_coherent(pre) && names_unique(pre) {
                        lift_lookup(pre, c as int, module_name@, func_name@, &r);
                    }
                }
                return r;
            }
            c = c + 1;
        }
        let mi = match self.find_module_index(module_name) {
            Some(mi) => mi,
            None => {
                return Err(EngineError::NoSuchModule(module_name.clone()));
            },
        };
        let sigs = clone_export_signatures(&self.modules[mi].exports);
        let entry = (module_name.clone(), sigs);
        self.interface_cache.push(entry);
        proof {
            if cache_coherent(pre) {
                assert forall|cc: int| 0 <= cc < self.interface_cache@.len() implies exists|i: int|
                    0 <= i < self.modules@.len() && (#[trigger] self.modules@[i]).name@ == (
                    #[trigger] self.interface_cache@[cc]).0@ && sigs_mirror(
                    self.interface_cache@[cc].1@,
                    self.modules@[i].exports@,
                ) by {
                    if cc < pre.interface_cache@.len() {
                        assert(exists|i: int|
                            0 <= i < pre.modules@.len() && (#[trigger] pre.modules@[i]).name@ == (
                            pre.interface_cache@[cc]).0@ && sigs_mirror(
                                pre.interface_cache@[cc].1@,
                                pre.modules@[i].exports@,
                            ));
                    } else {
                        assert(self.modules@[mi as int].name@ == self.interface_cache@[cc].0@
                            && sigs_mirror(
                            self.interface_cache@[cc].1@,
                            self.modules@[mi as int].exports@,
                        ));
                    }
                }
            }
        }
        let c = self.interface_cache.len() - 1;
        let r = lookup_in_sigs(&self.interface_cache[c].1, func_name);
        proof {
            if cache_coherent(pre) && names_unique(pre) {
                lift_lookup(*self, c as int, module_name@, func_name@, &r);
            }
        }
        r
    }
}

/// Lifts a signature-list lookup over a coherent cache entry to the
/// mirrored module's exports, for every module bearing the entry's name.
proof fn lift_lookup(
    e: Engine,
    c: int,
    module_name: Seq<char>,
    func_name: Seq<char>,
    r: &Result<FunctionSignature, EngineError>,
)
    requires
        cache_coherent(e),
        names_unique(e),
        0 <= c < e.interface_cache@.len(),
        e.interface_cache@[c].0@ == module_name,
        r matches Ok(sig) ==> exists|j: int|
            {
                &&& 0 <= j < e.interface_cache@[c].1@.len()
                &&& (#[trigger] e.interface_cache@[c].1@[j]).name@ == func_name
                &&& (forall|j2: int|
                    0 <= j2 < j ==> e.interface_cache@[c].1@[j2].name@ != func_name)
                &&& sig.deep_view() == e.interface_cache@[c].1@[j].deep_view()
            },
        r matches Err(err) ==> (err matches EngineError::MissingFunction(n) && n@ == func_name
            && forall|j: int|
            0 <= j < e.interface_cache@[c].1@.len() ==> (#[trigger] e.interface_cache@[c].1@[
                j
            ]).name@ != func_name),
    ensures
        forall|i: int|
            0 <= i < e.modules@.len() && (#[trigger] e.modules@[i]).name@ == module_name
                ==> match r {
                Ok(sig) => exists|j: int|
                    {
                        &&& 0 <= j < e.modules@[i].exports@.len()
                        &&& (#[trigger] e.modules@[i].exports@[j]).signature.name@ == func_name
                        &&& (forall|j2: int|
                            0 <= j2 < j ==> e.modules@[i].exports@[j2].signature.name@
                                != func_name)
                        &&& sig.deep_view() == e.modules@[i].exports@[j].signature.deep_view()
                    },
                Err(err) => err matches EngineError::MissingFunction(n) && n@ == func_name
                    && !module_has_export(e.modules@[i], func_name),
            },
{
    let i0 = choose|i0: int|
        0 <= i0 < e.modules@.len() && (#[trigger] e.modules@[i0]).name@ == e.interface_cache@[c].0@
            && sigs_mirror(e.interface_cache@[c].1@, e.modules@[i0].exports@);
    let sigs = e.interface_cache@[c].1@;
    let exports = e.modules@[i0].exports@;
    assert forall|i: int|
        0 <= i < e.modules@.len() && (#[trigger] e.modules@[i]).name@ == module_name implies match r {
        Ok(sig) => exists|j: int|
            {
                &&& 0 <= j < e.modules@[i].exports@.len()
                &&& (#[trigger] e.modules@[i].exports@[j]).signature.name@ == func_name
                &&& (forall|j2: int|
                    0 <= j2 < j ==> e.modules@[i].exports@[j2].signature.name@ != func_name)
                &&& sig.deep_view() == e.modules@[i].exports@[j].signature.deep_view()
            },
        Err(err) => err matches EngineError::MissingFunction(n) && n@ == func_name
            && !module_has_export(e.modules@[i], func_name),
    } by {
        assert(i == i0);
        assert forall|j: int| 0 <= j < sigs.len() implies (#[trigger] sigs[j]).name@ == exports[
            j
        ].signature.name@ by {
            assert(sigs[j].deep_view() == exports[j].signature.deep_view());
        }
        match r {
            Ok(sig) => {
                let j = choose|j: int|
                    {
                        &&& 0 <= j < sigs.len()
                        &&& (#[trigger] sigs[j]).name@ == func_name
                        &&& (forall|j2: int| 0 <= j2 < j ==> sigs[j2].name@ != func_name)
                        &&& sig.deep_view() == sigs[j].deep_view()
                    };
                assert(0 <= j < exports.len());
                assert(exports[j].signature.name@ == func_name);
                assert forall|j2: int| 0 <= j2 < j implies exports[j2].signature.name@
                    != func_name by {
                    assert(sigs[j2].name@ != func_name);
                    assert(sigs[j2].name@ == exports[j2].signature.name@);
                }
                assert(sig.deep_view() == exports[j].signature.deep_view());
            },
            Err(err) => {
                assert forall|j: int| 0 <= j < exports.len() implies (
                #[trigger] exports[j]).signature.name@ != func_name by {
                    assert(sigs[j].name@ != func_name);
                }
            },
        }
    }
}

/// Clones the signatures of a module's exports, in order.
fn clone_export_signatures(exports: &Vec<ExportFunction>) -> (r: Vec<FunctionSignature>)
    ensures
        sigs_mirror(r@, exports@),
{
    let mut out: Vec<FunctionSignature> = Vec::new();
    let mut j: usize = 0;
    while j < exports.len()
        invariant
            j <= exports@.len(),
            out@.len() == j,
            forall|k: int|
                0 <= k < j ==> (#[trigger] out@[k]).deep_view() == exports@[
                    k
                ].signature.deep_view(),
        decreases exports@.len() - j,
    {
        out.push(exports[j].signature.clone());
        j = j + 1;
    }
    out
}

/// Finds the first signature bearing the function name in a signature list;
/// `MissingFunction` exactly when none does.
fn lookup_in_sigs(sigs: &Vec<FunctionSignature>, func_name: &String) -> (r: Result<
    FunctionSignature,
    EngineError,
>)
    ensures
        r matches Ok(sig) ==> exists|j: int|
            {
                &&& 0 <= j < sigs@.len()
                &&& (#[trigger] sigs@[j]).name@ == func_name@
                &&& (forall|j2: int| 0 <= j2 < j ==> sigs@[j2].name@ != func_name@)
                &&& sig.deep_view() == sigs@[j].deep_view()
            },
        r matches Err(err) ==> (err matches EngineError::MissingFunction(n) && n@ == func_name@
            && forall|j: int| 0 <= j < sigs@.len() ==> (#[trigger] sigs@[j]).name@ != func_name@),
{
    let mut j: usize = 0;
    while j < sigs.len()
        invariant
            j <= sigs@.len(),
            forall|j2: int| 0 <= j2 < j ==> (#[trigger] sigs@[j2]).name@ != func_name@,
        decreases sigs@.len() - j,
    {
        if sigs[j].name == *func_name {
            let sig = sigs[j].clone();
            return Ok(sig);
        }
        j = j + 1;
    }
    Err(EngineError::MissingFunction(func_name.clone()))
}

impl Engine {
    /// Calls an exported function with JSON arguments: decodes them against
    /// the function's signature through the interface cache, runs the call,
    /// and encodes the results. With a coherent cache and unique names, an
    /// absent module fails with `NoSuchModule`, an absent function with
    /// `MissingFunction`, and arguments that do not decode against the
    /// signature fail before the guest runs — with exactly
    /// `JsonSchemaMismatch` when every argument type resolves against the
    /// module's records, and at worst `UnknownRecord` otherwise. A success
    /// returns `Null` for an export without outputs and the JSON encoding
    /// of the single output value otherwise.
    pub fn call_with_json<G: CoreRuntime>(
        &mut self,
        module_name: &String,
        func_name: &String,
        json_args: &JsonValue,
        guest: &mut G,
    ) -> (r: Result<JsonValue, EngineError>)
        ensures
            cache_coherent(*old(self)) && names_unique(*old(self)) ==> {
                &&& (!has_module(*old(self), module_name@) ==> (r matches Err(e) && e matches
                    EngineError::NoSuchModule(n) && n@ == module_name@))
                &&& ((has_module(*old(self), module_name@) && (forall|i: int|
                    0 <= i < old(self).modules@.len() && (#[trigger] old(self).modules@[i]).name@
                        == module_name@ ==> !module_has_export(
                        old(self).modules@[i],
                        func_name@,
                    ))) ==> (r matches Err(e) && e matches EngineError::MissingFunction(n) && n@
                    == func_name@))
                &&& forall|i: int, j: int|
                    ({
                        &&& 0 <= i < old(self).modules@.len()
                        &&& (#[trigger] old(self).modules@[i]).name@ == module_name@
                        &&& 0 <= j < old(self).modules@[i].exports@.len()
                        &&& (#[trigger] old(self).modules@[i].exports@[j]).signature.name@
                            == func_name@
                        &&& (forall|j2: int|
                            0 <= j2 < j ==> old(self).modules@[i].exports@[j2].signature.name@
                                != func_name@)
                        &&& !json_args_decodable(
                            *json_args,
                            old(self).modules@[i].exports@[j].signature.arguments.deep_view(),
                            old(self).modules@[i].records@,
                        )
                    }) ==> (r matches Err(e) && (e is JsonSchemaMismatch || e is UnknownRecord))
                &&& forall|i: int, j: int|
                    ({
                        &&& 0 <= i < old(self).modules@.len()
                        &&& (#[trigger] old(self).modules@[i]).name@ == module_name@
                        &&& 0 <= j < old(self).modules@[i].exports@.len()
                        &&& (#[trigger] old(self).modules@[i].exports@[j]).signature.name@
                            == func_name@
                        &&& (forall|j2: int|
                            0 <= j2 < j ==> old(self).modules@[i].exports@[j2].signature.name@
                                != func_name@)
                        &&& old(self).modules@[i].records.well_formed()
                        &&& (forall|k: int|
                            0 <= k < old(self).modules@[i].exports@[
                                j
                            ].signature.arguments.deep_view().len() ==> itype_refs_below(
                                (#[trigger] old(self).modules@[i].exports@[
                                    j
                                ].signature.arguments.deep_view()[k]).1,
                                old(self).modules@[i].records@.len() as int + 1,
                            ))
                        &&& !json_args_decodable(
                            *json_args,
                            old(self).modules@[i].exports@[j].signature.arguments.deep_view(),
                            old(self).modules@[i].records@,
                        )
                    }) ==> (r matches Err(e) && e is JsonSchemaMismatch)
            },
            r matches Ok(jr) ==> exists|i: int, j: int|
                {
                    &&& 0 <= i < old(self).modules@.len()
                    &&& (#[trigger] old(self).modules@[i]).name@ == module_name@
                    &&& 0 <= j < old(self).modules@[i].exports@.len()
                    &&& (#[trigger] old(self).modules@[i].exports@[j]).signature.name@
                        == func_name@
                    &&& old(self).modules@[i].exports@[j].signature.outputs@.len() <= 1
                    &&& (old(self).modules@[i].exports@[j].signature.outputs@.len() == 0
                        ==> jr is Null)
                    &&& (old(self).modules@[i].exports@[j].signature.outputs@.len() == 1
                        ==> exists|vm: IValueModel, i2: int, i3: int|
                        {
                            &&& 0 <= i2 < final(self).modules@.len()
                            &&& final(self).modules@[i2].name@ == module_name@
                            &&& #[trigger] json_encodes(vm, jr, final(self).modules@[i2].records@)
                            &&& 0 <= i3 < final(self).modules@.len()
                            &&& (#[trigger] final(self).modules@[i3]).name@ == module_name@
                            &&& value_has_itype(
                                vm,
                                old(self).modules@[i].exports@[j].signature.outputs@[0],
                                final(self).modules@[i3].records@,
                            )
                        })
                },
    {
        let ghost pre = *self;
        let sig = match self.lookup_module_interface(module_name, func_name) {
            Ok(sig) => sig,
            Err(e) => {
                proof {
                    if cache_coherent(pre) && names_unique(pre) {
                        assert forall|i: int, j: int|
                            !({
                                &&& 0 <= i < pre.modules@.len()
                                &&& (#[trigger] pre.modules@[i]).name@ == module_name@
                                &&& 0 <= j < pre.modules@[i].exports@.len()
                                &&& (#[trigger] pre.modules@[i].exports@[j]).signature.name@
                                    == func_name@
                            }) by {
                            if 0 <= i < pre.modules@.len() && pre.modules@[i].name@
                                == module_name@ && 0 <= j < pre.modules@[i].exports@.len()
                                && pre.modules@[i].exports@[j].signature.name@ == func_name@ {
                                assert(has_module(pre, module_name@));
                                assert(module_has_export(pre.modules@[i], func_name@));
                                assert(false);
                            }
                        }
                    }
                }
                return Err(e);
            },
        };
        let mi = match self.find_module_index(module_name) {
            Some(mi) => mi,
            None => {
                proof {
                    assert forall|i: int|
                        !(0 <= i < pre.modules@.len() && (#[trigger] pre.modules@[i]).name@
                            == module_name@) by {
                        if 0 <= i < pre.modules@.len() && pre.modules@[i].name@ == module_name@ {
                            assert(has_module(*self, module_name@));
                        }
                    }
                }
                return Err(EngineError::NoSuchModule(module_name.clone()));
            },
        };
        let args = match json_to_ivalues(json_args, &sig.arguments, &self.modules[mi].records) {
            Ok(args) => args,
            Err(e) => {
                proof {
                    if cache_coherent(pre) && names_unique(pre) {
                        assert forall|i: int, j: int|
                            ({
                                &&& 0 <= i < pre.modules@.len()
                                &&& (#[trigger] pre.modules@[i]).name@ == module_name@
                                &&& 0 <= j < pre.modules@[i].exports@.len()
                                &&& (#[trigger] pre.modules@[i].exports@[j]).signature.name@
                                    == func_name@
                                &&& (forall|j2: int|
                                    0 <= j2 < j ==> pre.modules@[i].exports@[
                                        j2
                                    ].signature.name@ != func_name@)
                                &&& pre.modules@[i].records.well_formed()
                                &&& (forall|k: int|
                                    0 <= k < pre.modules@[i].exports@[
                                        j
                                    ].signature.arguments.deep_view().len() ==> itype_refs_below(
                                        (#[trigger] pre.modules@[i].exports@[
                                            j
                                        ].signature.arguments.deep_view()[k]).1,
                                        pre.modules@[i].records@.len() as int + 1,
                                    ))
                            }) implies (e is JsonSchemaMismatch) by {
                            assert(self.modules@ == pre.modules@);
                            assert(pre.modules@[mi as int].name@ == module_name@);
                            assert(i == mi as int);
                            let jp = choose|jp: int|
                                {
                                    &&& 0 <= jp < pre.modules@[i].exports@.len()
                                    &&& (#[trigger] pre.modules@[i].exports@[jp]).signature.name@
                                        == func_name@
                                    &&& (forall|j2: int|
                                        0 <= j2 < jp ==> pre.modules@[i].exports@[
                                            j2
                                        ].signature.name@ != func_name@)
                                    &&& sig.deep_view() == pre.modules@[i].exports@[
                                        jp
                                    ].signature.deep_view()
                                };
                            if j < jp {
                                assert(pre.modules@[i].exports@[j].signature.name@ != func_name@);
                            }
                            if jp < j {
                                assert(pre.modules@[i].exports@[jp].signature.name@
                                    != func_name@);
                            }
                            assert(j == jp);
                            let adv = pre.modules@[i].exports@[
                                j
                            ].signature.arguments.deep_view();
                            assert(sig.arguments.deep_view() == adv);
                            assert forall|k: int|
                                0 <= k < sig.arguments@.len() implies itype_refs_below(
                                (#[trigger] sig.arguments@[k]).ty,
                                self.modules@[mi as int].records@.len() as int + 1,
                            ) by {
                                assert(sig.arguments.deep_view()[k] == sig.arguments@[
                                    k
                                ].deep_view());
                                assert(itype_refs_below(
                                    adv[k].1,
                                    pre.modules@[i].records@.len() as int + 1,
                                ));
                            }
                        }
                    }
                }
                return Err(e);
            },
        };
        proof {
            if cache_coherent(pre) && names_unique(pre) {
                assert forall|i: int, j: int|
                    ({
                        &&& 0 <= i < pre.modules@.len()
                        &&& (#[trigger] pre.modules@[i]).name@ == module_name@
                        &&& 0 <= j < pre.modules@[i].exports@.len()
                        &&& (#[trigger] pre.modules@[i].exports@[j]).signature.name@ == func_name@
                        &&& (forall|j2: int|
                            0 <= j2 < j ==> pre.modules@[i].exports@[j2].signature.name@
                                != func_name@)
                    }) implies json_args_decodable(
                    *json_args,
                    pre.modules@[i].exports@[j].signature.arguments.deep_view(),
                    pre.modules@[i].records@,
                ) by {
                    assert(self.modules@ == pre.modules@);
                    assert(pre.modules@[mi as int].name@ == module_name@);
                    assert(i == mi as int);
                    let jp = choose|jp: int|
                        {
                            &&& 0 <= jp < pre.modules@[i].exports@.len()
                            &&& (#[trigger] pre.modules@[i].exports@[jp]).signature.name@
                                == func_name@
                            &&& (forall|j2: int|
                                0 <= j2 < jp ==> pre.modules@[i].exports@[j2].signature.name@
                                    != func_name@)
                            &&& sig.deep_view() == pre.modules@[i].exports@[
                                jp
                            ].signature.deep_view()
                        };
                    if j < jp {
                        assert(pre.modules@[i].exports@[j].signature.name@ != func_name@);
                    }
                    if jp < j {
                        assert(pre.modules@[i].exports@[jp].signature.name@ != func_name@);
                    }
                    assert(j == jp);
                    assert(sig.arguments.deep_view() == pre.modules@[i].exports@[
                        j
                    ].signature.arguments.deep_view());
                    assert(json_args_decodable(
                        *json_args,
                        sig.arguments.deep_view(),
                        self.modules@[mi as int].records@,
                    ));
                }
            }
        }
        let ghost mid = *self;
        let vals = match self.call_with_ivalues(module_name, func_name, &args, guest) {
            Ok(vals) => vals,
            Err(e) => {
                return Err(e);
            },
        };
        let mi = match self.find_module_index(module_name) {
            Some(mi) => mi,
            None => {
                return Err(EngineError::NoSuchModule(module_name.clone()));
            },
        };
        let rj = ivalues_to_json(&vals, &self.modules[mi].records);
        match rj {
            Ok(jr) => {
                proof {
                    let (i, j) = choose|i: int, j: int|
                        {
                            &&& 0 <= i < mid.modules@.len()
                            &&& (#[trigger] mid.modules@[i]).name@ == module_name@
                            &&& 0 <= j < mid.modules@[i].exports@.len()
                            &&& (#[trigger] mid.modules@[i].exports@[j]).signature.name@
                                == func_name@
                            &&& vals@.len() == mid.modules@[i].exports@[
                                j
                            ].signature.outputs@.len()
                            &&& exists|i2: int|
                                0 <= i2 < self.modules@.len() && (
                                #[trigger] self.modules@[i2]).name@ == module_name@ && (forall|
                                    k: int,
                                |
                                    0 <= k < vals@.len() ==> value_has_itype(
                                        ivalue_model(#[trigger] vals@[k]),
                                        mid.modules@[i].exports@[j].signature.outputs@[k],
                                        self.modules@[i2].records@,
                                    ))
                        };
                    assert(mid.modules@ == pre.modules@);
                    assert(0 <= i < old(self).modules@.len() && old(self).modules@[i].name@
                        == module_name@ && 0 <= j < old(self).modules@[i].exports@.len() && old(
                        self,
                    ).modules@[i].exports@[j].signature.name@ == func_name@);
                    if vals@.len() == 1 {
                        assert(json_encodes(
                            ivalue_model(vals@[0]),
                            jr,
                            self.modules@[mi as int].records@,
                        ));
                        let i3 = choose|i3: int|
                            0 <= i3 < self.modules@.len() && (#[trigger] self.modules@[i3]).name@
                                == module_name@ && (forall|k: int|
                                0 <= k < vals@.len() ==> value_has_itype(
                                    ivalue_model(#[trigger] vals@[k]),
                                    mid.modules@[i].exports@[j].signature.outputs@[k],
                                    self.modules@[i3].records@,
                                ));
                        assert(value_has_itype(
                            ivalue_model(vals@[0]),
                            old(self).modules@[i].exports@[j].signature.outputs@[0],
                            self.modules@[i3 as int].records@,
                        ));
                    }
                }
                Ok(jr)
            },
            Err(e) => Err(e),
        }
    }

    /// Runs the raw invocation protocol of a module that exports a single
    /// entry point named `invoke`: the argument bytes are placed into a
    /// fresh guest buffer, the entry point runs on `(pointer, length)`, and
    /// the address it returns holds a little-endian length-prefixed result,
    /// which is read back and its buffer released through `deallocate`.
    /// What the entry point computes is the guest's own; this function
    /// checks every address it hands back.
    pub fn invoke_raw<G: CoreRuntime>(
        &mut self,
        module_name: &String,
        argument: &Vec<u8>,
        guest: &mut G,
    ) -> (r: Result<Vec<u8>, EngineError>)
        ensures
            !has_module(*old(self), module_name@) ==> (r matches Err(e) && e matches
                EngineError::NoSuchModule(n) && n@ == module_name@ && *final(self) == *old(self)),
            names_unique(*old(self)) ==> forall|i: int|
                (0 <= i < old(self).modules@.len() && (#[trigger] old(self).modules@[i]).name@
                    == module_name@ && !module_has_export(old(self).modules@[i], "invoke"@)) ==> (
                r matches Err(e) && e matches EngineError::MissingFunction(n) && n@ == "invoke"@
                    && *final(self) == *old(self)),
            (names_unique(*old(self)) && argument@.len() > 0x7fff_ffff && exists|i: int|
                0 <= i < old(self).modules@.len() && (#[trigger] old(self).modules@[i]).name@
                    == module_name@ && module_has_export(old(self).modules@[i], "invoke"@)) ==> (
            r matches Err(e) && e is NumericRangeExceeded),
            r matches Ok(bytes) ==> bytes@.len() <= MAX_MEMORY_BYTES,
    {
        let mi = match self.find_module_index(module_name) {
            Some(mi) => mi,
            None => {
                return Err(EngineError::NoSuchModule(module_name.clone()));
            },
        };
        let invoke_name = String::from_str("invoke");
        let ej = match self.modules[mi].find_export_index(&invoke_name) {
            Some(ej) => ej,
            None => {
                return Err(EngineError::MissingFunction(invoke_name));
            },
        };
        let core_index = self.modules[mi].exports[ej].core_index;
        if argument.len() > 0x7fff_ffff {
            return Err(EngineError::NumericRangeExceeded);
        }
        let arg_len = argument.len() as i32;
        let m = &mut self.modules[mi];
        if m.state.memory_size() > MAX_MEMORY_BYTES {
            return Err(EngineError::WasmTrap(String::from_str("memory model overflow")));
        }
        let arg_address: i32 = if arg_len != 0 {
            let address = m.state.abi_allocate(arg_len)?;
            m.state.write_bytes(address, argument)?;
            address
        } else {
            0
        };
        let cargs = vec![CoreValue::I32(arg_address), CoreValue::I32(arg_len)];
        let results = match guest.call_core(self, mi, core_index, cargs) {
            Ok(results) => results,
            Err(cause) => {
                return Err(EngineError::WasmTrap(cause));
            },
        };
        if results.len() != 1 {
            return Err(EngineError::AdapterTypeMismatch);
        }
        let result_address = match &results[0] {
            CoreValue::I32(a) => *a,
            _ => {
                return Err(EngineError::AdapterTypeMismatch);
            },
        };
        let mi = match self.find_module_index(module_name) {
            Some(mi) => mi,
            None => {
                return Err(EngineError::NoSuchModule(module_name.clone()));
            },
        };
        let m = &mut self.modules[mi];
        if m.state.memory_size() > MAX_MEMORY_BYTES {
            return Err(EngineError::WasmTrap(String::from_str("memory model overflow")));
        }
        let result = m.state.read_result(result_address)?;
        if result.len() > 0x7fff_ffff {
            return Err(EngineError::NumericRangeExceeded);
        }
        m.state.abi_deallocate(result_address, result.len() as i32);
        Ok(result)
    }
}

} // verus!
