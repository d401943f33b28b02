use adapter_engine::engine::{
    CoreRuntime, Engine, ImportDescriptor, ModuleDefinition,
};
use adapter_engine::errors::EngineError;
use adapter_engine::instr::CoreFuncType;
use adapter_engine::itype::{CoreType, CoreValue, FunctionArg, FunctionSignature, IType, IValue};

fn abi_exports() -> Vec<(String, CoreFuncType)> {
    vec![
        (
            "allocate".to_string(),
            CoreFuncType { params: vec![CoreType::I32], results: vec![CoreType::I32] },
        ),
        (
            "deallocate".to_string(),
            CoreFuncType { params: vec![CoreType::I32, CoreType::I32], results: vec![] },
        ),
        (
            "get_result_size".to_string(),
            CoreFuncType { params: vec![], results: vec![CoreType::I32] },
        ),
        (
            "get_result_ptr".to_string(),
            CoreFuncType { params: vec![], results: vec![CoreType::I32] },
        ),
        (
            "set_result_size".to_string(),
            CoreFuncType { params: vec![CoreType::I32], results: vec![] },
        ),
        (
            "set_result_ptr".to_string(),
            CoreFuncType { params: vec![CoreType::I32], results: vec![] },
        ),
    ]
}

fn sig(name: &str, args: Vec<(&str, IType)>, outputs: Vec<IType>) -> FunctionSignature {
    FunctionSignature {
        name: name.to_string(),
        arguments: args
            .into_iter()
            .map(|(n, t)| FunctionArg { name: n.to_string(), ty: t })
            .collect(),
        outputs,
    }
}

fn definition(exports: Vec<FunctionSignature>) -> ModuleDefinition {
    ModuleDefinition {
        exports,
        imports: vec![],
        abi_exports: abi_exports(),
        host_namespaces: vec![],
        record_types: vec![],
        initial_memory: 0,
    }
}

/// A test runtime standing in for compiled guest code: it reads and writes
/// guest memory through the engine handle it is given, and may re-enter the
/// engine for inter-module calls.
struct TestGuest;

impl CoreRuntime for TestGuest {
    fn call_core(
        &mut self,
        engine: &mut Engine,
        module_index: usize,
        _function_index: u32,
        args: Vec<CoreValue>,
    ) -> Result<Vec<CoreValue>, String> {
        let module_name = engine.modules[module_index].name.clone();
        let func_name = engine.modules[module_index].exports[(_function_index - 6) as usize]
            .signature
            .name
            .clone();
        match (module_name.as_str(), func_name.as_str()) {
            (_, "greeting") => {
                let (ptr, len) = two_i32(&args);
                let state = &mut engine.modules[module_index].state;
                let input = state.read_bytes(ptr, len).map_err(|e| e.kind_name().to_string())?;
                let mut out = b"Hello, ".to_vec();
                out.extend_from_slice(&input);
                let out_ptr = state
                    .abi_allocate(out.len() as i32)
                    .map_err(|e| e.kind_name().to_string())?;
                state.write_bytes(out_ptr, &out).map_err(|e| e.kind_name().to_string())?;
                state.set_result_ptr(out_ptr);
                state.set_result_size(out.len() as i32);
                state.abi_deallocate(ptr, len);
                Ok(vec![])
            }
            (_, "sum") => {
                let (a, b) = two_i32(&args);
                Ok(vec![CoreValue::I32(a + b)])
            }
            (_, "bytes_len") => {
                let (ptr, len) = two_i32(&args);
                let state = &mut engine.modules[module_index].state;
                state.abi_deallocate(ptr, len);
                Ok(vec![CoreValue::I32(len)])
            }
            (_, "id_u8") => match args[0] {
                CoreValue::I32(x) => Ok(vec![CoreValue::I32(x)]),
                _ => Err("bad core argument".to_string()),
            },
            (_, "id_string") | (_, "echo") => {
                let (ptr, len) = two_i32(&args);
                let state = &mut engine.modules[module_index].state;
                let input = state.read_bytes(ptr, len).map_err(|e| e.kind_name().to_string())?;
                let out_ptr = state
                    .abi_allocate(input.len() as i32)
                    .map_err(|e| e.kind_name().to_string())?;
                state.write_bytes(out_ptr, &input).map_err(|e| e.kind_name().to_string())?;
                state.set_result_ptr(out_ptr);
                state.set_result_size(input.len() as i32);
                state.abi_deallocate(ptr, len);
                Ok(vec![])
            }
            (_, "wrap") => {
                // Inter-module call: forward the string to module_b's echo
                // through the registry, as an engine-installed trampoline
                // would.
                let (ptr, len) = two_i32(&args);
                let state = &mut engine.modules[module_index].state;
                let input = state.read_bytes(ptr, len).map_err(|e| e.kind_name().to_string())?;
                let text = String::from_utf8(input).map_err(|_| "InvalidUtf8".to_string())?;
                let callee = "module_b".to_string();
                let echo = "echo".to_string();
                let call_args = vec![IValue::Utf8String(text)];
                let results = engine
                    .call_with_ivalues(&callee, &echo, &call_args, self)
                    .map_err(|e| e.kind_name().to_string())?;
                let echoed = match &results[0] {
                    IValue::Utf8String(s) => s.clone(),
                    _ => return Err("bad echo result".to_string()),
                };
                let bytes = echoed.into_bytes();
                let state = &mut engine.modules[module_index].state;
                let out_ptr = state
                    .abi_allocate(bytes.len() as i32)
                    .map_err(|e| e.kind_name().to_string())?;
                state.write_bytes(out_ptr, &bytes).map_err(|e| e.kind_name().to_string())?;
                state.set_result_ptr(out_ptr);
                state.set_result_size(bytes.len() as i32);
                state.abi_deallocate(ptr, len);
                Ok(vec![])
            }
            other => Err(format!("unknown export {:?}", other)),
        }
    }
}

fn two_i32(args: &[CoreValue]) -> (i32, i32) {
    match (&args[0], &args[1]) {
        (CoreValue::I32(a), CoreValue::I32(b)) => (*a, *b),
        _ => panic!("expected two i32 core values"),
    }
}

fn greeting_engine() -> Engine {
    let mut engine = Engine::new();
    engine
        .load_module(
            "greeting".to_string(),
            definition(vec![sig(
                "greeting",
                vec![("name", IType::Utf8String)],
                vec![IType::Utf8String],
            )]),
        )
        .unwrap();
    engine
}

#[test]
fn greeting_returns_hello_world() {
    let mut engine = greeting_engine();
    let module = "greeting".to_string();
    let func = "greeting".to_string();
    let args = vec![IValue::Utf8String("world".to_string())];
    let results = engine
        .call_with_ivalues(&module, &func, &args, &mut TestGuest)
        .unwrap();
    assert_eq!(results.len(), 1);
    match &results[0] {
        IValue::Utf8String(s) => assert_eq!(s, "Hello, world"),
        other => panic!("unexpected result {:?}", other),
    }
}

#[test]
fn greeting_allocations_balance() {
    let mut engine = greeting_engine();
    let module = "greeting".to_string();
    let func = "greeting".to_string();
    let args = vec![IValue::Utf8String("world".to_string())];
    engine.call_with_ivalues(&module, &func, &args, &mut TestGuest).unwrap();
    let mi = engine.find_module_index(&module).unwrap();
    let (allocs, deallocs) = engine.modules[mi].state.allocation_counts();
    assert_eq!(allocs, deallocs);
    assert_eq!(engine.modules[mi].state.live_allocation_count(), 0);
}

#[test]
fn sum_returns_five() {
    let mut engine = Engine::new();
    engine
        .load_module(
            "arith".to_string(),
            definition(vec![sig(
                "sum",
                vec![("a", IType::S32), ("b", IType::S32)],
                vec![IType::S32],
            )]),
        )
        .unwrap();
    let module = "arith".to_string();
    let func = "sum".to_string();
    let args = vec![IValue::S32(2), IValue::S32(3)];
    let results = engine.call_with_ivalues(&module, &func, &args, &mut TestGuest).unwrap();
    match &results[0] {
        IValue::S32(x) => assert_eq!(*x, 5),
        other => panic!("unexpected result {:?}", other),
    }
}

#[test]
fn bytes_len_returns_four() {
    let mut engine = Engine::new();
    engine
        .load_module(
            "bytes".to_string(),
            definition(vec![sig(
                "bytes_len",
                vec![("b", IType::ByteArray)],
                vec![IType::S32],
            )]),
        )
        .unwrap();
    let module = "bytes".to_string();
    let func = "bytes_len".to_string();
    let args = vec![IValue::ByteArray(vec![0, 1, 2, 3])];
    let results = engine.call_with_ivalues(&module, &func, &args, &mut TestGuest).unwrap();
    match &results[0] {
        IValue::S32(x) => assert_eq!(*x, 4),
        other => panic!("unexpected result {:?}", other),
    }
}

#[test]
fn unknown_function_is_missing_function() {
    let mut engine = greeting_engine();
    let module = "greeting".to_string();
    let func = "frobnicate".to_string();
    let args: Vec<IValue> = vec![];
    let err = engine.call_with_ivalues(&module, &func, &args, &mut TestGuest).unwrap_err();
    match err {
        EngineError::MissingFunction(name) => assert_eq!(name, "frobnicate"),
        other => panic!("unexpected error {:?}", other),
    }
}

#[test]
fn unknown_module_is_no_such_module() {
    let mut engine = greeting_engine();
    let module = "absent".to_string();
    let func = "greeting".to_string();
    let args: Vec<IValue> = vec![];
    let err = engine.call_with_ivalues(&module, &func, &args, &mut TestGuest).unwrap_err();
    assert!(matches!(err, EngineError::NoSuchModule(_)));
}

#[test]
fn primitive_identity_round_trip() {
    let mut engine = Engine::new();
    engine
        .load_module(
            "ident".to_string(),
            definition(vec![sig("id_u8", vec![("v", IType::U8)], vec![IType::U8])]),
        )
        .unwrap();
    let module = "ident".to_string();
    let func = "id_u8".to_string();
    for v in [0u8, 1, 127, 128, 255] {
        let args = vec![IValue::U8(v)];
        let results = engine.call_with_ivalues(&module, &func, &args, &mut TestGuest).unwrap();
        match &results[0] {
            IValue::U8(x) => assert_eq!(*x, v),
            other => panic!("unexpected result {:?}", other),
        }
    }
}

#[test]
fn string_identity_round_trip_bit_for_bit() {
    let mut engine = Engine::new();
    engine
        .load_module(
            "ident".to_string(),
            definition(vec![sig(
                "id_string",
                vec![("v", IType::Utf8String)],
                vec![IType::Utf8String],
            )]),
        )
        .unwrap();
    let module = "ident".to_string();
    let func = "id_string".to_string();
    for s in ["", "a", "héllo wörld", "\u{1F600} mixed ascii", "多字节"] {
        let args = vec![IValue::Utf8String(s.to_string())];
        let results = engine.call_with_ivalues(&module, &func, &args, &mut TestGuest).unwrap();
        match &results[0] {
            IValue::Utf8String(out) => assert_eq!(out.as_bytes(), s.as_bytes()),
            other => panic!("unexpected result {:?}", other),
        }
    }
}

#[test]
fn adapter_execution_is_deterministic() {
    // Two engines in the same state, the same program, the same inputs and
    // the same guest memory state: identical interface outputs.
    let run = || {
        let mut engine = greeting_engine();
        let module = "greeting".to_string();
        let func = "greeting".to_string();
        let args = vec![IValue::Utf8String("twice".to_string())];
        let r = engine.call_with_ivalues(&module, &func, &args, &mut TestGuest).unwrap();
        match &r[0] {
            IValue::Utf8String(s) => s.clone(),
            _ => panic!("unexpected result"),
        }
    };
    assert_eq!(run(), run());
}

#[test]
fn inter_module_call_echoes_and_balances() {
    let mut engine = Engine::new();
    engine
        .load_module(
            "module_b".to_string(),
            definition(vec![sig(
                "echo",
                vec![("s", IType::Utf8String)],
                vec![IType::Utf8String],
            )]),
        )
        .unwrap();
    let mut def_a = definition(vec![sig(
        "wrap",
        vec![("s", IType::Utf8String)],
        vec![IType::Utf8String],
    )]);
    def_a.imports = vec![ImportDescriptor {
        module_name: "module_b".to_string(),
        function_name: "echo".to_string(),
    }];
    engine.load_module("module_a".to_string(), def_a).unwrap();
    let module = "module_a".to_string();
    let func = "wrap".to_string();
    let args = vec![IValue::Utf8String("x".to_string())];
    let results = engine.call_with_ivalues(&module, &func, &args, &mut TestGuest).unwrap();
    match &results[0] {
        IValue::Utf8String(s) => assert_eq!(s, "x"),
        other => panic!("unexpected result {:?}", other),
    }
    for name in ["module_a", "module_b"] {
        let mi = engine.find_module_index(&name.to_string()).unwrap();
        let (allocs, deallocs) = engine.modules[mi].state.allocation_counts();
        assert_eq!(allocs, deallocs, "unbalanced module {name}");
        assert_eq!(engine.modules[mi].state.live_allocation_count(), 0);
    }
}

#[test]
fn unresolved_import_is_rejected() {
    let mut engine = Engine::new();
    let mut def = definition(vec![sig(
        "wrap",
        vec![("s", IType::Utf8String)],
        vec![IType::Utf8String],
    )]);
    def.imports = vec![ImportDescriptor {
        module_name: "nowhere".to_string(),
        function_name: "nothing".to_string(),
    }];
    let err = engine.load_module("module_a".to_string(), def).unwrap_err();
    match err {
        EngineError::UnresolvedImport(m, f) => {
            assert_eq!(m, "nowhere");
            assert_eq!(f, "nothing");
        }
        other => panic!("unexpected error {:?}", other),
    }
}

#[test]
fn unload_marks_importers_broken() {
    let mut engine = Engine::new();
    engine
        .load_module(
            "module_b".to_string(),
            definition(vec![sig(
                "echo",
                vec![("s", IType::Utf8String)],
                vec![IType::Utf8String],
            )]),
        )
        .unwrap();
    let mut def_a = definition(vec![sig(
        "wrap",
        vec![("s", IType::Utf8String)],
        vec![IType::Utf8String],
    )]);
    def_a.imports = vec![ImportDescriptor {
        module_name: "module_b".to_string(),
        function_name: "echo".to_string(),
    }];
    engine.load_module("module_a".to_string(), def_a).unwrap();
    engine.unload_module(&"module_b".to_string()).unwrap();
    let module = "module_a".to_string();
    let func = "wrap".to_string();
    let args = vec![IValue::Utf8String("x".to_string())];
    let err = engine.call_with_ivalues(&module, &func, &args, &mut TestGuest).unwrap_err();
    assert!(matches!(err, EngineError::UnresolvedImport(_, _)));
    let err = engine.unload_module(&"module_b".to_string()).unwrap_err();
    assert!(matches!(err, EngineError::NoSuchModule(_)));
}

#[test]
fn missing_abi_export_is_rejected() {
    let mut engine = Engine::new();
    let mut def = definition(vec![]);
    def.abi_exports.retain(|(n, _)| n != "deallocate");
    let err = engine.load_module("m".to_string(), def).unwrap_err();
    match err {
        EngineError::MissingAbiExport(name) => assert_eq!(name, "deallocate"),
        other => panic!("unexpected error {:?}", other),
    }
}

#[test]
fn wrong_abi_signature_is_rejected() {
    let mut engine = Engine::new();
    let mut def = definition(vec![]);
    for (n, ft) in def.abi_exports.iter_mut() {
        if n == "allocate" {
            ft.params = vec![];
        }
    }
    let err = engine.load_module("m".to_string(), def).unwrap_err();
    assert!(matches!(err, EngineError::AbiSignatureMismatch(_)));
}

#[test]
fn interface_lists_modules_in_insertion_order() {
    let mut engine = Engine::new();
    engine
        .load_module(
            "alpha".to_string(),
            definition(vec![sig("sum", vec![("a", IType::S32)], vec![IType::S32])]),
        )
        .unwrap();
    engine.load_module("beta".to_string(), definition(vec![])).unwrap();
    let listing = engine.get_interface();
    assert_eq!(listing.len(), 2);
    assert_eq!(listing[0].0, "alpha");
    assert_eq!(listing[0].1.len(), 1);
    assert_eq!(listing[0].1[0].name, "sum");
    assert_eq!(listing[1].0, "beta");
}

#[test]
fn interface_cache_lookup_by_module_name() {
    let mut engine = greeting_engine();
    let module = "greeting".to_string();
    let func = "greeting".to_string();
    let sig1 = engine.lookup_module_interface(&module, &func).unwrap();
    assert_eq!(sig1.name, "greeting");
    // Second lookup is served from the cache and must agree.
    let sig2 = engine.lookup_module_interface(&module, &func).unwrap();
    assert_eq!(sig2.name, "greeting");
    assert_eq!(sig2.arguments.len(), 1);
    let missing = "gone".to_string();
    let err = engine.lookup_module_interface(&module, &missing).unwrap_err();
    assert!(matches!(err, EngineError::MissingFunction(_)));
}
