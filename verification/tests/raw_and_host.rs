use adapter_engine::engine::{CoreRuntime, Engine, ImportDescriptor, ModuleDefinition};
use adapter_engine::errors::EngineError;
use adapter_engine::host::{call_host_import, lift_core_args, HostHandler};
use adapter_engine::instr::CoreFuncType;
use adapter_engine::itype::{
    CoreType, CoreValue, FunctionArg, FunctionSignature, IType, IValue,
};
use adapter_engine::module::ModuleState;

fn abi_exports() -> Vec<(String, CoreFuncType)> {
    vec![
        (
            "allocate".to_string(),
            CoreFuncType { params: vec![CoreType::I32], results: vec![CoreType::I32] },
        ),
        (
            "deallocate".to_string(),
            CoreFuncType { params: vec![CoreType::I32, CoreType::I32], results: vec![] },
        ),
        (
            "get_result_size".to_string(),
            CoreFuncType { params: vec![], results: vec![CoreType::I32] },
        ),
        (
            "get_result_ptr".to_string(),
            CoreFuncType { params: vec![], results: vec![CoreType::I32] },
        ),
        (
            "set_result_size".to_string(),
            CoreFuncType { params: vec![CoreType::I32], results: vec![] },
        ),
        (
            "set_result_ptr".to_string(),
            CoreFuncType { params: vec![CoreType::I32], results: vec![] },
        ),
    ]
}

/// A raw-protocol guest whose `invoke` entry point reverses the argument
/// bytes and leaves a little-endian length-prefixed result in its memory.
struct RawGuest;

impl CoreRuntime for RawGuest {
    fn call_core(
        &mut self,
        engine: &mut Engine,
        module_index: usize,
        _function_index: u32,
        args: Vec<CoreValue>,
    ) -> Result<Vec<CoreValue>, String> {
        let (ptr, len) = match (&args[0], &args[1]) {
            (CoreValue::I32(a), CoreValue::I32(b)) => (*a, *b),
            _ => return Err("bad core arguments".to_string()),
        };
        let state = &mut engine.modules[module_index].state;
        let mut input = if len > 0 {
            state.read_bytes(ptr, len).map_err(|e| e.kind_name().to_string())?
        } else {
            vec![]
        };
        input.reverse();
        let mut framed = (input.len() as u32).to_le_bytes().to_vec();
        framed.extend_from_slice(&input);
        let out_ptr = state
            .abi_allocate(framed.len() as i32)
            .map_err(|e| e.kind_name().to_string())?;
        state.write_bytes(out_ptr, &framed).map_err(|e| e.kind_name().to_string())?;
        if len > 0 {
            state.abi_deallocate(ptr, len);
        }
        Ok(vec![CoreValue::I32(out_ptr)])
    }
}

#[test]
fn raw_invocation_reads_length_prefixed_result() {
    let mut engine = Engine::new();
    engine
        .load_module(
            "raw".to_string(),
            ModuleDefinition {
                exports: vec![FunctionSignature {
                    name: "invoke".to_string(),
                    arguments: vec![
                        FunctionArg { name: "ptr".to_string(), ty: IType::S32 },
                        FunctionArg { name: "len".to_string(), ty: IType::S32 },
                    ],
                    outputs: vec![IType::S32],
                }],
                imports: vec![],
                abi_exports: abi_exports(),
                host_namespaces: vec![],
                record_types: vec![],
                initial_memory: 0,
            },
        )
        .unwrap();
    let module = "raw".to_string();
    let result = engine.invoke_raw(&module, &vec![1, 2, 3, 4], &mut RawGuest).unwrap();
    assert_eq!(result, vec![4, 3, 2, 1]);
    let mi = engine.find_module_index(&module).unwrap();
    let (allocs, deallocs) = engine.modules[mi].state.allocation_counts();
    assert_eq!(allocs, deallocs);
    let absent = "absent".to_string();
    let err = engine.invoke_raw(&absent, &vec![], &mut RawGuest).unwrap_err();
    assert!(matches!(err, EngineError::NoSuchModule(_)));
}

struct UpperHandler;

impl HostHandler for UpperHandler {
    fn handle(&mut self, name: &String, args: Vec<IValue>) -> Result<Option<IValue>, String> {
        match name.as_str() {
            "upper" => match &args[0] {
                IValue::Utf8String(s) => Ok(Some(IValue::Utf8String(s.to_uppercase()))),
                _ => Err("expected a string".to_string()),
            },
            "add_one" => match &args[0] {
                IValue::U8(x) => Ok(Some(IValue::U8(x.wrapping_add(1)))),
                _ => Err("expected a u8".to_string()),
            },
            _ => Err("unknown host import".to_string()),
        }
    }
}

#[test]
fn host_import_lifts_invokes_and_lowers() {
    let mut module = ModuleState::new(0);
    // Place the argument string into guest memory as a guest would.
    let text = b"hello host";
    let ptr = module.abi_allocate(text.len() as i32).unwrap();
    module.write_bytes(ptr, &text.to_vec()).unwrap();
    let signature = FunctionSignature {
        name: "upper".to_string(),
        arguments: vec![FunctionArg { name: "s".to_string(), ty: IType::Utf8String }],
        outputs: vec![IType::Utf8String],
    };
    let name = "upper".to_string();
    let core_args = vec![CoreValue::I32(ptr), CoreValue::I32(text.len() as i32)];
    let results =
        call_host_import(&mut module, &name, &signature, &core_args, &mut UpperHandler)
            .unwrap();
    // A string result travels through the result registers, not core values.
    assert!(results.is_empty());
    let out = module
        .lift_string(module.get_result_ptr(), module.get_result_size())
        .unwrap();
    assert_eq!(out, "HELLO HOST");
}

#[test]
fn host_import_numeric_result_is_a_core_value() {
    let mut module = ModuleState::new(0);
    let signature = FunctionSignature {
        name: "add_one".to_string(),
        arguments: vec![FunctionArg { name: "x".to_string(), ty: IType::U8 }],
        outputs: vec![IType::U8],
    };
    let name = "add_one".to_string();
    let core_args = vec![CoreValue::I32(41)];
    let results =
        call_host_import(&mut module, &name, &signature, &core_args, &mut UpperHandler)
            .unwrap();
    assert_eq!(results, vec![CoreValue::I32(42)]);
    // An out-of-range operand does not reach the handler.
    let core_args = vec![CoreValue::I32(300)];
    let err = call_host_import(&mut module, &name, &signature, &core_args, &mut UpperHandler)
        .unwrap_err();
    assert!(matches!(err, EngineError::NumericRangeExceeded));
}

#[test]
fn host_handler_failure_is_host_import_failed() {
    let mut module = ModuleState::new(0);
    let signature = FunctionSignature {
        name: "unknown".to_string(),
        arguments: vec![],
        outputs: vec![],
    };
    let name = "unknown".to_string();
    let err = call_host_import(&mut module, &name, &signature, &vec![], &mut UpperHandler)
        .unwrap_err();
    match err {
        EngineError::HostImportFailed(n, cause) => {
            assert_eq!(n, "unknown");
            assert_eq!(cause, "unknown host import");
        }
        other => panic!("unexpected error {:?}", other),
    }
}

#[test]
fn lift_core_args_checks_shapes() {
    let module = ModuleState::new(0);
    let signature = FunctionSignature {
        name: "f".to_string(),
        arguments: vec![
            FunctionArg { name: "a".to_string(), ty: IType::S64 },
            FunctionArg { name: "b".to_string(), ty: IType::U16 },
        ],
        outputs: vec![],
    };
    let vals = lift_core_args(
        &module,
        &signature,
        &vec![CoreValue::I64(-5), CoreValue::I32(7)],
    )
    .unwrap();
    assert!(matches!(vals[0], IValue::S64(-5)));
    assert!(matches!(vals[1], IValue::U16(7)));
    let err = lift_core_args(&module, &signature, &vec![CoreValue::I32(1)]).unwrap_err();
    assert!(matches!(err, EngineError::AdapterTypeMismatch));
    let err = lift_core_args(&module, &signature, &vec![CoreValue::I64(1)]).unwrap_err();
    assert!(matches!(err, EngineError::AdapterStackUnderflow));
}

#[test]
fn two_phase_loading_accepts_mutual_imports() {
    let def = |other: &str| ModuleDefinition {
        exports: vec![FunctionSignature {
            name: "ping".to_string(),
            arguments: vec![],
            outputs: vec![],
        }],
        imports: vec![ImportDescriptor {
            module_name: other.to_string(),
            function_name: "ping".to_string(),
        }],
        abi_exports: abi_exports(),
        host_namespaces: vec![],
        record_types: vec![],
        initial_memory: 0,
    };
    // Single-phase loading rejects the forward reference...
    let mut engine = Engine::new();
    assert!(engine.load_module("a".to_string(), def("b")).is_err());
    // ...while two-phase loading accepts the cycle.
    let engine = Engine::with_modules(vec![
        ("a".to_string(), def("b")),
        ("b".to_string(), def("a")),
    ])
    .unwrap();
    assert_eq!(engine.get_interface().len(), 2);
    // A host namespace satisfies an import no module provides.
    let mut hosted = def("host");
    hosted.host_namespaces = vec!["host".to_string()];
    let mut engine = Engine::new();
    engine.load_module("c".to_string(), hosted).unwrap();
}
