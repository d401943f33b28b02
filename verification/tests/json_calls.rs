use adapter_engine::engine::{CoreRuntime, Engine, ModuleDefinition};
use adapter_engine::errors::EngineError;
use adapter_engine::instr::CoreFuncType;
use adapter_engine::itype::{CoreType, CoreValue, FunctionArg, FunctionSignature, IType};
use adapter_engine::json::JsonValue;

fn abi_exports() -> Vec<(String, CoreFuncType)> {
    vec![
        (
            "allocate".to_string(),
            CoreFuncType { params: vec![CoreType::I32], results: vec![CoreType::I32] },
        ),
        (
            "deallocate".to_string(),
            CoreFuncType { params: vec![CoreType::I32, CoreType::I32], results: vec![] },
        ),
        (
            "get_result_size".to_string(),
            CoreFuncType { params: vec![], results: vec![CoreType::I32] },
        ),
        (
            "get_result_ptr".to_string(),
            CoreFuncType { params: vec![], results: vec![CoreType::I32] },
        ),
        (
            "set_result_size".to_string(),
            CoreFuncType { params: vec![CoreType::I32], results: vec![] },
        ),
        (
            "set_result_ptr".to_string(),
            CoreFuncType { params: vec![CoreType::I32], results: vec![] },
        ),
    ]
}

struct JsonGuest;

impl CoreRuntime for JsonGuest {
    fn call_core(
        &mut self,
        engine: &mut Engine,
        module_index: usize,
        function_index: u32,
        args: Vec<CoreValue>,
    ) -> Result<Vec<CoreValue>, String> {
        let func = engine.modules[module_index].exports[(function_index - 6) as usize]
            .signature
            .name
            .clone();
        match func.as_str() {
            "greeting" => {
                let (ptr, len) = match (&args[0], &args[1]) {
                    (CoreValue::I32(a), CoreValue::I32(b)) => (*a, *b),
                    _ => return Err("bad core arguments".to_string()),
                };
                let state = &mut engine.modules[module_index].state;
                let input =
                    state.read_bytes(ptr, len).map_err(|e| e.kind_name().to_string())?;
                let mut out = b"Hello, ".to_vec();
                out.extend_from_slice(&input);
                let out_ptr = state
                    .abi_allocate(out.len() as i32)
                    .map_err(|e| e.kind_name().to_string())?;
                state.write_bytes(out_ptr, &out).map_err(|e| e.kind_name().to_string())?;
                state.set_result_ptr(out_ptr);
                state.set_result_size(out.len() as i32);
                state.abi_deallocate(ptr, len);
                Ok(vec![])
            }
            "clamp_u8" => match args[0] {
                CoreValue::I32(x) => Ok(vec![CoreValue::I32(x)]),
                _ => Err("bad core argument".to_string()),
            },
            other => Err(format!("unknown export {other}")),
        }
    }
}

fn engine_with(sig: FunctionSignature) -> Engine {
    let mut engine = Engine::new();
    engine
        .load_module(
            "m".to_string(),
            ModuleDefinition {
                exports: vec![sig],
                imports: vec![],
                abi_exports: abi_exports(),
                host_namespaces: vec![],
                record_types: vec![],
                initial_memory: 0,
            },
        )
        .unwrap();
    engine
}

#[test]
fn json_greeting_returns_hello_world() {
    let mut engine = engine_with(FunctionSignature {
        name: "greeting".to_string(),
        arguments: vec![FunctionArg { name: "name".to_string(), ty: IType::Utf8String }],
        outputs: vec![IType::Utf8String],
    });
    let module = "m".to_string();
    let func = "greeting".to_string();
    let json_args = JsonValue::Text("world".to_string());
    let result = engine.call_with_json(&module, &func, &json_args, &mut JsonGuest).unwrap();
    match result {
        JsonValue::Text(s) => assert_eq!(s, "Hello, world"),
        other => panic!("unexpected JSON result {:?}", other),
    }
}

#[test]
fn json_257_to_u8_argument_is_schema_mismatch() {
    let mut engine = engine_with(FunctionSignature {
        name: "clamp_u8".to_string(),
        arguments: vec![FunctionArg { name: "v".to_string(), ty: IType::U8 }],
        outputs: vec![IType::U8],
    });
    let module = "m".to_string();
    let func = "clamp_u8".to_string();
    let json_args = JsonValue::Int(257);
    let err =
        engine.call_with_json(&module, &func, &json_args, &mut JsonGuest).unwrap_err();
    assert!(matches!(err, EngineError::JsonSchemaMismatch));
    // The boundary value goes through and comes back.
    let json_args = JsonValue::Int(255);
    let result = engine.call_with_json(&module, &func, &json_args, &mut JsonGuest).unwrap();
    match result {
        JsonValue::Int(x) => assert_eq!(x, 255),
        other => panic!("unexpected JSON result {:?}", other),
    }
}
