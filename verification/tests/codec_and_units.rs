use adapter_engine::digest::compute_state_hash;
use adapter_engine::errors::EngineError;
use adapter_engine::generator::{derive_core_signature, generate_export_adapter};
use adapter_engine::host::logger_message;
use adapter_engine::instr::Instruction;
use adapter_engine::itype::{
    check_value_type, CoreType, FunctionArg, FunctionSignature, IType, IValue, RecordField,
    RecordRegistry,
};
use adapter_engine::json::{
    ivalue_to_json, ivalues_to_json, json_to_ivalue, json_to_ivalues, JsonMember, JsonValue,
};
use adapter_engine::module::ModuleState;

fn args_of(ts: Vec<IType>) -> Vec<FunctionArg> {
    ts.into_iter()
        .enumerate()
        .map(|(i, ty)| FunctionArg { name: format!("arg{i}"), ty })
        .collect()
}

#[test]
fn json_u8_overflow_is_schema_mismatch() {
    let recs = RecordRegistry::new();
    let err = json_to_ivalue(&JsonValue::Int(257), &IType::U8, &recs).unwrap_err();
    assert!(matches!(err, EngineError::JsonSchemaMismatch));
    let ok = json_to_ivalue(&JsonValue::Int(255), &IType::U8, &recs).unwrap();
    assert!(matches!(ok, IValue::U8(255)));
}

#[test]
fn json_scalar_round_trips() {
    let recs = RecordRegistry::new();
    let cases = vec![
        (JsonValue::Int(-7), IType::S8),
        (JsonValue::Int(1234), IType::S16),
        (JsonValue::Int(-70000), IType::S32),
        (JsonValue::Int(1 << 40), IType::S64),
        (JsonValue::Int(200), IType::U8),
        (JsonValue::Int(60000), IType::U16),
        (JsonValue::Int(4000000000), IType::U32),
        (JsonValue::UInt(u64::MAX), IType::U64),
        (JsonValue::Text("héllo".to_string()), IType::Utf8String),
    ];
    for (j, t) in cases {
        let v = json_to_ivalue(&j, &t, &recs).unwrap();
        let back = ivalue_to_json(&v, &recs).unwrap();
        match (&j, &back) {
            (JsonValue::Int(a), JsonValue::Int(b)) => assert_eq!(a, b),
            (JsonValue::UInt(a), JsonValue::UInt(b)) => assert_eq!(a, b),
            (JsonValue::Text(a), JsonValue::Text(b)) => assert_eq!(a, b),
            other => panic!("shape changed: {:?}", other),
        }
    }
}

#[test]
fn json_byte_array_round_trips() {
    let recs = RecordRegistry::new();
    let j = JsonValue::Array(vec![
        JsonValue::Int(0),
        JsonValue::Int(1),
        JsonValue::Int(2),
        JsonValue::Int(255),
    ]);
    let v = json_to_ivalue(&j, &IType::ByteArray, &recs).unwrap();
    match &v {
        IValue::ByteArray(b) => assert_eq!(b, &vec![0u8, 1, 2, 255]),
        other => panic!("unexpected value {:?}", other),
    }
    let back = ivalue_to_json(&v, &recs).unwrap();
    match back {
        JsonValue::Array(elems) => assert_eq!(elems.len(), 4),
        other => panic!("unexpected shape {:?}", other),
    }
}

#[test]
fn json_record_decodes_by_field_name() {
    let mut recs = RecordRegistry::new();
    let id = recs
        .register_record(
            "point".to_string(),
            vec![
                RecordField { name: "x".to_string(), ty: IType::S32 },
                RecordField { name: "y".to_string(), ty: IType::S32 },
            ],
        )
        .unwrap();
    let j = JsonValue::Object(vec![
        JsonMember { name: "y".to_string(), value: JsonValue::Int(2) },
        JsonMember { name: "x".to_string(), value: JsonValue::Int(1) },
    ]);
    let v = json_to_ivalue(&j, &IType::Record(id), &recs).unwrap();
    match &v {
        IValue::Record(rid, vals) => {
            assert_eq!(*rid, id);
            assert!(matches!(vals[0], IValue::S32(1)));
            assert!(matches!(vals[1], IValue::S32(2)));
        }
        other => panic!("unexpected value {:?}", other),
    }
    assert!(check_value_type(&v, &IType::Record(id), &recs));
    // Missing field.
    let j = JsonValue::Object(vec![JsonMember {
        name: "x".to_string(),
        value: JsonValue::Int(1),
    }]);
    let err = json_to_ivalue(&j, &IType::Record(id), &recs).unwrap_err();
    assert!(matches!(err, EngineError::JsonSchemaMismatch));
}

#[test]
fn json_positional_and_named_arguments() {
    let recs = RecordRegistry::new();
    let arguments = args_of(vec![IType::S32, IType::Utf8String]);
    let j = JsonValue::Array(vec![JsonValue::Int(7), JsonValue::Text("x".to_string())]);
    let vals = json_to_ivalues(&j, &arguments, &recs).unwrap();
    assert_eq!(vals.len(), 2);
    let j = JsonValue::Object(vec![
        JsonMember { name: "arg1".to_string(), value: JsonValue::Text("x".to_string()) },
        JsonMember { name: "arg0".to_string(), value: JsonValue::Int(7) },
    ]);
    let vals = json_to_ivalues(&j, &arguments, &recs).unwrap();
    assert!(matches!(vals[0], IValue::S32(7)));
    // A bare value serves a single argument.
    let single = args_of(vec![IType::Utf8String]);
    let vals =
        json_to_ivalues(&JsonValue::Text("world".to_string()), &single, &recs).unwrap();
    assert_eq!(vals.len(), 1);
    // No output encodes as null.
    let out = ivalues_to_json(&vec![], &recs).unwrap();
    assert!(matches!(out, JsonValue::Null));
}

#[test]
fn record_registry_rules() {
    let mut recs = RecordRegistry::new();
    let id = recs
        .register_record(
            "point".to_string(),
            vec![RecordField { name: "x".to_string(), ty: IType::S32 }],
        )
        .unwrap();
    assert_eq!(id, 1);
    // Same name, same shape: the existing ID.
    let again = recs
        .register_record(
            "point".to_string(),
            vec![RecordField { name: "x".to_string(), ty: IType::S32 }],
        )
        .unwrap();
    assert_eq!(again, 1);
    // Same name, different shape: duplicate.
    let err = recs
        .register_record(
            "point".to_string(),
            vec![RecordField { name: "x".to_string(), ty: IType::S64 }],
        )
        .unwrap_err();
    assert!(matches!(err, EngineError::DuplicateRecord(_)));
    // A field referencing an unknown record ID.
    let err = recs
        .register_record(
            "line".to_string(),
            vec![RecordField { name: "a".to_string(), ty: IType::Record(9) }],
        )
        .unwrap_err();
    match err {
        EngineError::UnresolvedRecordRef(bad) => assert_eq!(bad, 9),
        other => panic!("unexpected error {:?}", other),
    }
    // A nested record referencing an earlier one is fine.
    let id2 = recs
        .register_record(
            "line".to_string(),
            vec![
                RecordField { name: "a".to_string(), ty: IType::Record(1) },
                RecordField { name: "b".to_string(), ty: IType::Record(1) },
            ],
        )
        .unwrap();
    assert_eq!(id2, 2);
    assert_eq!(recs.resolve(2).unwrap().name, "line");
    assert!(recs.resolve(0).is_none());
    assert!(recs.resolve(3).is_none());
}

#[test]
fn generator_emits_documented_programs() {
    let sig = FunctionSignature {
        name: "greeting".to_string(),
        arguments: args_of(vec![IType::Utf8String]),
        outputs: vec![IType::Utf8String],
    };
    let prog = generate_export_adapter(&sig, 6).unwrap();
    assert_eq!(
        prog,
        vec![
            Instruction::ArgumentGet { index: 0 },
            Instruction::StringSize,
            Instruction::CallCore { function_index: 0 },
            Instruction::ArgumentGet { index: 0 },
            Instruction::StringLowerMemory,
            Instruction::CallCore { function_index: 6 },
            Instruction::CallCore { function_index: 3 },
            Instruction::CallCore { function_index: 2 },
            Instruction::StringLiftMemory,
            Instruction::CallCore { function_index: 3 },
            Instruction::CallCore { function_index: 2 },
            Instruction::CallCore { function_index: 1 },
        ]
    );
    let core = derive_core_signature(&sig);
    assert_eq!(core.params, vec![CoreType::I32, CoreType::I32]);
    assert_eq!(core.results, vec![]);

    let sig = FunctionSignature {
        name: "id_u8".to_string(),
        arguments: args_of(vec![IType::U8]),
        outputs: vec![IType::U8],
    };
    let prog = generate_export_adapter(&sig, 6).unwrap();
    assert_eq!(
        prog,
        vec![
            Instruction::ArgumentGet { index: 0 },
            Instruction::I32FromU8,
            Instruction::CallCore { function_index: 6 },
            Instruction::U8FromI32,
        ]
    );
    // A record argument is not lowered by the generator.
    let sig = FunctionSignature {
        name: "r".to_string(),
        arguments: args_of(vec![IType::Record(1)]),
        outputs: vec![],
    };
    assert!(generate_export_adapter(&sig, 6).is_err());
}

#[test]
fn memory_bounds_are_checked() {
    let mut m = ModuleState::new(8);
    assert_eq!(m.memory_size(), 8);
    m.write_bytes(2, &vec![9, 8, 7]).unwrap();
    let read = m.read_bytes(2, 3).unwrap();
    assert_eq!(read, vec![9, 8, 7]);
    let err = m.read_bytes(6, 3).unwrap_err();
    assert!(matches!(err, EngineError::MemoryAccessOutOfBounds { .. }));
    let err = m.write_bytes(-1, &vec![1]).unwrap_err();
    assert!(matches!(err, EngineError::MemoryAccessOutOfBounds { .. }));
    let err = m.read_bytes(0, -1).unwrap_err();
    assert!(matches!(err, EngineError::MemoryAccessOutOfBounds { .. }));
}

#[test]
fn allocate_extends_memory_and_ledger() {
    let mut m = ModuleState::new(0);
    let p1 = m.abi_allocate(4).unwrap();
    assert_eq!(p1, 0);
    let p2 = m.abi_allocate(2).unwrap();
    assert_eq!(p2, 4);
    assert_eq!(m.memory_size(), 6);
    assert_eq!(m.allocation_counts(), (2, 0));
    assert_eq!(m.live_allocation_count(), 2);
    m.abi_deallocate(p1, 4);
    assert_eq!(m.allocation_counts(), (2, 1));
    assert_eq!(m.live_allocation_count(), 1);
    // A pair that was never allocated is counted but leaves the ledger alone.
    m.abi_deallocate(100, 1);
    assert_eq!(m.allocation_counts(), (2, 2));
    assert_eq!(m.live_allocation_count(), 1);
    assert!(m.abi_allocate(-1).is_err());
}

#[test]
fn result_registers_and_length_prefixed_results() {
    let mut m = ModuleState::new(0);
    m.set_result_ptr(3);
    m.set_result_size(9);
    assert_eq!(m.get_result_ptr(), 3);
    assert_eq!(m.get_result_size(), 9);
    // A length-prefixed result: 3 bytes after a little-endian length header.
    let addr = m.abi_allocate(7).unwrap();
    m.write_bytes(addr, &vec![3, 0, 0, 0, 10, 20, 30]).unwrap();
    let body = m.read_result(addr).unwrap();
    assert_eq!(body, vec![10, 20, 30]);
    assert!(m.read_result(1000).is_err());
}

#[test]
fn string_lifting_validates_utf8() {
    let mut m = ModuleState::new(0);
    let addr = m.abi_allocate(4).unwrap();
    m.write_bytes(addr, &vec![0xff, 0xfe, 0x61, 0x62]).unwrap();
    let err = m.lift_string(addr, 4).unwrap_err();
    assert!(matches!(err, EngineError::InvalidUtf8));
    let s = m.lift_string(addr + 2, 2).unwrap();
    assert_eq!(s, "ab");
    let msg = logger_message(&m, addr, 4);
    assert_eq!(msg, "logger: incorrect UTF-8 string has been supplied");
    let msg = logger_message(&m, addr + 2, 2);
    assert_eq!(msg, "ab");
}

#[test]
fn state_hash_is_sha256_of_memory() {
    let m = ModuleState::new(0);
    let digest = compute_state_hash(&m);
    // SHA-256 of the empty byte sequence.
    let expected: [u8; 32] = [
        0xe3, 0xb0, 0xc4, 0x42, 0x98, 0xfc, 0x1c, 0x14, 0x9a, 0xfb, 0xf4, 0xc8, 0x99, 0x6f,
        0xb9, 0x24, 0x27, 0xae, 0x41, 0xe4, 0x64, 0x9b, 0x93, 0x4c, 0xa4, 0x95, 0x99, 0x1b,
        0x78, 0x52, 0xb8, 0x55,
    ];
    assert_eq!(digest, expected.to_vec());
    let m2 = ModuleState::new(1);
    assert_ne!(compute_state_hash(&m2), digest);
    assert_eq!(compute_state_hash(&m2).len(), 32);
}

#[test]
fn json_object_missing_argument_name_is_schema_mismatch() {
    let recs = RecordRegistry::new();
    let arguments = args_of(vec![IType::S32, IType::S32]);
    // Right member count, but no member bears the second argument's name.
    let j = JsonValue::Object(vec![
        JsonMember { name: "arg0".to_string(), value: JsonValue::Int(1) },
        JsonMember { name: "other".to_string(), value: JsonValue::Int(2) },
    ]);
    let err = json_to_ivalues(&j, &arguments, &recs).unwrap_err();
    assert!(matches!(err, EngineError::JsonSchemaMismatch));
}
