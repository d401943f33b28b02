use adapter_engine::errors::EngineError;
use adapter_engine::instr::{CoreFuncType, Instruction};
use adapter_engine::interp::{apply_conversion, execute_instruction, StepResult};
use adapter_engine::itype::{
    CoreType, CoreValue, IType, IValue, RecordField, RecordRegistry,
};
use adapter_engine::module::ModuleState;

fn run_one(
    instr: Instruction,
    args: Vec<IValue>,
    stack: &mut Vec<IValue>,
    module: &mut ModuleState,
    recs: &RecordRegistry,
) -> Result<StepResult, EngineError> {
    let core_types: Vec<CoreFuncType> =
        vec![CoreFuncType { params: vec![CoreType::I32], results: vec![CoreType::I32] }];
    execute_instruction(&instr, &args, stack, module, &core_types, recs)
}

#[test]
fn narrowing_256_fails_255_succeeds() {
    let err = apply_conversion(&Instruction::U8FromI32, &IValue::S32(256)).unwrap_err();
    assert!(matches!(err, EngineError::NumericRangeExceeded));
    let ok = apply_conversion(&Instruction::U8FromI32, &IValue::S32(255)).unwrap();
    assert!(matches!(ok, IValue::U8(255)));
}

#[test]
fn widen_then_narrow_is_identity() {
    for v in [0u8, 1, 42, 255] {
        let wide = apply_conversion(&Instruction::I32FromU8, &IValue::U8(v)).unwrap();
        let back = apply_conversion(&Instruction::U8FromI32, &wide).unwrap();
        assert!(matches!(back, IValue::U8(x) if x == v));
    }
    for v in [0u32, 1, u32::MAX, 0x8000_0000] {
        let wide = apply_conversion(&Instruction::I32FromU32, &IValue::U32(v)).unwrap();
        let back = apply_conversion(&Instruction::U32FromI32, &wide).unwrap();
        assert!(matches!(back, IValue::U32(x) if x == v));
    }
    for v in [0u64, 1, u64::MAX, 0x8000_0000_0000_0000] {
        let wide = apply_conversion(&Instruction::I64FromU64, &IValue::U64(v)).unwrap();
        let back = apply_conversion(&Instruction::U64FromI64, &wide).unwrap();
        assert!(matches!(back, IValue::U64(x) if x == v));
    }
    for v in [i8::MIN, -1, 0, i8::MAX] {
        let wide = apply_conversion(&Instruction::I32FromS8, &IValue::S8(v)).unwrap();
        let back = apply_conversion(&Instruction::S8FromI32, &wide).unwrap();
        assert!(matches!(back, IValue::S8(x) if x == v));
    }
}

#[test]
fn conversion_on_wrong_shape_is_type_mismatch() {
    let err =
        apply_conversion(&Instruction::U8FromI32, &IValue::Utf8String("x".to_string()))
            .unwrap_err();
    assert!(matches!(err, EngineError::AdapterTypeMismatch));
}

#[test]
fn stack_underflow_is_reported() {
    let recs = RecordRegistry::new();
    let mut module = ModuleState::new(0);
    let mut stack: Vec<IValue> = Vec::new();
    let err =
        run_one(Instruction::U8FromI32, vec![], &mut stack, &mut module, &recs).unwrap_err();
    assert!(matches!(err, EngineError::AdapterStackUnderflow));
}

#[test]
fn residual_values_surface_as_argument_get() {
    let recs = RecordRegistry::new();
    let mut module = ModuleState::new(0);
    let mut stack: Vec<IValue> = Vec::new();
    // An argument index beyond the argument list is a type mismatch.
    let err = run_one(
        Instruction::ArgumentGet { index: 2 },
        vec![IValue::S32(1)],
        &mut stack,
        &mut module,
        &recs,
    )
    .unwrap_err();
    assert!(matches!(err, EngineError::AdapterTypeMismatch));
    run_one(
        Instruction::ArgumentGet { index: 0 },
        vec![IValue::S32(1)],
        &mut stack,
        &mut module,
        &recs,
    )
    .unwrap();
    assert!(matches!(stack[0], IValue::S32(1)));
}

#[test]
fn record_lower_and_lift_on_the_stack() {
    let mut recs = RecordRegistry::new();
    let id = recs
        .register_record(
            "pair".to_string(),
            vec![
                RecordField { name: "a".to_string(), ty: IType::S32 },
                RecordField { name: "b".to_string(), ty: IType::Utf8String },
            ],
        )
        .unwrap();
    let mut module = ModuleState::new(0);
    let mut stack: Vec<IValue> = vec![IValue::Record(
        id,
        vec![IValue::S32(7), IValue::Utf8String("x".to_string())],
    )];
    run_one(Instruction::RecordLower { record_id: id }, vec![], &mut stack, &mut module, &recs)
        .unwrap();
    assert_eq!(stack.len(), 2);
    assert!(matches!(stack[0], IValue::S32(7)));
    run_one(Instruction::RecordLift { record_id: id }, vec![], &mut stack, &mut module, &recs)
        .unwrap();
    assert_eq!(stack.len(), 1);
    match &stack[0] {
        IValue::Record(rid, vals) => {
            assert_eq!(*rid, id);
            assert_eq!(vals.len(), 2);
        }
        other => panic!("unexpected value {:?}", other),
    }
    // Lifting with a wrongly typed field fails.
    let mut stack: Vec<IValue> = vec![IValue::S32(1), IValue::S32(2)];
    let err = run_one(
        Instruction::RecordLift { record_id: id },
        vec![],
        &mut stack,
        &mut module,
        &recs,
    )
    .unwrap_err();
    assert!(matches!(err, EngineError::AdapterTypeMismatch));
    // An unknown record ID fails.
    let err = run_one(
        Instruction::RecordLift { record_id: 77 },
        vec![],
        &mut stack,
        &mut module,
        &recs,
    )
    .unwrap_err();
    assert!(matches!(err, EngineError::UnknownRecord(77)));
}

#[test]
fn string_lowering_writes_and_lifting_reads() {
    let recs = RecordRegistry::new();
    let mut module = ModuleState::new(0);
    let mut stack: Vec<IValue> = Vec::new();
    let args = vec![IValue::Utf8String("héllo".to_string())];
    // Prologue: value, size, allocate, value, lower.
    for instr in [
        Instruction::ArgumentGet { index: 0 },
        Instruction::StringSize,
        Instruction::CallCore { function_index: 0 },
        Instruction::ArgumentGet { index: 0 },
        Instruction::StringLowerMemory,
    ] {
        run_one(instr, args.clone(), &mut stack, &mut module, &recs).unwrap();
    }
    // The stack now holds (pointer, byte length).
    assert_eq!(stack.len(), 2);
    let (ptr, len) = match (&stack[0], &stack[1]) {
        (IValue::S32(p), IValue::S32(l)) => (*p, *l),
        other => panic!("unexpected stack {:?}", other),
    };
    assert_eq!(len as usize, "héllo".as_bytes().len());
    // Lift the same range back.
    run_one(Instruction::StringLiftMemory, vec![], &mut stack, &mut module, &recs).unwrap();
    match &stack[0] {
        IValue::Utf8String(s) => assert_eq!(s, "héllo"),
        other => panic!("unexpected value {:?}", other),
    }
    let _ = (ptr, len);
}

#[test]
fn byte_array_size_and_lift() {
    let recs = RecordRegistry::new();
    let mut module = ModuleState::new(0);
    let mut stack: Vec<IValue> = Vec::new();
    let args = vec![IValue::ByteArray(vec![5, 6, 7])];
    for instr in [
        Instruction::ArgumentGet { index: 0 },
        Instruction::ByteArraySize,
        Instruction::CallCore { function_index: 0 },
        Instruction::ArgumentGet { index: 0 },
        Instruction::ByteArrayLowerMemory,
        Instruction::ByteArrayLiftMemory,
    ] {
        run_one(instr, args.clone(), &mut stack, &mut module, &recs).unwrap();
    }
    match &stack[0] {
        IValue::ByteArray(b) => assert_eq!(b, &vec![5, 6, 7]),
        other => panic!("unexpected value {:?}", other),
    }
}

#[test]
fn external_call_pops_declared_operands() {
    let recs = RecordRegistry::new();
    let mut module = ModuleState::new(0);
    let mut stack: Vec<IValue> = vec![IValue::S32(41)];
    let step = run_one(
        Instruction::CallCore { function_index: 6 },
        vec![],
        &mut stack,
        &mut module,
        &recs,
    )
    .unwrap();
    match step {
        StepResult::CallExternal { function_index, args } => {
            assert_eq!(function_index, 6);
            assert_eq!(args, vec![CoreValue::I32(41)]);
        }
        StepResult::Continue => panic!("expected an external call"),
    }
    assert!(stack.is_empty());
}
