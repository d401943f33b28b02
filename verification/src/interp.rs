//! The adapter interpreter: a stack machine over interface values. Each
//! opcode's effect on the stack and the module state is stated exactly;
//! a core call that leaves the engine (a module export) is handed back to
//! the embedder as a `StepResult::CallExternal`.
use vstd::prelude::*;
use vstd::string::StrSliceExecFns;

use crate::errors::EngineError;
use crate::module::{ModuleState, ModuleModel, mem_written};
use crate::instr::{
    Instruction, CoreFuncType, ABI_ALLOCATE, ABI_DEALLOCATE, ABI_GET_RESULT_SIZE,
    ABI_GET_RESULT_PTR, ABI_SET_RESULT_SIZE, ABI_SET_RESULT_PTR, CORE_EXPORT_BASE,
};
use crate::itype::{
    CoreType, CoreValue, IType, IValue, IValueModel, RecordRegistry, ivalue_model, ivalues_model,
    lemma_ivalues_model, lemma_ivalues_model_push, lemma_ivalues_model_drop_last,
    check_value_type, value_has_itype,
};

verus! {

/// The value of a 32-bit word reinterpreted from unsigned to signed.
pub open spec fn u32_reinterp(x: u32) -> int {
    if x < 0x8000_0000 {
        x as int
    } else {
        x as int - 0x1_0000_0000
    }
}

/// The value of a 32-bit word reinterpreted from signed to unsigned.
pub open spec fn i32_reinterp(x: i32) -> int {
    if x >= 0 {
        x as int
    } else {
        x as int + 0x1_0000_0000
    }
}

/// The value of a 64-bit word reinterpreted from unsigned to signed.
pub open spec fn u64_reinterp(x: u64) -> int {
    if x < 0x8000_0000_0000_0000 {
        x as int
    } else {
        x as int - 0x1_0000_0000_0000_0000
    }
}

/// The value of a 64-bit word reinterpreted from signed to unsigned.
pub open spec fn i64_reinterp(x: i64) -> int {
    if x >= 0 {
        x as int
    } else {
        x as int + 0x1_0000_0000_0000_0000
    }
}

/// What a numeric conversion opcode yields on a given operand: the converted
/// value, `NumericRangeExceeded` for a narrowing that loses the value, or
/// `AdapterTypeMismatch` when the operand has the wrong shape.
pub open spec fn conversion_model(instr: Instruction, m: IValueModel) -> Result<
    IValueModel,
    EngineError,
> {
    match instr {
        Instruction::I32FromS8 => match m {
            IValueModel::S8(x) => Ok(IValueModel::S32(x as i32)),
            _ => Err(EngineError::AdapterTypeMismatch),
        },
        Instruction::I32FromS16 => match m {
            IValueModel::S16(x) => Ok(IValueModel::S32(x as i32)),
            _ => Err(EngineError::AdapterTypeMismatch),
        },
        Instruction::I32FromU8 => match m {
            IValueModel::U8(x) => Ok(IValueModel::S32(x as i32)),
            _ => Err(EngineError::AdapterTypeMismatch),
        },
        Instruction::I32FromU16 => match m {
            IValueModel::U16(x) => Ok(IValueModel::S32(x as i32)),
            _ => Err(EngineError::AdapterTypeMismatch),
        },
        Instruction::I32FromU32 => match m {
            IValueModel::U32(x) => Ok(IValueModel::S32(u32_reinterp(x) as i32)),
            _ => Err(EngineError::AdapterTypeMismatch),
        },
        Instruction::I64FromU64 => match m {
            IValueModel::U64(x) => Ok(IValueModel::S64(u64_reinterp(x) as i64)),
            _ => Err(EngineError::AdapterTypeMismatch),
        },
        Instruction::S8FromI32 => match m {
            IValueModel::S32(x) => if -128 <= x && x <= 127 {
                Ok(IValueModel::S8(x as i8))
            } else {
                Err(EngineError::NumericRangeExceeded)
            },
            _ => Err(EngineError::AdapterTypeMismatch),
        },
        Instruction::S16FromI32 => match m {
            IValueModel::S32(x) => if -0x8000 <= x && x <= 0x7fff {
                Ok(IValueModel::S16(x as i16))
            } else {
                Err(EngineError::NumericRangeExceeded)
            },
            _ => Err(EngineError::AdapterTypeMismatch),
        },
        Instruction::U8FromI32 => match m {
            IValueModel::S32(x) => if 0 <= x && x <= 255 {
                Ok(IValueModel::U8(x as u8))
            } else {
                Err(EngineError::NumericRangeExceeded)
            },
            _ => Err(EngineError::AdapterTypeMismatch),
        },
        Instruction::U16FromI32 => match m {
            IValueModel::S32(x) => if 0 <= x && x <= 0xffff {
                Ok(IValueModel::U16(x as u16))
            } else {
                Err(EngineError::NumericRangeExceeded)
            },
            _ => Err(EngineError::AdapterTypeMismatch),
        },
        Instruction::U32FromI32 => match m {
            IValueModel::S32(x) => Ok(IValueModel::U32(i32_reinterp(x) as u32)),
            _ => Err(EngineError::AdapterTypeMismatch),
        },
        Instruction::U64FromI64 => match m {
            IValueModel::S64(x) => Ok(IValueModel::U64(i64_reinterp(x) as u64)),
            _ => Err(EngineError::AdapterTypeMismatch),
        },
        _ => Err(EngineError::AdapterTypeMismatch),
    }
}

/// Applies a numeric conversion opcode to one interface value, exactly as
/// `conversion_model` states.
pub fn apply_conversion(instr: &Instruction, v: &IValue) -> (r: Result<IValue, EngineError>)
    ensures
        match r {
            Ok(v2) => conversion_model(*instr, ivalue_model(*v)) == Ok::<IValueModel, EngineError>(
                ivalue_model(v2),
            ),
            Err(e) => conversion_model(*instr, ivalue_model(*v)) == Err::<IValueModel, EngineError>(
                e,
            ),
        },
{
    match instr {
        Instruction::I32FromS8 => match v {
            IValue::S8(x) => Ok(IValue::S32(*x as i32)),
            _ => Err(EngineError::AdapterTypeMismatch),
        },
        Instruction::I32FromS16 => match v {
            IValue::S16(x) => Ok(IValue::S32(*x as i32)),
            _ => Err(EngineError::AdapterTypeMismatch),
        },
        Instruction::I32FromU8 => match v {
            IValue::U8(x) => Ok(IValue::S32(*x as i32)),
            _ => Err(EngineError::AdapterTypeMismatch),
        },
        Instruction::I32FromU16 => match v {
            IValue::U16(x) => Ok(IValue::S32(*x as i32)),
            _ => Err(EngineError::AdapterTypeMismatch),
        },
        Instruction::I32FromU32 => match v {
            IValue::U32(x) => {
                let x = *x;
                if x < 0x8000_0000 {
                    Ok(IValue::S32(x as i32))
                } else {
                    Ok(IValue::S32(((x as i64) - 0x1_0000_0000i64) as i32))
                }
            },
            _ => Err(EngineError::AdapterTypeMismatch),
        },
        Instruction::I64FromU64 => match v {
            IValue::U64(x) => {
                let x = *x;
                if x < 0x8000_0000_0000_0000 {
                    Ok(IValue::S64(x as i64))
                } else {
                    Ok(IValue::S64(((x as i128) - 0x1_0000_0000_0000_0000i128) as i64))
                }
            },
            _ => Err(EngineError::AdapterTypeMismatch),
        },
        Instruction::S8FromI32 => match v {
            IValue::S32(x) => {
                let x = *x;
                if -128 <= x && x <= 127 {
                    Ok(IValue::S8(x as i8))
                } else {
                    Err(EngineError::NumericRangeExceeded)
                }
            },
            _ => Err(EngineError::AdapterTypeMismatch),
        },
        Instruction::S16FromI32 => match v {
            IValue::S32(x) => {
                let x = *x;
                if -0x8000 <= x && x <= 0x7fff {
                    Ok(IValue::S16(x as i16))
                } else {
                    Err(EngineError::NumericRangeExceeded)
                }
            },
            _ => Err(EngineError::AdapterTypeMismatch),
        },
        Instruction::U8FromI32 => match v {
            IValue::S32(x) => {
                let x = *x;
                if 0 <= x && x <= 255 {
                    Ok(IValue::U8(x as u8))
                } else {
                    Err(EngineError::NumericRangeExceeded)
                }
            },
            _ => Err(EngineError::AdapterTypeMismatch),
        },
        Instruction::U16FromI32 => match v {
            IValue::S32(x) => {
                let x = *x;
                if 0 <= x && x <= 0xffff {
                    Ok(IValue::U16(x as u16))
                } else {
                    Err(EngineError::NumericRangeExceeded)
                }
            },
            _ => Err(EngineError::AdapterTypeMismatch),
        },
        Instruction::U32FromI32 => match v {
            IValue::S32(x) => {
                let x = *x;
                if x >= 0 {
                    Ok(IValue::U32(x as u32))
                } else {
                    Ok(IValue::U32(((x as i64) + 0x1_0000_0000i64) as u32))
                }
            },
            _ => Err(EngineError::AdapterTypeMismatch),
        },
        Instruction::U64FromI64 => match v {
            IValue::S64(x) => {
                let x = *x;
                if x >= 0 {
                    Ok(IValue::U64(x as u64))
                } else {
                    Ok(IValue::U64(((x as i128) + 0x1_0000_0000_0000_0000i128) as u64))
                }
            },
            _ => Err(EngineError::AdapterTypeMismatch),
        },
        _ => Err(EngineError::AdapterTypeMismatch),
    }
}

/// Whether `instr` is one of the numeric conversion opcodes.
pub open spec fn is_conversion(instr: Instruction) -> bool {
    match instr {
        Instruction::I32FromS8
        | Instruction::I32FromS16
        | Instruction::I32FromU8
        | Instruction::I32FromU16
        | Instruction::I32FromU32
        | Instruction::I64FromU64
        | Instruction::S8FromI32
        | Instruction::S16FromI32
        | Instruction::U8FromI32
        | Instruction::U16FromI32
        | Instruction::U32FromI32
        | Instruction::U64FromI64 => true,
        _ => false,
    }
}

/// A staged core operand: how an interface value on the adapter stack maps
/// to a core value of the given core type.
pub open spec fn staged_core(m: IValueModel, t: CoreType) -> Option<CoreValue> {
    match (m, t) {
        (IValueModel::S32(x), CoreType::I32) => Some(CoreValue::I32(x)),
        (IValueModel::S64(x), CoreType::I64) => Some(CoreValue::I64(x)),
        (IValueModel::F32Bits(x), CoreType::F32) => Some(CoreValue::F32Bits(x)),
        (IValueModel::F64Bits(x), CoreType::F64) => Some(CoreValue::F64Bits(x)),
        _ => None,
    }
}

/// How a core value returned by a core function appears on the adapter
/// stack.
pub open spec fn staged_of_core(c: CoreValue) -> IValueModel {
    match c {
        CoreValue::I32(x) => IValueModel::S32(x),
        CoreValue::I64(x) => IValueModel::S64(x),
        CoreValue::F32Bits(x) => IValueModel::F32Bits(x),
        CoreValue::F64Bits(x) => IValueModel::F64Bits(x),
    }
}

/// Pushes the staged form of a core value onto the adapter stack.
pub fn push_core_value(stack: &mut Vec<IValue>, c: CoreValue)
    ensures
        ivalues_model(final(stack)@) =~= ivalues_model(old(stack)@).push(staged_of_core(c)),
{
    let v = match c {
        CoreValue::I32(x) => IValue::S32(x),
        CoreValue::I64(x) => IValue::S64(x),
        CoreValue::F32Bits(x) => IValue::F32Bits(x),
        CoreValue::F64Bits(x) => IValue::F64Bits(x),
    };
    proof {
        lemma_ivalues_model_push(stack@, v);
    }
    stack.push(v);
}

/// The outcome of one interpreter step that stayed inside the engine, or a
/// core call that must be served by the embedder's runtime.
#[derive(Debug)]
pub enum StepResult {
    /// The instruction was fully executed.
    Continue,
    /// `CallCore` reached a module export: the embedder runs core function
    /// `function_index` on `args` and hands the results back.
    CallExternal { function_index: u32, args: Vec<CoreValue> },
}

/// Concatenation maps through `ivalues_model`.
pub proof fn lemma_ivalues_model_concat(a: Seq<IValue>, b: Seq<IValue>)
    ensures
        ivalues_model(a + b) =~= ivalues_model(a) + ivalues_model(b),
{
    lemma_ivalues_model(a + b);
    lemma_ivalues_model(a);
    lemma_ivalues_model(b);
}

/// Subranges map through `ivalues_model`.
pub proof fn lemma_ivalues_model_subrange(s: Seq<IValue>, i: int, j: int)
    requires
        0 <= i <= j <= s.len(),
    ensures
        ivalues_model(s.subrange(i, j)) =~= ivalues_model(s).subrange(i, j),
{
    lemma_ivalues_model(s.subrange(i, j));
    lemma_ivalues_model(s);
}

/// Executes one adapter instruction against the stack, the interface
/// arguments, and the module state. A `CallCore` whose index is at or above
/// `CORE_EXPORT_BASE` pops the declared core operands and hands them back as
/// `CallExternal`; every other instruction is executed completely. On any
/// error the stack and the module are left unchanged.
pub fn execute_instruction(
    instr: &Instruction,
    args: &Vec<IValue>,
    stack: &mut Vec<IValue>,
    module: &mut ModuleState,
    core_types: &Vec<CoreFuncType>,
    recs: &RecordRegistry,
) -> (r: Result<StepResult, EngineError>)
    requires
        old(module).wf(),
    ensures
        final(module).wf(),
        r is Err ==> ivalues_model(final(stack)@) == ivalues_model(old(stack)@) && final(module)@
            == old(module)@,
        r matches Err(e) ==> (e is AdapterStackUnderflow || e is AdapterTypeMismatch
            || e is NumericRangeExceeded || e is InvalidUtf8 || e is MemoryAccessOutOfBounds
            || e is UnknownRecord),
        r matches Ok(sr) ==> (sr is Continue ==> step_allows(
            *instr,
            ivalues_model(args@),
            recs@,
            ivalues_model(old(stack)@),
            old(module)@,
            ivalues_model(final(stack)@),
            final(module)@,
        )),
        instr matches Instruction::ArgumentGet { index } ==> match r {
            Ok(sr) => sr is Continue && index < args@.len() && final(module)@ == old(module)@
                && ivalues_model(final(stack)@) =~= ivalues_model(old(stack)@).push(
                ivalue_model(args@[index as int]),
            ),
            Err(e) => index >= args@.len() && e is AdapterTypeMismatch,
        },
        is_conversion(*instr) ==> match r {
            Ok(sr) => sr is Continue && ivalues_model(old(stack)@).len() > 0 && final(module)@
                == old(module)@ && (conversion_model(
                *instr,
                ivalues_model(old(stack)@).last(),
            ) matches Ok(m2) && ivalues_model(final(stack)@) =~= ivalues_model(
                old(stack)@,
            ).drop_last().push(m2)),
            Err(e) => if ivalues_model(old(stack)@).len() == 0 {
                e is AdapterStackUnderflow
            } else {
                conversion_model(*instr, ivalues_model(old(stack)@).last())
                    == Err::<IValueModel, EngineError>(e)
            },
        },
        instr is StringSize ==> match r {
            Ok(sr) => sr is Continue && final(module)@ == old(module)@ && ivalues_model(
                old(stack)@,
            ).len() > 0 && (ivalues_model(old(stack)@).last() matches IValueModel::Utf8String(cs)
                && vstd::utf8::encode_utf8(cs).len() <= 0x7fff_ffff && ivalues_model(final(stack)@)
                =~= ivalues_model(old(stack)@).drop_last().push(
                IValueModel::S32(vstd::utf8::encode_utf8(cs).len() as i32),
            )),
            Err(e) => e is AdapterStackUnderflow || e is AdapterTypeMismatch
                || e is NumericRangeExceeded,
        },
        instr is ByteArraySize ==> match r {
            Ok(sr) => sr is Continue && final(module)@ == old(module)@ && ivalues_model(
                old(stack)@,
            ).len() > 0 && (ivalues_model(old(stack)@).last() matches IValueModel::ByteArray(bs)
                && bs.len() <= 0x7fff_ffff && ivalues_model(final(stack)@) =~= ivalues_model(
                old(stack)@,
            ).drop_last().push(IValueModel::S32(bs.len() as i32))),
            Err(e) => e is AdapterStackUnderflow || e is AdapterTypeMismatch
                || e is NumericRangeExceeded,
        },
        instr is StringLowerMemory ==> match r {
            Ok(sr) => sr is Continue && {
                let sm = ivalues_model(old(stack)@);
                &&& sm.len() >= 2
                &&& sm.last() matches IValueModel::Utf8String(cs)
                &&& sm[sm.len() - 2] matches IValueModel::S32(ptr)
                &&& old(module).in_bounds(ptr as int, vstd::utf8::encode_utf8(cs).len() as int)
                &&& final(module)@ =~= (ModuleModel {
                    mem: mem_written(old(module)@.mem, ptr as int, vstd::utf8::encode_utf8(cs)),
                    ..old(module)@
                })
                &&& ivalues_model(final(stack)@) =~= sm.subrange(0, sm.len() - 2).push(
                    IValueModel::S32(ptr),
                ).push(IValueModel::S32(vstd::utf8::encode_utf8(cs).len() as i32))
            },
            Err(e) => e is AdapterStackUnderflow || e is AdapterTypeMismatch
                || e is NumericRangeExceeded || e is MemoryAccessOutOfBounds,
        },
        instr is ByteArrayLowerMemory ==> match r {
            Ok(sr) => sr is Continue && {
                let sm = ivalues_model(old(stack)@);
                &&& sm.len() >= 2
                &&& sm.last() matches IValueModel::ByteArray(bs)
                &&& sm[sm.len() - 2] matches IValueModel::S32(ptr)
                &&& old(module).in_bounds(ptr as int, bs.len() as int)
                &&& final(module)@ =~= (ModuleModel {
                    mem: mem_written(old(module)@.mem, ptr as int, bs),
                    ..old(module)@
                })
                &&& ivalues_model(final(stack)@) =~= sm.subrange(0, sm.len() - 2).push(
                    IValueModel::S32(ptr),
                ).push(IValueModel::S32(bs.len() as i32))
            },
            Err(e) => e is AdapterStackUnderflow || e is AdapterTypeMismatch
                || e is NumericRangeExceeded || e is MemoryAccessOutOfBounds,
        },
        instr is StringLiftMemory ==> match r {
            Ok(sr) => sr is Continue && final(module)@ == old(module)@ && {
                let sm = ivalues_model(old(stack)@);
                &&& sm.len() >= 2
                &&& sm.last() matches IValueModel::S32(size)
                &&& sm[sm.len() - 2] matches IValueModel::S32(ptr)
                &&& old(module).in_bounds(ptr as int, size as int)
                &&& vstd::utf8::valid_utf8(
                    old(module)@.mem.subrange(ptr as int, ptr as int + size as int),
                )
                &&& ivalues_model(final(stack)@) =~= sm.subrange(0, sm.len() - 2).push(
                    IValueModel::Utf8String(
                        vstd::utf8::decode_utf8(
                            old(module)@.mem.subrange(ptr as int, ptr as int + size as int),
                        ),
                    ),
                )
            },
            Err(e) => e is AdapterStackUnderflow || e is AdapterTypeMismatch
                || e is MemoryAccessOutOfBounds || e is InvalidUtf8,
        },
        instr is ByteArrayLiftMemory ==> match r {
            Ok(sr) => sr is Continue && final(module)@ == old(module)@ && {
                let sm = ivalues_model(old(stack)@);
                &&& sm.len() >= 2
                &&& sm.last() matches IValueModel::S32(size)
                &&& sm[sm.len() - 2] matches IValueModel::S32(ptr)
                &&& old(module).in_bounds(ptr as int, size as int)
                &&& ivalues_model(final(stack)@) =~= sm.subrange(0, sm.len() - 2).push(
                    IValueModel::ByteArray(
                        old(module)@.mem.subrange(ptr as int, ptr as int + size as int),
                    ),
                )
            },
            Err(e) => e is AdapterStackUnderflow || e is AdapterTypeMismatch
                || e is MemoryAccessOutOfBounds,
        },
        instr matches Instruction::CallCore { function_index } ==> match r {
            Ok(sr) => {
                let sm = ivalues_model(old(stack)@);
                if function_index == ABI_ALLOCATE {
                    &&& sr is Continue
                    &&& sm.len() >= 1
                    &&& sm.last() matches IValueModel::S32(size)
                    &&& size >= 0
                    &&& final(module)@.mem =~= old(module)@.mem + Seq::new(
                        size as nat,
                        |i: int| 0u8,
                    )
                    &&& final(module)@.live =~= old(module)@.live.push(
                        (old(module)@.mem.len() as i32, size),
                    )
                    &&& final(module)@.alloc_count == old(module)@.alloc_count + 1
                    &&& final(module)@.dealloc_count == old(module)@.dealloc_count
                    &&& final(module)@.result_ptr == old(module)@.result_ptr
                    &&& final(module)@.result_size == old(module)@.result_size
                    &&& ivalues_model(final(stack)@) =~= sm.drop_last().push(
                        IValueModel::S32(old(module)@.mem.len() as i32),
                    )
                } else if function_index == ABI_DEALLOCATE {
                    &&& sr is Continue
                    &&& sm.len() >= 2
                    &&& sm.last() matches IValueModel::S32(size)
                    &&& sm[sm.len() - 2] matches IValueModel::S32(ptr)
                    &&& ivalues_model(final(stack)@) =~= sm.subrange(0, sm.len() - 2)
                    &&& final(module)@.mem == old(module)@.mem
                    &&& final(module)@.result_ptr == old(module)@.result_ptr
                    &&& final(module)@.result_size == old(module)@.result_size
                    &&& final(module)@.alloc_count == old(module)@.alloc_count
                    &&& (old(module)@.dealloc_count < u64::MAX ==> final(module)@.dealloc_count
                        == old(module)@.dealloc_count + 1)
                    &&& (old(module)@.live.contains((ptr, size)) ==> final(module)@.live
                        == old(module)@.live.remove(
                        crate::module::first_live_index(old(module)@.live, (ptr, size)),
                    ))
                    &&& (!old(module)@.live.contains((ptr, size)) ==> final(module)@.live == old(
                        module,
                    )@.live)
                } else if function_index == ABI_GET_RESULT_PTR {
                    &&& sr is Continue
                    &&& final(module)@ == old(module)@
                    &&& ivalues_model(final(stack)@) =~= sm.push(
                        IValueModel::S32(old(module)@.result_ptr),
                    )
                } else if function_index == ABI_GET_RESULT_SIZE {
                    &&& sr is Continue
                    &&& final(module)@ == old(module)@
                    &&& ivalues_model(final(stack)@) =~= sm.push(
                        IValueModel::S32(old(module)@.result_size),
                    )
                } else if function_index == ABI_SET_RESULT_PTR {
                    &&& sr is Continue
                    &&& sm.len() >= 1
                    &&& sm.last() matches IValueModel::S32(x)
                    &&& ivalues_model(final(stack)@) =~= sm.drop_last()
                    &&& final(module)@ == (ModuleModel { result_ptr: x, ..old(module)@ })
                } else if function_index == ABI_SET_RESULT_SIZE {
                    &&& sr is Continue
                    &&& sm.len() >= 1
                    &&& sm.last() matches IValueModel::S32(x)
                    &&& ivalues_model(final(stack)@) =~= sm.drop_last()
                    &&& final(module)@ == (ModuleModel { result_size: x, ..old(module)@ })
                } else {
                    &&& final(module)@ == old(module)@
                    &&& sr matches StepResult::CallExternal { function_index: fi, args: cargs }
                    &&& {
                        let k = function_index - CORE_EXPORT_BASE;
                        let params = core_types@[k as int]@.0;
                        &&& fi == function_index
                        &&& k < core_types@.len()
                        &&& sm.len() >= params.len()
                        &&& cargs@.len() == params.len()
                        &&& ivalues_model(final(stack)@) =~= sm.subrange(
                            0,
                            sm.len() - params.len(),
                        )
                        &&& forall|j: int|
                            0 <= j < params.len() ==> staged_core(
                                sm[sm.len() - params.len() + j],
                                params[j],
                            ) == Some(#[trigger] cargs@[j])
                    }
                }
            },
            Err(e) => e is AdapterStackUnderflow || e is AdapterTypeMismatch
                || e is NumericRangeExceeded || e is MemoryAccessOutOfBounds,
        },
        instr matches Instruction::RecordLower { record_id } ==> match r {
            Ok(sr) => sr is Continue && final(module)@ == old(module)@ && {
                let sm = ivalues_model(old(stack)@);
                &&& sm.len() >= 1
                &&& sm.last() matches IValueModel::Record(id, vals) && id == record_id
                    && ivalues_model(final(stack)@) =~= sm.drop_last() + vals
            },
            Err(e) => e is AdapterStackUnderflow || e is AdapterTypeMismatch,
        },
        instr matches Instruction::RecordLift { record_id } ==> match r {
            Ok(sr) => sr is Continue && final(module)@ == old(module)@ && {
                let sm = ivalues_model(old(stack)@);
                &&& 1 <= *record_id <= recs@.len()
                &&& sm.len() >= recs@[*record_id - 1].fields@.len()
                &&& {
                    let n = recs@[*record_id - 1].fields@.len() as int;
                    let rv = IValueModel::Record(
                        *record_id,
                        sm.subrange(sm.len() - n, sm.len() as int),
                    );
                    &&& value_has_itype(rv, IType::Record(*record_id), recs@)
                    &&& ivalues_model(final(stack)@) =~= sm.subrange(0, sm.len() - n).push(rv)
                }
            },
            Err(e) => e is AdapterStackUnderflow || e is AdapterTypeMismatch || e is UnknownRecord,
        },
{
    proof {
        lemma_ivalues_model(old(stack)@);
        lemma_ivalues_model(args@);
    }
    match instr {
        Instruction::ArgumentGet { index } => {
            let idx = *index as usize;
            if idx >= args.len() {
                return Err(EngineError::AdapterTypeMismatch);
            }
            let v = args[idx].clone();
            proof {
                lemma_ivalues_model_push(stack@, v);
            }
            stack.push(v);
            Ok(StepResult::Continue)
        },
        Instruction::StringSize => {
            if stack.len() == 0 {
                return Err(EngineError::AdapterStackUnderflow);
            }
            let n = match &stack[stack.len() - 1] {
                IValue::Utf8String(s) => s.as_str().as_bytes_vec().len(),
                _ => {
                    return Err(EngineError::AdapterTypeMismatch);
                },
            };
            if n > 0x7fff_ffff {
                return Err(EngineError::NumericRangeExceeded);
            }
            let v = IValue::S32(n as i32);
            proof {
                lemma_ivalues_model_drop_last(stack@);
            }
            let _ = stack.pop();
            proof {
                lemma_ivalues_model_push(stack@, v);
            }
            stack.push(v);
            Ok(StepResult::Continue)
        },
        Instruction::ByteArraySize => {
            if stack.len() == 0 {
                return Err(EngineError::AdapterStackUnderflow);
            }
            let n = match &stack[stack.len() - 1] {
                IValue::ByteArray(b) => b.len(),
                _ => {
                    return Err(EngineError::AdapterTypeMismatch);
                },
            };
            if n > 0x7fff_ffff {
                return Err(EngineError::NumericRangeExceeded);
            }
            let v = IValue::S32(n as i32);
            proof {
                lemma_ivalues_model_drop_last(stack@);
            }
            let _ = stack.pop();
            proof {
                lemma_ivalues_model_push(stack@, v);
            }
            stack.push(v);
            Ok(StepResult::Continue)
        },
        Instruction::StringLowerMemory => {
            if stack.len() < 2 {
                return Err(EngineError::AdapterStackUnderflow);
            }
            let bytes = match &stack[stack.len() - 1] {
                IValue::Utf8String(s) => s.as_str().as_bytes_vec(),
                _ => {
                    return Err(EngineError::AdapterTypeMismatch);
                },
            };
            let ptr = match &stack[stack.len() - 2] {
                IValue::S32(p) => *p,
                _ => {
                    return Err(EngineError::AdapterTypeMismatch);
                },
            };
            if bytes.len() > 0x7fff_ffff {
                return Err(EngineError::NumericRangeExceeded);
            }
            let n = bytes.len() as i32;
            module.write_bytes(ptr, &bytes)?;
            proof {
                lemma_ivalues_model_drop_last(stack@);
                lemma_ivalues_model_drop_last(stack@.drop_last());
            }
            let _ = stack.pop();
            let _ = stack.pop();
            proof {
                lemma_ivalues_model_push(stack@, IValue::S32(ptr));
                lemma_ivalues_model_push(stack@.push(IValue::S32(ptr)), IValue::S32(n));
            }
            stack.push(IValue::S32(ptr));
            stack.push(IValue::S32(n));
            proof {
                assert(old(stack)@.drop_last().drop_last() =~= old(stack)@.subrange(
                    0,
                    old(stack)@.len() - 2,
                ));
                lemma_ivalues_model_subrange(old(stack)@, 0, old(stack)@.len() - 2);
            }
            Ok(StepResult::Continue)
        },
        Instruction::ByteArrayLowerMemory => {
            if stack.len() < 2 {
                return Err(EngineError::AdapterStackUnderflow);
            }
            let bytes = match &stack[stack.len() - 1] {
                IValue::ByteArray(b) => b.clone(),
                _ => {
                    return Err(EngineError::AdapterTypeMismatch);
                },
            };
            let ptr = match &stack[stack.len() - 2] {
                IValue::S32(p) => *p,
                _ => {
                    return Err(EngineError::AdapterTypeMismatch);
                },
            };
            if bytes.len() > 0x7fff_ffff {
                return Err(EngineError::NumericRangeExceeded);
            }
            let n = bytes.len() as i32;
            proof {
                assert(bytes@ =~= old(stack)@[old(stack)@.len() - 1]->ByteArray_0@);
            }
            module.write_bytes(ptr, &bytes)?;
            proof {
                lemma_ivalues_model_drop_last(stack@);
                lemma_ivalues_model_drop_last(stack@.drop_last());
            }
            let _ = stack.pop();
            let _ = stack.pop();
            proof {
                lemma_ivalues_model_push(stack@, IValue::S32(ptr));
                lemma_ivalues_model_push(stack@.push(IValue::S32(ptr)), IValue::S32(n));
            }
            stack.push(IValue::S32(ptr));
            stack.push(IValue::S32(n));
            proof {
                assert(old(stack)@.drop_last().drop_last() =~= old(stack)@.subrange(
                    0,
                    old(stack)@.len() - 2,
                ));
                lemma_ivalues_model_subrange(old(stack)@, 0, old(stack)@.len() - 2);
            }
            Ok(StepResult::Continue)
        },
        Instruction::StringLiftMemory => {
            if stack.len() < 2 {
                return Err(EngineError::AdapterStackUnderflow);
            }
            let size = match &stack[stack.len() - 1] {
                IValue::S32(s) => *s,
                _ => {
                    return Err(EngineError::AdapterTypeMismatch);
                },
            };
            let ptr = match &stack[stack.len() - 2] {
                IValue::S32(p) => *p,
                _ => {
                    return Err(EngineError::AdapterTypeMismatch);
                },
            };
            let s = module.lift_string(ptr, size)?;
            proof {
                lemma_ivalues_model_drop_last(stack@);
                lemma_ivalues_model_drop_last(stack@.drop_last());
            }
            let _ = stack.pop();
            let _ = stack.pop();
            let v = IValue::Utf8String(s);
            proof {
                lemma_ivalues_model_push(stack@, v);
                assert(old(stack)@.drop_last().drop_last() =~= old(stack)@.subrange(
                    0,
                    old(stack)@.len() - 2,
                ));
                lemma_ivalues_model_subrange(old(stack)@, 0, old(stack)@.len() - 2);
            }
            stack.push(v);
            Ok(StepResult::Continue)
        },
        Instruction::ByteArrayLiftMemory => {
            if stack.len() < 2 {
                return Err(EngineError::AdapterStackUnderflow);
            }
            let size = match &stack[stack.len() - 1] {
                IValue::S32(s) => *s,
                _ => {
                    return Err(EngineError::AdapterTypeMismatch);
                },
            };
            let ptr = match &stack[stack.len() - 2] {
                IValue::S32(p) => *p,
                _ => {
                    return Err(EngineError::AdapterTypeMismatch);
                },
            };
            let b = module.lift_byte_array(ptr, size)?;
            proof {
                lemma_ivalues_model_drop_last(stack@);
                lemma_ivalues_model_drop_last(stack@.drop_last());
            }
            let _ = stack.pop();
            let _ = stack.pop();
            let v = IValue::ByteArray(b);
            proof {
                lemma_ivalues_model_push(stack@, v);
                assert(old(stack)@.drop_last().drop_last() =~= old(stack)@.subrange(
                    0,
                    old(stack)@.len() - 2,
                ));
                lemma_ivalues_model_subrange(old(stack)@, 0, old(stack)@.len() - 2);
            }
            stack.push(v);
            Ok(StepResult::Continue)
        },
        Instruction::CallCore { function_index } => execute_call_core(
            *function_index,
            stack,
            module,
            core_types,
        ),
        Instruction::RecordLower { record_id } => {
            if stack.len() == 0 {
                return Err(EngineError::AdapterStackUnderflow);
            }
            let ok = match &stack[stack.len() - 1] {
                IValue::Record(id, _) => *id == *record_id,
                _ => false,
            };
            if !ok {
                return Err(EngineError::AdapterTypeMismatch);
            }
            proof {
                lemma_ivalues_model_drop_last(stack@);
            }
            let top = stack.pop();
            match top {
                Some(IValue::Record(_, mut vals)) => {
                    proof {
                        lemma_ivalues_model_concat(stack@, vals@);
                    }
                    stack.append(&mut vals);
                    Ok(StepResult::Continue)
                },
                _ => {
                    proof {
                        assert(false);
                    }
                    Err(EngineError::AdapterTypeMismatch)
                },
            }
        },
        Instruction::RecordLift { record_id } => execute_record_lift(*record_id, stack, recs),
        _ => {
            // A numeric conversion: peek, convert, and replace the top value.
            if stack.len() == 0 {
                return Err(EngineError::AdapterStackUnderflow);
            }
            let converted = apply_conversion(instr, &stack[stack.len() - 1])?;
            proof {
                lemma_ivalues_model_drop_last(stack@);
            }
            let _ = stack.pop();
            proof {
                lemma_ivalues_model_push(stack@, converted);
            }
            stack.push(converted);
            Ok(StepResult::Continue)
        },
    }
}

/// Executes `CallCore`: an ABI helper below `CORE_EXPORT_BASE` runs against
/// the module model; an export index pops its declared core operands and
/// hands them back for the embedder to run.
fn execute_call_core(
    function_index: u32,
    stack: &mut Vec<IValue>,
    module: &mut ModuleState,
    core_types: &Vec<CoreFuncType>,
) -> (r: Result<StepResult, EngineError>)
    requires
        old(module).wf(),
    ensures
        final(module).wf(),
        r is Err ==> ivalues_model(final(stack)@) == ivalues_model(old(stack)@) && final(module)@
            == old(module)@,
        r matches Err(e) ==> (e is AdapterStackUnderflow || e is AdapterTypeMismatch
            || e is NumericRangeExceeded || e is MemoryAccessOutOfBounds),
        r matches Ok(sr) ==> (sr is Continue ==> step_allows(
            Instruction::CallCore { function_index },
            Seq::<IValueModel>::empty(),
            Seq::<crate::itype::RecordType>::empty(),
            ivalues_model(old(stack)@),
            old(module)@,
            ivalues_model(final(stack)@),
            final(module)@,
        )),
        function_index == ABI_ALLOCATE ==> match r {
            Ok(sr) => sr is Continue && {
                let sm = ivalues_model(old(stack)@);
                &&& sm.len() >= 1
                &&& sm.last() matches IValueModel::S32(size)
                &&& size >= 0
                &&& final(module)@.mem =~= old(module)@.mem + Seq::new(size as nat, |i: int| 0u8)
                &&& final(module)@.live =~= old(module)@.live.push(
                    (old(module)@.mem.len() as i32, size),
                )
                &&& final(module)@.alloc_count == old(module)@.alloc_count + 1
                &&& final(module)@.dealloc_count == old(module)@.dealloc_count
                &&& final(module)@.result_ptr == old(module)@.result_ptr
                &&& final(module)@.result_size == old(module)@.result_size
                &&& ivalues_model(final(stack)@) =~= sm.drop_last().push(
                    IValueModel::S32(old(module)@.mem.len() as i32),
                )
            },
            Err(e) => e is AdapterStackUnderflow || e is AdapterTypeMismatch
                || e is NumericRangeExceeded || e is MemoryAccessOutOfBounds,
        },
        function_index == ABI_DEALLOCATE ==> match r {
            Ok(sr) => sr is Continue && {
                let sm = ivalues_model(old(stack)@);
                &&& sm.len() >= 2
                &&& sm.last() matches IValueModel::S32(size)
                &&& sm[sm.len() - 2] matches IValueModel::S32(ptr)
                &&& ivalues_model(final(stack)@) =~= sm.subrange(0, sm.len() - 2)
                &&& final(module)@.mem == old(module)@.mem
                &&& final(module)@.result_ptr == old(module)@.result_ptr
                &&& final(module)@.result_size == old(module)@.result_size
                &&& final(module)@.alloc_count == old(module)@.alloc_count
                &&& (old(module)@.dealloc_count < u64::MAX ==> final(module)@.dealloc_count == old(
                    module,
                )@.dealloc_count + 1)
                &&& (old(module)@.live.contains((ptr, size)) ==> final(module)@.live == old(
                    module,
                )@.live.remove(crate::module::first_live_index(old(module)@.live, (ptr, size))))
                &&& (!old(module)@.live.contains((ptr, size)) ==> final(module)@.live == old(
                    module,
                )@.live)
            },
            Err(e) => e is AdapterStackUnderflow || e is AdapterTypeMismatch,
        },
        (function_index == ABI_GET_RESULT_PTR || function_index == ABI_GET_RESULT_SIZE) ==> match r {
            Ok(sr) => sr is Continue && final(module)@ == old(module)@ && ivalues_model(
                final(stack)@,
            ) =~= ivalues_model(old(stack)@).push(
                IValueModel::S32(
                    if function_index == ABI_GET_RESULT_PTR {
                        old(module)@.result_ptr
                    } else {
                        old(module)@.result_size
                    },
                ),
            ),
            Err(e) => false,
        },
        (function_index == ABI_SET_RESULT_PTR || function_index == ABI_SET_RESULT_SIZE) ==> match r {
            Ok(sr) => sr is Continue && {
                let sm = ivalues_model(old(stack)@);
                &&& sm.len() >= 1
                &&& sm.last() matches IValueModel::S32(x)
                &&& ivalues_model(final(stack)@) =~= sm.drop_last()
                &&& final(module)@ == (if function_index == ABI_SET_RESULT_PTR {
                    ModuleModel { result_ptr: x, ..old(module)@ }
                } else {
                    ModuleModel { result_size: x, ..old(module)@ }
                })
            },
            Err(e) => e is AdapterStackUnderflow || e is AdapterTypeMismatch,
        },
        function_index >= CORE_EXPORT_BASE ==> match r {
            Ok(sr) => final(module)@ == old(module)@ && (sr matches StepResult::CallExternal {
                function_index: fi,
                args: cargs,
            } && {
                let sm = ivalues_model(old(stack)@);
                let k = function_index - CORE_EXPORT_BASE;
                let params = core_types@[k as int]@.0;
                &&& fi == function_index
                &&& k < core_types@.len()
                &&& sm.len() >= params.len()
                &&& cargs@.len() == params.len()
                &&& ivalues_model(final(stack)@) =~= sm.subrange(0, sm.len() - params.len())
                &&& forall|j: int|
                    0 <= j < params.len() ==> staged_core(
                        sm[sm.len() - params.len() + j],
                        params[j],
                    ) == Some(#[trigger] cargs@[j])
            }),
            Err(e) => e is AdapterTypeMismatch || e is AdapterStackUnderflow,
        },
{
    proof {
        lemma_ivalues_model(old(stack)@);
    }
    if function_index == ABI_ALLOCATE {
        if stack.len() == 0 {
            return Err(EngineError::AdapterStackUnderflow);
        }
        let size = match &stack[stack.len() - 1] {
            IValue::S32(s) => *s,
            _ => {
                return Err(EngineError::AdapterTypeMismatch);
            },
        };
        let ptr = module.abi_allocate(size)?;
        proof {
            assert(module@ =~= (ModuleModel {
                mem: old(module)@.mem + Seq::new(size as nat, |i: int| 0u8),
                live: old(module)@.live.push((old(module)@.mem.len() as i32, size)),
                alloc_count: (old(module)@.alloc_count + 1) as u64,
                ..old(module)@
            }));
            lemma_ivalues_model_drop_last(stack@);
        }
        let _ = stack.pop();
        proof {
            lemma_ivalues_model_push(stack@, IValue::S32(ptr));
        }
        stack.push(IValue::S32(ptr));
        Ok(StepResult::Continue)
    } else if function_index == ABI_DEALLOCATE {
        if stack.len() < 2 {
            return Err(EngineError::AdapterStackUnderflow);
        }
        let size = match &stack[stack.len() - 1] {
            IValue::S32(s) => *s,
            _ => {
                return Err(EngineError::AdapterTypeMismatch);
            },
        };
        let ptr = match &stack[stack.len() - 2] {
            IValue::S32(p) => *p,
            _ => {
                return Err(EngineError::AdapterTypeMismatch);
            },
        };
        module.abi_deallocate(ptr, size);
        proof {
            assert(module@ =~= (ModuleModel {
                dealloc_count: if old(module)@.dealloc_count < u64::MAX {
                    (old(module)@.dealloc_count + 1) as u64
                } else {
                    old(module)@.dealloc_count
                },
                live: if old(module)@.live.contains((ptr, size)) {
                    old(module)@.live.remove(
                        crate::module::first_live_index(old(module)@.live, (ptr, size)),
                    )
                } else {
                    old(module)@.live
                },
                ..old(module)@
            }));
            lemma_ivalues_model_drop_last(stack@);
            lemma_ivalues_model_drop_last(stack@.drop_last());
            assert(old(stack)@.drop_last().drop_last() =~= old(stack)@.subrange(
                0,
                old(stack)@.len() - 2,
            ));
            lemma_ivalues_model_subrange(old(stack)@, 0, old(stack)@.len() - 2);
        }
        let _ = stack.pop();
        let _ = stack.pop();
        Ok(StepResult::Continue)
    } else if function_index == ABI_GET_RESULT_PTR {
        let v = IValue::S32(module.get_result_ptr());
        proof {
            lemma_ivalues_model_push(stack@, v);
        }
        stack.push(v);
        Ok(StepResult::Continue)
    } else if function_index == ABI_GET_RESULT_SIZE {
        let v = IValue::S32(module.get_result_size());
        proof {
            lemma_ivalues_model_push(stack@, v);
        }
        stack.push(v);
        Ok(StepResult::Continue)
    } else if function_index == ABI_SET_RESULT_PTR || function_index == ABI_SET_RESULT_SIZE {
        if stack.len() == 0 {
            return Err(EngineError::AdapterStackUnderflow);
        }
        let x = match &stack[stack.len() - 1] {
            IValue::S32(s) => *s,
            _ => {
                return Err(EngineError::AdapterTypeMismatch);
            },
        };
        proof {
            lemma_ivalues_model_drop_last(stack@);
        }
        let _ = stack.pop();
        if function_index == ABI_SET_RESULT_PTR {
            module.set_result_ptr(x);
        } else {
            module.set_result_size(x);
        }
        Ok(StepResult::Continue)
    } else {
        // An export of the module: pop its declared core operands.
        let k = (function_index - CORE_EXPORT_BASE) as usize;
        if k >= core_types.len() {
            return Err(EngineError::AdapterTypeMismatch);
        }
        let n = core_types[k].params.len();
        if stack.len() < n {
            return Err(EngineError::AdapterStackUnderflow);
        }
        let stack_len = stack.len();
        let base = stack_len - n;
        let mut cargs: Vec<CoreValue> = Vec::new();
        let mut j: usize = 0;
        while j < n
            invariant
                j <= n,
                base + n == stack_len,
                stack_len == stack@.len(),
                function_index >= CORE_EXPORT_BASE,
                k == function_index - CORE_EXPORT_BASE,
                *module == *old(module),
                old(module).wf(),
                n == core_types@[k as int]@.0.len(),
                k < core_types@.len(),
                stack@ == old(stack)@,
                cargs@.len() == j,
                ivalues_model(stack@).len() == stack@.len(),
                forall|i: int|
                    0 <= i < stack@.len() ==> ivalues_model(stack@)[i] == ivalue_model(
                        stack@[i],
                    ),
                forall|i: int|
                    0 <= i < j ==> staged_core(
                        ivalues_model(stack@)[base + i],
                        core_types@[k as int]@.0[i],
                    ) == Some(#[trigger] cargs@[i]),
            decreases n - j,
        {
            let cv = match (&stack[base + j], &core_types[k].params[j]) {
                (IValue::S32(x), CoreType::I32) => CoreValue::I32(*x),
                (IValue::S64(x), CoreType::I64) => CoreValue::I64(*x),
                (IValue::F32Bits(x), CoreType::F32) => CoreValue::F32Bits(*x),
                (IValue::F64Bits(x), CoreType::F64) => CoreValue::F64Bits(*x),
                _ => {
                    return Err(EngineError::AdapterTypeMismatch);
                },
            };
            cargs.push(cv);
            j = j + 1;
        }
        proof {
            lemma_ivalues_model_subrange(old(stack)@, 0, base as int);
        }
        stack.truncate(base);
        Ok(StepResult::CallExternal { function_index, args: cargs })
    }
}

/// Executes `RecordLift`: pops one value per field of the record type, in
/// field order, checks each against its field type, and pushes the record.
fn execute_record_lift(record_id: u32, stack: &mut Vec<IValue>, recs: &RecordRegistry) -> (r:
    Result<StepResult, EngineError>)
    ensures
        r is Err ==> ivalues_model(final(stack)@) == ivalues_model(old(stack)@),
        match r {
            Ok(sr) => sr is Continue && {
                let sm = ivalues_model(old(stack)@);
                &&& 1 <= record_id <= recs@.len()
                &&& sm.len() >= recs@[record_id - 1].fields@.len()
                &&& {
                    let n = recs@[record_id - 1].fields@.len() as int;
                    let rv = IValueModel::Record(
                        record_id,
                        sm.subrange(sm.len() - n, sm.len() as int),
                    );
                    &&& value_has_itype(rv, IType::Record(record_id), recs@)
                    &&& ivalues_model(final(stack)@) =~= sm.subrange(0, sm.len() - n).push(rv)
                }
            },
            Err(e) => e is AdapterStackUnderflow || e is AdapterTypeMismatch || e is UnknownRecord,
        },
{
    proof {
        lemma_ivalues_model(old(stack)@);
    }
    let rec = match recs.resolve(record_id) {
        Some(rec) => rec,
        None => {
            return Err(EngineError::UnknownRecord(record_id));
        },
    };
    let n = rec.fields.len();
    if stack.len() < n {
        return Err(EngineError::AdapterStackUnderflow);
    }
    let stack_len = stack.len();
    let base = stack_len - n;
    let mut j: usize = 0;
    while j < n
        invariant
            j <= n,
            base + n == stack_len,
            stack_len == stack@.len(),
            1 <= record_id <= recs@.len(),
            *rec == recs@[record_id - 1],
            n == rec.fields@.len(),
            stack@ == old(stack)@,
            ivalues_model(stack@).len() == stack@.len(),
            forall|i: int|
                0 <= i < stack@.len() ==> ivalues_model(stack@)[i] == ivalue_model(stack@[i]),
            forall|i: int|
                0 <= i < j ==> value_has_itype(
                    #[trigger] ivalues_model(stack@)[base + i],
                    recs@[record_id - 1].fields@[i].ty,
                    recs@,
                ),
        decreases n - j,
    {
        if !check_value_type(&stack[base + j], &rec.fields[j].ty, recs) {
            return Err(EngineError::AdapterTypeMismatch);
        }
        j = j + 1;
    }
    let tail = stack.split_off(base);
    let rv = IValue::Record(record_id, tail);
    proof {
        lemma_ivalues_model_subrange(old(stack)@, 0, base as int);
        lemma_ivalues_model_subrange(old(stack)@, base as int, old(stack)@.len() as int);
        let vals = ivalues_model(old(stack)@).subrange(base as int, old(stack)@.len() as int);
        crate::itype::lemma_values_match_fields(
            vals,
            recs@[record_id - 1].fields.deep_view(),
            recs@,
        );
        assert forall|i: int| 0 <= i < vals.len() implies value_has_itype(
            #[trigger] vals[i],
            recs@[record_id - 1].fields.deep_view()[i].1,
            recs@,
        ) by {
            assert(recs@[record_id - 1].fields.deep_view()[i] == recs@[record_id
                - 1].fields@[i].deep_view());
            assert(vals[i] == ivalues_model(old(stack)@)[base + i]);
        }
        lemma_ivalues_model_push(stack@, rv);
    }
    stack.push(rv);
    Ok(StepResult::Continue)
}

/// The engine-side step relation: for every opcode the engine executes
/// completely (everything but a core call into a module export), this
/// relates a pre-state `(sm, m)` to the successful successor `(sm2, m2)`.
/// `execute_instruction` guarantees every completed step lies in this
/// relation, and `crate::laws::lemma_adapter_step_deterministic` proves the
/// relation is a partial function: the engine itself never has two
/// different successors for one state.
pub open spec fn step_allows(
    instr: Instruction,
    args: Seq<IValueModel>,
    recs: Seq<crate::itype::RecordType>,
    sm: Seq<IValueModel>,
    m: ModuleModel,
    sm2: Seq<IValueModel>,
    m2: ModuleModel,
) -> bool {
    if is_conversion(instr) {
        &&& sm.len() > 0
        &&& conversion_model(instr, sm.last()) matches Ok(w) && sm2 == sm.drop_last().push(w)
        &&& m2 == m
    } else {
        match instr {
            Instruction::ArgumentGet { index } => {
                &&& index < args.len()
                &&& sm2 == sm.push(args[index as int])
                &&& m2 == m
            },
            Instruction::StringSize => {
                &&& sm.len() > 0
                &&& sm.last() matches IValueModel::Utf8String(cs) && sm2 == sm.drop_last().push(
                    IValueModel::S32(vstd::utf8::encode_utf8(cs).len() as i32),
                )
                &&& m2 == m
            },
            Instruction::ByteArraySize => {
                &&& sm.len() > 0
                &&& sm.last() matches IValueModel::ByteArray(bs) && sm2 == sm.drop_last().push(
                    IValueModel::S32(bs.len() as i32),
                )
                &&& m2 == m
            },
            Instruction::StringLowerMemory => {
                &&& sm.len() >= 2
                &&& sm.last() matches IValueModel::Utf8String(cs) && (sm[sm.len()
                    - 2] matches IValueModel::S32(ptr) && {
                    let bytes = vstd::utf8::encode_utf8(cs);
                    &&& sm2 == sm.subrange(0, sm.len() - 2).push(IValueModel::S32(ptr)).push(
                        IValueModel::S32(bytes.len() as i32),
                    )
                    &&& m2 == (ModuleModel { mem: mem_written(m.mem, ptr as int, bytes), ..m })
                })
            },
            Instruction::ByteArrayLowerMemory => {
                &&& sm.len() >= 2
                &&& sm.last() matches IValueModel::ByteArray(bs) && (sm[sm.len()
                    - 2] matches IValueModel::S32(ptr) && {
                    &&& sm2 == sm.subrange(0, sm.len() - 2).push(IValueModel::S32(ptr)).push(
                        IValueModel::S32(bs.len() as i32),
                    )
                    &&& m2 == (ModuleModel { mem: mem_written(m.mem, ptr as int, bs), ..m })
                })
            },
            Instruction::StringLiftMemory => {
                &&& sm.len() >= 2
                &&& sm.last() matches IValueModel::S32(size) && (sm[sm.len()
                    - 2] matches IValueModel::S32(ptr) && {
                    &&& sm2 == sm.subrange(0, sm.len() - 2).push(
                        IValueModel::Utf8String(
                            vstd::utf8::decode_utf8(
                                m.mem.subrange(ptr as int, ptr as int + size as int),
                            ),
                        ),
                    )
                    &&& m2 == m
                })
            },
            Instruction::ByteArrayLiftMemory => {
                &&& sm.len() >= 2
                &&& sm.last() matches IValueModel::S32(size) && (sm[sm.len()
                    - 2] matches IValueModel::S32(ptr) && {
                    &&& sm2 == sm.subrange(0, sm.len() - 2).push(
                        IValueModel::ByteArray(
                            m.mem.subrange(ptr as int, ptr as int + size as int),
                        ),
                    )
                    &&& m2 == m
                })
            },
            Instruction::CallCore { function_index } => {
                if function_index == ABI_ALLOCATE {
                    &&& sm.len() >= 1
                    &&& sm.last() matches IValueModel::S32(size) && {
                        &&& m2 == (ModuleModel {
                            mem: m.mem + Seq::new(size as nat, |i: int| 0u8),
                            live: m.live.push((m.mem.len() as i32, size)),
                            alloc_count: (m.alloc_count + 1) as u64,
                            ..m
                        })
                        &&& sm2 == sm.drop_last().push(IValueModel::S32(m.mem.len() as i32))
                    }
                } else if function_index == ABI_DEALLOCATE {
                    &&& sm.len() >= 2
                    &&& sm.last() matches IValueModel::S32(size) && (sm[sm.len()
                        - 2] matches IValueModel::S32(ptr) && {
                        &&& sm2 == sm.subrange(0, sm.len() - 2)
                        &&& m2 == (ModuleModel {
                            dealloc_count: if m.dealloc_count < u64::MAX {
                                (m.dealloc_count + 1) as u64
                            } else {
                                m.dealloc_count
                            },
                            live: if m.live.contains((ptr, size)) {
                                m.live.remove(crate::module::first_live_index(m.live, (ptr, size)))
                            } else {
                                m.live
                            },
                            ..m
                        })
                    })
                } else if function_index == ABI_GET_RESULT_PTR {
                    sm2 == sm.push(IValueModel::S32(m.result_ptr)) && m2 == m
                } else if function_index == ABI_GET_RESULT_SIZE {
                    sm2 == sm.push(IValueModel::S32(m.result_size)) && m2 == m
                } else if function_index == ABI_SET_RESULT_PTR {
                    &&& sm.len() >= 1
                    &&& sm.last() matches IValueModel::S32(x) && sm2 == sm.drop_last() && m2 == (
                    ModuleModel { result_ptr: x, ..m })
                } else if function_index == ABI_SET_RESULT_SIZE {
                    &&& sm.len() >= 1
                    &&& sm.last() matches IValueModel::S32(x) && sm2 == sm.drop_last() && m2 == (
                    ModuleModel { result_size: x, ..m })
                } else {
                    false
                }
            },
            Instruction::RecordLower { record_id } => {
                &&& sm.len() >= 1
                &&& sm.last() matches IValueModel::Record(id, vals) && id == record_id && sm2
                    == sm.drop_last() + vals
                &&& m2 == m
            },
            Instruction::RecordLift { record_id } => {
                &&& 1 <= record_id <= recs.len()
                &&& sm.len() >= recs[record_id - 1].fields@.len()
                &&& {
                    let n = recs[record_id - 1].fields@.len() as int;
                    sm2 == sm.subrange(0, sm.len() - n).push(
                        IValueModel::Record(record_id, sm.subrange(sm.len() - n, sm.len() as int)),
                    )
                }
                &&& m2 == m
            },
            _ => false,
        }
    }
}

} // verus!
