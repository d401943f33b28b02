//! The adapter generator: emits, for a typed export signature, the adapter
//! program that lowers each argument to core values, calls the underlying
//! core function, and lifts the result — exactly the instruction sequences
//! the contracts below state.
use vstd::prelude::*;

use crate::errors::EngineError;
use crate::instr::{
    Instruction, CoreFuncType, ABI_ALLOCATE, ABI_DEALLOCATE, ABI_GET_RESULT_SIZE,
    ABI_GET_RESULT_PTR,
};
use crate::itype::{CoreType, FunctionSignature, IType};

verus! {

/// Whether the generator supports this interface type as an argument or an
/// output. Records and arrays travel only through the stack opcodes, not
/// through generated export adapters.
pub open spec fn generator_supports(t: IType) -> bool {
    match t {
        IType::Record(_) => false,
        IType::Array(_) => false,
        _ => true,
    }
}

/// The prologue emitted for the argument at `index`: push it and lower it to
/// core values; strings and byte arrays are sized, allocated for through the
/// ABI `allocate` helper, and copied into guest memory.
pub open spec fn input_instructions(t: IType, index: u32) -> Seq<Instruction> {
    match t {
        IType::S8 => seq![Instruction::ArgumentGet { index }, Instruction::I32FromS8],
        IType::S16 => seq![Instruction::ArgumentGet { index }, Instruction::I32FromS16],
        IType::S32 => seq![Instruction::ArgumentGet { index }],
        IType::S64 => seq![Instruction::ArgumentGet { index }],
        IType::U8 => seq![Instruction::ArgumentGet { index }, Instruction::I32FromU8],
        IType::U16 => seq![Instruction::ArgumentGet { index }, Instruction::I32FromU16],
        IType::U32 => seq![Instruction::ArgumentGet { index }, Instruction::I32FromU32],
        IType::U64 => seq![Instruction::ArgumentGet { index }, Instruction::I64FromU64],
        IType::F32 => seq![Instruction::ArgumentGet { index }],
        IType::F64 => seq![Instruction::ArgumentGet { index }],
        IType::Utf8String => seq![
            Instruction::ArgumentGet { index },
            Instruction::StringSize,
            Instruction::CallCore { function_index: ABI_ALLOCATE },
            Instruction::ArgumentGet { index },
            Instruction::StringLowerMemory,
        ],
        IType::ByteArray => seq![
            Instruction::ArgumentGet { index },
            Instruction::ByteArraySize,
            Instruction::CallCore { function_index: ABI_ALLOCATE },
            Instruction::ArgumentGet { index },
            Instruction::ByteArrayLowerMemory,
        ],
        IType::Record(_) => Seq::empty(),
        IType::Array(_) => Seq::empty(),
    }
}

/// The epilogue emitted for one output: width conversions for primitives;
/// for strings and byte arrays, lift the `(result_ptr, result_size)` pair
/// the guest registered and then release that buffer through `deallocate`.
pub open spec fn output_instructions(t: IType) -> Seq<Instruction> {
    match t {
        IType::S8 => seq![Instruction::S8FromI32],
        IType::S16 => seq![Instruction::S16FromI32],
        IType::S32 => Seq::empty(),
        IType::S64 => Seq::empty(),
        IType::U8 => seq![Instruction::U8FromI32],
        IType::U16 => seq![Instruction::U16FromI32],
        IType::U32 => seq![Instruction::U32FromI32],
        IType::U64 => seq![Instruction::U64FromI64],
        IType::F32 => Seq::empty(),
        IType::F64 => Seq::empty(),
        IType::Utf8String => seq![
            Instruction::CallCore { function_index: ABI_GET_RESULT_PTR },
            Instruction::CallCore { function_index: ABI_GET_RESULT_SIZE },
            Instruction::StringLiftMemory,
            Instruction::CallCore { function_index: ABI_GET_RESULT_PTR },
            Instruction::CallCore { function_index: ABI_GET_RESULT_SIZE },
            Instruction::CallCore { function_index: ABI_DEALLOCATE },
        ],
        IType::ByteArray => seq![
            Instruction::CallCore { function_index: ABI_GET_RESULT_PTR },
            Instruction::CallCore { function_index: ABI_GET_RESULT_SIZE },
            Instruction::ByteArrayLiftMemory,
            Instruction::CallCore { function_index: ABI_GET_RESULT_PTR },
            Instruction::CallCore { function_index: ABI_GET_RESULT_SIZE },
            Instruction::CallCore { function_index: ABI_DEALLOCATE },
        ],
        IType::Record(_) => Seq::empty(),
        IType::Array(_) => Seq::empty(),
    }
}

/// The prologues of the arguments from `i` on, concatenated in order.
pub open spec fn inputs_program(args: Seq<IType>, i: int) -> Seq<Instruction>
    decreases args.len() - i,
{
    if i < 0 || i >= args.len() {
        Seq::empty()
    } else {
        input_instructions(args[i], i as u32) + inputs_program(args, i + 1)
    }
}

/// The complete adapter program of an export: every argument's prologue, the
/// single core call, and the epilogue of the output if there is one.
pub open spec fn adapter_program(
    args: Seq<IType>,
    outputs: Seq<IType>,
    export_index: u32,
) -> Seq<Instruction> {
    inputs_program(args, 0) + seq![Instruction::CallCore { function_index: export_index }] + (
    if outputs.len() == 1 {
        output_instructions(outputs[0])
    } else {
        Seq::empty()
    })
}

/// The argument types of a signature, in order.
pub open spec fn arg_types(sig: FunctionSignature) -> Seq<IType> {
    Seq::new(sig.arguments@.len(), |i: int| sig.arguments@[i].ty)
}

/// Emits the adapter program for an export whose core function lives at
/// `export_index`. Fails with `AdapterTypeMismatch` when the signature uses
/// a type the generator does not lower (a record or an array), or has more
/// than one output.
#[verifier::rlimit(30)]
pub fn generate_export_adapter(sig: &FunctionSignature, export_index: u32) -> (r: Result<
    Vec<Instruction>,
    EngineError,
>)
    ensures
        r matches Ok(prog) ==> {
            &&& prog@ =~= adapter_program(arg_types(*sig), sig.outputs@, export_index)
            &&& forall|i: int|
                0 <= i < sig.arguments@.len() ==> generator_supports(
                    (#[trigger] sig.arguments@[i]).ty,
                )
            &&& forall|i: int|
                0 <= i < sig.outputs@.len() ==> generator_supports(#[trigger] sig.outputs@[i])
            &&& sig.outputs@.len() <= 1
            &&& sig.arguments@.len() <= 0xffff_ffff
        },
        r is Err ==> (sig.outputs@.len() > 1 || sig.arguments@.len() > 0xffff_ffff || (exists|
            i: int,
        |
            0 <= i < sig.arguments@.len() && !generator_supports(
                (#[trigger] sig.arguments@[i]).ty,
            )) || (exists|i: int|
            0 <= i < sig.outputs@.len() && !generator_supports(#[trigger] sig.outputs@[i]))),
{
    if sig.outputs.len() > 1 {
        return Err(EngineError::AdapterTypeMismatch);
    }
    if sig.arguments.len() > 0xffff_ffff {
        return Err(EngineError::AdapterTypeMismatch);
    }
    let mut prog: Vec<Instruction> = Vec::new();
    let mut i: usize = 0;
    while i < sig.arguments.len()
        invariant
            i <= sig.arguments@.len(),
            sig.arguments@.len() <= 0xffff_ffff,
            prog@ + inputs_program(arg_types(*sig), i as int) =~= inputs_program(
                arg_types(*sig),
                0,
            ),
            forall|j: int|
                0 <= j < i ==> generator_supports((#[trigger] sig.arguments@[j]).ty),
        decreases sig.arguments@.len() - i,
    {
        let emitted = emit_input(&sig.arguments[i].ty, i as u32);
        let emitted = match emitted {
            Some(e) => e,
            None => {
                return Err(EngineError::AdapterTypeMismatch);
            },
        };
        proof {
            assert(arg_types(*sig)[i as int] == sig.arguments@[i as int].ty);
            assert(inputs_program(arg_types(*sig), i as int) == input_instructions(
                arg_types(*sig)[i as int],
                i as u32,
            ) + inputs_program(arg_types(*sig), i as int + 1));
        }
        let mut emitted = emitted;
        prog.append(&mut emitted);
        i = i + 1;
    }
    proof {
        assert(inputs_program(arg_types(*sig), sig.arguments@.len() as int) =~= Seq::empty());
        assert(prog@ =~= inputs_program(arg_types(*sig), 0));
    }
    prog.push(Instruction::CallCore { function_index: export_index });
    if sig.outputs.len() == 1 {
        let emitted = emit_output(&sig.outputs[0]);
        let mut emitted = match emitted {
            Some(e) => e,
            None => {
                return Err(EngineError::AdapterTypeMismatch);
            },
        };
        prog.append(&mut emitted);
    }
    proof {
        assert(prog@ =~= adapter_program(arg_types(*sig), sig.outputs@, export_index));
    }
    Ok(prog)
}

/// Emits the prologue of one argument; `None` for an unsupported type.
fn emit_input(t: &IType, index: u32) -> (r: Option<Vec<Instruction>>)
    ensures
        generator_supports(*t) ==> (r matches Some(v) && v@ =~= input_instructions(*t, index)),
        !generator_supports(*t) ==> r is None,
{
    match t {
        IType::S8 => Some(
            vec![Instruction::ArgumentGet { index }, Instruction::I32FromS8],
        ),
        IType::S16 => Some(
            vec![Instruction::ArgumentGet { index }, Instruction::I32FromS16],
        ),
        IType::S32 => Some(vec![Instruction::ArgumentGet { index }]),
        IType::S64 => Some(vec![Instruction::ArgumentGet { index }]),
        IType::U8 => Some(
            vec![Instruction::ArgumentGet { index }, Instruction::I32FromU8],
        ),
        IType::U16 => Some(
            vec![Instruction::ArgumentGet { index }, Instruction::I32FromU16],
        ),
        IType::U32 => Some(
            vec![Instruction::ArgumentGet { index }, Instruction::I32FromU32],
        ),
        IType::U64 => Some(
            vec![Instruction::ArgumentGet { index }, Instruction::I64FromU64],
        ),
        IType::F32 => Some(vec![Instruction::ArgumentGet { index }]),
        IType::F64 => Some(vec![Instruction::ArgumentGet { index }]),
        IType::Utf8String => Some(
            vec![
                Instruction::ArgumentGet { index },
                Instruction::StringSize,
                Instruction::CallCore { function_index: ABI_ALLOCATE },
                Instruction::ArgumentGet { index },
                Instruction::StringLowerMemory,
            ],
        ),
        IType::ByteArray => Some(
            vec![
                Instruction::ArgumentGet { index },
                Instruction::ByteArraySize,
                Instruction::CallCore { function_index: ABI_ALLOCATE },
                Instruction::ArgumentGet { index },
                Instruction::ByteArrayLowerMemory,
            ],
        ),
        IType::Record(_) => None,
        IType::Array(_) => None,
    }
}

/// Emits the epilogue of one output; `None` for an unsupported type.
fn emit_output(t: &IType) -> (r: Option<Vec<Instruction>>)
    ensures
        generator_supports(*t) ==> (r matches Some(v) && v@ =~= output_instructions(*t)),
        !generator_supports(*t) ==> r is None,
{
    match t {
        IType::S8 => Some(vec![Instruction::S8FromI32]),
        IType::S16 => Some(vec![Instruction::S16FromI32]),
        IType::S32 => Some(Vec::new()),
        IType::S64 => Some(Vec::new()),
        IType::U8 => Some(vec![Instruction::U8FromI32]),
        IType::U16 => Some(vec![Instruction::U16FromI32]),
        IType::U32 => Some(vec![Instruction::U32FromI32]),
        IType::U64 => Some(vec![Instruction::U64FromI64]),
        IType::F32 => Some(Vec::new()),
        IType::F64 => Some(Vec::new()),
        IType::Utf8String => Some(
            vec![
                Instruction::CallCore { function_index: ABI_GET_RESULT_PTR },
                Instruction::CallCore { function_index: ABI_GET_RESULT_SIZE },
                Instruction::StringLiftMemory,
                Instruction::CallCore { function_index: ABI_GET_RESULT_PTR },
                Instruction::CallCore { function_index: ABI_GET_RESULT_SIZE },
                Instruction::CallCore { function_index: ABI_DEALLOCATE },
            ],
        ),
        IType::ByteArray => Some(
            vec![
                Instruction::CallCore { function_index: ABI_GET_RESULT_PTR },
                Instruction::CallCore { function_index: ABI_GET_RESULT_SIZE },
                Instruction::ByteArrayLiftMemory,
                Instruction::CallCore { function_index: ABI_GET_RESULT_PTR },
                Instruction::CallCore { function_index: ABI_GET_RESULT_SIZE },
                Instruction::CallCore { function_index: ABI_DEALLOCATE },
            ],
        ),
        IType::Record(_) => None,
        IType::Array(_) => None,
    }
}

/// The core types an interface type occupies as a core-call operand.
pub open spec fn core_types_of(t: IType) -> Seq<CoreType> {
    match t {
        IType::S8 | IType::S16 | IType::S32 | IType::U8 | IType::U16 | IType::U32 => seq![
            CoreType::I32,
        ],
        IType::S64 | IType::U64 => seq![CoreType::I64],
        IType::F32 => seq![CoreType::F32],
        IType::F64 => seq![CoreType::F64],
        IType::Utf8String | IType::ByteArray => seq![CoreType::I32, CoreType::I32],
        IType::Record(_) => Seq::empty(),
        IType::Array(_) => Seq::empty(),
    }
}

/// The flattened core parameter list of the arguments from `i` on.
pub open spec fn core_params(args: Seq<IType>, i: int) -> Seq<CoreType>
    decreases args.len() - i,
{
    if i < 0 || i >= args.len() {
        Seq::empty()
    } else {
        core_types_of(args[i]) + core_params(args, i + 1)
    }
}

/// The core result list of the outputs: strings and byte arrays come back
/// through the result registers, not as core values.
pub open spec fn core_results(outputs: Seq<IType>) -> Seq<CoreType> {
    if outputs.len() == 1 {
        match outputs[0] {
            IType::S8 | IType::S16 | IType::S32 | IType::U8 | IType::U16 | IType::U32 => seq![
                CoreType::I32,
            ],
            IType::S64 | IType::U64 => seq![CoreType::I64],
            IType::F32 => seq![CoreType::F32],
            IType::F64 => seq![CoreType::F64],
            _ => Seq::empty(),
        }
    } else {
        Seq::empty()
    }
}

/// Derives the core signature an export adapter calls through.
pub fn derive_core_signature(sig: &FunctionSignature) -> (r: CoreFuncType)
    ensures
        r@.0 =~= core_params(arg_types(*sig), 0),
        r@.1 =~= core_results(sig.outputs@),
{
    let mut params: Vec<CoreType> = Vec::new();
    let mut i: usize = 0;
    while i < sig.arguments.len()
        invariant
            i <= sig.arguments@.len(),
            params@ + core_params(arg_types(*sig), i as int) =~= core_params(arg_types(*sig), 0),
        decreases sig.arguments@.len() - i,
    {
        proof {
            assert(arg_types(*sig)[i as int] == sig.arguments@[i as int].ty);
            assert(core_params(arg_types(*sig), i as int) == core_types_of(
                arg_types(*sig)[i as int],
            ) + core_params(arg_types(*sig), i as int + 1));
        }
        match &sig.arguments[i].ty {
            IType::S8 | IType::S16 | IType::S32 | IType::U8 | IType::U16 | IType::U32 => {
                params.push(CoreType::I32);
            },
            IType::S64 | IType::U64 => {
                params.push(CoreType::I64);
            },
            IType::F32 => {
                params.push(CoreType::F32);
            },
            IType::F64 => {
                params.push(CoreType::F64);
            },
            IType::Utf8String | IType::ByteArray => {
                params.push(CoreType::I32);
                params.push(CoreType::I32);
            },
            IType::Record(_) => {},
            IType::Array(_) => {},
        }
        i = i + 1;
    }
    proof {
        assert(core_params(arg_types(*sig), sig.arguments@.len() as int) =~= Seq::empty());
        assert(params@ =~= core_params(arg_types(*sig), 0));
    }
    let mut results: Vec<CoreType> = Vec::new();
    if sig.outputs.len() == 1 {
        match &sig.outputs[0] {
            IType::S8 | IType::S16 | IType::S32 | IType::U8 | IType::U16 | IType::U32 => {
                results.push(CoreType::I32);
            },
            IType::S64 | IType::U64 => {
                results.push(CoreType::I64);
            },
            IType::F32 => {
                results.push(CoreType::F32);
            },
            IType::F64 => {
                results.push(CoreType::F64);
            },
            _ => {},
        }
    }
    CoreFuncType { params, results }
}

} // verus!
