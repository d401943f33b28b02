//! Laws of the adapter machinery, stated over the same spec functions the
//! executable contracts use and proved once and for all.
use vstd::prelude::*;

use crate::generator::{
    adapter_program, input_instructions, output_instructions, inputs_program,
};
use crate::instr::{Instruction, ABI_ALLOCATE, ABI_DEALLOCATE, CORE_EXPORT_BASE};
use crate::interp::{conversion_model, step_allows};
use crate::itype::{IType, IValueModel, RecordType};
use crate::module::{mem_written, ModuleModel};

verus! {

/// Round-trip of primitive values: widening a primitive interface value to
/// its core representation and narrowing it back yields the value itself,
/// for every value of the type. Together with `ArgumentGet` and `CallCore`
/// on an identity export this is exactly the identity round trip of an
/// adapter over a primitive type.
pub proof fn lemma_primitive_round_trip(v: IValueModel)
    ensures
        v matches IValueModel::S8(_) ==> (conversion_model(Instruction::I32FromS8, v) matches Ok(w)
            && conversion_model(Instruction::S8FromI32, w) == Ok::<_, crate::errors::EngineError>(
            v,
        )),
        v matches IValueModel::S16(_) ==> (conversion_model(Instruction::I32FromS16, v) matches Ok(
            w,
        ) && conversion_model(Instruction::S16FromI32, w) == Ok::<
            _,
            crate::errors::EngineError,
        >(v)),
        v matches IValueModel::U8(_) ==> (conversion_model(Instruction::I32FromU8, v) matches Ok(w)
            && conversion_model(Instruction::U8FromI32, w) == Ok::<_, crate::errors::EngineError>(
            v,
        )),
        v matches IValueModel::U16(_) ==> (conversion_model(Instruction::I32FromU16, v) matches Ok(
            w,
        ) && conversion_model(Instruction::U16FromI32, w) == Ok::<
            _,
            crate::errors::EngineError,
        >(v)),
        v matches IValueModel::U32(_) ==> (conversion_model(Instruction::I32FromU32, v) matches Ok(
            w,
        ) && conversion_model(Instruction::U32FromI32, w) == Ok::<
            _,
            crate::errors::EngineError,
        >(v)),
        v matches IValueModel::U64(_) ==> (conversion_model(Instruction::I64FromU64, v) matches Ok(
            w,
        ) && conversion_model(Instruction::U64FromI64, w) == Ok::<
            _,
            crate::errors::EngineError,
        >(v)),
{
}

/// Numeric narrowing: a 32-bit core value of 256 does not narrow to an
/// unsigned 8-bit value and fails with `NumericRangeExceeded`; 255 narrows.
pub proof fn lemma_numeric_narrowing()
    ensures
        conversion_model(Instruction::U8FromI32, IValueModel::S32(256)) == Err::<
            IValueModel,
            _,
        >(crate::errors::EngineError::NumericRangeExceeded),
        conversion_model(Instruction::U8FromI32, IValueModel::S32(255)) == Ok::<
            _,
            crate::errors::EngineError,
        >(IValueModel::U8(255)),
{
}

/// String integrity: lowering a string writes exactly its UTF-8 encoding,
/// and lifting those bytes back yields the same characters, bit for bit,
/// for every UTF-8 string.
pub proof fn lemma_string_round_trip(s: Seq<char>, mem: Seq<u8>, ptr: int)
    requires
        0 <= ptr,
        ptr + vstd::utf8::encode_utf8(s).len() <= mem.len(),
    ensures
        ({
            let bytes = vstd::utf8::encode_utf8(s);
            let written = mem_written(mem, ptr, bytes).subrange(ptr, ptr + bytes.len() as int);
            &&& vstd::utf8::valid_utf8(written)
            &&& vstd::utf8::decode_utf8(written) == s
        }),
{
    broadcast use vstd::utf8::encode_utf8_valid_utf8;
    broadcast use vstd::utf8::encode_utf8_decode_utf8;

    let bytes = vstd::utf8::encode_utf8(s);
    assert(mem_written(mem, ptr, bytes).subrange(ptr, ptr + bytes.len() as int) =~= bytes);
}

/// How often `CallCore` on a given core function index occurs in a program.
pub open spec fn count_callcore(prog: Seq<Instruction>, fidx: u32) -> int
    decreases prog.len(),
{
    if prog.len() == 0 {
        0
    } else {
        (if prog[0] == (Instruction::CallCore { function_index: fidx }) {
            1int
        } else {
            0int
        }) + count_callcore(prog.drop_first(), fidx)
    }
}

/// How many of these types are carried through guest buffers (strings and
/// byte arrays).
pub open spec fn count_buffer_types(ts: Seq<IType>) -> int
    decreases ts.len(),
{
    if ts.len() == 0 {
        0
    } else {
        (match ts[0] {
            IType::Utf8String => 1int,
            IType::ByteArray => 1int,
            _ => 0int,
        }) + count_buffer_types(ts.drop_first())
    }
}

/// Counting distributes over concatenation.
pub proof fn lemma_count_callcore_concat(a: Seq<Instruction>, b: Seq<Instruction>, fidx: u32)
    ensures
        count_callcore(a + b, fidx) == count_callcore(a, fidx) + count_callcore(b, fidx),
    decreases a.len(),
{
    if a.len() == 0 {
        assert(a + b =~= b);
    } else {
        assert((a + b).drop_first() =~= a.drop_first() + b);
        lemma_count_callcore_concat(a.drop_first(), b, fidx);
    }
}

/// Whether one instruction is `CallCore` on this index.
pub open spec fn is_callcore(i: Instruction, fidx: u32) -> int {
    if i == (Instruction::CallCore { function_index: fidx }) {
        1int
    } else {
        0int
    }
}

proof fn lemma_count1(a: Instruction, fidx: u32)
    ensures
        count_callcore(seq![a], fidx) == is_callcore(a, fidx),
{
    assert(seq![a].drop_first() =~= Seq::<Instruction>::empty());
    reveal_with_fuel(count_callcore, 2);
}

proof fn lemma_count2(a: Instruction, b: Instruction, fidx: u32)
    ensures
        count_callcore(seq![a, b], fidx) == is_callcore(a, fidx) + is_callcore(b, fidx),
{
    assert(seq![a, b].drop_first() =~= seq![b]);
    lemma_count1(b, fidx);
    reveal_with_fuel(count_callcore, 2);
}

proof fn lemma_count5(
    a: Instruction,
    b: Instruction,
    c: Instruction,
    d: Instruction,
    e: Instruction,
    fidx: u32,
)
    ensures
        count_callcore(seq![a, b, c, d, e], fidx) == is_callcore(a, fidx) + is_callcore(b, fidx)
            + is_callcore(c, fidx) + is_callcore(d, fidx) + is_callcore(e, fidx),
{
    reveal_with_fuel(count_callcore, 7);
    assert(seq![a, b, c, d, e].drop_first() =~= seq![b, c, d, e]);
    assert(seq![b, c, d, e].drop_first() =~= seq![c, d, e]);
    assert(seq![c, d, e].drop_first() =~= seq![d, e]);
    assert(seq![d, e].drop_first() =~= seq![e]);
    assert(seq![e].drop_first() =~= Seq::<Instruction>::empty());
    assert(count_callcore(seq![e], fidx) == is_callcore(e, fidx));
    assert(count_callcore(seq![d, e], fidx) == is_callcore(d, fidx) + is_callcore(e, fidx));
    assert(count_callcore(seq![c, d, e], fidx) == is_callcore(c, fidx) + is_callcore(d, fidx)
        + is_callcore(e, fidx));
    assert(count_callcore(seq![b, c, d, e], fidx) == is_callcore(b, fidx) + is_callcore(c, fidx)
        + is_callcore(d, fidx) + is_callcore(e, fidx));
}

proof fn lemma_count6(
    a: Instruction,
    b: Instruction,
    c: Instruction,
    d: Instruction,
    e: Instruction,
    g: Instruction,
    fidx: u32,
)
    ensures
        count_callcore(seq![a, b, c, d, e, g], fidx) == is_callcore(a, fidx) + is_callcore(b, fidx)
            + is_callcore(c, fidx) + is_callcore(d, fidx) + is_callcore(e, fidx) + is_callcore(
            g,
            fidx,
        ),
{
    reveal_with_fuel(count_callcore, 3);
    assert(seq![a, b, c, d, e, g].drop_first() =~= seq![b, c, d, e, g]);
    lemma_count5(b, c, d, e, g, fidx);
}

/// The prologue of one argument calls `allocate` exactly when the argument
/// travels through a guest buffer, and never calls `deallocate`.
proof fn lemma_input_counts(t: IType, index: u32)
    ensures
        count_callcore(input_instructions(t, index), ABI_ALLOCATE) == count_buffer_types(
            seq![t],
        ),
        count_callcore(input_instructions(t, index), ABI_DEALLOCATE) == 0,
{
    reveal_with_fuel(count_buffer_types, 2);
    assert(seq![t].drop_first() =~= Seq::<IType>::empty());
    match t {
        IType::S8 => lemma_count2_both(Instruction::ArgumentGet { index }, Instruction::I32FromS8),
        IType::S16 => lemma_count2_both(
            Instruction::ArgumentGet { index },
            Instruction::I32FromS16,
        ),
        IType::S32 => lemma_count1_both(Instruction::ArgumentGet { index }),
        IType::S64 => lemma_count1_both(Instruction::ArgumentGet { index }),
        IType::U8 => lemma_count2_both(Instruction::ArgumentGet { index }, Instruction::I32FromU8),
        IType::U16 => lemma_count2_both(
            Instruction::ArgumentGet { index },
            Instruction::I32FromU16,
        ),
        IType::U32 => lemma_count2_both(
            Instruction::ArgumentGet { index },
            Instruction::I32FromU32,
        ),
        IType::U64 => lemma_count2_both(
            Instruction::ArgumentGet { index },
            Instruction::I64FromU64,
        ),
        IType::F32 => lemma_count1_both(Instruction::ArgumentGet { index }),
        IType::F64 => lemma_count1_both(Instruction::ArgumentGet { index }),
        IType::Utf8String => {
            lemma_count5(
                Instruction::ArgumentGet { index },
                Instruction::StringSize,
                Instruction::CallCore { function_index: ABI_ALLOCATE },
                Instruction::ArgumentGet { index },
                Instruction::StringLowerMemory,
                ABI_ALLOCATE,
            );
            lemma_count5(
                Instruction::ArgumentGet { index },
                Instruction::StringSize,
                Instruction::CallCore { function_index: ABI_ALLOCATE },
                Instruction::ArgumentGet { index },
                Instruction::StringLowerMemory,
                ABI_DEALLOCATE,
            );
        },
        IType::ByteArray => {
            lemma_count5(
                Instruction::ArgumentGet { index },
                Instruction::ByteArraySize,
                Instruction::CallCore { function_index: ABI_ALLOCATE },
                Instruction::ArgumentGet { index },
                Instruction::ByteArrayLowerMemory,
                ABI_ALLOCATE,
            );
            lemma_count5(
                Instruction::ArgumentGet { index },
                Instruction::ByteArraySize,
                Instruction::CallCore { function_index: ABI_ALLOCATE },
                Instruction::ArgumentGet { index },
                Instruction::ByteArrayLowerMemory,
                ABI_DEALLOCATE,
            );
        },
        IType::Record(_) => {
            reveal_with_fuel(count_callcore, 1);
        },
        IType::Array(_) => {
            reveal_with_fuel(count_callcore, 1);
        },
    }
}

proof fn lemma_count1_both(a: Instruction)
    ensures
        count_callcore(seq![a], ABI_ALLOCATE) == is_callcore(a, ABI_ALLOCATE),
        count_callcore(seq![a], ABI_DEALLOCATE) == is_callcore(a, ABI_DEALLOCATE),
{
    lemma_count1(a, ABI_ALLOCATE);
    lemma_count1(a, ABI_DEALLOCATE);
}

proof fn lemma_count2_both(a: Instruction, b: Instruction)
    ensures
        count_callcore(seq![a, b], ABI_ALLOCATE) == is_callcore(a, ABI_ALLOCATE) + is_callcore(
            b,
            ABI_ALLOCATE,
        ),
        count_callcore(seq![a, b], ABI_DEALLOCATE) == is_callcore(a, ABI_DEALLOCATE) + is_callcore(
            b,
            ABI_DEALLOCATE,
        ),
{
    lemma_count2(a, b, ABI_ALLOCATE);
    lemma_count2(a, b, ABI_DEALLOCATE);
}

/// The epilogue of one output calls `deallocate` exactly when the output
/// travels through a guest buffer, and never calls `allocate`.
proof fn lemma_output_counts(t: IType)
    ensures
        count_callcore(output_instructions(t), ABI_DEALLOCATE) == count_buffer_types(seq![t]),
        count_callcore(output_instructions(t), ABI_ALLOCATE) == 0,
{
    reveal_with_fuel(count_buffer_types, 2);
    reveal_with_fuel(count_callcore, 2);
    assert(seq![t].drop_first() =~= Seq::<IType>::empty());
    match t {
        IType::S8 => lemma_count1_both(Instruction::S8FromI32),
        IType::S16 => lemma_count1_both(Instruction::S16FromI32),
        IType::U8 => lemma_count1_both(Instruction::U8FromI32),
        IType::U16 => lemma_count1_both(Instruction::U16FromI32),
        IType::U32 => lemma_count1_both(Instruction::U32FromI32),
        IType::U64 => lemma_count1_both(Instruction::U64FromI64),
        IType::Utf8String => {
            lemma_count6(
                Instruction::CallCore { function_index: crate::instr::ABI_GET_RESULT_PTR },
                Instruction::CallCore { function_index: crate::instr::ABI_GET_RESULT_SIZE },
                Instruction::StringLiftMemory,
                Instruction::CallCore { function_index: crate::instr::ABI_GET_RESULT_PTR },
                Instruction::CallCore { function_index: crate::instr::ABI_GET_RESULT_SIZE },
                Instruction::CallCore { function_index: ABI_DEALLOCATE },
                ABI_ALLOCATE,
            );
            lemma_count6(
                Instruction::CallCore { function_index: crate::instr::ABI_GET_RESULT_PTR },
                Instruction::CallCore { function_index: crate::instr::ABI_GET_RESULT_SIZE },
                Instruction::StringLiftMemory,
                Instruction::CallCore { function_index: crate::instr::ABI_GET_RESULT_PTR },
                Instruction::CallCore { function_index: crate::instr::ABI_GET_RESULT_SIZE },
                Instruction::CallCore { function_index: ABI_DEALLOCATE },
                ABI_DEALLOCATE,
            );
        },
        IType::ByteArray => {
            lemma_count6(
                Instruction::CallCore { function_index: crate::instr::ABI_GET_RESULT_PTR },
                Instruction::CallCore { function_index: crate::instr::ABI_GET_RESULT_SIZE },
                Instruction::ByteArrayLiftMemory,
                Instruction::CallCore { function_index: crate::instr::ABI_GET_RESULT_PTR },
                Instruction::CallCore { function_index: crate::instr::ABI_GET_RESULT_SIZE },
                Instruction::CallCore { function_index: ABI_DEALLOCATE },
                ABI_ALLOCATE,
            );
            lemma_count6(
                Instruction::CallCore { function_index: crate::instr::ABI_GET_RESULT_PTR },
                Instruction::CallCore { function_index: crate::instr::ABI_GET_RESULT_SIZE },
                Instruction::ByteArrayLiftMemory,
                Instruction::CallCore { function_index: crate::instr::ABI_GET_RESULT_PTR },
                Instruction::CallCore { function_index: crate::instr::ABI_GET_RESULT_SIZE },
                Instruction::CallCore { function_index: ABI_DEALLOCATE },
                ABI_DEALLOCATE,
            );
        },
        _ => {},
    }
}

/// The argument prologues together allocate one buffer per string or
/// byte-array argument and free nothing.
proof fn lemma_inputs_counts(args: Seq<IType>, i: int)
    requires
        0 <= i <= args.len(),
    ensures
        count_callcore(inputs_program(args, i), ABI_ALLOCATE) == count_buffer_types(
            args.subrange(i, args.len() as int),
        ),
        count_callcore(inputs_program(args, i), ABI_DEALLOCATE) == 0,
    decreases args.len() - i,
{
    if i == args.len() {
        assert(args.subrange(i, args.len() as int) =~= Seq::<IType>::empty());
    } else {
        lemma_inputs_counts(args, i + 1);
        lemma_input_counts(args[i], i as u32);
        lemma_count_callcore_concat(
            input_instructions(args[i], i as u32),
            inputs_program(args, i + 1),
            ABI_ALLOCATE,
        );
        lemma_count_callcore_concat(
            input_instructions(args[i], i as u32),
            inputs_program(args, i + 1),
            ABI_DEALLOCATE,
        );
        assert(args.subrange(i, args.len() as int).drop_first() =~= args.subrange(
            i + 1,
            args.len() as int,
        ));
        reveal_with_fuel(count_buffer_types, 2);
    }
}

/// Allocation balance of a generated adapter: it calls the ABI `allocate`
/// helper once per string or byte-array argument — those buffers are
/// transferred to the guest as owned argument buffers — and calls the ABI
/// `deallocate` helper exactly once per string or byte-array output, which
/// releases the result buffer the guest registered. No other `allocate` or
/// `deallocate` call is ever emitted.
pub proof fn lemma_adapter_allocation_balance(
    args: Seq<IType>,
    outputs: Seq<IType>,
    export_index: u32,
)
    requires
        export_index >= CORE_EXPORT_BASE,
    ensures
        count_callcore(adapter_program(args, outputs, export_index), ABI_ALLOCATE)
            == count_buffer_types(args),
        count_callcore(adapter_program(args, outputs, export_index), ABI_DEALLOCATE) == (
        if outputs.len() == 1 {
            count_buffer_types(outputs)
        } else {
            0int
        }),
{
    lemma_inputs_counts(args, 0);
    assert(args.subrange(0, args.len() as int) =~= args);
    let callseq = seq![Instruction::CallCore { function_index: export_index }];
    let tail: Seq<Instruction> = if outputs.len() == 1 {
        output_instructions(outputs[0])
    } else {
        Seq::empty()
    };
    reveal_with_fuel(count_callcore, 2);
    assert(count_callcore(callseq, ABI_ALLOCATE) == 0);
    assert(count_callcore(callseq, ABI_DEALLOCATE) == 0);
    if outputs.len() == 1 {
        lemma_output_counts(outputs[0]);
        reveal_with_fuel(count_buffer_types, 2);
        assert(outputs =~= seq![outputs[0]]);
    }
    lemma_count_callcore_concat(inputs_program(args, 0), callseq, ABI_ALLOCATE);
    lemma_count_callcore_concat(inputs_program(args, 0) + callseq, tail, ABI_ALLOCATE);
    lemma_count_callcore_concat(inputs_program(args, 0), callseq, ABI_DEALLOCATE);
    lemma_count_callcore_concat(inputs_program(args, 0) + callseq, tail, ABI_DEALLOCATE);
}

/// Adapter determinism, engine side: the step relation of the interpreter —
/// which `execute_instruction` guarantees every completed step lies in — is
/// a partial function. Executing the same instruction on the same interface
/// arguments, the same stack and the same module state admits exactly one
/// successor, so two runs of an adapter program diverge only where a core
/// call leaves the engine for the embedder's runtime.
pub proof fn lemma_adapter_step_deterministic(
    instr: Instruction,
    args: Seq<IValueModel>,
    recs: Seq<RecordType>,
    sm: Seq<IValueModel>,
    m: ModuleModel,
    sm2: Seq<IValueModel>,
    m2: ModuleModel,
    sm3: Seq<IValueModel>,
    m3: ModuleModel,
)
    requires
        step_allows(instr, args, recs, sm, m, sm2, m2),
        step_allows(instr, args, recs, sm, m, sm3, m3),
    ensures
        sm2 == sm3,
        m2 == m3,
{
}

} // verus!
