//! The host-import bridge: when a guest calls a host function, the engine
//! lifts the core arguments into interface values against the calling
//! module's memory, invokes the embedder's handler, and lowers the result
//! back into that module.
use vstd::prelude::*;
use vstd::string::StrSliceExecFns;

use crate::errors::EngineError;
use crate::interp::{i32_reinterp, i64_reinterp};
use crate::itype::{
    CoreValue, FunctionArg, FunctionSignature, IType, IValue, IValueModel, ivalue_model,
    value_has_itype, RecordType,
};
use crate::module::{ModuleModel, ModuleState};

verus! {

/// How many core operands an interface argument occupies in a host-import
/// call: two for a string or byte array (pointer and size), one otherwise.
pub open spec fn core_arity(t: IType) -> int {
    match t {
        IType::Utf8String | IType::ByteArray => 2,
        _ => 1,
    }
}

/// The operand offset of the argument at position `k`.
pub open spec fn core_offset(args: Seq<FunctionArg>, k: int) -> int
    decreases k,
{
    if k <= 0 {
        0
    } else {
        core_offset(args, k - 1) + core_arity(args[k - 1].ty)
    }
}

/// Whether `vm` is exactly the lifting of the core operands at `off` as a
/// value of type `t`, against memory state `m`: widths checked for
/// integers, 32/64-bit words reinterpreted losslessly for the unsigned
/// types, and a `(pointer, size)` pair resolved and UTF-8-validated for
/// strings.
pub open spec fn lifted_from(
    t: IType,
    cargs: Seq<CoreValue>,
    off: int,
    vm: IValueModel,
    m: ModuleModel,
) -> bool {
    match t {
        IType::S8 => 0 <= off < cargs.len() && (cargs[off] matches CoreValue::I32(x) && -128 <= x
            <= 127 && vm == IValueModel::S8(x as i8)),
        IType::S16 => 0 <= off < cargs.len() && (cargs[off] matches CoreValue::I32(x) && -0x8000
            <= x <= 0x7fff && vm == IValueModel::S16(x as i16)),
        IType::S32 => 0 <= off < cargs.len() && (cargs[off] matches CoreValue::I32(x) && vm
            == IValueModel::S32(x)),
        IType::S64 => 0 <= off < cargs.len() && (cargs[off] matches CoreValue::I64(x) && vm
            == IValueModel::S64(x)),
        IType::U8 => 0 <= off < cargs.len() && (cargs[off] matches CoreValue::I32(x) && 0 <= x
            <= 255 && vm == IValueModel::U8(x as u8)),
        IType::U16 => 0 <= off < cargs.len() && (cargs[off] matches CoreValue::I32(x) && 0 <= x
            <= 0xffff && vm == IValueModel::U16(x as u16)),
        IType::U32 => 0 <= off < cargs.len() && (cargs[off] matches CoreValue::I32(x) && vm
            == IValueModel::U32(i32_reinterp(x) as u32)),
        IType::U64 => 0 <= off < cargs.len() && (cargs[off] matches CoreValue::I64(x) && vm
            == IValueModel::U64(i64_reinterp(x) as u64)),
        IType::F32 => 0 <= off < cargs.len() && (cargs[off] matches CoreValue::F32Bits(x) && vm
            == IValueModel::F32Bits(x)),
        IType::F64 => 0 <= off < cargs.len() && (cargs[off] matches CoreValue::F64Bits(x) && vm
            == IValueModel::F64Bits(x)),
        IType::Utf8String => 0 <= off && off + 1 < cargs.len() && (
        cargs[off] matches CoreValue::I32(p) && (cargs[off + 1] matches CoreValue::I32(sz) && {
            let bytes = m.mem.subrange(p as int, p as int + sz as int);
            &&& 0 <= p
            &&& 0 <= sz
            &&& p + sz <= m.mem.len()
            &&& vstd::utf8::valid_utf8(bytes)
            &&& vm == IValueModel::Utf8String(vstd::utf8::decode_utf8(bytes))
        })),
        IType::ByteArray => 0 <= off && off + 1 < cargs.len() && (
        cargs[off] matches CoreValue::I32(p) && (cargs[off + 1] matches CoreValue::I32(sz) && {
            &&& 0 <= p
            &&& 0 <= sz
            &&& p + sz <= m.mem.len()
            &&& vm == IValueModel::ByteArray(m.mem.subrange(p as int, p as int + sz as int))
        })),
        IType::Record(_) => false,
        IType::Array(_) => false,
    }
}

/// The embedder's handler for one module's host imports: it receives the
/// import's name and the lifted interface arguments and returns at most one
/// interface value, or a cause of failure. Nothing is assumed about it.
pub trait HostHandler {
    fn handle(&mut self, name: &String, args: Vec<IValue>) -> Result<Option<IValue>, String>;
}

/// Lifts the core operands of a host-import call into interface values, one
/// per declared argument: numeric operands are checked against the declared
/// width, and a string or byte-array argument consumes a `(pointer, size)`
/// pair resolved against the calling module's memory. On success every
/// value is exactly the lifting of its operands (`lifted_from`) and
/// inhabits its declared type.
pub fn lift_core_args(
    module: &ModuleState,
    signature: &FunctionSignature,
    core_args: &Vec<CoreValue>,
) -> (r: Result<Vec<IValue>, EngineError>)
    ensures
        r matches Ok(vals) ==> {
            &&& vals@.len() == signature.arguments@.len()
            &&& forall|k: int|
                0 <= k < vals@.len() ==> value_has_itype(
                    ivalue_model(#[trigger] vals@[k]),
                    signature.arguments@[k].ty,
                    Seq::<RecordType>::empty(),
                )
            &&& forall|k: int|
                0 <= k < vals@.len() ==> lifted_from(
                    signature.arguments@[k].ty,
                    core_args@,
                    core_offset(signature.arguments@, k),
                    ivalue_model(#[trigger] vals@[k]),
                    module@,
                )
        },
        r matches Err(e) ==> (e is AdapterStackUnderflow || e is AdapterTypeMismatch
            || e is NumericRangeExceeded || e is MemoryAccessOutOfBounds || e is InvalidUtf8
            || e is UnknownRecord),
{
    let mut vals: Vec<IValue> = Vec::new();
    let mut next: usize = 0;
    let mut k: usize = 0;
    while k < signature.arguments.len()
        invariant
            k <= signature.arguments@.len(),
            vals@.len() == k,
            next == core_offset(signature.arguments@, k as int),
            forall|j: int|
                0 <= j < k ==> value_has_itype(
                    ivalue_model(#[trigger] vals@[j]),
                    signature.arguments@[j].ty,
                    Seq::<RecordType>::empty(),
                ),
            forall|j: int|
                0 <= j < k ==> lifted_from(
                    signature.arguments@[j].ty,
                    core_args@,
                    core_offset(signature.arguments@, j),
                    ivalue_model(#[trigger] vals@[j]),
                    module@,
                ),
        decreases signature.arguments@.len() - k,
    {
        if next >= core_args.len() {
            return Err(EngineError::AdapterStackUnderflow);
        }
        let v: IValue = match &signature.arguments[k].ty {
            IType::S8 => match &core_args[next] {
                CoreValue::I32(x) => {
                    let x = *x;
                    if -128 <= x && x <= 127 {
                        next = next + 1;
                        IValue::S8(x as i8)
                    } else {
                        return Err(EngineError::NumericRangeExceeded);
                    }
                },
                _ => {
                    return Err(EngineError::AdapterTypeMismatch);
                },
            },
            IType::S16 => match &core_args[next] {
                CoreValue::I32(x) => {
                    let x = *x;
                    if -0x8000 <= x && x <= 0x7fff {
                        next = next + 1;
                        IValue::S16(x as i16)
                    } else {
                        return Err(EngineError::NumericRangeExceeded);
                    }
                },
                _ => {
                    return Err(EngineError::AdapterTypeMismatch);
                },
            },
            IType::S32 => match &core_args[next] {
                CoreValue::I32(x) => {
                    let x = *x;
                    next = next + 1;
                    IValue::S32(x)
                },
                _ => {
                    return Err(EngineError::AdapterTypeMismatch);
                },
            },
            IType::S64 => match &core_args[next] {
                CoreValue::I64(x) => {
                    let x = *x;
                    next = next + 1;
                    IValue::S64(x)
                },
                _ => {
                    return Err(EngineError::AdapterTypeMismatch);
                },
            },
            IType::U8 => match &core_args[next] {
                CoreValue::I32(x) => {
                    let x = *x;
                    if 0 <= x && x <= 255 {
                        next = next + 1;
                        IValue::U8(x as u8)
                    } else {
                        return Err(EngineError::NumericRangeExceeded);
                    }
                },
                _ => {
                    return Err(EngineError::AdapterTypeMismatch);
                },
            },
            IType::U16 => match &core_args[next] {
                CoreValue::I32(x) => {
                    let x = *x;
                    if 0 <= x && x <= 0xffff {
                        next = next + 1;
                        IValue::U16(x as u16)
                    } else {
                        return Err(EngineError::NumericRangeExceeded);
                    }
                },
                _ => {
                    return Err(EngineError::AdapterTypeMismatch);
                },
            },
            IType::U32 => match &core_args[next] {
                CoreValue::I32(x) => {
                    let x = *x;
                    next = next + 1;
                    if x >= 0 {
                        IValue::U32(x as u32)
                    } else {
                        IValue::U32(((x as i64) + 0x1_0000_0000i64) as u32)
                    }
                },
                _ => {
                    return Err(EngineError::AdapterTypeMismatch);
                },
            },
            IType::U64 => match &core_args[next] {
                CoreValue::I64(x) => {
                    let x = *x;
                    next = next + 1;
                    if x >= 0 {
                        IValue::U64(x as u64)
                    } else {
                        IValue::U64(((x as i128) + 0x1_0000_0000_0000_0000i128) as u64)
                    }
                },
                _ => {
                    return Err(EngineError::AdapterTypeMismatch);
                },
            },
            IType::F32 => match &core_args[next] {
                CoreValue::F32Bits(x) => {
                    let x = *x;
                    next = next + 1;
                    IValue::F32Bits(x)
                },
                _ => {
                    return Err(EngineError::AdapterTypeMismatch);
                },
            },
            IType::F64 => match &core_args[next] {
                CoreValue::F64Bits(x) => {
                    let x = *x;
                    next = next + 1;
                    IValue::F64Bits(x)
                },
                _ => {
                    return Err(EngineError::AdapterTypeMismatch);
                },
            },
            IType::Utf8String => {
                if next + 1 >= core_args.len() {
                    return Err(EngineError::AdapterStackUnderflow);
                }
                let (ptr, size) = match (&core_args[next], &core_args[next + 1]) {
                    (CoreValue::I32(p), CoreValue::I32(s)) => (*p, *s),
                    _ => {
                        return Err(EngineError::AdapterTypeMismatch);
                    },
                };
                let s = module.lift_string(ptr, size)?;
                next = next + 2;
                IValue::Utf8String(s)
            },
            IType::ByteArray => {
                if next + 1 >= core_args.len() {
                    return Err(EngineError::AdapterStackUnderflow);
                }
                let (ptr, size) = match (&core_args[next], &core_args[next + 1]) {
                    (CoreValue::I32(p), CoreValue::I32(s)) => (*p, *s),
                    _ => {
                        return Err(EngineError::AdapterTypeMismatch);
                    },
                };
                let b = module.lift_byte_array(ptr, size)?;
                next = next + 2;
                IValue::ByteArray(b)
            },
            IType::Record(id) => {
                return Err(EngineError::UnknownRecord(*id));
            },
            IType::Array(_) => {
                return Err(EngineError::AdapterTypeMismatch);
            },
        };
        vals.push(v);
        k = k + 1;
    }
    Ok(vals)
}

/// Serves one host-import call: lifts the core arguments from the calling
/// module exactly as `lifted_from` states, invokes the handler, and lowers
/// the result. A numeric result comes back as the core return value through
/// the same width reinterpretations the adapter uses; a string or
/// byte-array result is allocated into the caller's memory and announced
/// through `set_result_ptr`/`set_result_size` (the exact buffer contract is
/// `lower_result_buffer`'s). What value the handler returns is its own, so
/// nothing more is promised of the returned core values than their count.
/// A handler failure surfaces as `HostImportFailed` carrying the import's
/// name and the cause.
pub fn call_host_import<H: HostHandler>(
    module: &mut ModuleState,
    import_name: &String,
    signature: &FunctionSignature,
    core_args: &Vec<CoreValue>,
    handler: &mut H,
) -> (r: Result<Vec<CoreValue>, EngineError>)
    requires
        old(module).wf(),
    ensures
        final(module).wf(),
        r matches Ok(rs) ==> rs@.len() <= 1,
{
    let args = lift_core_args(module, signature, core_args)?;
    let result = match handler.handle(import_name, args) {
        Ok(result) => result,
        Err(cause) => {
            return Err(EngineError::HostImportFailed(import_name.clone(), cause));
        },
    };
    let v = match result {
        None => {
            return Ok(Vec::new());
        },
        Some(v) => v,
    };
    lower_host_result(module, v)
}

/// Lowers one handler result value to the core return values of a host
/// import. A numeric value becomes exactly the single core value of its
/// adapter width (unsigned values reinterpreted two's-complement); a string
/// or byte array returns no core value and is instead written into the
/// caller's memory and announced through the result registers; a record or
/// an array result is refused.
pub fn lower_host_result(module: &mut ModuleState, v: IValue) -> (r: Result<
    Vec<CoreValue>,
    EngineError,
>)
    requires
        old(module).wf(),
    ensures
        final(module).wf(),
        r matches Ok(rs) ==> rs@.len() <= 1,
        v matches IValue::S8(x) ==> (r matches Ok(rs) && rs@ =~= seq![CoreValue::I32(x as i32)]
            && *final(module) == *old(module)),
        v matches IValue::S16(x) ==> (r matches Ok(rs) && rs@ =~= seq![CoreValue::I32(x as i32)]
            && *final(module) == *old(module)),
        v matches IValue::S32(x) ==> (r matches Ok(rs) && rs@ =~= seq![CoreValue::I32(x)]
            && *final(module) == *old(module)),
        v matches IValue::S64(x) ==> (r matches Ok(rs) && rs@ =~= seq![CoreValue::I64(x)]
            && *final(module) == *old(module)),
        v matches IValue::U8(x) ==> (r matches Ok(rs) && rs@ =~= seq![CoreValue::I32(x as i32)]
            && *final(module) == *old(module)),
        v matches IValue::U16(x) ==> (r matches Ok(rs) && rs@ =~= seq![CoreValue::I32(x as i32)]
            && *final(module) == *old(module)),
        v matches IValue::U32(x) ==> (r matches Ok(rs) && rs@.len() == 1 && (rs@[0] matches
            CoreValue::I32(y) && (x < 0x8000_0000 ==> y == x as i32) && (x >= 0x8000_0000 ==> y
            as int == x as int - 0x1_0000_0000)) && *final(module) == *old(module)),
        v matches IValue::U64(x) ==> (r matches Ok(rs) && rs@.len() == 1 && (rs@[0] matches
            CoreValue::I64(y) && (x < 0x8000_0000_0000_0000 ==> y == x as i64) && (x
            >= 0x8000_0000_0000_0000 ==> y as int == x as int - 0x1_0000_0000_0000_0000))
            && *final(module) == *old(module)),
        v matches IValue::F32Bits(x) ==> (r matches Ok(rs) && rs@ =~= seq![CoreValue::F32Bits(x)]
            && *final(module) == *old(module)),
        v matches IValue::F64Bits(x) ==> (r matches Ok(rs) && rs@ =~= seq![CoreValue::F64Bits(x)]
            && *final(module) == *old(module)),
        v matches IValue::Utf8String(s) ==> (r matches Ok(rs) ==> {
            &&& rs@.len() == 0
            &&& final(module)@.result_ptr == old(module)@.mem.len()
            &&& final(module)@.result_size == vstd::utf8::encode_utf8(s@).len()
            &&& final(module)@.mem.subrange(
                old(module)@.mem.len() as int,
                old(module)@.mem.len() as int + vstd::utf8::encode_utf8(s@).len() as int,
            ) == vstd::utf8::encode_utf8(s@)
        }),
        v matches IValue::ByteArray(bytes) ==> (r matches Ok(rs) ==> {
            &&& rs@.len() == 0
            &&& final(module)@.result_ptr == old(module)@.mem.len()
            &&& final(module)@.result_size == bytes@.len()
            &&& final(module)@.mem.subrange(
                old(module)@.mem.len() as int,
                old(module)@.mem.len() as int + bytes@.len() as int,
            ) == bytes@
        }),
        v is Record || v is Array ==> (r matches Err(e) && e is AdapterTypeMismatch),
{
    match v {
        IValue::S8(x) => Ok(vec![CoreValue::I32(x as i32)]),
        IValue::S16(x) => Ok(vec![CoreValue::I32(x as i32)]),
        IValue::S32(x) => Ok(vec![CoreValue::I32(x)]),
        IValue::S64(x) => Ok(vec![CoreValue::I64(x)]),
        IValue::U8(x) => Ok(vec![CoreValue::I32(x as i32)]),
        IValue::U16(x) => Ok(vec![CoreValue::I32(x as i32)]),
        IValue::U32(x) => {
            if x < 0x8000_0000 {
                Ok(vec![CoreValue::I32(x as i32)])
            } else {
                Ok(vec![CoreValue::I32(((x as i64) - 0x1_0000_0000i64) as i32)])
            }
        },
        IValue::U64(x) => {
            if x < 0x8000_0000_0000_0000 {
                Ok(vec![CoreValue::I64(x as i64)])
            } else {
                Ok(vec![CoreValue::I64(((x as i128) - 0x1_0000_0000_0000_0000i128) as i64)])
            }
        },
        IValue::F32Bits(x) => Ok(vec![CoreValue::F32Bits(x)]),
        IValue::F64Bits(x) => Ok(vec![CoreValue::F64Bits(x)]),
        IValue::Utf8String(s) => {
            let bytes = s.as_str().as_bytes_vec();
            lower_result_buffer(module, bytes)
        },
        IValue::ByteArray(bytes) => lower_result_buffer(module, bytes),
        IValue::Record(_, _) => Err(EngineError::AdapterTypeMismatch),
        IValue::Array(_) => Err(EngineError::AdapterTypeMismatch),
    }
}

/// Allocates a buffer in the caller's memory, copies the result bytes into
/// it, and registers the pair through the result registers.
fn lower_result_buffer(module: &mut ModuleState, bytes: Vec<u8>) -> (r: Result<
    Vec<CoreValue>,
    EngineError,
>)
    requires
        old(module).wf(),
    ensures
        final(module).wf(),
        r matches Ok(rs) ==> {
            &&& rs@.len() == 0
            &&& final(module)@.result_ptr == old(module)@.mem.len()
            &&& final(module)@.result_size == bytes@.len()
            &&& final(module)@.mem.subrange(
                old(module)@.mem.len() as int,
                old(module)@.mem.len() as int + bytes@.len() as int,
            ) == bytes@
        },
{
    if bytes.len() > 0x7fff_ffff {
        return Err(EngineError::NumericRangeExceeded);
    }
    let size = bytes.len() as i32;
    let ptr = module.abi_allocate(size)?;
    module.write_bytes(ptr, &bytes)?;
    module.set_result_ptr(ptr);
    module.set_result_size(size);
    proof {
        assert(final(module)@.mem.subrange(
            old(module)@.mem.len() as int,
            old(module)@.mem.len() as int + bytes@.len() as int,
        ) =~= bytes@);
    }
    Ok(Vec::new())
}

/// The message the built-in `logger::log_utf8_string` host import prints:
/// the UTF-8 string of `size` bytes at `offset` in the caller's memory, or
/// a fixed notice when the bytes are not valid UTF-8 or out of range.
pub fn logger_message(module: &ModuleState, offset: i32, size: i32) -> (r: String)
    ensures
        (module.in_bounds(offset as int, size as int) && vstd::utf8::valid_utf8(
            module@.mem.subrange(offset as int, offset as int + size as int),
        )) ==> r@ == vstd::utf8::decode_utf8(
            module@.mem.subrange(offset as int, offset as int + size as int),
        ),
        !(module.in_bounds(offset as int, size as int) && vstd::utf8::valid_utf8(
            module@.mem.subrange(offset as int, offset as int + size as int),
        )) ==> r@ == "logger: incorrect UTF-8 string has been supplied"@,
{
    match module.lift_string(offset, size) {
        Ok(s) => s,
        Err(_) => String::from_str("logger: incorrect UTF-8 string has been supplied"),
    }
}

} // verus!
