//! The adapter instruction set: the opcodes of the stack machine that
//! marshals interface values across the core-Wasm boundary.
use vstd::prelude::*;

use crate::itype::CoreType;

verus! {

/// Descriptor ID of the `allocate` ABI helper in a module's core function
/// table. The six helpers below this base are served by the engine's own
/// module state model (bump allocation and engine-held result registers),
/// not by the embedder's runtime, which only ever receives export indices;
/// the observable contract of the helpers is unchanged, but a real guest's
/// internal allocator behaviour is fixed by the model.
pub const ABI_ALLOCATE: u32 = 0;

/// Descriptor ID of the `deallocate` ABI helper.
pub const ABI_DEALLOCATE: u32 = 1;

/// Descriptor ID of the `get_result_size` ABI helper.
pub const ABI_GET_RESULT_SIZE: u32 = 2;

/// Descriptor ID of the `get_result_ptr` ABI helper.
pub const ABI_GET_RESULT_PTR: u32 = 3;

/// Descriptor ID of the `set_result_size` ABI helper.
pub const ABI_SET_RESULT_SIZE: u32 = 4;

/// Descriptor ID of the `set_result_ptr` ABI helper.
pub const ABI_SET_RESULT_PTR: u32 = 5;

/// Core function indices at or above this base refer to a module's own
/// exports; below it they refer to the ABI helpers.
pub const CORE_EXPORT_BASE: u32 = 6;

/// One adapter opcode. An adapter program is an ordered sequence of these;
/// programs are finite and non-branching.
#[derive(Clone, Copy, Debug, PartialEq, Eq, Structural)]
pub enum Instruction {
    /// Pushes the interface argument at `index`.
    ArgumentGet { index: u32 },
    /// Widens a signed 8-bit value to a 32-bit core value.
    I32FromS8,
    /// Widens a signed 16-bit value to a 32-bit core value.
    I32FromS16,
    /// Widens an unsigned 8-bit value to a 32-bit core value.
    I32FromU8,
    /// Widens an unsigned 16-bit value to a 32-bit core value.
    I32FromU16,
    /// Reinterprets an unsigned 32-bit value as a 32-bit core value.
    I32FromU32,
    /// Reinterprets an unsigned 64-bit value as a 64-bit core value.
    I64FromU64,
    /// Narrows a 32-bit core value to signed 8 bits.
    S8FromI32,
    /// Narrows a 32-bit core value to signed 16 bits.
    S16FromI32,
    /// Narrows a 32-bit core value to unsigned 8 bits.
    U8FromI32,
    /// Narrows a 32-bit core value to unsigned 16 bits.
    U16FromI32,
    /// Reinterprets a 32-bit core value as unsigned 32 bits.
    U32FromI32,
    /// Reinterprets a 64-bit core value as unsigned 64 bits.
    U64FromI64,
    /// Replaces the string on top of the stack by its byte length. The
    /// generated prologue re-pushes the value with a second `ArgumentGet`,
    /// which is what keeps the stack balanced through `allocate` and the
    /// lowering that follow.
    StringSize,
    /// Replaces the byte array on top of the stack by its length; the
    /// generated prologue re-pushes the value as for `StringSize`.
    ByteArraySize,
    /// Expects `(string, pointer)` on top; writes the string's UTF-8 bytes
    /// at the pointer and leaves `(pointer, byte_len)`.
    StringLowerMemory,
    /// Expects `(bytes, pointer)` on top; writes the bytes at the pointer
    /// and leaves `(pointer, byte_len)`.
    ByteArrayLowerMemory,
    /// Expects `(pointer, size)` on top; reads and validates UTF-8 bytes
    /// and pushes a string value.
    StringLiftMemory,
    /// Expects `(pointer, size)` on top; reads bytes into an owned array.
    ByteArrayLiftMemory,
    /// Calls the core function with this index: an ABI helper below
    /// `CORE_EXPORT_BASE`, an export of the module otherwise.
    CallCore { function_index: u32 },
    /// Pops a record of this type and pushes its field values in order.
    RecordLower { record_id: u32 },
    /// Pops one value per field, in order, and pushes the assembled record.
    RecordLift { record_id: u32 },
}

/// The core signature of a function reachable through `CallCore`.
#[derive(Debug)]
pub struct CoreFuncType {
    pub params: Vec<CoreType>,
    pub results: Vec<CoreType>,
}

impl View for CoreFuncType {
    type V = (Seq<CoreType>, Seq<CoreType>);

    open spec fn view(&self) -> (Seq<CoreType>, Seq<CoreType>) {
        (self.params@, self.results@)
    }
}

} // verus!
