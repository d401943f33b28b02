//! Error kinds surfaced by the engine.
//!
//! Configuration and loading errors are returned before any state change is
//! committed to the registry; execution errors abort the current top-level
//! invocation and surface to the caller.
use vstd::prelude::*;

verus! {

/// Every failure the engine can report.
#[derive(Debug)]
pub enum EngineError {
    /// A module could not be instantiated: a duplicate or missing name, an
    /// oversized memory request, or an exhausted identifier space.
    InstantiationError(String),
    /// No module with this name is loaded.
    NoSuchModule(String),
    /// The module is loaded but exports no function with this name.
    MissingFunction(String),
    /// A declared import (module name, function name) is satisfied neither by
    /// a host import nor by an already-loaded module.
    UnresolvedImport(String, String),
    /// A required module-ABI export with this name is absent.
    MissingAbiExport(String),
    /// A required module-ABI export exists but has the wrong core signature.
    AbiSignatureMismatch(String),
    /// An adapter opcode popped from an empty stack.
    AdapterStackUnderflow,
    /// A popped value did not have the shape an opcode expects.
    AdapterTypeMismatch,
    /// A finished adapter program left the wrong number of values behind.
    AdapterResidualStack,
    /// A narrowing conversion was applied to a value outside the target range.
    NumericRangeExceeded,
    /// Bytes lifted as a string were not valid UTF-8.
    InvalidUtf8,
    /// A linear-memory access of `[start, end)` fell outside a memory of
    /// `memory_size` bytes.
    MemoryAccessOutOfBounds { start: u64, end: u64, memory_size: u64 },
    /// A host-import handler failed; carries the import name and the cause.
    HostImportFailed(String, String),
    /// The underlying core function trapped.
    WasmTrap(String),
    /// A JSON argument did not match the function signature.
    JsonSchemaMismatch,
    /// A record ID that does not resolve in the active registry.
    UnknownRecord(u32),
    /// Two distinct structural shapes claimed the same record name.
    DuplicateRecord(String),
    /// A record field references a record ID that is not yet known.
    UnresolvedRecordRef(u32),
}

impl EngineError {
    /// A short stable tag for each error kind, usable by front-ends.
    pub fn kind_name(&self) -> (r: &'static str)
        ensures
            r@ == self.spec_kind_name(),
    {
        match self {
            EngineError::InstantiationError(_) => "InstantiationError",
            EngineError::NoSuchModule(_) => "NoSuchModule",
            EngineError::MissingFunction(_) => "MissingFunction",
            EngineError::UnresolvedImport(_, _) => "UnresolvedImport",
            EngineError::MissingAbiExport(_) => "MissingAbiExport",
            EngineError::AbiSignatureMismatch(_) => "AbiSignatureMismatch",
            EngineError::AdapterStackUnderflow => "AdapterStackUnderflow",
            EngineError::AdapterTypeMismatch => "AdapterTypeMismatch",
            EngineError::AdapterResidualStack => "AdapterResidualStack",
            EngineError::NumericRangeExceeded => "NumericRangeExceeded",
            EngineError::InvalidUtf8 => "InvalidUtf8",
            EngineError::MemoryAccessOutOfBounds { .. } => "MemoryAccessOutOfBounds",
            EngineError::HostImportFailed(_, _) => "HostImportFailed",
            EngineError::WasmTrap(_) => "WasmTrap",
            EngineError::JsonSchemaMismatch => "JsonSchemaMismatch",
            EngineError::UnknownRecord(_) => "UnknownRecord",
            EngineError::DuplicateRecord(_) => "DuplicateRecord",
            EngineError::UnresolvedRecordRef(_) => "UnresolvedRecordRef",
        }
    }

    /// The tag `kind_name` returns, as a sequence of characters.
    pub open spec fn spec_kind_name(&self) -> Seq<char> {
        match self {
            EngineError::InstantiationError(_) => "InstantiationError"@,
            EngineError::NoSuchModule(_) => "NoSuchModule"@,
            EngineError::MissingFunction(_) => "MissingFunction"@,
            EngineError::UnresolvedImport(_, _) => "UnresolvedImport"@,
            EngineError::MissingAbiExport(_) => "MissingAbiExport"@,
            EngineError::AbiSignatureMismatch(_) => "AbiSignatureMismatch"@,
            EngineError::AdapterStackUnderflow => "AdapterStackUnderflow"@,
            EngineError::AdapterTypeMismatch => "AdapterTypeMismatch"@,
            EngineError::AdapterResidualStack => "AdapterResidualStack"@,
            EngineError::NumericRangeExceeded => "NumericRangeExceeded"@,
            EngineError::InvalidUtf8 => "InvalidUtf8"@,
            EngineError::MemoryAccessOutOfBounds { .. } => "MemoryAccessOutOfBounds"@,
            EngineError::HostImportFailed(_, _) => "HostImportFailed"@,
            EngineError::WasmTrap(_) => "WasmTrap"@,
            EngineError::JsonSchemaMismatch => "JsonSchemaMismatch"@,
            EngineError::UnknownRecord(_) => "UnknownRecord"@,
            EngineError::DuplicateRecord(_) => "DuplicateRecord"@,
            EngineError::UnresolvedRecordRef(_) => "UnresolvedRecordRef"@,
        }
    }
}

} // verus!
