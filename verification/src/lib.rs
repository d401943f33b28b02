//! A multi-module WebAssembly compute engine core: interface types, an
//! adapter instruction interpreter, memory lowering/lifting over a module
//! ABI, a module registry, and a JSON codec for invocation arguments.
pub mod digest;
pub mod engine;
pub mod host;
pub mod errors;
pub mod generator;
pub mod instr;
pub mod interp;
pub mod itype;
pub mod json;
pub mod laws;
pub mod module;
pub mod trusted;
