//! Code generation backends for block compilation: the interpreter (always
//! available) and WebAssembly emission for ALU-only blocks.

use vstd::prelude::*;
use crate::cpu::trap::Trap;

pub mod emit;
pub mod interp;

verus! {

/// Result of executing compiled code.
#[derive(Debug)]
pub enum CodegenExit {
    /// Continue execution at the given address.
    Continue(u32),
    /// A trap occurred.
    Trap(Trap),
    /// Fall back to the interpreter.
    Fallback,
}

/// Error during code generation.
#[derive(Debug)]
pub enum CodegenError {
    /// Block too complex to compile.
    TooComplex,
    /// Unsupported instruction.
    UnsupportedInstruction(u32),
    /// Backend-specific error.
    BackendError(String),
}

} // verus!
