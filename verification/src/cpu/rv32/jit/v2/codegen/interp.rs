//! The interpreter backend: regions run through the interpreter.

use vstd::prelude::*;

verus! {

/// Interpreter-based code generation (the fallback).
pub struct InterpCodegen;

impl InterpCodegen {
    pub fn new() -> (r: InterpCodegen)
        ensures
            r == InterpCodegen,
    {
        InterpCodegen
    }
}

impl Default for InterpCodegen {
    fn default() -> (r: InterpCodegen)
        ensures
            r == InterpCodegen,
    {
        InterpCodegen::new()
    }
}

} // verus!
