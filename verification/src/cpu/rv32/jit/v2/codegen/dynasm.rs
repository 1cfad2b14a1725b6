//! The native backend's compilability check: it handles blocks of ALU
//! instructions only.

use vstd::prelude::*;
use crate::cpu::decode::{OP_LUI, OP_OP, OP_OP_IMM};
use crate::cpu::rv32::icache::CachedInst;
use crate::cpu::rv32::jit::v1::codegen::emit::alu_only;

verus! {

/// Check if a block can be compiled (LUI, OP and OP-IMM instructions only).
pub fn can_compile(instructions: &[CachedInst]) -> (r: bool)
    ensures
        r == alu_only(instructions@),
{
    let mut i: usize = 0;
    while i < instructions.len()
        invariant
            i <= instructions@.len(),
            alu_only(instructions@.take(i as int)),
        decreases instructions@.len() - i,
    {
        let op = instructions[i].opcode as u32;
        if !(op == OP_LUI || op == OP_OP || op == OP_OP_IMM) {
            return false;
        }
        assert(instructions@.take(i + 1) =~= instructions@.take(i as int).push(instructions@[i as int]));
        i = i + 1;
    }
    assert(instructions@.take(i as int) =~= instructions@);
    true
}

} // verus!
