//! Instruction decoder for the 64-bit core: the fields of a 32-bit encoding.

use vstd::prelude::*;
use crate::cpu::decode::{spec_imm_i, spec_imm_s, spec_imm_b, spec_imm_u, spec_imm_j};

verus! {

/// 32-bit register-immediate operations (ADDIW, SLLIW, SRLIW, SRAIW).
pub const OP_OP_IMM_32: u32 = 0b0011011;
/// 32-bit register-register operations (ADDW, SUBW, ..., and the M-extension W forms).
pub const OP_OP_32: u32 = 0b0111011;
/// Load word, zero-extended.
pub const FUNCT3_LWU: u32 = 0b110;
/// Load doubleword.
pub const FUNCT3_LD: u32 = 0b011;

/// Decoded instruction fields. The immediates are extracted on demand by
/// the associated functions and are left zero here.
#[derive(Debug)]
pub struct DecodedInst {
    pub opcode: u32,
    pub rd: u32,
    pub rs1: u32,
    pub rs2: u32,
    pub rs3: u32,
    pub funct3: u32,
    pub funct7: u32,
    pub imm_i: i32,
    pub imm_s: i32,
    pub imm_b: i32,
    pub imm_u: i32,
    pub imm_j: i32,
}

/// The fields of `d` are those of the instruction `inst`.
pub open spec fn decodes64(d: DecodedInst, inst: u32) -> bool {
    &&& d.opcode == inst & 0x7f
    &&& d.rd == (inst >> 7u32) & 0x1f
    &&& d.rs1 == (inst >> 15u32) & 0x1f
    &&& d.rs2 == (inst >> 20u32) & 0x1f
    &&& d.rs3 == (inst >> 27u32) & 0x1f
    &&& d.funct3 == (inst >> 12u32) & 0x7
    &&& d.funct7 == (inst >> 25u32) & 0x7f
    &&& d.imm_i == 0 && d.imm_s == 0 && d.imm_b == 0 && d.imm_u == 0 && d.imm_j == 0
}

impl DecodedInst {
    /// Splits a 32-bit instruction into its register and function fields.
    pub fn decode(inst: u32) -> (d: DecodedInst)
        ensures
            decodes64(d, inst),
    {
        DecodedInst {
            opcode: inst & 0x7F,
            rd: (inst >> 7u32) & 0x1F,
            rs1: (inst >> 15u32) & 0x1F,
            rs2: (inst >> 20u32) & 0x1F,
            rs3: (inst >> 27u32) & 0x1F,
            funct3: (inst >> 12u32) & 0x7,
            funct7: (inst >> 25u32) & 0x7F,
            imm_i: 0,
            imm_s: 0,
            imm_b: 0,
            imm_u: 0,
            imm_j: 0,
        }
    }

    /// I-type immediate.
    pub fn imm_i(inst: u32) -> (r: i32)
        ensures
            r as int == spec_imm_i(inst),
    {
        crate::cpu::decode::imm_i(inst)
    }

    /// S-type immediate.
    pub fn imm_s(inst: u32) -> (r: i32)
        ensures
            r as int == spec_imm_s(inst),
    {
        crate::cpu::decode::imm_s(inst)
    }

    /// B-type immediate.
    pub fn imm_b(inst: u32) -> (r: i32)
        ensures
            r as int == spec_imm_b(inst),
    {
        crate::cpu::decode::imm_b(inst)
    }

    /// U-type immediate.
    pub fn imm_u(inst: u32) -> (r: i32)
        ensures
            r as int == spec_imm_u(inst),
    {
        crate::cpu::decode::imm_u(inst)
    }

    /// J-type immediate.
    pub fn imm_j(inst: u32) -> (r: i32)
        ensures
            r as int == spec_imm_j(inst),
    {
        crate::cpu::decode::imm_j(inst)
    }
}

} // verus!
