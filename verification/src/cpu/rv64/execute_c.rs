//! The compressed (C) extension on the 64-bit core: each 16-bit
//! instruction is expanded to its 32-bit equivalent and executed.

use vstd::prelude::*;
use crate::cpu::decode::{spec_imm_b, spec_imm_i, spec_imm_s, OP_SYSTEM, OP_LUI, OP_JAL, OP_JALR, OP_BRANCH, OP_LOAD, OP_STORE, OP_OP_IMM, OP_OP,
    OP_LOAD_FP, OP_STORE_FP, FUNCT3_BEQ, FUNCT3_BNE, FUNCT3_BLT, FUNCT3_BGE, FUNCT3_BLTU, FUNCT3_BGEU,
    FUNCT3_LW, FUNCT3_FLD, FUNCT3_ADD_SUB, FUNCT3_SLL, FUNCT3_XOR, FUNCT3_SRL_SRA, FUNCT3_OR, FUNCT3_AND};
use crate::memory::Bus;
use super::{Cpu64, regs_after64};
use super::decode::{DecodedInst, OP_OP_IMM_32, OP_OP_32, FUNCT3_LD};
use super::execute::{from_sgn64, op_of, rd_of, f3_of, spec_branch64};
use super::trap::Trap64;

verus! {

/// The register x8..x15 that a three-bit compressed register field names.
pub open spec fn spec_reg_prime(val: u16) -> u32 {
    (8 + (val as u32 & 0x7)) as u32
}

/// The low `bits` bits of `val`, sign-extended.
pub open spec fn spec_sign_extend(val: u32, bits: u32) -> i32 {
    let shift = (32 - bits) as u32;
    ((val << shift) as i32) >> shift
}

/// An I-type instruction.
pub open spec fn spec_encode_i(op: u32, rd: u32, rs1: u32, funct3: u32, imm: i32) -> u32 {
    let imm_u = (imm as u32) & 0xFFF;
    (imm_u << 20) | (rs1 << 15) | (funct3 << 12) | (rd << 7) | op
}

/// A U-type instruction.
pub open spec fn spec_encode_u(op: u32, rd: u32, imm: i32) -> u32 {
    (imm as u32 & 0xFFFFF000) | (rd << 7) | op
}

/// An R-type instruction.
pub open spec fn spec_encode_r(op: u32, rd: u32, rs1: u32, rs2: u32, funct3: u32, funct7: u32) -> u32 {
    (funct7 << 25) | (rs2 << 20) | (rs1 << 15) | (funct3 << 12) | (rd << 7) | op
}

/// An S-type instruction.
pub open spec fn spec_encode_s(op: u32, rs1: u32, rs2: u32, funct3: u32, imm: i32) -> u32 {
    let imm_u = imm as u32;
    let imm_11_5 = (imm_u >> 5) & 0x7F;
    let imm_4_0 = imm_u & 0x1F;
    (imm_11_5 << 25) | (rs2 << 20) | (rs1 << 15) | (funct3 << 12) | (imm_4_0 << 7) | op
}

/// A B-type instruction.
pub open spec fn spec_encode_b(op: u32, rs1: u32, rs2: u32, funct3: u32, imm: i32) -> u32 {
    let imm_u = imm as u32;
    let imm_12 = (imm_u >> 12) & 1;
    let imm_10_5 = (imm_u >> 5) & 0x3F;
    let imm_4_1 = (imm_u >> 1) & 0xF;
    let imm_11 = (imm_u >> 11) & 1;
    (imm_12 << 31) | (imm_10_5 << 25) | (rs2 << 20) | (rs1 << 15) | (funct3 << 12) |
        (imm_4_1 << 8) | (imm_11 << 7) | op
}

/// A J-type instruction.
pub open spec fn spec_encode_j(op: u32, rd: u32, imm: i32) -> u32 {
    let imm_u = imm as u32;
    let imm_20 = (imm_u >> 20) & 1;
    let imm_10_1 = (imm_u >> 1) & 0x3FF;
    let imm_11 = (imm_u >> 11) & 1;
    let imm_19_12 = (imm_u >> 12) & 0xFF;
    (imm_20 << 31) | (imm_19_12 << 12) | (imm_11 << 20) | (imm_10_1 << 21) | (rd << 7) | op
}

/// The 32-bit instruction that C.ADDI4SPN expands to, if it is a valid encoding.
pub open spec fn spec_c_addi4spn(inst: u16) -> Option<u32> {
    let rd = spec_reg_prime((inst >> 2) & 0x7);
    let imm = ((inst as u32 >> 12) & 1) << 5
        | ((inst as u32 >> 11) & 1) << 4
        | ((inst as u32 >> 7) & 0xF) << 6
        | ((inst as u32 >> 6) & 1) << 2
        | ((inst as u32 >> 5) & 1) << 3;
    if imm == 0 { None } else {
    Some(spec_encode_i(OP_OP_IMM, rd, 2, FUNCT3_ADD_SUB, imm as i32))

    }}

/// The 32-bit instruction that C.LW expands to, if it is a valid encoding.
pub open spec fn spec_c_lw(inst: u16) -> Option<u32> {
    let rd = spec_reg_prime((inst >> 2) & 0x7);
    let rs1 = spec_reg_prime((inst >> 7) & 0x7);
    let imm = ((inst as u32 >> 10) & 0x7) << 3
        | ((inst as u32 >> 6) & 1) << 2
        | ((inst as u32 >> 5) & 1) << 6;
    Some(spec_encode_i(OP_LOAD, rd, rs1, FUNCT3_LW, imm as i32))
}

/// The 32-bit instruction that C.LD expands to, if it is a valid encoding.
pub open spec fn spec_c_ld(inst: u16) -> Option<u32> {
    let rd = spec_reg_prime((inst >> 2) & 0x7);
    let rs1 = spec_reg_prime((inst >> 7) & 0x7);
    let imm = ((inst as u32 >> 10) & 0x7) << 3
        | ((inst as u32 >> 5) & 0x3) << 6;
    Some(spec_encode_i(OP_LOAD, rd, rs1, FUNCT3_LD, imm as i32))
}

/// The 32-bit instruction that C.SW expands to, if it is a valid encoding.
pub open spec fn spec_c_sw(inst: u16) -> Option<u32> {
    let rs2 = spec_reg_prime((inst >> 2) & 0x7);
    let rs1 = spec_reg_prime((inst >> 7) & 0x7);
    let imm = ((inst as u32 >> 10) & 0x7) << 3
        | ((inst as u32 >> 6) & 1) << 2
        | ((inst as u32 >> 5) & 1) << 6;
    Some(spec_encode_s(OP_STORE, rs1, rs2, FUNCT3_LW, imm as i32))
}

/// The 32-bit instruction that C.SD expands to, if it is a valid encoding.
pub open spec fn spec_c_sd(inst: u16) -> Option<u32> {
    let rs2 = spec_reg_prime((inst >> 2) & 0x7);
    let rs1 = spec_reg_prime((inst >> 7) & 0x7);
    let imm = ((inst as u32 >> 10) & 0x7) << 3
        | ((inst as u32 >> 5) & 0x3) << 6;
    Some(spec_encode_s(OP_STORE, rs1, rs2, FUNCT3_LD, imm as i32))
}

/// The 32-bit instruction that C.FLD expands to, if it is a valid encoding.
pub open spec fn spec_c_fld(inst: u16) -> Option<u32> {
    let rd = spec_reg_prime((inst >> 2) & 0x7);
    let rs1 = spec_reg_prime((inst >> 7) & 0x7);
    let imm = ((inst as u32 >> 10) & 0x7) << 3
        | ((inst as u32 >> 5) & 0x3) << 6;
    Some(spec_encode_i(OP_LOAD_FP, rd, rs1, FUNCT3_FLD, imm as i32))
}

/// The 32-bit instruction that C.FSD expands to, if it is a valid encoding.
pub open spec fn spec_c_fsd(inst: u16) -> Option<u32> {
    let rs2 = spec_reg_prime((inst >> 2) & 0x7);
    let rs1 = spec_reg_prime((inst >> 7) & 0x7);
    let imm = ((inst as u32 >> 10) & 0x7) << 3
        | ((inst as u32 >> 5) & 0x3) << 6;
    Some(spec_encode_s(OP_STORE_FP, rs1, rs2, FUNCT3_FLD, imm as i32))
}

/// The 32-bit instruction that C.ADDI expands to, if it is a valid encoding.
pub open spec fn spec_c_addi(inst: u16) -> Option<u32> {
    let rd = ((inst >> 7) & 0x1F) as u32;
    let imm = spec_sign_extend(((inst as u32 >> 2) & 0x1F) | ((inst as u32 >> 12) & 1) << 5, 6);
    if rd == 0 && imm == 0 { Some(spec_encode_i(OP_OP_IMM, 0, 0, FUNCT3_ADD_SUB, 0)) } else {
    Some(spec_encode_i(OP_OP_IMM, rd, rd, FUNCT3_ADD_SUB, imm))

    }}

/// The 32-bit instruction that C.ADDIW expands to, if it is a valid encoding.
pub open spec fn spec_c_addiw(inst: u16) -> Option<u32> {
    let rd = ((inst >> 7) & 0x1F) as u32;
    let imm = spec_sign_extend(((inst as u32 >> 2) & 0x1F) | ((inst as u32 >> 12) & 1) << 5, 6);
    Some(spec_encode_i(OP_OP_IMM_32, rd, rd, FUNCT3_ADD_SUB, imm))
}

/// The 32-bit instruction that C.LI expands to, if it is a valid encoding.
pub open spec fn spec_c_li(inst: u16) -> Option<u32> {
    let rd = ((inst >> 7) & 0x1F) as u32;
    let imm = spec_sign_extend(((inst as u32 >> 2) & 0x1F) | ((inst as u32 >> 12) & 1) << 5, 6);
    Some(spec_encode_i(OP_OP_IMM, rd, 0, FUNCT3_ADD_SUB, imm))
}

/// The 32-bit instruction that C.ADDI16SP.LUI expands to, if it is a valid encoding.
pub open spec fn spec_c_addi16sp_lui(inst: u16) -> Option<u32> {
    let rd = ((inst >> 7) & 0x1F) as u32;
    if rd == 2 {
        let imm = ((inst as u32 >> 12) & 1) << 9
            | ((inst as u32 >> 3) & 0x3) << 7
            | ((inst as u32 >> 5) & 1) << 6
            | ((inst as u32 >> 2) & 1) << 5
            | ((inst as u32 >> 6) & 1) << 4;
        let imm = spec_sign_extend(imm, 10);
        Some(spec_encode_i(OP_OP_IMM, 2, 2, FUNCT3_ADD_SUB, imm))
    } else {
        let imm = spec_sign_extend(((inst as u32 >> 12) & 1) << 5 | ((inst as u32 >> 2) & 0x1F), 6);
        if imm == 0 { None } else {
        Some(spec_encode_u(OP_LUI, rd, imm << 12))
    }

    }}

/// The 32-bit instruction that C.ALU.IMM expands to, if it is a valid encoding.
pub open spec fn spec_c_alu_imm(inst: u16) -> Option<u32> {
    let subop = (inst >> 10) & 0x3;
    let rs1 = spec_reg_prime((inst >> 7) & 0x7);

    match subop {
        0b00 => {
            let shamt = ((inst as u32 >> 2) & 0x1F) | (((inst as u32 >> 12) & 1) << 5);
            Some(spec_encode_i(OP_OP_IMM, rs1, rs1, FUNCT3_SRL_SRA, shamt as i32))
        }
        0b01 => {
            let shamt = ((inst as u32 >> 2) & 0x1F) | (((inst as u32 >> 12) & 1) << 5);
            Some(spec_encode_i(OP_OP_IMM, rs1, rs1, FUNCT3_SRL_SRA, (0b010000 << 6) as i32 | shamt as i32))
        }
        0b10 => {
            let imm = spec_sign_extend(((inst as u32 >> 2) & 0x1F) | ((inst as u32 >> 12) & 1) << 5, 6);
            Some(spec_encode_i(OP_OP_IMM, rs1, rs1, FUNCT3_AND, imm))
        }
        0b11 => spec_c_alu_reg(inst),
        _ => None,
    }
}

/// The 32-bit instruction that C.ALU.REG expands to, if it is a valid encoding.
pub open spec fn spec_c_alu_reg(inst: u16) -> Option<u32> {
    let rs1 = spec_reg_prime((inst >> 7) & 0x7);
    let rs2 = spec_reg_prime((inst >> 2) & 0x7);
    let funct2 = (inst >> 5) & 0x3;
    let is_w = ((inst >> 12) & 1) != 0;
    if !is_w {
        if funct2 == 0 { Some(spec_encode_r(OP_OP, rs1, rs1, rs2, FUNCT3_ADD_SUB, 0b0100000)) }
        else if funct2 == 1 { Some(spec_encode_r(OP_OP, rs1, rs1, rs2, FUNCT3_XOR, 0)) }
        else if funct2 == 2 { Some(spec_encode_r(OP_OP, rs1, rs1, rs2, FUNCT3_OR, 0)) }
        else if funct2 == 3 { Some(spec_encode_r(OP_OP, rs1, rs1, rs2, FUNCT3_AND, 0)) }
        else { None }
    } else {
        if funct2 == 0 { Some(spec_encode_r(OP_OP_32, rs1, rs1, rs2, FUNCT3_ADD_SUB, 0b0100000)) }
        else if funct2 == 1 { Some(spec_encode_r(OP_OP_32, rs1, rs1, rs2, FUNCT3_ADD_SUB, 0)) }
        else { None }
    }
}

/// The 32-bit instruction that C.J expands to, if it is a valid encoding.
pub open spec fn spec_c_j(inst: u16) -> Option<u32> {
    let imm = spec_decode_cj_imm(inst);
    Some(spec_encode_j(OP_JAL, 0, imm))
}

/// The 32-bit instruction that C.BEQZ expands to, if it is a valid encoding.
pub open spec fn spec_c_beqz(inst: u16) -> Option<u32> {
    let rs1 = spec_reg_prime((inst >> 7) & 0x7);
    let imm = spec_decode_cb_imm(inst);
    Some(spec_encode_b(OP_BRANCH, rs1, 0, FUNCT3_BEQ, imm))
}

/// The 32-bit instruction that C.BNEZ expands to, if it is a valid encoding.
pub open spec fn spec_c_bnez(inst: u16) -> Option<u32> {
    let rs1 = spec_reg_prime((inst >> 7) & 0x7);
    let imm = spec_decode_cb_imm(inst);
    Some(spec_encode_b(OP_BRANCH, rs1, 0, FUNCT3_BNE, imm))
}

/// The 32-bit instruction that C.SLLI expands to, if it is a valid encoding.
pub open spec fn spec_c_slli(inst: u16) -> Option<u32> {
    let rd = ((inst >> 7) & 0x1F) as u32;
    let shamt = ((inst as u32 >> 2) & 0x1F) | (((inst as u32 >> 12) & 1) << 5);
    Some(spec_encode_i(OP_OP_IMM, rd, rd, FUNCT3_SLL, shamt as i32))
}

/// The 32-bit instruction that C.LWSP expands to, if it is a valid encoding.
pub open spec fn spec_c_lwsp(inst: u16) -> Option<u32> {
    let rd = ((inst >> 7) & 0x1F) as u32;
    if rd == 0 { None } else {
    let imm = ((inst as u32 >> 12) & 1) << 5
        | ((inst as u32 >> 4) & 0x7) << 2
        | ((inst as u32 >> 2) & 0x3) << 6;
    Some(spec_encode_i(OP_LOAD, rd, 2, FUNCT3_LW, imm as i32))

    }}

/// The 32-bit instruction that C.LDSP expands to, if it is a valid encoding.
pub open spec fn spec_c_ldsp(inst: u16) -> Option<u32> {
    let rd = ((inst >> 7) & 0x1F) as u32;
    if rd == 0 { None } else {
    let imm = ((inst as u32 >> 12) & 1) << 5
        | ((inst as u32 >> 5) & 0x3) << 3
        | ((inst as u32 >> 2) & 0x7) << 6;
    Some(spec_encode_i(OP_LOAD, rd, 2, FUNCT3_LD, imm as i32))

    }}

/// The 32-bit instruction that C.MISC.ALU expands to, if it is a valid encoding.
pub open spec fn spec_c_misc_alu(inst: u16) -> Option<u32> {
    let rd = ((inst >> 7) & 0x1F) as u32;
    let rs2 = ((inst >> 2) & 0x1F) as u32;
    let bit12 = (inst >> 12) & 1;

    if bit12 == 0 {
        if rs2 == 0 {
            if rd == 0 {
                None
            } else {
                Some(spec_encode_i(OP_JALR, 0, rd, FUNCT3_ADD_SUB, 0))
            }
        } else {
            Some(spec_encode_r(OP_OP, rd, 0, rs2, FUNCT3_ADD_SUB, 0))
        }
    } else {
        if rs2 == 0 {
            if rd == 0 {
                Some(0x0010_0073)
            } else {
                Some(spec_encode_i(OP_JALR, 1, rd, FUNCT3_ADD_SUB, 0))
            }
        } else {
            Some(spec_encode_r(OP_OP, rd, rd, rs2, FUNCT3_ADD_SUB, 0))
        }
    }
}

/// The 32-bit instruction that C.SWSP expands to, if it is a valid encoding.
pub open spec fn spec_c_swsp(inst: u16) -> Option<u32> {
    let rs2 = ((inst >> 2) & 0x1F) as u32;
    let imm = ((inst as u32 >> 9) & 0xF) << 2
        | ((inst as u32 >> 7) & 0x3) << 6;
    Some(spec_encode_s(OP_STORE, 2, rs2, FUNCT3_LW, imm as i32))
}

/// The 32-bit instruction that C.SDSP expands to, if it is a valid encoding.
pub open spec fn spec_c_sdsp(inst: u16) -> Option<u32> {
    let rs2 = ((inst >> 2) & 0x1F) as u32;
    let imm = ((inst as u32 >> 10) & 0x7) << 3
        | ((inst as u32 >> 7) & 0x7) << 6;
    Some(spec_encode_s(OP_STORE, 2, rs2, FUNCT3_LD, imm as i32))
}

/// The 32-bit instruction that C.FLDSP expands to, if it is a valid encoding.
pub open spec fn spec_c_fldsp(inst: u16) -> Option<u32> {
    let rd = ((inst >> 7) & 0x1F) as u32;
    let imm = ((inst as u32 >> 12) & 0x1) << 5
        | ((inst as u32 >> 5) & 0x3) << 3
        | ((inst as u32 >> 2) & 0x7) << 6;
    Some(spec_encode_i(OP_LOAD_FP, rd, 2, FUNCT3_FLD, imm as i32))
}

/// The 32-bit instruction that C.FSDSP expands to, if it is a valid encoding.
pub open spec fn spec_c_fsdsp(inst: u16) -> Option<u32> {
    let rs2 = ((inst >> 2) & 0x1F) as u32;
    let imm = ((inst as u32 >> 10) & 0x7) << 3
        | ((inst as u32 >> 7) & 0x7) << 6;
    Some(spec_encode_s(OP_STORE_FP, 2, rs2, FUNCT3_FLD, imm as i32))
}

/// The jump offset of a CJ-format instruction.
pub open spec fn spec_decode_cj_imm(inst: u16) -> i32 {
    let imm = ((inst as u32 >> 12) & 1) << 11
        | ((inst as u32 >> 8) & 0x1) << 10
        | ((inst as u32 >> 9) & 0x3) << 8
        | ((inst as u32 >> 6) & 0x1) << 7
        | ((inst as u32 >> 7) & 0x1) << 6
        | ((inst as u32 >> 2) & 0x1) << 5
        | ((inst as u32 >> 11) & 0x1) << 4
        | ((inst as u32 >> 3) & 0x7) << 1;
    spec_sign_extend(imm, 12)
}

/// The branch offset of a CB-format instruction.
pub open spec fn spec_decode_cb_imm(inst: u16) -> i32 {
    let imm = ((inst as u32 >> 12) & 1) << 8
        | ((inst as u32 >> 5) & 0x3) << 6
        | ((inst as u32 >> 2) & 0x1) << 5
        | ((inst as u32 >> 10) & 0x3) << 3
        | ((inst as u32 >> 3) & 0x3) << 1;
    spec_sign_extend(imm, 9)
}

fn reg_prime(val: u16) -> (r: u32)
    ensures
        r == spec_reg_prime(val),
{
    proof { crate::bits::lemma_u32_shift_mask(); }
    8 + (val as u32 & 0x7)
}

fn sign_extend(val: u32, bits: u32) -> (r: i32)
    requires
        1 <= bits <= 32,
    ensures
        r == spec_sign_extend(val, bits),
{
    let shift = 32 - bits;
    ((val << shift) as i32) >> shift
}

fn encode_i(op: u32, rd: u32, rs1: u32, funct3: u32, imm: i32) -> (r: u32)
    ensures
        r == spec_encode_i(op, rd, rs1, funct3, imm),
{
    let imm_u = (imm as u32) & 0xFFF;
    (imm_u << 20) | (rs1 << 15) | (funct3 << 12) | (rd << 7) | op
}

fn encode_u(op: u32, rd: u32, imm: i32) -> (r: u32)
    ensures
        r == spec_encode_u(op, rd, imm),
{
    (imm as u32 & 0xFFFFF000) | (rd << 7) | op
}

fn encode_r(op: u32, rd: u32, rs1: u32, rs2: u32, funct3: u32, funct7: u32) -> (r: u32)
    ensures
        r == spec_encode_r(op, rd, rs1, rs2, funct3, funct7),
{
    (funct7 << 25) | (rs2 << 20) | (rs1 << 15) | (funct3 << 12) | (rd << 7) | op
}

fn encode_s(op: u32, rs1: u32, rs2: u32, funct3: u32, imm: i32) -> (r: u32)
    ensures
        r == spec_encode_s(op, rs1, rs2, funct3, imm),
{
    let imm_u = imm as u32;
    let imm_11_5 = (imm_u >> 5) & 0x7F;
    let imm_4_0 = imm_u & 0x1F;
    (imm_11_5 << 25) | (rs2 << 20) | (rs1 << 15) | (funct3 << 12) | (imm_4_0 << 7) | op
}

fn encode_b(op: u32, rs1: u32, rs2: u32, funct3: u32, imm: i32) -> (r: u32)
    ensures
        r == spec_encode_b(op, rs1, rs2, funct3, imm),
{
    let imm_u = imm as u32;
    let imm_12 = (imm_u >> 12) & 1;
    let imm_10_5 = (imm_u >> 5) & 0x3F;
    let imm_4_1 = (imm_u >> 1) & 0xF;
    let imm_11 = (imm_u >> 11) & 1;
    (imm_12 << 31) | (imm_10_5 << 25) | (rs2 << 20) | (rs1 << 15) | (funct3 << 12) |
        (imm_4_1 << 8) | (imm_11 << 7) | op
}

fn encode_j(op: u32, rd: u32, imm: i32) -> (r: u32)
    ensures
        r == spec_encode_j(op, rd, imm),
{
    let imm_u = imm as u32;
    let imm_20 = (imm_u >> 20) & 1;
    let imm_10_1 = (imm_u >> 1) & 0x3FF;
    let imm_11 = (imm_u >> 11) & 1;
    let imm_19_12 = (imm_u >> 12) & 0xFF;
    (imm_20 << 31) | (imm_19_12 << 12) | (imm_11 << 20) | (imm_10_1 << 21) | (rd << 7) | op
}

fn c_addi4spn(inst: u16) -> (r: Option<u32>)
    ensures
        r == spec_c_addi4spn(inst),
{
    let rd = reg_prime((inst >> 2) & 0x7);
    let imm = ((inst as u32 >> 12) & 1) << 5
        | ((inst as u32 >> 11) & 1) << 4
        | ((inst as u32 >> 7) & 0xF) << 6
        | ((inst as u32 >> 6) & 1) << 2
        | ((inst as u32 >> 5) & 1) << 3;
    if imm == 0 {
        return None;
    }
    Some(encode_i(OP_OP_IMM, rd, 2, FUNCT3_ADD_SUB, imm as i32))
}

fn c_lw(inst: u16) -> (r: Option<u32>)
    ensures
        r == spec_c_lw(inst),
{
    let rd = reg_prime((inst >> 2) & 0x7);
    let rs1 = reg_prime((inst >> 7) & 0x7);
    let imm = ((inst as u32 >> 10) & 0x7) << 3
        | ((inst as u32 >> 6) & 1) << 2
        | ((inst as u32 >> 5) & 1) << 6;
    Some(encode_i(OP_LOAD, rd, rs1, FUNCT3_LW, imm as i32))
}

fn c_ld(inst: u16) -> (r: Option<u32>)
    ensures
        r == spec_c_ld(inst),
{
    let rd = reg_prime((inst >> 2) & 0x7);
    let rs1 = reg_prime((inst >> 7) & 0x7);
    let imm = ((inst as u32 >> 10) & 0x7) << 3
        | ((inst as u32 >> 5) & 0x3) << 6;
    Some(encode_i(OP_LOAD, rd, rs1, FUNCT3_LD, imm as i32))
}

fn c_sw(inst: u16) -> (r: Option<u32>)
    ensures
        r == spec_c_sw(inst),
{
    let rs2 = reg_prime((inst >> 2) & 0x7);
    let rs1 = reg_prime((inst >> 7) & 0x7);
    let imm = ((inst as u32 >> 10) & 0x7) << 3
        | ((inst as u32 >> 6) & 1) << 2
        | ((inst as u32 >> 5) & 1) << 6;
    Some(encode_s(OP_STORE, rs1, rs2, FUNCT3_LW, imm as i32))
}

fn c_sd(inst: u16) -> (r: Option<u32>)
    ensures
        r == spec_c_sd(inst),
{
    let rs2 = reg_prime((inst >> 2) & 0x7);
    let rs1 = reg_prime((inst >> 7) & 0x7);
    let imm = ((inst as u32 >> 10) & 0x7) << 3
        | ((inst as u32 >> 5) & 0x3) << 6;
    Some(encode_s(OP_STORE, rs1, rs2, FUNCT3_LD, imm as i32))
}

fn c_fld(inst: u16) -> (r: Option<u32>)
    ensures
        r == spec_c_fld(inst),
{
    let rd = reg_prime((inst >> 2) & 0x7);
    let rs1 = reg_prime((inst >> 7) & 0x7);
    let imm = ((inst as u32 >> 10) & 0x7) << 3
        | ((inst as u32 >> 5) & 0x3) << 6;
    Some(encode_i(OP_LOAD_FP, rd, rs1, FUNCT3_FLD, imm as i32))
}

fn c_fsd(inst: u16) -> (r: Option<u32>)
    ensures
        r == spec_c_fsd(inst),
{
    let rs2 = reg_prime((inst >> 2) & 0x7);
    let rs1 = reg_prime((inst >> 7) & 0x7);
    let imm = ((inst as u32 >> 10) & 0x7) << 3
        | ((inst as u32 >> 5) & 0x3) << 6;
    Some(encode_s(OP_STORE_FP, rs1, rs2, FUNCT3_FLD, imm as i32))
}

fn c_addi(inst: u16) -> (r: Option<u32>)
    ensures
        r == spec_c_addi(inst),
{
    let rd = ((inst >> 7) & 0x1F) as u32;
    let imm = sign_extend(((inst as u32 >> 2) & 0x1F) | ((inst as u32 >> 12) & 1) << 5, 6);
    if rd == 0 && imm == 0 {
        return Some(encode_i(OP_OP_IMM, 0, 0, FUNCT3_ADD_SUB, 0));
    }
    Some(encode_i(OP_OP_IMM, rd, rd, FUNCT3_ADD_SUB, imm))
}

fn c_addiw(inst: u16) -> (r: Option<u32>)
    ensures
        r == spec_c_addiw(inst),
{
    let rd = ((inst >> 7) & 0x1F) as u32;
    let imm = sign_extend(((inst as u32 >> 2) & 0x1F) | ((inst as u32 >> 12) & 1) << 5, 6);
    Some(encode_i(OP_OP_IMM_32, rd, rd, FUNCT3_ADD_SUB, imm))
}

fn c_li(inst: u16) -> (r: Option<u32>)
    ensures
        r == spec_c_li(inst),
{
    let rd = ((inst >> 7) & 0x1F) as u32;
    let imm = sign_extend(((inst as u32 >> 2) & 0x1F) | ((inst as u32 >> 12) & 1) << 5, 6);
    Some(encode_i(OP_OP_IMM, rd, 0, FUNCT3_ADD_SUB, imm))
}

fn c_addi16sp_lui(inst: u16) -> (r: Option<u32>)
    ensures
        r == spec_c_addi16sp_lui(inst),
{
    let rd = ((inst >> 7) & 0x1F) as u32;
    if rd == 2 {
        let imm = ((inst as u32 >> 12) & 1) << 9
            | ((inst as u32 >> 3) & 0x3) << 7
            | ((inst as u32 >> 5) & 1) << 6
            | ((inst as u32 >> 2) & 1) << 5
            | ((inst as u32 >> 6) & 1) << 4;
        let imm = sign_extend(imm, 10);
        Some(encode_i(OP_OP_IMM, 2, 2, FUNCT3_ADD_SUB, imm))
    } else {
        let imm = sign_extend(((inst as u32 >> 12) & 1) << 5 | ((inst as u32 >> 2) & 0x1F), 6);
        if imm == 0 {
            return None;
        }
        Some(encode_u(OP_LUI, rd, imm << 12))
    }
}

fn c_alu_imm(inst: u16) -> (r: Option<u32>)
    ensures
        r == spec_c_alu_imm(inst),
{
    let subop = (inst >> 10) & 0x3;
    let rs1 = reg_prime((inst >> 7) & 0x7);

    match subop {
        0b00 => {
            let shamt = ((inst as u32 >> 2) & 0x1F) | (((inst as u32 >> 12) & 1) << 5);
            Some(encode_i(OP_OP_IMM, rs1, rs1, FUNCT3_SRL_SRA, shamt as i32))
        }
        0b01 => {
            let shamt = ((inst as u32 >> 2) & 0x1F) | (((inst as u32 >> 12) & 1) << 5);
            Some(encode_i(OP_OP_IMM, rs1, rs1, FUNCT3_SRL_SRA, (0b010000 << 6) as i32 | shamt as i32))
        }
        0b10 => {
            let imm = sign_extend(((inst as u32 >> 2) & 0x1F) | ((inst as u32 >> 12) & 1) << 5, 6);
            Some(encode_i(OP_OP_IMM, rs1, rs1, FUNCT3_AND, imm))
        }
        0b11 => c_alu_reg(inst),
        _ => None,
    }
}

fn c_alu_reg(inst: u16) -> (r: Option<u32>)
    ensures
        r == spec_c_alu_reg(inst),
{
    let rs1 = reg_prime((inst >> 7) & 0x7);
    let rs2 = reg_prime((inst >> 2) & 0x7);
    let funct2 = (inst >> 5) & 0x3;
    let is_w = ((inst >> 12) & 1) != 0;

    if !is_w {
        let (funct3, funct7) = match funct2 {
            0b00 => (FUNCT3_ADD_SUB, 0b0100000),
            0b01 => (FUNCT3_XOR, 0b0000000),
            0b10 => (FUNCT3_OR, 0b0000000),
            0b11 => (FUNCT3_AND, 0b0000000),
            _ => return None,
        };
        Some(encode_r(OP_OP, rs1, rs1, rs2, funct3, funct7))
    } else {
        let (funct3, funct7) = match funct2 {
            0b00 => (FUNCT3_ADD_SUB, 0b0100000),
            0b01 => (FUNCT3_ADD_SUB, 0b0000000),
            _ => return None,
        };
        Some(encode_r(OP_OP_32, rs1, rs1, rs2, funct3, funct7))
    }
}

fn c_j(inst: u16) -> (r: Option<u32>)
    ensures
        r == spec_c_j(inst),
{
    let imm = decode_cj_imm(inst);
    Some(encode_j(OP_JAL, 0, imm))
}

fn c_beqz(inst: u16) -> (r: Option<u32>)
    ensures
        r == spec_c_beqz(inst),
{
    let rs1 = reg_prime((inst >> 7) & 0x7);
    let imm = decode_cb_imm(inst);
    Some(encode_b(OP_BRANCH, rs1, 0, FUNCT3_BEQ, imm))
}

fn c_bnez(inst: u16) -> (r: Option<u32>)
    ensures
        r == spec_c_bnez(inst),
{
    let rs1 = reg_prime((inst >> 7) & 0x7);
    let imm = decode_cb_imm(inst);
    Some(encode_b(OP_BRANCH, rs1, 0, FUNCT3_BNE, imm))
}

fn c_slli(inst: u16) -> (r: Option<u32>)
    ensures
        r == spec_c_slli(inst),
{
    let rd = ((inst >> 7) & 0x1F) as u32;
    let shamt = ((inst as u32 >> 2) & 0x1F) | (((inst as u32 >> 12) & 1) << 5);
    Some(encode_i(OP_OP_IMM, rd, rd, FUNCT3_SLL, shamt as i32))
}

fn c_lwsp(inst: u16) -> (r: Option<u32>)
    ensures
        r == spec_c_lwsp(inst),
{
    let rd = ((inst >> 7) & 0x1F) as u32;
    if rd == 0 {
        return None;
    }
    let imm = ((inst as u32 >> 12) & 1) << 5
        | ((inst as u32 >> 4) & 0x7) << 2
        | ((inst as u32 >> 2) & 0x3) << 6;
    Some(encode_i(OP_LOAD, rd, 2, FUNCT3_LW, imm as i32))
}

fn c_ldsp(inst: u16) -> (r: Option<u32>)
    ensures
        r == spec_c_ldsp(inst),
{
    let rd = ((inst >> 7) & 0x1F) as u32;
    if rd == 0 {
        return None;
    }
    let imm = ((inst as u32 >> 12) & 1) << 5
        | ((inst as u32 >> 5) & 0x3) << 3
        | ((inst as u32 >> 2) & 0x7) << 6;
    Some(encode_i(OP_LOAD, rd, 2, FUNCT3_LD, imm as i32))
}

fn c_misc_alu(inst: u16) -> (r: Option<u32>)
    ensures
        r == spec_c_misc_alu(inst),
{
    let rd = ((inst >> 7) & 0x1F) as u32;
    let rs2 = ((inst >> 2) & 0x1F) as u32;
    let bit12 = (inst >> 12) & 1;

    if bit12 == 0 {
        if rs2 == 0 {
            if rd == 0 {
                None
            } else {
                Some(encode_i(OP_JALR, 0, rd, FUNCT3_ADD_SUB, 0))
            }
        } else {
            Some(encode_r(OP_OP, rd, 0, rs2, FUNCT3_ADD_SUB, 0))
        }
    } else {
        if rs2 == 0 {
            if rd == 0 {
                Some(0x0010_0073)
            } else {
                Some(encode_i(OP_JALR, 1, rd, FUNCT3_ADD_SUB, 0))
            }
        } else {
            Some(encode_r(OP_OP, rd, rd, rs2, FUNCT3_ADD_SUB, 0))
        }
    }
}

fn c_swsp(inst: u16) -> (r: Option<u32>)
    ensures
        r == spec_c_swsp(inst),
{
    let rs2 = ((inst >> 2) & 0x1F) as u32;
    let imm = ((inst as u32 >> 9) & 0xF) << 2
        | ((inst as u32 >> 7) & 0x3) << 6;
    Some(encode_s(OP_STORE, 2, rs2, FUNCT3_LW, imm as i32))
}

fn c_sdsp(inst: u16) -> (r: Option<u32>)
    ensures
        r == spec_c_sdsp(inst),
{
    let rs2 = ((inst >> 2) & 0x1F) as u32;
    let imm = ((inst as u32 >> 10) & 0x7) << 3
        | ((inst as u32 >> 7) & 0x7) << 6;
    Some(encode_s(OP_STORE, 2, rs2, FUNCT3_LD, imm as i32))
}

fn c_fldsp(inst: u16) -> (r: Option<u32>)
    ensures
        r == spec_c_fldsp(inst),
{
    let rd = ((inst >> 7) & 0x1F) as u32;
    let imm = ((inst as u32 >> 12) & 0x1) << 5
        | ((inst as u32 >> 5) & 0x3) << 3
        | ((inst as u32 >> 2) & 0x7) << 6;
    Some(encode_i(OP_LOAD_FP, rd, 2, FUNCT3_FLD, imm as i32))
}

fn c_fsdsp(inst: u16) -> (r: Option<u32>)
    ensures
        r == spec_c_fsdsp(inst),
{
    let rs2 = ((inst >> 2) & 0x1F) as u32;
    let imm = ((inst as u32 >> 10) & 0x7) << 3
        | ((inst as u32 >> 7) & 0x7) << 6;
    Some(encode_s(OP_STORE_FP, 2, rs2, FUNCT3_FLD, imm as i32))
}

fn decode_cj_imm(inst: u16) -> (r: i32)
    ensures
        r == spec_decode_cj_imm(inst),
{
    let imm = ((inst as u32 >> 12) & 1) << 11
        | ((inst as u32 >> 8) & 0x1) << 10
        | ((inst as u32 >> 9) & 0x3) << 8
        | ((inst as u32 >> 6) & 0x1) << 7
        | ((inst as u32 >> 7) & 0x1) << 6
        | ((inst as u32 >> 2) & 0x1) << 5
        | ((inst as u32 >> 11) & 0x1) << 4
        | ((inst as u32 >> 3) & 0x7) << 1;
    sign_extend(imm, 12)
}

fn decode_cb_imm(inst: u16) -> (r: i32)
    ensures
        r == spec_decode_cb_imm(inst),
{
    let imm = ((inst as u32 >> 12) & 1) << 8
        | ((inst as u32 >> 5) & 0x3) << 6
        | ((inst as u32 >> 2) & 0x1) << 5
        | ((inst as u32 >> 10) & 0x3) << 3
        | ((inst as u32 >> 3) & 0x3) << 1;
    sign_extend(imm, 9)
}

/// The 32-bit instruction a 16-bit compressed instruction stands for, or
/// `None` for a reserved or unknown encoding.
#[verifier::opaque]
pub open spec fn spec_expand_compressed(inst: u16) -> Option<u32> {
    let opcode = inst & 0b11;
    let funct3 = (inst >> 13u16) & 0b111;
    if funct3 == 0b000 && opcode == 0b00 { spec_c_addi4spn(inst) }
    else if funct3 == 0b001 && opcode == 0b00 { spec_c_fld(inst) }
    else if funct3 == 0b010 && opcode == 0b00 { spec_c_lw(inst) }
    else if funct3 == 0b011 && opcode == 0b00 { spec_c_ld(inst) }
    else if funct3 == 0b101 && opcode == 0b00 { spec_c_fsd(inst) }
    else if funct3 == 0b110 && opcode == 0b00 { spec_c_sw(inst) }
    else if funct3 == 0b111 && opcode == 0b00 { spec_c_sd(inst) }
    else if funct3 == 0b000 && opcode == 0b01 { spec_c_addi(inst) }
    else if funct3 == 0b001 && opcode == 0b01 { spec_c_addiw(inst) }
    else if funct3 == 0b010 && opcode == 0b01 { spec_c_li(inst) }
    else if funct3 == 0b011 && opcode == 0b01 { spec_c_addi16sp_lui(inst) }
    else if funct3 == 0b100 && opcode == 0b01 { spec_c_alu_imm(inst) }
    else if funct3 == 0b101 && opcode == 0b01 { spec_c_j(inst) }
    else if funct3 == 0b110 && opcode == 0b01 { spec_c_beqz(inst) }
    else if funct3 == 0b111 && opcode == 0b01 { spec_c_bnez(inst) }
    else if funct3 == 0b000 && opcode == 0b10 { spec_c_slli(inst) }
    else if funct3 == 0b001 && opcode == 0b10 { spec_c_fldsp(inst) }
    else if funct3 == 0b010 && opcode == 0b10 { spec_c_lwsp(inst) }
    else if funct3 == 0b011 && opcode == 0b10 { spec_c_ldsp(inst) }
    else if funct3 == 0b100 && opcode == 0b10 { spec_c_misc_alu(inst) }
    else if funct3 == 0b101 && opcode == 0b10 { spec_c_fsdsp(inst) }
    else if funct3 == 0b110 && opcode == 0b10 { spec_c_swsp(inst) }
    else if funct3 == 0b111 && opcode == 0b10 { spec_c_sdsp(inst) }
    else { None }
}

/// Expands a 16-bit compressed instruction to its 32-bit equivalent.
pub fn expand_compressed(inst: u16) -> (r: Option<u32>)
    ensures
        r == spec_expand_compressed(inst),
{
    proof { reveal(spec_expand_compressed); }
    let opcode = inst & 0b11;
    let funct3 = (inst >> 13u16) & 0b111;
    if funct3 == 0b000 && opcode == 0b00 { c_addi4spn(inst) }
    else if funct3 == 0b001 && opcode == 0b00 { c_fld(inst) }
    else if funct3 == 0b010 && opcode == 0b00 { c_lw(inst) }
    else if funct3 == 0b011 && opcode == 0b00 { c_ld(inst) }
    else if funct3 == 0b101 && opcode == 0b00 { c_fsd(inst) }
    else if funct3 == 0b110 && opcode == 0b00 { c_sw(inst) }
    else if funct3 == 0b111 && opcode == 0b00 { c_sd(inst) }
    else if funct3 == 0b000 && opcode == 0b01 { c_addi(inst) }
    else if funct3 == 0b001 && opcode == 0b01 { c_addiw(inst) }
    else if funct3 == 0b010 && opcode == 0b01 { c_li(inst) }
    else if funct3 == 0b011 && opcode == 0b01 { c_addi16sp_lui(inst) }
    else if funct3 == 0b100 && opcode == 0b01 { c_alu_imm(inst) }
    else if funct3 == 0b101 && opcode == 0b01 { c_j(inst) }
    else if funct3 == 0b110 && opcode == 0b01 { c_beqz(inst) }
    else if funct3 == 0b111 && opcode == 0b01 { c_bnez(inst) }
    else if funct3 == 0b000 && opcode == 0b10 { c_slli(inst) }
    else if funct3 == 0b001 && opcode == 0b10 { c_fldsp(inst) }
    else if funct3 == 0b010 && opcode == 0b10 { c_lwsp(inst) }
    else if funct3 == 0b011 && opcode == 0b10 { c_ldsp(inst) }
    else if funct3 == 0b100 && opcode == 0b10 { c_misc_alu(inst) }
    else if funct3 == 0b101 && opcode == 0b10 { c_fsdsp(inst) }
    else if funct3 == 0b110 && opcode == 0b10 { c_swsp(inst) }
    else if funct3 == 0b111 && opcode == 0b10 { c_sdsp(inst) }
    else { None }
}

/// The opcode field of an assembled instruction is the opcode it was assembled with.
proof fn lemma_encoded_opcode()
    by (bit_vector)
    ensures
        forall|a: u32, b: u32, c: u32, d: u32, op: u32| op < 128 ==>
            #[trigger] (((a << 20u32) | (b << 15u32) | (c << 12u32) | (d << 7u32) | op) & 0x7f) == op,
        forall|a: u32, d: u32, op: u32| op < 128 ==>
            #[trigger] (((a & 0xFFFFF000) | (d << 7u32) | op) & 0x7f) == op,
        forall|a: u32, b: u32, c: u32, d: u32, e: u32, op: u32| op < 128 ==>
            #[trigger] (((a << 25u32) | (b << 20u32) | (c << 15u32) | (d << 12u32) | (e << 7u32) | op) & 0x7f) == op,
        forall|a: u32, b: u32, c: u32, d: u32, e: u32, f: u32, g: u32, op: u32| op < 128 ==>
            #[trigger] (((a << 31u32) | (b << 25u32) | (c << 20u32) | (d << 15u32) | (e << 12u32) | (f << 8u32) | (g << 7u32) | op) & 0x7f) == op,
        forall|a: u32, b: u32, c: u32, d: u32, e: u32, op: u32| op < 128 ==>
            #[trigger] (((a << 31u32) | (b << 12u32) | (c << 20u32) | (d << 21u32) | (e << 7u32) | op) & 0x7f) == op,
{
}

/// A compressed instruction expands to an integer, load, store or
/// floating-point load/store instruction, or to EBREAK.
#[verifier::spinoff_prover]
#[verifier::rlimit(40)]
proof fn lemma_expansion_kinds(inst: u16)
    ensures
        spec_expand_compressed(inst) matches Some(e) ==> {
            ||| op_of(e) == OP_OP_IMM || op_of(e) == OP_OP_IMM_32 || op_of(e) == OP_OP || op_of(e) == OP_OP_32
            ||| op_of(e) == OP_LUI || op_of(e) == OP_JAL || op_of(e) == OP_JALR || op_of(e) == OP_BRANCH
            ||| op_of(e) == OP_LOAD || op_of(e) == OP_STORE || op_of(e) == OP_LOAD_FP || op_of(e) == OP_STORE_FP
            ||| e == 0x0010_0073
        },
{
    reveal(spec_expand_compressed);
    lemma_encoded_opcode();
}

/// The state `c` as the full-width execution would have left it: after a
/// successful instruction, the pc advanced by four rather than two.
pub open spec fn as_if_full(o: Cpu64, c: Cpu64, r: Result<(), Trap64>) -> Cpu64 {
    if r is Ok { Cpu64 { pc: o.pc.wrapping_add(4), ..c } } else { c }
}

/// What a compressed instruction leaves behind: what its expansion does,
/// with the pc (and the link of jumps) two bytes on instead of four.
pub open spec fn compressed_post(o: Cpu64, c: Cpu64, inst16: u16, r: Result<(), Trap64>) -> bool {
    match spec_expand_compressed(inst16) {
        None => r == Err::<(), Trap64>(Trap64::IllegalInstruction(inst16 as u64)) && c == o,
        Some(e) => if super::execute::is_int_opcode64(op_of(e)) {
            match super::execute::spec_int_step64(o.pc, o.regs@, e) {
                Ok(next) => {
                    &&& r is Ok
                    &&& super::execute::same_but_pc_regs64(o, c)
                    &&& (op_of(e) == OP_JAL || op_of(e) == OP_JALR) ==> {
                        &&& c.pc == next.0
                        &&& c.regs@ == regs_after64(next.1, rd_of(e), o.pc.wrapping_add(2))
                    }
                    &&& op_of(e) == OP_BRANCH ==> {
                        &&& c.regs@ == o.regs@
                        &&& c.pc == if spec_branch64(f3_of(e), super::reg_value64(o.regs@, super::execute::rs1_of(e)),
                                super::reg_value64(o.regs@, super::execute::rs2_of(e))) == Some(true) {
                                o.pc.wrapping_add(from_sgn64(spec_imm_b(e)))
                            } else {
                                o.pc.wrapping_add(2)
                            }
                    }
                    &&& op_of(e) != OP_JAL && op_of(e) != OP_JALR && op_of(e) != OP_BRANCH ==> {
                        &&& c.pc == o.pc.wrapping_add(2)
                        &&& c.regs@ == next.1
                    }
                },
                Err(t) => r == Err::<(), Trap64>(t) && c == o,
            }
        } else {
            &&& r is Ok ==> c.pc == o.pc.wrapping_add(2)
            &&& op_of(e) == OP_LOAD ==> super::execute::load_post64(o, as_if_full(o, c, r), e, r)
            &&& op_of(e) == OP_STORE ==> super::execute::store_post64(o, as_if_full(o, c, r), e, r)
            &&& op_of(e) != OP_LOAD && op_of(e) != OP_STORE ==> r is Err && c == o
        },
    }
}

impl Cpu64 {
    /// Execute a 16-bit compressed instruction: expand it, execute the
    /// expansion, and correct the pc (and the link register of jumps) for
    /// the two-byte length.
    #[verifier::rlimit(40)]
    pub fn execute_compressed<B: Bus>(&mut self, inst16: u16, bus: &mut B) -> (r: Result<(), Trap64>)
        requires
            old(bus).inv(),
            old(self).wf(),
        ensures
            final(bus).inv(),
            final(self).wf(),
            final(self).instruction_count == old(self).instruction_count,
            r is Err ==> final(self).pc == old(self).pc && final(self).regs == old(self).regs,
            compressed_post(*old(self), *final(self), inst16, r),
    {
        let expanded = match expand_compressed(inst16) {
            Some(e) => e,
            None => {
                return Err(Trap64::IllegalInstruction(inst16 as u64));
            },
        };
        proof {
            lemma_expansion_kinds(inst16);
            crate::bits::lemma_u32_shift_mask();
            assert(op_of(0x0010_0073) == OP_SYSTEM && f3_of(0x0010_0073) == 0);
        }
        let pc_before = self.pc;
        let d = DecodedInst::decode(expanded);
        let rs1_val = self.read_reg(d.rs1);
        let rs2_val = self.read_reg(d.rs2);
        match self.execute(expanded, bus) {
            Ok(()) => {},
            Err(t) => {
                return Err(t);
            },
        }
        proof { crate::bits::lemma_u32_shift_mask(); }
        if d.opcode == OP_BRANCH {
            let imm = super::execute::sext(DecodedInst::imm_b(expanded));
            let f3 = d.funct3;
            let taken = if f3 == FUNCT3_BEQ {
                rs1_val == rs2_val
            } else if f3 == FUNCT3_BNE {
                rs1_val != rs2_val
            } else if f3 == FUNCT3_BLT {
                super::execute::lt_signed64(rs1_val, rs2_val)
            } else if f3 == FUNCT3_BGE {
                !super::execute::lt_signed64(rs1_val, rs2_val)
            } else if f3 == FUNCT3_BLTU {
                rs1_val < rs2_val
            } else {
                rs1_val >= rs2_val
            };
            if taken {
                self.pc = pc_before.wrapping_add(imm);
            } else {
                self.pc = pc_before.wrapping_add(2);
            }
        } else if d.opcode == OP_JAL || d.opcode == OP_JALR {
            if d.rd != 0 {
                self.write_reg(d.rd, pc_before.wrapping_add(2));
            }
        } else {
            if self.pc == pc_before.wrapping_add(4) {
                self.pc = pc_before.wrapping_add(2);
            }
        }
        Ok(())
    }
}


/// The fields of an I-type instruction `w`: opcode, funct3, rd, rs1 and the
/// sign-extended 12-bit immediate as the 32-bit decoder reads them.
pub open spec fn i_fields(w: u32, op: u32, f3: u32, rd: u32, rs1: u32, imm: int) -> bool {
    &&& w & 0x7F == op
    &&& (w >> 12u32) & 7 == f3
    &&& (w >> 7u32) & 0x1F == rd
    &&& (w >> 15u32) & 0x1F == rs1
    &&& spec_imm_i(w) == imm
}

/// The fields of an S-type instruction `w`: opcode, funct3, rs1, rs2 and the
/// sign-extended 12-bit immediate as the 32-bit decoder reads them.
pub open spec fn s_fields(w: u32, op: u32, f3: u32, rs1: u32, rs2: u32, imm: int) -> bool {
    &&& w & 0x7F == op
    &&& (w >> 12u32) & 7 == f3
    &&& (w >> 15u32) & 0x1F == rs1
    &&& (w >> 20u32) & 0x1F == rs2
    &&& spec_imm_s(w) == imm
}

/// `e` is an I-type instruction with these fields.
pub open spec fn expands_i(e: Option<u32>, op: u32, f3: u32, rd: u32, rs1: u32, imm: int) -> bool {
    match e {
        Some(w) => i_fields(w, op, f3, rd, rs1, imm),
        None => false,
    }
}

/// `e` is an S-type instruction with these fields.
pub open spec fn expands_s(e: Option<u32>, op: u32, f3: u32, rs1: u32, rs2: u32, imm: int) -> bool {
    match e {
        Some(w) => s_fields(w, op, f3, rs1, rs2, imm),
        None => false,
    }
}

/// Encoding small fields into an I-type or S-type word puts each where the
/// decoder finds it.
proof fn lemma_encode_fields(op: u32, ops: u32, rd: u32, rs1: u32, rs2: u32, f3: u32, imm: u32, wi: u32, ws: u32)
    by (bit_vector)
    requires
        op < 128,
        ops < 128,
        rd < 32,
        rs1 < 32,
        rs2 < 32,
        f3 < 8,
        imm < 2048,
        wi == ((imm & 0xFFF) << 20u32) | (rs1 << 15u32) | (f3 << 12u32) | (rd << 7u32) | op,
        ws == (((imm >> 5u32) & 0x7F) << 25u32) | (rs2 << 20u32) | (rs1 << 15u32) | (f3 << 12u32)
            | ((imm & 0x1F) << 7u32) | ops,
    ensures
        wi & 0x7F == op,
        (wi >> 12u32) & 7 == f3,
        (wi >> 7u32) & 0x1F == rd,
        (wi >> 15u32) & 0x1F == rs1,
        wi >> 20u32 == imm,
        ws & 0x7F == ops,
        (ws >> 12u32) & 7 == f3,
        (ws >> 15u32) & 0x1F == rs1,
        (ws >> 20u32) & 0x1F == rs2,
        (ws >> 25u32) * 32 + ((ws >> 7u32) & 0x1f) == imm,
{
}

/// The offsets of the compressed loads and stores, as the sums of their
/// scattered bits, and the register fields read through 16 or 32 bits.
proof fn lemma_rvc_offsets(inst: u16, x: u32)
    by (bit_vector)
    requires
        x == inst as u32,
    ensures
        (((x >> 10) & 0x7) << 3 | ((x >> 6) & 1) << 2 | ((x >> 5) & 1) << 6)
            == ((x >> 10) & 7) * 8 + ((x >> 6) & 1) * 4 + ((x >> 5) & 1) * 64,
        (((x >> 10) & 0x7) << 3 | ((x >> 5) & 0x3) << 6) == ((x >> 10) & 7) * 8 + ((x >> 5) & 3) * 64,
        (((x >> 12) & 1) << 5 | ((x >> 4) & 0x7) << 2 | ((x >> 2) & 0x3) << 6)
            == ((x >> 12) & 1) * 32 + ((x >> 4) & 7) * 4 + ((x >> 2) & 3) * 64,
        (((x >> 12) & 1) << 5 | ((x >> 5) & 0x3) << 3 | ((x >> 2) & 0x7) << 6)
            == ((x >> 12) & 1) * 32 + ((x >> 5) & 3) * 8 + ((x >> 2) & 7) * 64,
        (((x >> 12) & 0x1) << 5 | ((x >> 5) & 0x3) << 3 | ((x >> 2) & 0x7) << 6)
            == ((x >> 12) & 1) * 32 + ((x >> 5) & 3) * 8 + ((x >> 2) & 7) * 64,
        (((x >> 9) & 0xF) << 2 | ((x >> 7) & 0x3) << 6) == ((x >> 9) & 0xF) * 4 + ((x >> 7) & 3) * 64,
        (((x >> 10) & 0x7) << 3 | ((x >> 7) & 0x7) << 6) == ((x >> 10) & 7) * 8 + ((x >> 7) & 7) * 64,
        (((x >> 12) & 1) << 5 | ((x >> 11) & 1) << 4 | ((x >> 7) & 0xF) << 6 | ((x >> 6) & 1) << 2
            | ((x >> 5) & 1) << 3) == ((x >> 12) & 1) * 32 + ((x >> 11) & 1) * 16 + ((x >> 7) & 0xF) * 64
            + ((x >> 6) & 1) * 4 + ((x >> 5) & 1) * 8,
        ((((inst >> 2u16) & 0x7) as u32) & 0x7) == (x >> 2) & 7,
        ((((inst >> 7u16) & 0x7) as u32) & 0x7) == (x >> 7) & 7,
        ((inst >> 7u16) & 0x1F) as u32 == (x >> 7) & 0x1F,
        ((inst >> 2u16) & 0x1F) as u32 == (x >> 2) & 0x1F,
        (x >> 10) & 7 < 8 && (x >> 7) & 0xF < 16 && (x >> 9) & 0xF < 16,
        (x >> 7) & 7 < 8 && (x >> 5) & 3 < 4 && (x >> 2) & 7 < 8 && (x >> 4) & 7 < 8 && (x >> 2) & 3 < 4,
        (x >> 12) & 1 < 2 && (x >> 11) & 1 < 2 && (x >> 6) & 1 < 2 && (x >> 5) & 1 < 2 && (x >> 7) & 3 < 4,
        (x >> 7) & 0x1F < 32 && (x >> 2) & 0x1F < 32,
{
}

/// The compressed word-sized loads and stores relative to a register
/// (quadrant 0): C.LW and C.SW move a word at x(8+rs1') plus the offset
/// inst[5]:inst[12:10]:inst[6] times 4; C.LD, C.SD, C.FLD and C.FSD a
/// doubleword at inst[6:5]:inst[12:10] times 8; C.ADDI4SPN adds
/// inst[10:7]:inst[12:11]:inst[5]:inst[6] times 4 to the stack pointer (a
/// zero offset is reserved). Registers rd'/rs2' are inst[4:2] and rs1' is
/// inst[9:7], each naming x8..x15.
pub proof fn lemma_expand_quadrant0(inst: u16)
    ensures
        ({
            let x = inst as u32;
            let e = spec_expand_compressed(inst);
            let f = (inst >> 13u16) & 0b111;
            let rdp = 8 + ((x >> 2) & 7);
            let rs1p = 8 + ((x >> 7) & 7);
            let off_w = ((x >> 6) & 1) * 4 + ((x >> 10) & 7) * 8 + ((x >> 5) & 1) * 64;
            let off_d = ((x >> 10) & 7) * 8 + ((x >> 5) & 3) * 64;
            let off_sp = ((x >> 6) & 1) * 4 + ((x >> 5) & 1) * 8 + ((x >> 11) & 1) * 16 + ((x >> 12) & 1) * 32
                + ((x >> 7) & 0xF) * 64;
            &&& inst & 0b11 == 0 && f == 0b010 ==> expands_i(e, 0x03, 2, rdp as u32, rs1p as u32, off_w)
            &&& inst & 0b11 == 0 && f == 0b110 ==> expands_s(e, 0x23, 2, rs1p as u32, rdp as u32, off_w)
            &&& inst & 0b11 == 0 && f == 0b011 ==> expands_i(e, 0x03, 3, rdp as u32, rs1p as u32, off_d)
            &&& inst & 0b11 == 0 && f == 0b111 ==> expands_s(e, 0x23, 3, rs1p as u32, rdp as u32, off_d)
            &&& inst & 0b11 == 0 && f == 0b001 ==> expands_i(e, 0x07, 3, rdp as u32, rs1p as u32, off_d)
            &&& inst & 0b11 == 0 && f == 0b101 ==> expands_s(e, 0x27, 3, rs1p as u32, rdp as u32, off_d)
            &&& inst & 0b11 == 0 && f == 0b000 ==> if off_sp == 0 { e is None } else {
                expands_i(e, 0x13, 0, rdp as u32, 2, off_sp)
            }
        }),
{
    reveal(spec_expand_compressed);
    let x = inst as u32;
    lemma_rvc_offsets(inst, x);
    let rdp = 8 + ((x >> 2) & 7);
    let rs1p = 8 + ((x >> 7) & 7);
    let off_w = (((x >> 10) & 0x7) << 3 | ((x >> 6) & 1) << 2 | ((x >> 5) & 1) << 6);
    let off_d = (((x >> 10) & 0x7) << 3 | ((x >> 5) & 0x3) << 6);
    let off_sp = (((x >> 12) & 1) << 5 | ((x >> 11) & 1) << 4 | ((x >> 7) & 0xF) << 6 | ((x >> 6) & 1) << 2
        | ((x >> 5) & 1) << 3);
    lemma_encode_fields(OP_LOAD, OP_STORE, rdp as u32, rs1p as u32, rdp as u32, FUNCT3_LW, off_w,
        spec_encode_i(OP_LOAD, rdp as u32, rs1p as u32, FUNCT3_LW, off_w as i32),
        spec_encode_s(OP_STORE, rs1p as u32, rdp as u32, FUNCT3_LW, off_w as i32));
    lemma_encode_fields(OP_LOAD, OP_STORE, rdp as u32, rs1p as u32, rdp as u32, FUNCT3_LD, off_d,
        spec_encode_i(OP_LOAD, rdp as u32, rs1p as u32, FUNCT3_LD, off_d as i32),
        spec_encode_s(OP_STORE, rs1p as u32, rdp as u32, FUNCT3_LD, off_d as i32));
    lemma_encode_fields(OP_LOAD_FP, OP_STORE_FP, rdp as u32, rs1p as u32, rdp as u32, FUNCT3_FLD, off_d,
        spec_encode_i(OP_LOAD_FP, rdp as u32, rs1p as u32, FUNCT3_FLD, off_d as i32),
        spec_encode_s(OP_STORE_FP, rs1p as u32, rdp as u32, FUNCT3_FLD, off_d as i32));
    lemma_encode_fields(OP_OP_IMM, OP_STORE, rdp as u32, 2, rdp as u32, FUNCT3_ADD_SUB, off_sp,
        spec_encode_i(OP_OP_IMM, rdp as u32, 2, FUNCT3_ADD_SUB, off_sp as i32),
        spec_encode_s(OP_STORE, 2, rdp as u32, FUNCT3_ADD_SUB, off_sp as i32));
}


/// The compressed stack-relative loads and stores (quadrant 2), against x2:
/// C.LWSP loads a word into rd = inst[11:7] (rd 0 is reserved) from offset
/// inst[3:2]:inst[12]:inst[6:4] times 4; C.LDSP and C.FLDSP a doubleword
/// from inst[4:2]:inst[12]:inst[6:5] times 8 (C.LDSP with rd 0 reserved);
/// C.SWSP stores rs2 = inst[6:2] at inst[8:7]:inst[12:9] times 4; C.SDSP and
/// C.FSDSP at inst[9:7]:inst[12:10] times 8.
pub proof fn lemma_expand_quadrant2(inst: u16)
    ensures
        ({
            let x = inst as u32;
            let e = spec_expand_compressed(inst);
            let f = (inst >> 13u16) & 0b111;
            let rd = (x >> 7) & 0x1F;
            let rs2 = (x >> 2) & 0x1F;
            let off_lw = ((x >> 4) & 7) * 4 + ((x >> 12) & 1) * 32 + ((x >> 2) & 3) * 64;
            let off_ld = ((x >> 5) & 3) * 8 + ((x >> 12) & 1) * 32 + ((x >> 2) & 7) * 64;
            let off_sw = ((x >> 9) & 0xF) * 4 + ((x >> 7) & 3) * 64;
            let off_sd = ((x >> 10) & 7) * 8 + ((x >> 7) & 7) * 64;
            &&& inst & 0b11 == 2 && f == 0b010 ==> if rd == 0 { e is None } else { expands_i(e, 0x03, 2, rd, 2, off_lw) }
            &&& inst & 0b11 == 2 && f == 0b011 ==> if rd == 0 { e is None } else { expands_i(e, 0x03, 3, rd, 2, off_ld) }
            &&& inst & 0b11 == 2 && f == 0b001 ==> expands_i(e, 0x07, 3, rd, 2, off_ld)
            &&& inst & 0b11 == 2 && f == 0b110 ==> expands_s(e, 0x23, 2, 2, rs2, off_sw)
            &&& inst & 0b11 == 2 && f == 0b111 ==> expands_s(e, 0x23, 3, 2, rs2, off_sd)
            &&& inst & 0b11 == 2 && f == 0b101 ==> expands_s(e, 0x27, 3, 2, rs2, off_sd)
        }),
{
    reveal(spec_expand_compressed);
    let x = inst as u32;
    lemma_rvc_offsets(inst, x);
    let rd = (x >> 7) & 0x1F;
    let rs2 = (x >> 2) & 0x1F;
    let off_lw = (((x >> 12) & 1) << 5 | ((x >> 4) & 0x7) << 2 | ((x >> 2) & 0x3) << 6);
    let off_ld = (((x >> 12) & 1) << 5 | ((x >> 5) & 0x3) << 3 | ((x >> 2) & 0x7) << 6);
    let off_sw = (((x >> 9) & 0xF) << 2 | ((x >> 7) & 0x3) << 6);
    let off_sd = (((x >> 10) & 0x7) << 3 | ((x >> 7) & 0x7) << 6);
    lemma_encode_fields(OP_LOAD, OP_STORE, rd, 2, rs2, FUNCT3_LW, off_lw,
        spec_encode_i(OP_LOAD, rd, 2, FUNCT3_LW, off_lw as i32),
        spec_encode_s(OP_STORE, 2, rs2, FUNCT3_LW, off_lw as i32));
    lemma_encode_fields(OP_LOAD, OP_STORE, rd, 2, rs2, FUNCT3_LD, off_ld,
        spec_encode_i(OP_LOAD, rd, 2, FUNCT3_LD, off_ld as i32),
        spec_encode_s(OP_STORE, 2, rs2, FUNCT3_LD, off_ld as i32));
    lemma_encode_fields(OP_LOAD_FP, OP_STORE_FP, rd, 2, rs2, FUNCT3_FLD, off_ld,
        spec_encode_i(OP_LOAD_FP, rd, 2, FUNCT3_FLD, off_ld as i32),
        spec_encode_s(OP_STORE_FP, 2, rs2, FUNCT3_FLD, off_ld as i32));
    lemma_encode_fields(OP_LOAD, OP_STORE, rd, 2, rs2, FUNCT3_LW, off_sw,
        spec_encode_i(OP_LOAD, rd, 2, FUNCT3_LW, off_sw as i32),
        spec_encode_s(OP_STORE, 2, rs2, FUNCT3_LW, off_sw as i32));
    lemma_encode_fields(OP_LOAD, OP_STORE, rd, 2, rs2, FUNCT3_LD, off_sd,
        spec_encode_i(OP_LOAD, rd, 2, FUNCT3_LD, off_sd as i32),
        spec_encode_s(OP_STORE, 2, rs2, FUNCT3_LD, off_sd as i32));
    lemma_encode_fields(OP_LOAD_FP, OP_STORE_FP, rd, 2, rs2, FUNCT3_FLD, off_sd,
        spec_encode_i(OP_LOAD_FP, rd, 2, FUNCT3_FLD, off_sd as i32),
        spec_encode_s(OP_STORE_FP, 2, rs2, FUNCT3_FLD, off_sd as i32));
}

} // verus!
