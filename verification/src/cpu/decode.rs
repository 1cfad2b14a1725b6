//! Instruction decoder for the 32-bit base encoding.

use vstd::prelude::*;

verus! {

/// The I-type immediate: bits 31..20, sign-extended.
pub open spec fn spec_imm_i(inst: u32) -> int {
    let v = (inst >> 20u32) as int;
    if v >= 2048 { v - 4096 } else { v }
}

/// The S-type immediate: bits 31..25 and 11..7, sign-extended.
pub open spec fn spec_imm_s(inst: u32) -> int {
    let v = ((inst >> 25u32) as int) * 32 + ((inst >> 7u32) & 0x1f) as int;
    if v >= 2048 { v - 4096 } else { v }
}

/// The B-type immediate (a branch offset, always even), sign-extended from 13 bits.
pub open spec fn spec_imm_b(inst: u32) -> int {
    let v = ((inst >> 31u32) as int) * 4096 + ((inst >> 7u32) & 1) as int * 2048
        + ((inst >> 25u32) & 0x3f) as int * 32 + ((inst >> 8u32) & 0xf) as int * 2;
    if v >= 4096 { v - 8192 } else { v }
}

/// The U-type immediate: bits 31..12 in place, as a signed 32-bit value.
pub open spec fn spec_imm_u(inst: u32) -> int {
    let v = (inst & 0xffff_f000) as int;
    if v >= 0x8000_0000 { v - 0x1_0000_0000 } else { v }
}

/// The J-type immediate (a jump offset, always even), sign-extended from 21 bits.
pub open spec fn spec_imm_j(inst: u32) -> int {
    let v = ((inst >> 31u32) as int) * 0x10_0000 + ((inst >> 12u32) & 0xff) as int * 0x1000
        + ((inst >> 20u32) & 1) as int * 2048 + ((inst >> 21u32) & 0x3ff) as int * 2;
    if v >= 0x10_0000 { v - 0x20_0000 } else { v }
}

/// Decoded instruction fields.
#[derive(Debug)]
pub struct DecodedInst {
    pub opcode: u32,
    pub rd: u32,
    pub rs1: u32,
    pub rs2: u32,
    pub funct3: u32,
    pub funct7: u32,
    pub imm_i: i32,
    pub imm_s: i32,
    pub imm_b: i32,
    pub imm_u: i32,
    pub imm_j: i32,
}

/// The fields of `d` are those of the 32-bit instruction `inst`.
pub open spec fn decodes(d: DecodedInst, inst: u32) -> bool {
    &&& d.opcode == inst & 0x7f
    &&& d.rd == (inst >> 7u32) & 0x1f
    &&& d.rs1 == (inst >> 15u32) & 0x1f
    &&& d.rs2 == (inst >> 20u32) & 0x1f
    &&& d.funct3 == (inst >> 12u32) & 0x7
    &&& d.funct7 == inst >> 25u32
    &&& d.imm_i as int == spec_imm_i(inst)
    &&& d.imm_s as int == spec_imm_s(inst)
    &&& d.imm_b as int == spec_imm_b(inst)
    &&& d.imm_u as int == spec_imm_u(inst)
    &&& d.imm_j as int == spec_imm_j(inst)
}

/// I-type immediate of `inst`.
pub fn imm_i(inst: u32) -> (r: i32)
    ensures
        r as int == spec_imm_i(inst),
{
    let v = inst >> 20u32;
    assert(v < 4096) by (bit_vector)
        requires
            v == inst >> 20u32,
    ;
    if v >= 2048 {
        (v as i32) - 4096
    } else {
        v as i32
    }
}

/// S-type immediate of `inst`.
pub fn imm_s(inst: u32) -> (r: i32)
    ensures
        r as int == spec_imm_s(inst),
{
    let hi = inst >> 25u32;
    let lo = (inst >> 7u32) & 0x1f;
    assert(hi < 128 && lo < 32) by (bit_vector)
        requires
            hi == inst >> 25u32,
            lo == (inst >> 7u32) & 0x1f,
    ;
    let v = hi * 32 + lo;
    if v >= 2048 {
        (v as i32) - 4096
    } else {
        v as i32
    }
}

/// B-type immediate of `inst`.
pub fn imm_b(inst: u32) -> (r: i32)
    ensures
        r as int == spec_imm_b(inst),
{
    let b12 = inst >> 31u32;
    let b11 = (inst >> 7u32) & 1;
    let b10_5 = (inst >> 25u32) & 0x3f;
    let b4_1 = (inst >> 8u32) & 0xf;
    assert(b12 < 2 && b11 < 2 && b10_5 < 64 && b4_1 < 16) by (bit_vector)
        requires
            b12 == inst >> 31u32,
            b11 == (inst >> 7u32) & 1,
            b10_5 == (inst >> 25u32) & 0x3f,
            b4_1 == (inst >> 8u32) & 0xf,
    ;
    let v = b12 * 4096 + b11 * 2048 + b10_5 * 32 + b4_1 * 2;
    if v >= 4096 {
        (v as i32) - 8192
    } else {
        v as i32
    }
}

/// U-type immediate of `inst`.
pub fn imm_u(inst: u32) -> (r: i32)
    ensures
        r as int == spec_imm_u(inst),
{
    let v = inst & 0xffff_f000;
    if v >= 0x8000_0000 {
        ((v - 0x8000_0000) as i32) - 0x7fff_ffff - 1
    } else {
        v as i32
    }
}

/// J-type immediate of `inst`.
pub fn imm_j(inst: u32) -> (r: i32)
    ensures
        r as int == spec_imm_j(inst),
{
    let b20 = inst >> 31u32;
    let b19_12 = (inst >> 12u32) & 0xff;
    let b11 = (inst >> 20u32) & 1;
    let b10_1 = (inst >> 21u32) & 0x3ff;
    assert(b20 < 2 && b19_12 < 256 && b11 < 2 && b10_1 < 1024) by (bit_vector)
        requires
            b20 == inst >> 31u32,
            b19_12 == (inst >> 12u32) & 0xff,
            b11 == (inst >> 20u32) & 1,
            b10_1 == (inst >> 21u32) & 0x3ff,
    ;
    let v = b20 * 0x10_0000 + b19_12 * 0x1000 + b11 * 2048 + b10_1 * 2;
    if v >= 0x10_0000 {
        (v as i32) - 0x20_0000
    } else {
        v as i32
    }
}

impl DecodedInst {
    /// Splits a 32-bit instruction into its fields and immediates.
    pub fn decode(inst: u32) -> (d: DecodedInst)
        ensures
            decodes(d, inst),
    {
        DecodedInst {
            opcode: inst & 0x7f,
            rd: (inst >> 7u32) & 0x1f,
            rs1: (inst >> 15u32) & 0x1f,
            rs2: (inst >> 20u32) & 0x1f,
            funct3: (inst >> 12u32) & 0x7,
            funct7: inst >> 25u32,
            imm_i: imm_i(inst),
            imm_s: imm_s(inst),
            imm_b: imm_b(inst),
            imm_u: imm_u(inst),
            imm_j: imm_j(inst),
        }
    }
}

// Opcodes
pub const OP_LUI: u32 = 0b0110111;
pub const OP_AUIPC: u32 = 0b0010111;
pub const OP_JAL: u32 = 0b1101111;
pub const OP_JALR: u32 = 0b1100111;
pub const OP_BRANCH: u32 = 0b1100011;
pub const OP_LOAD: u32 = 0b0000011;
pub const OP_STORE: u32 = 0b0100011;
pub const OP_OP_IMM: u32 = 0b0010011;
pub const OP_OP: u32 = 0b0110011;
pub const OP_MISC_MEM: u32 = 0b0001111;
pub const OP_SYSTEM: u32 = 0b1110011;
pub const OP_AMO: u32 = 0b0101111;
pub const OP_LOAD_FP: u32 = 0b0000111;
pub const OP_STORE_FP: u32 = 0b0100111;
pub const OP_MADD: u32 = 0b1000011;
pub const OP_MSUB: u32 = 0b1000111;
pub const OP_NMSUB: u32 = 0b1001011;
pub const OP_NMADD: u32 = 0b1001111;
pub const OP_OP_FP: u32 = 0b1010011;

// Branch funct3
pub const FUNCT3_BEQ: u32 = 0b000;
pub const FUNCT3_BNE: u32 = 0b001;
pub const FUNCT3_BLT: u32 = 0b100;
pub const FUNCT3_BGE: u32 = 0b101;
pub const FUNCT3_BLTU: u32 = 0b110;
pub const FUNCT3_BGEU: u32 = 0b111;

// Load/Store funct3
pub const FUNCT3_LB: u32 = 0b000;
pub const FUNCT3_LH: u32 = 0b001;
pub const FUNCT3_LW: u32 = 0b010;
pub const FUNCT3_LBU: u32 = 0b100;
pub const FUNCT3_LHU: u32 = 0b101;

// ALU funct3
pub const FUNCT3_ADD_SUB: u32 = 0b000;
pub const FUNCT3_SLL: u32 = 0b001;
pub const FUNCT3_SLT: u32 = 0b010;
pub const FUNCT3_SLTU: u32 = 0b011;
pub const FUNCT3_XOR: u32 = 0b100;
pub const FUNCT3_SRL_SRA: u32 = 0b101;
pub const FUNCT3_OR: u32 = 0b110;
pub const FUNCT3_AND: u32 = 0b111;

// M extension funct3
pub const FUNCT3_MUL: u32 = 0b000;
pub const FUNCT3_MULH: u32 = 0b001;
pub const FUNCT3_MULHSU: u32 = 0b010;
pub const FUNCT3_MULHU: u32 = 0b011;
pub const FUNCT3_DIV: u32 = 0b100;
pub const FUNCT3_DIVU: u32 = 0b101;
pub const FUNCT3_REM: u32 = 0b110;
pub const FUNCT3_REMU: u32 = 0b111;

// System funct3
pub const FUNCT3_PRIV: u32 = 0b000;
pub const FUNCT3_CSRRW: u32 = 0b001;
pub const FUNCT3_CSRRS: u32 = 0b010;
pub const FUNCT3_CSRRC: u32 = 0b011;
pub const FUNCT3_CSRRWI: u32 = 0b101;
pub const FUNCT3_CSRRSI: u32 = 0b110;
pub const FUNCT3_CSRRCI: u32 = 0b111;

// AMO funct5
pub const FUNCT5_LR: u32 = 0b00010;
pub const FUNCT5_SC: u32 = 0b00011;
pub const FUNCT5_AMOSWAP: u32 = 0b00001;
pub const FUNCT5_AMOADD: u32 = 0b00000;
pub const FUNCT5_AMOXOR: u32 = 0b00100;
pub const FUNCT5_AMOAND: u32 = 0b01100;
pub const FUNCT5_AMOOR: u32 = 0b01000;
pub const FUNCT5_AMOMIN: u32 = 0b10000;
pub const FUNCT5_AMOMAX: u32 = 0b10100;
pub const FUNCT5_AMOMINU: u32 = 0b11000;
pub const FUNCT5_AMOMAXU: u32 = 0b11100;

// Floating-point load/store width
pub const FUNCT3_FLW: u32 = 0b010;
pub const FUNCT3_FLD: u32 = 0b011;

// Floating-point formats (bits 26..25 of R4-type instructions)
pub const FMT_S: u32 = 0b00;
pub const FMT_D: u32 = 0b01;

// OP-FP funct7 values
pub const FUNCT7_FADD_S: u32 = 0x00;
pub const FUNCT7_FSUB_S: u32 = 0x04;
pub const FUNCT7_FMUL_S: u32 = 0x08;
pub const FUNCT7_FDIV_S: u32 = 0x0C;
pub const FUNCT7_FSQRT_S: u32 = 0x2C;
pub const FUNCT7_FSGNJ_S: u32 = 0x10;
pub const FUNCT7_FMIN_S: u32 = 0x14;
pub const FUNCT7_FCVT_W_S: u32 = 0x60;
pub const FUNCT7_FMV_X_W: u32 = 0x70;
pub const FUNCT7_FCMP_S: u32 = 0x50;
pub const FUNCT7_FCVT_S_W: u32 = 0x68;
pub const FUNCT7_FMV_W_X: u32 = 0x78;
pub const FUNCT7_FADD_D: u32 = 0x01;
pub const FUNCT7_FSUB_D: u32 = 0x05;
pub const FUNCT7_FMUL_D: u32 = 0x09;
pub const FUNCT7_FDIV_D: u32 = 0x0D;
pub const FUNCT7_FSQRT_D: u32 = 0x2D;
pub const FUNCT7_FSGNJ_D: u32 = 0x11;
pub const FUNCT7_FMIN_D: u32 = 0x15;
pub const FUNCT7_FCVT_S_D: u32 = 0x20;
pub const FUNCT7_FCVT_D_S: u32 = 0x21;
pub const FUNCT7_FCVT_W_D: u32 = 0x61;
pub const FUNCT7_FCMP_D: u32 = 0x51;
pub const FUNCT7_FCLASS_D: u32 = 0x71;
pub const FUNCT7_FCVT_D_W: u32 = 0x69;

// OP-FP funct3 values
pub const FUNCT3_FSGNJ: u32 = 0b000;
pub const FUNCT3_FSGNJN: u32 = 0b001;
pub const FUNCT3_FSGNJX: u32 = 0b010;
pub const FUNCT3_FMIN: u32 = 0b000;
pub const FUNCT3_FMAX: u32 = 0b001;
pub const FUNCT3_FEQ: u32 = 0b010;
pub const FUNCT3_FLT: u32 = 0b001;
pub const FUNCT3_FLE: u32 = 0b000;

} // verus!
