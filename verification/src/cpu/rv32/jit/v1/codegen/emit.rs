//! WebAssembly emission for the ALU instructions of a block: registers are
//! WebAssembly locals 0-31; loads, stores, control flow and system
//! instructions are left to the interpreter.

use vstd::prelude::*;
use crate::cpu::decode::{imm_i, spec_imm_i, OP_LUI, OP_AUIPC, OP_OP, OP_OP_IMM};
use crate::cpu::rv32::icache::CachedInst;
use crate::cpu::rv32::jit::v2::wasm::{
    leb128_i32, leb128_u32, WasmBuilder, OP_I32_ADD, OP_I32_AND, OP_I32_CONST, OP_I32_LT_S, OP_I32_LT_U,
    OP_I32_OR, OP_I32_SHL, OP_I32_SHR_S, OP_I32_SHR_U, OP_I32_SUB, OP_I32_XOR, OP_LOCAL_GET, OP_LOCAL_SET,
};
use super::super::CompiledBlock;

verus! {

/// Result of emitting a block.
pub enum EmitResult {
    /// Every instruction was emitted.
    Success,
    /// An instruction needs the interpreter.
    NeedsFallback,
}

/// The bytes of `local.get idx`.
pub open spec fn get_bytes(idx: u8) -> Seq<u8> {
    seq![OP_LOCAL_GET] + leb128_u32(idx as nat)
}

/// The bytes of `local.set idx`.
pub open spec fn set_bytes(idx: u8) -> Seq<u8> {
    seq![OP_LOCAL_SET] + leb128_u32(idx as nat)
}

/// The bytes of `i32.const v`.
pub open spec fn const_bytes(v: i32) -> Seq<u8> {
    seq![OP_I32_CONST] + leb128_i32(v as int)
}

/// The WebAssembly operator of a register-register ALU instruction
/// (ADD, SUB, AND, OR, XOR, SLL, SRL, SRA, SLT, SLTU), by funct3 and funct7.
pub open spec fn r_alu_op(funct3: u8, funct7: u8) -> Option<u8> {
    if funct3 == 0 && funct7 == 0 { Some(OP_I32_ADD) }
    else if funct3 == 0 && funct7 == 0x20 { Some(OP_I32_SUB) }
    else if funct3 == 7 && funct7 == 0 { Some(OP_I32_AND) }
    else if funct3 == 6 && funct7 == 0 { Some(OP_I32_OR) }
    else if funct3 == 4 && funct7 == 0 { Some(OP_I32_XOR) }
    else if funct3 == 1 && funct7 == 0 { Some(OP_I32_SHL) }
    else if funct3 == 5 && funct7 == 0 { Some(OP_I32_SHR_U) }
    else if funct3 == 5 && funct7 == 0x20 { Some(OP_I32_SHR_S) }
    else if funct3 == 2 && funct7 == 0 { Some(OP_I32_LT_S) }
    else if funct3 == 3 && funct7 == 0 { Some(OP_I32_LT_U) }
    else { None }
}

/// The constant and WebAssembly operator of an immediate ALU instruction
/// (ADDI, ANDI, ORI, XORI, SLTI, SLTIU, SLLI, SRLI, SRAI), by funct3 and the
/// instruction word; shifts take the low five bits of the immediate, and bit
/// 30 chooses the arithmetic right shift.
pub open spec fn i_alu_op(funct3: u8, raw: u32) -> Option<(i32, u8)> {
    let imm = spec_imm_i(raw) as i32;
    let shamt = ((raw / 0x10_0000) % 32) as i32;
    if funct3 == 0 { Some((imm, OP_I32_ADD)) }
    else if funct3 == 7 { Some((imm, OP_I32_AND)) }
    else if funct3 == 6 { Some((imm, OP_I32_OR)) }
    else if funct3 == 4 { Some((imm, OP_I32_XOR)) }
    else if funct3 == 2 { Some((imm, OP_I32_LT_S)) }
    else if funct3 == 3 { Some((imm, OP_I32_LT_U)) }
    else if funct3 == 1 { Some((shamt, OP_I32_SHL)) }
    else if funct3 == 5 {
        if (raw / 0x4000_0000) % 2 == 1 { Some((shamt, OP_I32_SHR_S)) } else { Some((shamt, OP_I32_SHR_U)) }
    }
    else { None }
}

/// What emitting a register-register instruction appends: both sources are
/// loaded, then, when the operation is known, it is applied and stored to rd.
pub open spec fn r_type_bytes(inst: CachedInst) -> Seq<u8> {
    get_bytes(inst.rs1) + get_bytes(inst.rs2) + match r_alu_op(inst.funct3, inst.funct7) {
        Some(op) => seq![op] + set_bytes(inst.rd),
        None => Seq::empty(),
    }
}

/// What emitting an immediate instruction appends: the source is loaded,
/// then, when the operation is known, the constant is pushed, the operation
/// applied and the result stored to rd.
pub open spec fn i_type_bytes(inst: CachedInst) -> Seq<u8> {
    get_bytes(inst.rs1) + match i_alu_op(inst.funct3, inst.raw) {
        Some((c, op)) => const_bytes(c) + seq![op] + set_bytes(inst.rd),
        None => Seq::empty(),
    }
}

/// The upper immediate of LUI as an i32.
pub open spec fn lui_value(raw: u32) -> i32 {
    (raw - raw % 0x1000) as i32
}

/// What emitting `inst` appends, and whether it could be emitted.
pub open spec fn emitted(inst: CachedInst) -> (Seq<u8>, bool) {
    let op = inst.opcode as u32;
    if op == OP_LUI && inst.rd != 0 { (const_bytes(lui_value(inst.raw)) + set_bytes(inst.rd), true) }
    else if op == OP_AUIPC { (Seq::empty(), false) }
    else if op == OP_OP && inst.rd != 0 { (r_type_bytes(inst), r_alu_op(inst.funct3, inst.funct7) is Some) }
    else if op == OP_OP_IMM && inst.rd != 0 { (i_type_bytes(inst), i_alu_op(inst.funct3, inst.raw) is Some) }
    else if op == OP_LUI || op == OP_OP || op == OP_OP_IMM { (Seq::empty(), true) }
    else { (Seq::empty(), false) }
}

/// Emit WebAssembly for one instruction. Returns false when the instruction
/// needs the interpreter (the bytes already emitted for it stay).
pub fn emit_instruction(builder: &mut WasmBuilder, inst: &CachedInst, _pc: u32) -> (r: bool)
    ensures
        final(builder).code_view() == old(builder).code_view() + emitted(*inst).0,
        r == emitted(*inst).1,
        final(builder).keeps_control(&*old(builder)),
{
    let op = inst.opcode as u32;
    if op == OP_LUI && inst.rd != 0 {
        let imm = (inst.raw - inst.raw % 0x1000) as i32;
        builder.i32_const(imm);
        builder.local_set(inst.rd as u32);
        assert(builder.code_view() =~= old(builder).code_view() + emitted(*inst).0);
        true
    } else if op == OP_AUIPC {
        assert(builder.code_view() =~= old(builder).code_view() + emitted(*inst).0);
        false
    } else if op == OP_OP && inst.rd != 0 {
        emit_r_type_alu(builder, inst)
    } else if op == OP_OP_IMM && inst.rd != 0 {
        emit_i_type_alu(builder, inst)
    } else {
        assert(builder.code_view() =~= old(builder).code_view() + emitted(*inst).0);
        op == OP_LUI || op == OP_OP || op == OP_OP_IMM
    }
}

/// Emit a register-register ALU instruction (ADD, SUB, AND, OR, XOR, ...).
fn emit_r_type_alu(builder: &mut WasmBuilder, inst: &CachedInst) -> (r: bool)
    ensures
        final(builder).code_view() == old(builder).code_view() + r_type_bytes(*inst),
        r == r_alu_op(inst.funct3, inst.funct7) is Some,
        final(builder).keeps_control(&*old(builder)),
{
    builder.local_get(inst.rs1 as u32);
    builder.local_get(inst.rs2 as u32);
    let ghost loaded = builder.code_view();
    let f3 = inst.funct3;
    let f7 = inst.funct7;
    if f3 == 0 && f7 == 0 {
        builder.i32_add();
    } else if f3 == 0 && f7 == 0x20 {
        builder.i32_sub();
    } else if f3 == 7 && f7 == 0 {
        builder.i32_and();
    } else if f3 == 6 && f7 == 0 {
        builder.i32_or();
    } else if f3 == 4 && f7 == 0 {
        builder.i32_xor();
    } else if f3 == 1 && f7 == 0 {
        builder.i32_shl();
    } else if f3 == 5 && f7 == 0 {
        builder.i32_shr_u();
    } else if f3 == 5 && f7 == 0x20 {
        builder.i32_shr_s();
    } else if f3 == 2 && f7 == 0 {
        builder.i32_lt_s();
    } else if f3 == 3 && f7 == 0 {
        builder.i32_lt_u();
    } else {
        assert(builder.code_view() =~= old(builder).code_view() + r_type_bytes(*inst));
        return false;
    }
    builder.local_set(inst.rd as u32);
    assert(builder.code_view() =~= old(builder).code_view() + r_type_bytes(*inst));
    true
}

/// Emit an immediate ALU instruction (ADDI, ANDI, ORI, shifts, ...).
fn emit_i_type_alu(builder: &mut WasmBuilder, inst: &CachedInst) -> (r: bool)
    ensures
        final(builder).code_view() == old(builder).code_view() + i_type_bytes(*inst),
        r == i_alu_op(inst.funct3, inst.raw) is Some,
        final(builder).keeps_control(&*old(builder)),
{
    let imm = imm_i(inst.raw);
    let shamt = ((inst.raw / 0x10_0000) % 32) as i32;
    builder.local_get(inst.rs1 as u32);
    let f3 = inst.funct3;
    if f3 == 0 {
        builder.i32_const(imm);
        builder.i32_add();
    } else if f3 == 7 {
        builder.i32_const(imm);
        builder.i32_and();
    } else if f3 == 6 {
        builder.i32_const(imm);
        builder.i32_or();
    } else if f3 == 4 {
        builder.i32_const(imm);
        builder.i32_xor();
    } else if f3 == 2 {
        builder.i32_const(imm);
        builder.i32_lt_s();
    } else if f3 == 3 {
        builder.i32_const(imm);
        builder.i32_lt_u();
    } else if f3 == 1 {
        builder.i32_const(shamt);
        builder.i32_shl();
    } else if f3 == 5 {
        builder.i32_const(shamt);
        if (inst.raw / 0x4000_0000) % 2 == 1 {
            builder.i32_shr_s();
        } else {
            builder.i32_shr_u();
        }
    } else {
        assert(builder.code_view() =~= old(builder).code_view() + i_type_bytes(*inst));
        return false;
    }
    builder.local_set(inst.rd as u32);
    assert(builder.code_view() =~= old(builder).code_view() + i_type_bytes(*inst));
    true
}

/// Is every instruction of the block an ALU instruction (LUI, OP, OP-IMM)?
pub open spec fn alu_only(insts: Seq<CachedInst>) -> bool {
    forall|i: int| 0 <= i < insts.len() ==> {
        let op = #[trigger] insts[i].opcode as u32;
        op == OP_LUI || op == OP_OP || op == OP_OP_IMM
    }
}

/// Check if a block can be compiled to WebAssembly (ALU instructions only).
pub fn can_compile_block(block: &CompiledBlock) -> (r: bool)
    ensures
        r == alu_only(block.instructions@),
{
    let mut i: usize = 0;
    while i < block.instructions.len()
        invariant
            i <= block.instructions@.len(),
            alu_only(block.instructions@.take(i as int)),
        decreases block.instructions@.len() - i,
    {
        let op = block.instructions[i].opcode as u32;
        if !(op == OP_LUI || op == OP_OP || op == OP_OP_IMM) {
            return false;
        }
        assert(block.instructions@.take(i + 1) =~= block.instructions@.take(i as int).push(block.instructions@[i as int]));
        i = i + 1;
    }
    assert(block.instructions@.take(i as int) =~= block.instructions@);
    true
}

} // verus!
