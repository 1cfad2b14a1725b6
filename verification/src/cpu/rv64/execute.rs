//! Instruction execution for the 64-bit core: RV64I, M and A, and the
//! system instructions.

use vstd::prelude::*;
use crate::cpu::{PrivilegeLevel, priv_encoding, priv_from_bits};
use crate::cpu::decode::{spec_imm_i, spec_imm_s, spec_imm_b, spec_imm_u, spec_imm_j,
    OP_LUI, OP_AUIPC, OP_JAL, OP_JALR, OP_BRANCH, OP_LOAD, OP_STORE, OP_OP_IMM, OP_OP, OP_MISC_MEM, OP_SYSTEM,
    OP_AMO, FUNCT3_BEQ, FUNCT3_BNE, FUNCT3_BLT, FUNCT3_BGE, FUNCT3_BLTU, FUNCT3_BGEU,
    FUNCT3_LB, FUNCT3_LH, FUNCT3_LW, FUNCT3_LBU, FUNCT3_LHU,
    FUNCT3_ADD_SUB, FUNCT3_SLL, FUNCT3_SLT, FUNCT3_SLTU, FUNCT3_XOR, FUNCT3_SRL_SRA, FUNCT3_OR, FUNCT3_AND,
    FUNCT3_MUL, FUNCT3_MULH, FUNCT3_MULHSU, FUNCT3_MULHU, FUNCT3_DIV, FUNCT3_DIVU, FUNCT3_REM, FUNCT3_REMU,
    FUNCT3_PRIV, FUNCT3_CSRRWI,
    FUNCT5_LR, FUNCT5_SC, FUNCT5_AMOSWAP, FUNCT5_AMOADD, FUNCT5_AMOXOR, FUNCT5_AMOAND, FUNCT5_AMOOR,
    FUNCT5_AMOMIN, FUNCT5_AMOMAX, FUNCT5_AMOMINU, FUNCT5_AMOMAXU};
use crate::cpu::fpu::{FFlags, Fpu, RoundingMode, fflags_of, fflags_bits, rm_encoding, rm_from_bits};
use crate::cpu::rv32::execute::{sgn, abs, tdiv, trem, mext_value, m_ext};
use crate::cpu::rv32::csr::{csr_min_priv, csr_read_only, CSR_FFLAGS, CSR_FRM, CSR_FCSR, CSR_SATP};
use crate::memory::Bus;
use super::{Cpu64, reg_value64, regs_after64};
use super::csr::{Csr64, MSTATUS_MPRV, MSTATUS_FS};
use super::decode::{DecodedInst, decodes64, OP_OP_IMM_32, OP_OP_32, FUNCT3_LWU, FUNCT3_LD};
use super::mmu::{AccessType, fault_cause64};
use super::trap::{self, Trap64, trap_from_cause64, spec_status_mret64, spec_status_sret64};

verus! {

/// `x` read as a two's complement 64-bit number.
pub open spec fn sgn64(x: u64) -> int {
    if x >= 0x8000_0000_0000_0000 { x - 0x1_0000_0000_0000_0000 } else { x as int }
}

/// The 64-bit pattern of a value in [-2^63, 2^64).
pub open spec fn from_sgn64(i: int) -> u64 {
    if i < 0 { (i + 0x1_0000_0000_0000_0000) as u64 } else { i as u64 }
}

/// A 32-bit word sign-extended to 64 bits.
pub open spec fn sext_word(w: u32) -> u64 {
    from_sgn64(sgn(w))
}

/// Sign-extends a 32-bit signed value to a 64-bit pattern.
pub fn sext(v: i32) -> (r: u64)
    ensures
        r == from_sgn64(v as int),
{
    if v >= 0 {
        v as u64
    } else {
        let m = (-(v as i64)) as u64;
        0u64.wrapping_sub(m)
    }
}

/// Sign-extends a 32-bit word to 64 bits.
pub fn sext_w(w: u32) -> (r: u64)
    ensures
        r == sext_word(w),
{
    if w >= 0x8000_0000 {
        w as u64 + 0xFFFF_FFFF_0000_0000
    } else {
        w as u64
    }
}

/// Signed (two's complement) less-than on 64-bit words.
pub fn lt_signed64(a: u64, b: u64) -> (r: bool)
    ensures
        r == (sgn64(a) < sgn64(b)),
{
    if a >= 0x8000_0000_0000_0000 {
        if b >= 0x8000_0000_0000_0000 { a < b } else { true }
    } else {
        if b >= 0x8000_0000_0000_0000 { false } else { a < b }
    }
}

/// Result of a register-register ALU instruction (OP with funct7 other than 1).
pub open spec fn spec_alu64(funct3: u32, funct7: u32, a: u64, b: u64) -> Option<u64> {
    if funct3 == FUNCT3_ADD_SUB && funct7 == 0 { Some(a.wrapping_add(b)) }
    else if funct3 == FUNCT3_ADD_SUB && funct7 == 0x20 { Some(a.wrapping_sub(b)) }
    else if funct3 == FUNCT3_SLL && funct7 == 0 { Some(a << (b % 64)) }
    else if funct3 == FUNCT3_SLT && funct7 == 0 { Some(if sgn64(a) < sgn64(b) { 1u64 } else { 0u64 }) }
    else if funct3 == FUNCT3_SLTU && funct7 == 0 { Some(if a < b { 1u64 } else { 0u64 }) }
    else if funct3 == FUNCT3_XOR && funct7 == 0 { Some(a ^ b) }
    else if funct3 == FUNCT3_SRL_SRA && funct7 == 0 { Some(a >> (b % 64)) }
    else if funct3 == FUNCT3_SRL_SRA && funct7 == 0x20 { Some(((a as i64) >> (b % 64)) as u64) }
    else if funct3 == FUNCT3_OR && funct7 == 0 { Some(a | b) }
    else if funct3 == FUNCT3_AND && funct7 == 0 { Some(a & b) }
    else { None }
}

/// Result of a register-immediate ALU instruction (OP-IMM); the shift
/// amount is six bits, and bits 31..26 select the arithmetic right shift.
pub open spec fn spec_alu_imm64(funct3: u32, inst: u32, a: u64) -> Option<u64> {
    let imm = from_sgn64(spec_imm_i(inst));
    let shamt = imm % 64;
    if funct3 == FUNCT3_ADD_SUB { Some(a.wrapping_add(imm)) }
    else if funct3 == FUNCT3_SLT { Some(if sgn64(a) < sgn64(imm) { 1u64 } else { 0u64 }) }
    else if funct3 == FUNCT3_SLTU { Some(if a < imm { 1u64 } else { 0u64 }) }
    else if funct3 == FUNCT3_XOR { Some(a ^ imm) }
    else if funct3 == FUNCT3_OR { Some(a | imm) }
    else if funct3 == FUNCT3_AND { Some(a & imm) }
    else if funct3 == FUNCT3_SLL { Some(a << shamt) }
    else if funct3 == FUNCT3_SRL_SRA {
        if (inst >> 26u32) & 0x3f == 0b010000 { Some(((a as i64) >> shamt) as u64) } else { Some(a >> shamt) }
    }
    else { None }
}

/// Result of a 32-bit register-immediate instruction (OP-IMM-32), before sign extension.
pub open spec fn spec_alu_imm_w(funct3: u32, inst: u32, a: u32) -> Option<u32> {
    let imm = spec_imm_i(inst) as i32 as u32;
    let shamt = imm & 0x1f;
    if funct3 == FUNCT3_ADD_SUB { Some(a.wrapping_add(imm)) }
    else if funct3 == FUNCT3_SLL { Some(a << shamt) }
    else if funct3 == FUNCT3_SRL_SRA {
        if (inst >> 25u32) & 0x7f == 0b0100000 { Some(((a as i32) >> shamt) as u32) } else { Some(a >> shamt) }
    }
    else { None }
}

/// Result of a 32-bit register-register instruction (OP-32 with funct7 other than 1), before sign extension.
pub open spec fn spec_alu_w(funct3: u32, funct7: u32, a: u32, b: u32) -> Option<u32> {
    if funct3 == FUNCT3_ADD_SUB && funct7 == 0 { Some(a.wrapping_add(b)) }
    else if funct3 == FUNCT3_ADD_SUB && funct7 == 0x20 { Some(a.wrapping_sub(b)) }
    else if funct3 == FUNCT3_SLL && funct7 == 0 { Some(a << (b & 0x1f)) }
    else if funct3 == FUNCT3_SRL_SRA && funct7 == 0 { Some(a >> (b & 0x1f)) }
    else if funct3 == FUNCT3_SRL_SRA && funct7 == 0x20 { Some(((a as i32) >> (b & 0x1f)) as u32) }
    else { None }
}

/// Is a branch with this funct3 taken for operands `a`, `b`? `None` for an invalid funct3.
pub open spec fn spec_branch64(funct3: u32, a: u64, b: u64) -> Option<bool> {
    if funct3 == FUNCT3_BEQ { Some(a == b) }
    else if funct3 == FUNCT3_BNE { Some(a != b) }
    else if funct3 == FUNCT3_BLT { Some(sgn64(a) < sgn64(b)) }
    else if funct3 == FUNCT3_BGE { Some(sgn64(a) >= sgn64(b)) }
    else if funct3 == FUNCT3_BLTU { Some(a < b) }
    else if funct3 == FUNCT3_BGEU { Some(a >= b) }
    else { None }
}

/// The value a 64-bit M-extension instruction writes to rd.
pub open spec fn mext64_value(funct3: u32, a: u64, b: u64) -> u64 {
    if funct3 == FUNCT3_MUL { a.wrapping_mul(b) }
    else if funct3 == FUNCT3_MULH { ((sgn64(a) * sgn64(b)) / 0x1_0000_0000_0000_0000 % 0x1_0000_0000_0000_0000) as u64 }
    else if funct3 == FUNCT3_MULHSU { ((sgn64(a) * b) / 0x1_0000_0000_0000_0000 % 0x1_0000_0000_0000_0000) as u64 }
    else if funct3 == FUNCT3_MULHU { ((a * b) / 0x1_0000_0000_0000_0000) as u64 }
    else if funct3 == FUNCT3_DIV {
        if b == 0 { u64::MAX }
        else if a == 0x8000_0000_0000_0000 && b == u64::MAX { a }
        else { from_sgn64(tdiv(sgn64(a), sgn64(b))) }
    }
    else if funct3 == FUNCT3_DIVU { if b == 0 { u64::MAX } else { a / b } }
    else if funct3 == FUNCT3_REM {
        if b == 0 { a }
        else if a == 0x8000_0000_0000_0000 && b == u64::MAX { 0 }
        else { from_sgn64(trem(sgn64(a), sgn64(b))) }
    }
    else { if b == 0 { a } else { a % b } }
}

/// The 32-bit M-extension forms (MULW, DIVW, DIVUW, REMW, REMUW): the word
/// result, or `None` for the funct3 values without a W form.
pub open spec fn mext_w_value(funct3: u32, a: u32, b: u32) -> Option<u32> {
    if funct3 == FUNCT3_MUL || funct3 == FUNCT3_DIV || funct3 == FUNCT3_DIVU || funct3 == FUNCT3_REM || funct3 == FUNCT3_REMU {
        Some(mext_value(funct3, a, b))
    } else {
        None
    }
}

/// The opcode field of an instruction.
pub open spec fn op_of(inst: u32) -> u32 { inst & 0x7f }
/// The rd field of an instruction.
pub open spec fn rd_of(inst: u32) -> u32 { (inst >> 7u32) & 0x1f }
/// The funct3 field of an instruction.
pub open spec fn f3_of(inst: u32) -> u32 { (inst >> 12u32) & 0x7 }
/// The rs1 field of an instruction.
pub open spec fn rs1_of(inst: u32) -> u32 { (inst >> 15u32) & 0x1f }
/// The rs2 field of an instruction.
pub open spec fn rs2_of(inst: u32) -> u32 { (inst >> 20u32) & 0x1f }
/// The funct7 field of an instruction.
pub open spec fn f7_of(inst: u32) -> u32 { (inst >> 25u32) & 0x7f }

/// Opcodes whose effect is on pc and the integer registers alone.
pub open spec fn is_int_opcode64(op: u32) -> bool {
    op == OP_LUI || op == OP_AUIPC || op == OP_JAL || op == OP_JALR || op == OP_BRANCH
        || op == OP_OP_IMM || op == OP_OP || op == OP_OP_IMM_32 || op == OP_OP_32
}

/// The next pc and register file of an instruction with an integer-only
/// opcode, or the trap it raises.
pub open spec fn spec_int_step64(pc: u64, regs: Seq<u64>, inst: u32) -> Result<(u64, Seq<u64>), Trap64> {
    let op = op_of(inst);
    let rd = rd_of(inst);
    let f3 = f3_of(inst);
    let f7 = f7_of(inst);
    let a = reg_value64(regs, rs1_of(inst));
    let b = reg_value64(regs, rs2_of(inst));
    let next = pc.wrapping_add(4);
    let illegal = Err(Trap64::IllegalInstruction(inst as u64));
    if op == OP_LUI {
        Ok((next, regs_after64(regs, rd, from_sgn64(spec_imm_u(inst)))))
    } else if op == OP_AUIPC {
        Ok((next, regs_after64(regs, rd, pc.wrapping_add(from_sgn64(spec_imm_u(inst))))))
    } else if op == OP_JAL {
        Ok((pc.wrapping_add(from_sgn64(spec_imm_j(inst))), regs_after64(regs, rd, next)))
    } else if op == OP_JALR {
        Ok((a.wrapping_add(from_sgn64(spec_imm_i(inst))) & !1u64, regs_after64(regs, rd, next)))
    } else if op == OP_BRANCH {
        match spec_branch64(f3, a, b) {
            Some(taken) => Ok((if taken { pc.wrapping_add(from_sgn64(spec_imm_b(inst))) } else { next }, regs)),
            None => illegal,
        }
    } else if op == OP_OP_IMM {
        match spec_alu_imm64(f3, inst, a) {
            Some(v) => Ok((next, regs_after64(regs, rd, v))),
            None => illegal,
        }
    } else if op == OP_OP {
        if f7 == 1 {
            Ok((next, regs_after64(regs, rd, mext64_value(f3, a, b))))
        } else {
            match spec_alu64(f3, f7, a, b) {
                Some(v) => Ok((next, regs_after64(regs, rd, v))),
                None => illegal,
            }
        }
    } else if op == OP_OP_IMM_32 {
        match spec_alu_imm_w(f3, inst, a as u32) {
            Some(v) => Ok((next, regs_after64(regs, rd, sext_word(v)))),
            None => illegal,
        }
    } else if op == OP_OP_32 {
        if f7 == 1 {
            match mext_w_value(f3, a as u32, b as u32) {
                Some(v) => Ok((next, regs_after64(regs, rd, sext_word(v)))),
                None => Err(Trap64::IllegalInstruction(0)),
            }
        } else {
            match spec_alu_w(f3, f7, a as u32, b as u32) {
                Some(v) => Ok((next, regs_after64(regs, rd, sext_word(v)))),
                None => illegal,
            }
        }
    } else {
        illegal
    }
}

/// Everything but pc and the integer registers is the same in `a` and `b`.
pub open spec fn same_but_pc_regs64(a: Cpu64, b: Cpu64) -> bool {
    &&& a.fpu == b.fpu
    &&& a.csr == b.csr
    &&& a.priv_level == b.priv_level
    &&& a.wfi == b.wfi
    &&& a.reservation == b.reservation
    &&& a.instruction_count == b.instruction_count
    &&& a.mmu == b.mmu
    &&& a.last_write_addr == b.last_write_addr
    &&& a.last_write_val == b.last_write_val
}

/// The privilege level loads and stores are checked at (MPRV in M-mode selects MPP).
pub open spec fn data_priv64(mstatus: u64, p: PrivilegeLevel) -> PrivilegeLevel {
    if mstatus & MSTATUS_MPRV != 0 && p == PrivilegeLevel::Machine {
        priv_from_bits(((mstatus >> 11u64) % 4) as u32)
    } else {
        p
    }
}

/// Loads and stores translate nothing at this privilege and satp.
pub open spec fn untranslated64(c: Cpu64) -> bool {
    data_priv64(c.csr.mstatus, c.priv_level) == PrivilegeLevel::Machine || (c.csr.satp >> 60u64) & 0xF == 0
}

/// The load funct3 values.
pub open spec fn is_load_f3_64(f3: u32) -> bool {
    f3 == FUNCT3_LB || f3 == FUNCT3_LH || f3 == FUNCT3_LW || f3 == FUNCT3_LBU || f3 == FUNCT3_LHU
        || f3 == FUNCT3_LWU || f3 == FUNCT3_LD
}

/// A byte read as a two's complement number.
pub open spec fn sext8(b: u8) -> int {
    if b >= 0x80 { b - 0x100 } else { b as int }
}

/// A halfword read as a two's complement number.
pub open spec fn sext16(h: u16) -> int {
    if h >= 0x8000 { h - 0x1_0000 } else { h as int }
}

/// The register value a load of width `f3` makes of the raw value `raw` read
/// from memory (sign- or zero-extended from its width).
pub open spec fn load_extend(f3: u32, raw: u64) -> u64 {
    if f3 == FUNCT3_LB { from_sgn64(sext8(raw as u8)) }
    else if f3 == FUNCT3_LH { from_sgn64(sext16(raw as u16)) }
    else if f3 == FUNCT3_LW { sext_word(raw as u32) }
    else if f3 == FUNCT3_LBU { raw as u8 as u64 }
    else if f3 == FUNCT3_LHU { raw as u16 as u64 }
    else if f3 == FUNCT3_LWU { raw as u32 as u64 }
    else { raw }
}

/// A page fault for the data access at `vaddr`, or an access fault for a
/// physical address beyond the 32-bit bus.
pub open spec fn data_fault(r: Result<(), Trap64>, vaddr: u64) -> bool {
    ||| r == Err::<(), Trap64>(Trap64::LoadPageFault(vaddr))
    ||| r == Err::<(), Trap64>(Trap64::StorePageFault(vaddr))
    ||| bus_fault(r)
}

/// An access fault for a physical address beyond the 32-bit bus.
pub open spec fn bus_fault(r: Result<(), Trap64>) -> bool {
    match r {
        Err(Trap64::LoadAccessFault(p)) => p > u32::MAX,
        _ => false,
    }
}

/// What a LOAD leaves behind.
pub open spec fn load_post64(o: Cpu64, c: Cpu64, inst: u32, r: Result<(), Trap64>) -> bool {
    let vaddr = reg_value64(o.regs@, rs1_of(inst)).wrapping_add(from_sgn64(spec_imm_i(inst)));
    let f3 = f3_of(inst);
    &&& r is Ok ==> {
        &&& is_load_f3_64(f3)
        &&& c.pc == o.pc.wrapping_add(4)
        &&& exists|raw: u64| #[trigger] regs_after64(o.regs@, rd_of(inst), load_extend(f3, raw)) == c.regs@
    }
    &&& r is Err ==> {
        ||| r == Err::<(), Trap64>(Trap64::LoadPageFault(vaddr))
        ||| bus_fault(r)
        ||| (!is_load_f3_64(f3) && r == Err::<(), Trap64>(Trap64::IllegalInstruction(inst as u64)))
    }
    &&& r is Err ==> c.pc == o.pc && c.regs == o.regs
    &&& c.csr == o.csr && c.priv_level == o.priv_level && c.fpu == o.fpu && c.reservation == o.reservation
    &&& untranslated64(o) && vaddr <= u32::MAX && is_load_f3_64(f3) ==> r is Ok
}

/// The raw value a load with funct3 `f3` reads at `a` on bus `b`, when
/// reading there changes nothing.
pub open spec fn bus_raw64<B: Bus>(b: B, f3: u32, a: u32) -> Option<u64> {
    if f3 == FUNCT3_LB || f3 == FUNCT3_LBU {
        match b.peek8(a) { Some(x) => Some(x as u64), None => None }
    } else if f3 == FUNCT3_LH || f3 == FUNCT3_LHU {
        match crate::cpu::rv32::execute::peek_half(b, a) { Some(h) => Some(h as u64), None => None }
    } else if f3 == FUNCT3_LW || f3 == FUNCT3_LWU {
        match crate::cpu::rv32::execute::peek_word(b, a) { Some(w) => Some(w as u64), None => None }
    } else {
        match (crate::cpu::rv32::execute::peek_word(b, a), crate::cpu::rv32::execute::peek_word(b, a.wrapping_add(4))) {
            (Some(lo), Some(hi)) => Some((lo + hi * 0x1_0000_0000) as u64),
            _ => None,
        }
    }
}

/// A load that translates nothing, below 4 GiB, where reading changes
/// nothing, writes the value read (extended) to rd and leaves the bus as it
/// was (misaligned LD excepted).
pub open spec fn load_value_post64<B: Bus>(o: Cpu64, c: Cpu64, ob: B, fb: B, inst: u32, r: Result<(), Trap64>) -> bool {
    let vaddr = reg_value64(o.regs@, rs1_of(inst)).wrapping_add(from_sgn64(spec_imm_i(inst)));
    let f3 = f3_of(inst);
    untranslated64(o) && vaddr <= u32::MAX && is_load_f3_64(f3) && (f3 != FUNCT3_LD || vaddr % 8 == 0) ==>
        match bus_raw64(ob, f3, vaddr as u32) {
            Some(raw) => r is Ok && c.regs@ == regs_after64(o.regs@, rd_of(inst), load_extend(f3, raw)) && fb == ob,
            None => true,
        }
}

/// The part of a stored register value that a store of this width writes.
pub open spec fn store_value64(f3: u32, v: u64) -> u64 {
    if f3 == 0 { v & 0xFF } else if f3 == 1 { v & 0xFFFF } else if f3 == 2 { v & 0xFFFF_FFFF } else { v }
}

/// What a STORE leaves behind.
pub open spec fn store_post64(o: Cpu64, c: Cpu64, inst: u32, r: Result<(), Trap64>) -> bool {
    let vaddr = reg_value64(o.regs@, rs1_of(inst)).wrapping_add(from_sgn64(spec_imm_s(inst)));
    let f3 = f3_of(inst);
    &&& c.regs == o.regs
    &&& c.csr == o.csr && c.priv_level == o.priv_level && c.fpu == o.fpu && c.reservation == o.reservation
    &&& r is Ok ==> {
        &&& f3 < 4
        &&& c.pc == o.pc.wrapping_add(4)
        &&& c.last_write_val == store_value64(f3, reg_value64(o.regs@, rs2_of(inst)))
    }
    &&& r is Err ==> {
        ||| data_fault(r, vaddr)
        ||| (f3 >= 4 && r == Err::<(), Trap64>(Trap64::IllegalInstruction(inst as u64)))
    }
    &&& r is Err ==> c.pc == o.pc
    &&& untranslated64(o) && vaddr <= u32::MAX && f3 < 4 ==> r is Ok
}

/// The AMO funct5 values the core implements.
pub open spec fn is_amo_f5(f5: u32) -> bool {
    f5 == FUNCT5_LR || f5 == FUNCT5_SC || f5 == FUNCT5_AMOSWAP || f5 == FUNCT5_AMOADD
        || f5 == FUNCT5_AMOXOR || f5 == FUNCT5_AMOAND || f5 == FUNCT5_AMOOR || f5 == FUNCT5_AMOMIN
        || f5 == FUNCT5_AMOMAX || f5 == FUNCT5_AMOMINU || f5 == FUNCT5_AMOMAXU
}

/// What an AMO instruction (LR, SC and the read-modify-write operations, on
/// words or doublewords) leaves behind.
pub open spec fn amo_post64(o: Cpu64, c: Cpu64, inst: u32, r: Result<(), Trap64>) -> bool {
    let vaddr = reg_value64(o.regs@, rs1_of(inst));
    let f5 = (inst >> 27u32) & 0x1f;
    let width = f3_of(inst);
    let rd = rd_of(inst);
    let align: u64 = if width == 2 { 4 } else { 8 };
    &&& c.csr == o.csr && c.priv_level == o.priv_level && c.fpu == o.fpu
    &&& r is Err ==> c.pc == o.pc && c.regs == o.regs && c.reservation == o.reservation
    &&& r is Err ==> {
        ||| data_fault(r, vaddr)
        ||| ((width != 2 && width != 3) && r == Err::<(), Trap64>(Trap64::IllegalInstruction(inst as u64)))
        ||| (vaddr % align != 0 && r == Err::<(), Trap64>(Trap64::StoreAddressMisaligned(vaddr)))
        ||| (!is_amo_f5(f5) && r == Err::<(), Trap64>(Trap64::IllegalInstruction(0)))
    }
    &&& r is Ok ==> {
        &&& c.pc == o.pc.wrapping_add(4)
        &&& (width == 2 || width == 3)
        &&& vaddr % align == 0
        &&& is_amo_f5(f5)
    }
    &&& (o.priv_level == PrivilegeLevel::Machine || (o.csr.satp >> 60u64) & 0xF == 0)
        && vaddr <= u32::MAX && (width == 2 || width == 3) && vaddr % align == 0
        && is_amo_f5(f5) ==> r is Ok
    &&& f5 == FUNCT5_LR && r is Ok ==> {
        &&& c.reservation == Some(vaddr)
        &&& exists|v: u64| #[trigger] regs_after64(o.regs@, rd, v) == c.regs@
    }
    &&& f5 == FUNCT5_SC && r is Ok ==> {
        &&& c.regs@ == regs_after64(o.regs@, rd, if o.reservation == Some(vaddr) { 0 } else { 1 })
        &&& c.reservation is None
    }
    &&& f5 != FUNCT5_LR && f5 != FUNCT5_SC && r is Ok ==> {
        &&& c.reservation == o.reservation
        &&& exists|v: u64| #[trigger] regs_after64(o.regs@, rd, v) == c.regs@
    }
}

/// The trap an ECALL raises at privilege `p`.
pub open spec fn ecall_trap64(p: PrivilegeLevel) -> Trap64 {
    match p {
        PrivilegeLevel::User => Trap64::EnvironmentCallFromU,
        PrivilegeLevel::Supervisor => Trap64::EnvironmentCallFromS,
        PrivilegeLevel::Machine => Trap64::EnvironmentCallFromM,
    }
}

pub const INST_ECALL: u32 = 0x0000_0073;
pub const INST_EBREAK: u32 = 0x0010_0073;
pub const INST_SRET: u32 = 0x1020_0073;
pub const INST_MRET: u32 = 0x3020_0073;
pub const INST_WFI: u32 = 0x1050_0073;

/// The value a CSR instruction reads, or `None` when the CSR cannot be read
/// at the current privilege (the floating-point CSRs live in the FPU).
pub open spec fn csr_old_value64(c: Cpu64, addr: u32) -> Option<u64> {
    if addr == CSR_FFLAGS { Some(fflags_bits(c.fpu.fflags) as u64) }
    else if addr == CSR_FRM { Some(rm_encoding(c.fpu.frm) as u64) }
    else if addr == CSR_FCSR { Some((rm_encoding(c.fpu.frm) * 32 + fflags_bits(c.fpu.fflags)) as u64) }
    else if priv_encoding(c.priv_level) < csr_min_priv(addr) { None }
    else { Some(c.csr.spec_value(addr)) }
}

/// May `addr` be written at privilege `p`?
pub open spec fn csr_writable_at64(addr: u32, p: PrivilegeLevel) -> bool {
    priv_encoding(p) >= csr_min_priv(addr) && !csr_read_only(addr) && Csr64::spec_writable(addr)
}

/// The CPU after a CSR instruction wrote `v` to `addr` (before rd and pc are
/// updated); a write that changes satp also starts a new TLB generation.
pub open spec fn csr_written64(o: Cpu64, c: Cpu64, addr: u32, old_val: u64, v: u64) -> bool {
    let dirty = Csr64 { mstatus: o.csr.mstatus | MSTATUS_FS, ..o.csr };
    if addr == CSR_FFLAGS {
        c.fpu == (Fpu { fflags: fflags_of((v & 0x1f) as u32), ..o.fpu }) && c.csr == dirty && c.mmu == o.mmu
    } else if addr == CSR_FRM {
        c.fpu == (Fpu { frm: rm_from_bits(v as u32), ..o.fpu }) && c.csr == dirty && c.mmu == o.mmu
    } else if addr == CSR_FCSR {
        c.fpu == (Fpu { fflags: fflags_of((v as u32) & 0x1f), frm: rm_from_bits(((v as u32) >> 5u32) & 0b111), ..o.fpu })
            && c.csr == dirty && c.mmu == o.mmu
    } else {
        &&& c.fpu == o.fpu
        &&& c.csr == o.csr.spec_after_write(addr, v)
        &&& (addr == CSR_SATP && v != old_val) ==> c.mmu.tlb_gen() == o.mmu.tlb_gen().wrapping_add(1)
        &&& !(addr == CSR_SATP && v != old_val) ==> c.mmu == o.mmu
    }
}

/// What a CSR instruction (CSRRW, CSRRS, CSRRC and their immediate forms) leaves behind.
pub open spec fn csr_post64(o: Cpu64, c: Cpu64, inst: u32, r: Result<(), Trap64>) -> bool {
    let f3 = f3_of(inst);
    let addr = (inst >> 20u32) & 0xFFF;
    let src = if f3 >= FUNCT3_CSRRWI { rs1_of(inst) as u64 } else { reg_value64(o.regs@, rs1_of(inst)) };
    let fp = addr == CSR_FFLAGS || addr == CSR_FRM || addr == CSR_FCSR;
    match csr_old_value64(o, addr) {
        None => r == Err::<(), Trap64>(Trap64::IllegalInstruction(inst as u64)) && c == o,
        Some(old_val) => {
            let new_val = if f3 % 4 == 1 { src } else if f3 % 4 == 2 { old_val | src } else { old_val & !src };
            let writes = f3 % 4 == 1 || src != 0;
            if writes && !fp && !csr_writable_at64(addr, o.priv_level) {
                r == Err::<(), Trap64>(Trap64::IllegalInstruction(inst as u64)) && c == o
            } else {
                &&& r is Ok
                &&& c.pc == o.pc.wrapping_add(4)
                &&& c.regs@ == regs_after64(o.regs@, rd_of(inst), old_val)
                &&& writes ==> csr_written64(o, c, addr, old_val, new_val)
                &&& !writes ==> c.csr == o.csr && c.fpu == o.fpu && c.mmu == o.mmu
                &&& c.priv_level == o.priv_level && c.wfi == o.wfi && c.reservation == o.reservation
            }
        },
    }
}

/// What a SYSTEM instruction leaves behind.
pub open spec fn system_post64(o: Cpu64, c: Cpu64, inst: u32, r: Result<(), Trap64>) -> bool {
    let f3 = f3_of(inst);
    if f3 == FUNCT3_PRIV {
        if inst == INST_ECALL {
            r == Err::<(), Trap64>(ecall_trap64(o.priv_level)) && c == o
        } else if inst == INST_EBREAK {
            r == Err::<(), Trap64>(Trap64::Breakpoint(o.pc)) && c == o
        } else if inst == INST_SRET {
            if o.priv_level == PrivilegeLevel::User {
                r == Err::<(), Trap64>(Trap64::IllegalInstruction(inst as u64)) && c == o
            } else {
                &&& r is Ok
                &&& c == Cpu64 {
                    pc: o.csr.sepc,
                    csr: Csr64 { mstatus: spec_status_sret64(o.csr.mstatus), ..o.csr },
                    priv_level: if (o.csr.mstatus >> 8u64) & 1 == 1 { PrivilegeLevel::Supervisor } else { PrivilegeLevel::User },
                    ..o
                }
            }
        } else if inst == INST_MRET {
            if o.priv_level != PrivilegeLevel::Machine {
                r == Err::<(), Trap64>(Trap64::IllegalInstruction(inst as u64)) && c == o
            } else {
                &&& r is Ok
                &&& c == Cpu64 {
                    pc: o.csr.mepc,
                    csr: Csr64 { mstatus: spec_status_mret64(o.csr.mstatus), ..o.csr },
                    priv_level: priv_from_bits(((o.csr.mstatus >> 11u64) % 4) as u32),
                    ..o
                }
            }
        } else if inst == INST_WFI {
            r is Ok && c == Cpu64 { wfi: true, pc: o.pc.wrapping_add(4), ..o }
        } else if inst >> 25u32 == 0b0001001 {
            &&& r is Ok
            &&& c == Cpu64 { pc: o.pc.wrapping_add(4), mmu: c.mmu, ..o }
            &&& c.mmu.tlb_gen() == o.mmu.tlb_gen().wrapping_add(1)
        } else {
            r == Err::<(), Trap64>(Trap64::IllegalInstruction(inst as u64)) && c == o
        }
    } else if f3 == 4 {
        r == Err::<(), Trap64>(Trap64::IllegalInstruction(inst as u64)) && c == o
    } else {
        csr_post64(o, c, inst, r)
    }
}

/// Magnitude of a two's complement 64-bit value.
fn magnitude64(x: u64) -> (r: u64)
    ensures
        r as int == abs(sgn64(x)),
{
    if x >= 0x8000_0000_0000_0000 { 0u64.wrapping_sub(x) } else { x }
}

/// Two's complement of `q`, for `q <= 2^63`.
fn negate64(q: u64) -> (r: u64)
    requires
        q <= 0x8000_0000_0000_0000,
    ensures
        sgn64(r) == -(q as int),
{
    0u64.wrapping_sub(q)
}

/// The upper doubleword of a product of magnitude `p` and sign `neg`.
proof fn lemma_high_dword(p: u128, neg: bool, hi: u64)
    requires
        p <= 0xFFFF_FFFF_FFFF_FFFE_0000_0000_0000_0001,
        neg && p != 0 ==> hi as int == (0x1_0000_0000_0000_0000_0000_0000_0000_0000 - p) / 0x1_0000_0000_0000_0000,
        !(neg && p != 0) ==> hi as int == p as int / 0x1_0000_0000_0000_0000,
    ensures
        hi as int == (if neg { -(p as int) } else { p as int }) / 0x1_0000_0000_0000_0000 % 0x1_0000_0000_0000_0000,
{
    if neg && p != 0 {
        let np: int = 0x1_0000_0000_0000_0000_0000_0000_0000_0000 - p;
        assert((-(p as int)) / 0x1_0000_0000_0000_0000 % 0x1_0000_0000_0000_0000
            == (np / 0x1_0000_0000_0000_0000) % 0x1_0000_0000_0000_0000) by (nonlinear_arith)
            requires np == 0x1_0000_0000_0000_0000_0000_0000_0000_0000 - p, p > 0;
        assert(np / 0x1_0000_0000_0000_0000 < 0x1_0000_0000_0000_0000) by (nonlinear_arith)
            requires np < 0x1_0000_0000_0000_0000_0000_0000_0000_0000, np >= 0;
    } else {
        assert((p as int) / 0x1_0000_0000_0000_0000 < 0x1_0000_0000_0000_0000) by (nonlinear_arith)
            requires p <= 0xFFFF_FFFF_FFFF_FFFE_0000_0000_0000_0001;
    }
}

/// The 64-bit M-extension result (all eight funct3 values are defined).
pub fn m_ext64(funct3: u32, rs1: u64, rs2: u64) -> (r: u64)
    requires
        funct3 < 8,
    ensures
        r == mext64_value(funct3, rs1, rs2),
{
    if funct3 == FUNCT3_MUL {
        rs1.wrapping_mul(rs2)
    } else if funct3 == FUNCT3_MULH || funct3 == FUNCT3_MULHSU || funct3 == FUNCT3_MULHU {
        let neg_a = rs1 >= 0x8000_0000_0000_0000 && funct3 != FUNCT3_MULHU;
        let a_mag: u128 = if funct3 == FUNCT3_MULHU { rs1 as u128 } else { magnitude64(rs1) as u128 };
        let neg_b = funct3 == FUNCT3_MULH && rs2 >= 0x8000_0000_0000_0000;
        let b_mag: u128 = if funct3 == FUNCT3_MULH { magnitude64(rs2) as u128 } else { rs2 as u128 };
        assert(a_mag * b_mag <= 0xFFFF_FFFF_FFFF_FFFE_0000_0000_0000_0001) by (nonlinear_arith)
            requires a_mag <= 0xFFFF_FFFF_FFFF_FFFF, b_mag <= 0xFFFF_FFFF_FFFF_FFFF;
        let p = a_mag * b_mag;
        let neg = neg_a != neg_b;
        let hi: u64 = if neg && p != 0 {
            let np: u128 = (0xFFFF_FFFF_FFFF_FFFF_FFFF_FFFF_FFFF_FFFFu128 - p) + 1;
            (np / 0x1_0000_0000_0000_0000) as u64
        } else {
            (p / 0x1_0000_0000_0000_0000) as u64
        };
        proof {
            let sa = if funct3 == FUNCT3_MULHU { rs1 as int } else { sgn64(rs1) };
            let sb = if funct3 == FUNCT3_MULH { sgn64(rs2) } else { rs2 as int };
            assert(sa * sb == if neg { -(p as int) } else { p as int }) by (nonlinear_arith)
                requires
                    abs(sa) == a_mag, abs(sb) == b_mag, p == a_mag * b_mag,
                    (sa < 0) == neg_a, (sb < 0) == neg_b, neg == (neg_a != neg_b),
                    sa >= 0 || neg_a, sb >= 0 || neg_b;
            lemma_high_dword(p, neg, hi);
            if funct3 == FUNCT3_MULHU {
                assert(!neg);
            }
        }
        hi
    } else if funct3 == FUNCT3_DIV {
        if rs2 == 0 {
            u64::MAX
        } else if rs1 == 0x8000_0000_0000_0000 && rs2 == u64::MAX {
            rs1
        } else {
            let ma = magnitude64(rs1);
            let mb = magnitude64(rs2);
            let q = ma / mb;
            assert(q <= ma) by (nonlinear_arith) requires mb >= 1, q == ma / mb;
            let neg = (rs1 >= 0x8000_0000_0000_0000) != (rs2 >= 0x8000_0000_0000_0000);
            if neg {
                negate64(q)
            } else {
                proof {
                    if rs1 == 0x8000_0000_0000_0000 {
                        assert(mb >= 2);
                        assert(q < 0x8000_0000_0000_0000) by (nonlinear_arith)
                            requires mb >= 2, ma <= 0x8000_0000_0000_0000, q == ma / mb;
                    }
                }
                q
            }
        }
    } else if funct3 == FUNCT3_DIVU {
        if rs2 == 0 { u64::MAX } else { rs1 / rs2 }
    } else if funct3 == FUNCT3_REM {
        if rs2 == 0 {
            rs1
        } else if rs1 == 0x8000_0000_0000_0000 && rs2 == u64::MAX {
            0
        } else {
            let ma = magnitude64(rs1);
            let mb = magnitude64(rs2);
            let m = ma % mb;
            assert(m < mb) by (nonlinear_arith) requires mb >= 1, m == ma % mb;
            if rs1 >= 0x8000_0000_0000_0000 { negate64(m) } else { m }
        }
    } else {
        if rs2 == 0 { rs1 } else { rs1 % rs2 }
    }
}

/// What executing the full-width word `inst` leaves behind, as `Cpu64::execute` states it.
pub open spec fn exec_outcome64(o: Cpu64, c: Cpu64, inst: u32, r: Result<(), Trap64>) -> bool {
    &&& c.instruction_count == o.instruction_count
    &&& r is Err ==> c.pc == o.pc && c.regs == o.regs
    &&& is_int_opcode64(op_of(inst)) ==> match spec_int_step64(o.pc, o.regs@, inst) {
        Ok(next) => {
            &&& r is Ok
            &&& c.pc == next.0
            &&& c.regs@ == next.1
            &&& same_but_pc_regs64(o, c)
        },
        Err(t) => r == Err::<(), Trap64>(t) && c == o,
    }
    &&& op_of(inst) == OP_MISC_MEM ==> {
        &&& r is Ok
        &&& c.pc == o.pc.wrapping_add(4)
        &&& c.regs == o.regs
        &&& f3_of(inst) == 1 ==> c.mmu.tlb_gen() == o.mmu.tlb_gen().wrapping_add(1)
        &&& f3_of(inst) != 1 ==> c.mmu == o.mmu
        &&& c.csr == o.csr
        &&& c.priv_level == o.priv_level
    }
    &&& op_of(inst) == OP_LOAD ==> load_post64(o, c, inst, r)
    &&& op_of(inst) == OP_STORE ==> store_post64(o, c, inst, r)
    &&& op_of(inst) == OP_SYSTEM ==> system_post64(o, c, inst, r)
    &&& op_of(inst) == OP_AMO ==> amo_post64(o, c, inst, r)
    &&& !is_int_opcode64(op_of(inst)) && op_of(inst) != OP_MISC_MEM && op_of(inst) != OP_LOAD
        && op_of(inst) != OP_STORE && op_of(inst) != OP_SYSTEM && op_of(inst) != OP_AMO ==>
        r == Err::<(), Trap64>(Trap64::IllegalInstruction(inst as u64)) && c == o
}

impl Cpu64 {
    /// Execute a single (uncompressed) instruction.
    ///
    /// The floating-point opcodes are not implemented by this core and raise
    /// an illegal-instruction trap, like any unknown opcode.
    pub fn execute<B: Bus>(&mut self, inst: u32, bus: &mut B) -> (r: Result<(), Trap64>)
        requires
            old(bus).inv(),
            old(self).wf(),
        ensures
            final(bus).inv(),
            final(self).wf(),
            final(self).instruction_count == old(self).instruction_count,
            r is Err ==> final(self).pc == old(self).pc && final(self).regs == old(self).regs,
            is_int_opcode64(op_of(inst)) ==> match spec_int_step64(old(self).pc, old(self).regs@, inst) {
                Ok(next) => {
                    &&& r is Ok
                    &&& final(self).pc == next.0
                    &&& final(self).regs@ == next.1
                    &&& same_but_pc_regs64(*old(self), *final(self))
                },
                Err(t) => r == Err::<(), Trap64>(t) && *final(self) == *old(self),
            },
            op_of(inst) == OP_MISC_MEM ==> {
                &&& r is Ok
                &&& final(self).pc == old(self).pc.wrapping_add(4)
                &&& final(self).regs == old(self).regs
                &&& f3_of(inst) == 1 ==> final(self).mmu.tlb_gen() == old(self).mmu.tlb_gen().wrapping_add(1)
                &&& f3_of(inst) != 1 ==> final(self).mmu == old(self).mmu
                &&& final(self).csr == old(self).csr
                &&& final(self).priv_level == old(self).priv_level
            },
            op_of(inst) == OP_LOAD ==> load_post64(*old(self), *final(self), inst, r),
            op_of(inst) == OP_LOAD ==> load_value_post64(*old(self), *final(self), *old(bus), *final(bus), inst, r),
            op_of(inst) == OP_STORE ==> store_post64(*old(self), *final(self), inst, r),
            op_of(inst) == OP_SYSTEM ==> system_post64(*old(self), *final(self), inst, r),
            op_of(inst) == OP_AMO ==> amo_post64(*old(self), *final(self), inst, r),
            !is_int_opcode64(op_of(inst)) && op_of(inst) != OP_MISC_MEM && op_of(inst) != OP_LOAD
                && op_of(inst) != OP_STORE && op_of(inst) != OP_SYSTEM && op_of(inst) != OP_AMO ==>
                r == Err::<(), Trap64>(Trap64::IllegalInstruction(inst as u64)) && *final(self) == *old(self),
            exec_outcome64(*old(self), *final(self), inst, r),
    {
        let d = DecodedInst::decode(inst);
        proof { crate::bits::lemma_u32_shift_mask(); }
        let op = d.opcode;
        if op == OP_LUI {
            let imm = sext(DecodedInst::imm_u(inst));
            self.write_reg(d.rd, imm);
            self.pc = self.pc.wrapping_add(4);
        } else if op == OP_AUIPC {
            let imm = sext(DecodedInst::imm_u(inst));
            let v = self.pc.wrapping_add(imm);
            self.write_reg(d.rd, v);
            self.pc = self.pc.wrapping_add(4);
        } else if op == OP_JAL {
            let imm = sext(DecodedInst::imm_j(inst));
            let link = self.pc.wrapping_add(4);
            self.write_reg(d.rd, link);
            self.pc = self.pc.wrapping_add(imm);
        } else if op == OP_JALR {
            let imm = sext(DecodedInst::imm_i(inst));
            let target = self.read_reg(d.rs1).wrapping_add(imm) & !1u64;
            let link = self.pc.wrapping_add(4);
            self.write_reg(d.rd, link);
            self.pc = target;
        } else if op == OP_BRANCH {
            let rs1 = self.read_reg(d.rs1);
            let rs2 = self.read_reg(d.rs2);
            let imm = sext(DecodedInst::imm_b(inst));
            let f3 = d.funct3;
            let taken = if f3 == FUNCT3_BEQ {
                rs1 == rs2
            } else if f3 == FUNCT3_BNE {
                rs1 != rs2
            } else if f3 == FUNCT3_BLT {
                lt_signed64(rs1, rs2)
            } else if f3 == FUNCT3_BGE {
                !lt_signed64(rs1, rs2)
            } else if f3 == FUNCT3_BLTU {
                rs1 < rs2
            } else if f3 == FUNCT3_BGEU {
                rs1 >= rs2
            } else {
                return Err(Trap64::IllegalInstruction(inst as u64));
            };
            if taken {
                self.pc = self.pc.wrapping_add(imm);
            } else {
                self.pc = self.pc.wrapping_add(4);
            }
        } else if op == OP_LOAD {
            return self.execute_load(inst, &d, bus);
        } else if op == OP_STORE {
            return self.execute_store(inst, &d, bus);
        } else if op == OP_OP_IMM || op == OP_OP || op == OP_OP_IMM_32 || op == OP_OP_32 {
            let v = self.alu_value(inst, &d)?;
            self.write_reg(d.rd, v);
            self.pc = self.pc.wrapping_add(4);
        } else if op == OP_MISC_MEM {
            if d.funct3 == 0b001 {
                self.mmu.invalidate();
            }
            self.pc = self.pc.wrapping_add(4);
        } else if op == OP_SYSTEM {
            return self.execute_system(inst, &d);
        } else if op == OP_AMO {
            return self.execute_amo(inst, &d, bus);
        } else {
            return Err(Trap64::IllegalInstruction(inst as u64));
        }
        Ok(())
    }

    /// The value an ALU instruction (OP-IMM, OP, OP-IMM-32, OP-32) writes to
    /// rd, or the trap it raises.
    fn alu_value(&self, inst: u32, d: &DecodedInst) -> (r: Result<u64, Trap64>)
        requires
            decodes64(*d, inst),
            d.opcode == OP_OP_IMM || d.opcode == OP_OP || d.opcode == OP_OP_IMM_32 || d.opcode == OP_OP_32,
        ensures
            match spec_int_step64(self.pc, self.regs@, inst) {
                Ok(next) => r is Ok && next.1 == regs_after64(self.regs@, rd_of(inst), r->Ok_0),
                Err(t) => r == Err::<u64, Trap64>(t),
            },
    {
        proof { crate::bits::lemma_u32_shift_mask(); }
        let op = d.opcode;
        if op == OP_OP_IMM {
            let rs1 = self.read_reg(d.rs1);
            let imm = sext(DecodedInst::imm_i(inst));
            let shamt = imm % 64;
            let funct6 = (inst >> 26u32) & 0x3F;
            let f3 = d.funct3;
            let result = if f3 == FUNCT3_ADD_SUB {
                rs1.wrapping_add(imm)
            } else if f3 == FUNCT3_SLT {
                if lt_signed64(rs1, imm) { 1 } else { 0 }
            } else if f3 == FUNCT3_SLTU {
                if rs1 < imm { 1 } else { 0 }
            } else if f3 == FUNCT3_XOR {
                rs1 ^ imm
            } else if f3 == FUNCT3_OR {
                rs1 | imm
            } else if f3 == FUNCT3_AND {
                rs1 & imm
            } else if f3 == FUNCT3_SLL {
                rs1 << shamt
            } else if f3 == FUNCT3_SRL_SRA {
                if funct6 == 0b010000 { ((rs1 as i64) >> shamt) as u64 } else { rs1 >> shamt }
            } else {
                return Err(Trap64::IllegalInstruction(inst as u64));
            };
            Ok(result)
        } else if op == OP_OP {
            let rs1 = self.read_reg(d.rs1);
            let rs2 = self.read_reg(d.rs2);
            let f3 = d.funct3;
            let f7 = d.funct7;
            let result = if f7 == 1 {
                m_ext64(f3, rs1, rs2)
            } else if f3 == FUNCT3_ADD_SUB && f7 == 0 {
                rs1.wrapping_add(rs2)
            } else if f3 == FUNCT3_ADD_SUB && f7 == 0x20 {
                rs1.wrapping_sub(rs2)
            } else if f3 == FUNCT3_SLL && f7 == 0 {
                rs1 << (rs2 % 64)
            } else if f3 == FUNCT3_SLT && f7 == 0 {
                if lt_signed64(rs1, rs2) { 1 } else { 0 }
            } else if f3 == FUNCT3_SLTU && f7 == 0 {
                if rs1 < rs2 { 1 } else { 0 }
            } else if f3 == FUNCT3_XOR && f7 == 0 {
                rs1 ^ rs2
            } else if f3 == FUNCT3_SRL_SRA && f7 == 0 {
                rs1 >> (rs2 % 64)
            } else if f3 == FUNCT3_SRL_SRA && f7 == 0x20 {
                ((rs1 as i64) >> (rs2 % 64)) as u64
            } else if f3 == FUNCT3_OR && f7 == 0 {
                rs1 | rs2
            } else if f3 == FUNCT3_AND && f7 == 0 {
                rs1 & rs2
            } else {
                return Err(Trap64::IllegalInstruction(inst as u64));
            };
            Ok(result)
        } else if op == OP_OP_IMM_32 {
            let rs1 = self.read_reg(d.rs1) as u32;
            let imm = DecodedInst::imm_i(inst) as u32;
            let shamt = imm & 0x1F;
            let f3 = d.funct3;
            let result: u32 = if f3 == FUNCT3_ADD_SUB {
                rs1.wrapping_add(imm)
            } else if f3 == FUNCT3_SLL {
                rs1 << shamt
            } else if f3 == FUNCT3_SRL_SRA {
                if d.funct7 == 0b0100000 { ((rs1 as i32) >> shamt) as u32 } else { rs1 >> shamt }
            } else {
                return Err(Trap64::IllegalInstruction(inst as u64));
            };
            Ok(sext_w(result))
        } else {
            let rs1 = self.read_reg(d.rs1) as u32;
            let rs2 = self.read_reg(d.rs2) as u32;
            let f3 = d.funct3;
            let f7 = d.funct7;
            let result: u32 = if f7 == 1 {
                if f3 == FUNCT3_MUL || f3 == FUNCT3_DIV || f3 == FUNCT3_DIVU || f3 == FUNCT3_REM || f3 == FUNCT3_REMU {
                    m_ext(f3, rs1, rs2)
                } else {
                    return Err(Trap64::IllegalInstruction(0));
                }
            } else if f3 == FUNCT3_ADD_SUB && f7 == 0 {
                rs1.wrapping_add(rs2)
            } else if f3 == FUNCT3_ADD_SUB && f7 == 0x20 {
                rs1.wrapping_sub(rs2)
            } else if f3 == FUNCT3_SLL && f7 == 0 {
                rs1 << (rs2 & 0x1F)
            } else if f3 == FUNCT3_SRL_SRA && f7 == 0 {
                rs1 >> (rs2 & 0x1F)
            } else if f3 == FUNCT3_SRL_SRA && f7 == 0x20 {
                ((rs1 as i32) >> (rs2 & 0x1F)) as u32
            } else {
                return Err(Trap64::IllegalInstruction(inst as u64));
            };
            Ok(sext_w(result))
        }
    }
}

/// A byte sign-extended to 64 bits.
fn sext_byte(b: u8) -> (r: u64)
    ensures
        r == from_sgn64(sext8(b)),
{
    if b >= 0x80 { b as u64 + 0xFFFF_FFFF_FFFF_FF00 } else { b as u64 }
}

/// A halfword sign-extended to 64 bits.
fn sext_half(h: u16) -> (r: u64)
    ensures
        r == from_sgn64(sext16(h)),
{
    if h >= 0x8000 { h as u64 + 0xFFFF_FFFF_FFFF_0000 } else { h as u64 }
}

impl Cpu64 {
    /// The privilege level used for data accesses.
    fn data_access_priv(&self) -> (p: PrivilegeLevel)
        ensures
            p == data_priv64(self.csr.mstatus, self.priv_level),
    {
        let mstatus = self.csr.mstatus;
        if (mstatus & MSTATUS_MPRV) != 0 && self.priv_level == PrivilegeLevel::Machine {
            let mpp = (mstatus >> 11u64) % 4;
            PrivilegeLevel::from_u8(mpp as u8)
        } else {
            self.priv_level
        }
    }

    /// LB, LH, LW, LBU, LHU, LWU, LD (misaligned accesses are done byte by byte).
    #[verifier::rlimit(40)]
    fn execute_load<B: Bus>(&mut self, inst: u32, d: &DecodedInst, bus: &mut B) -> (r: Result<(), Trap64>)
        requires
            old(bus).inv(),
            old(self).wf(),
            decodes64(*d, inst),
        ensures
            final(bus).inv(),
            final(self).wf(),
            load_post64(*old(self), *final(self), inst, r),
            load_value_post64(*old(self), *final(self), *old(bus), *final(bus), inst, r),
            final(self).instruction_count == old(self).instruction_count,
    {
        let imm = sext(DecodedInst::imm_i(inst));
        let vaddr = self.read_reg(d.rs1).wrapping_add(imm);
        let satp = self.csr.satp;
        let mstatus = self.csr.mstatus;
        let p = self.data_access_priv();
        let paddr = match self.mmu.translate(vaddr, AccessType::Load, p, bus, satp, mstatus) {
            Ok(pa) => pa,
            Err(cause) => {
                return Err(Trap64::from_cause(cause, vaddr));
            },
        };
        let addr = match Self::map_paddr(paddr) {
            Ok(a) => a,
            Err(t) => {
                return Err(t);
            },
        };
        let f3 = d.funct3;
        let ghost mut raw: u64 = 0;
        let value: u64 = if f3 == FUNCT3_LB || f3 == FUNCT3_LBU {
            let b = bus.read8(addr);
            proof { raw = b as u64; }
            if f3 == FUNCT3_LB { sext_byte(b) } else { b as u64 }
        } else if f3 == FUNCT3_LH || f3 == FUNCT3_LHU {
            let h: u16 = if vaddr % 2 != 0 {
                let b0 = bus.read8(addr) as u16;
                let b1 = bus.read8(addr.wrapping_add(1)) as u16;
                b1 * 0x100 + b0
            } else {
                bus.read16(addr)
            };
            proof { raw = h as u64; }
            if f3 == FUNCT3_LH { sext_half(h) } else { h as u64 }
        } else if f3 == FUNCT3_LW || f3 == FUNCT3_LWU {
            let w: u32 = if vaddr % 4 != 0 {
                let b0 = bus.read8(addr) as u32;
                let b1 = bus.read8(addr.wrapping_add(1)) as u32;
                let b2 = bus.read8(addr.wrapping_add(2)) as u32;
                let b3 = bus.read8(addr.wrapping_add(3)) as u32;
                b3 * 0x100_0000 + b2 * 0x1_0000 + b1 * 0x100 + b0
            } else {
                bus.read32(addr)
            };
            proof { raw = w as u64; }
            if f3 == FUNCT3_LW { sext_w(w) } else { w as u64 }
        } else if f3 == FUNCT3_LD {
            let v: u64 = if vaddr % 8 != 0 {
                let mut acc: u64 = 0;
                let mut i: u32 = 0;
                while i < 8
                    invariant
                        i <= 8,
                        bus.inv(),
                    decreases 8 - i,
                {
                    let byte = bus.read8(addr.wrapping_add(i)) as u64;
                    acc = acc | (byte << (i * 8));
                    i = i + 1;
                }
                acc
            } else {
                bus.read64(addr)
            };
            proof { raw = v; }
            v
        } else {
            return Err(Trap64::IllegalInstruction(inst as u64));
        };
        assert(load_extend(f3, raw) == value);
        let ghost old_regs = self.regs@;
        self.write_reg(d.rd, value);
        assert(regs_after64(old_regs, rd_of(inst), load_extend(f3, raw)) == self.regs@);
        assert(old_regs == old(self).regs@);
        assert(f3 == f3_of(inst));
        assert(exists|raw: u64| #[trigger] regs_after64(old(self).regs@, rd_of(inst), load_extend(f3_of(inst), raw)) == self.regs@);
        self.pc = self.pc.wrapping_add(4);
        Ok(())
    }

    /// SB, SH, SW, SD (misaligned accesses are done byte by byte).
    fn execute_store<B: Bus>(&mut self, inst: u32, d: &DecodedInst, bus: &mut B) -> (r: Result<(), Trap64>)
        requires
            old(bus).inv(),
            old(self).wf(),
            decodes64(*d, inst),
        ensures
            final(bus).inv(),
            final(self).wf(),
            store_post64(*old(self), *final(self), inst, r),
            final(self).instruction_count == old(self).instruction_count,
    {
        let imm = sext(DecodedInst::imm_s(inst));
        let vaddr = self.read_reg(d.rs1).wrapping_add(imm);
        let value = self.read_reg(d.rs2);
        let satp = self.csr.satp;
        let mstatus = self.csr.mstatus;
        let p = self.data_access_priv();
        let paddr = match self.mmu.translate(vaddr, AccessType::Store, p, bus, satp, mstatus) {
            Ok(pa) => pa,
            Err(cause) => {
                return Err(Trap64::from_cause(cause, vaddr));
            },
        };
        let addr = match Self::map_paddr(paddr) {
            Ok(a) => a,
            Err(t) => {
                return Err(t);
            },
        };
        let f3 = d.funct3;
        if f3 == 0 {
            bus.write8(addr, value as u8);
            self.last_write_addr = paddr;
            self.last_write_val = value & 0xFF;
        } else if f3 == 1 {
            if vaddr % 2 != 0 {
                bus.write8(addr, value as u8);
                bus.write8(addr.wrapping_add(1), (value >> 8u64) as u8);
            } else {
                bus.write16(addr, value as u16);
            }
            self.last_write_addr = paddr;
            self.last_write_val = value & 0xFFFF;
        } else if f3 == 2 {
            if vaddr % 4 != 0 {
                bus.write8(addr, value as u8);
                bus.write8(addr.wrapping_add(1), (value >> 8u64) as u8);
                bus.write8(addr.wrapping_add(2), (value >> 16u64) as u8);
                bus.write8(addr.wrapping_add(3), (value >> 24u64) as u8);
            } else {
                bus.write32(addr, value as u32);
            }
            self.last_write_addr = paddr;
            self.last_write_val = value & 0xFFFF_FFFF;
        } else if f3 == 3 {
            if vaddr % 8 != 0 {
                let mut i: u32 = 0;
                while i < 8
                    invariant
                        i <= 8,
                        bus.inv(),
                    decreases 8 - i,
                {
                    bus.write8(addr.wrapping_add(i), (value >> ((i * 8) as u64)) as u8);
                    i = i + 1;
                }
            } else {
                bus.write64(addr, value);
            }
            self.last_write_addr = paddr;
            self.last_write_val = value;
        } else {
            return Err(Trap64::IllegalInstruction(inst as u64));
        }
        self.pc = self.pc.wrapping_add(4);
        Ok(())
    }

    /// Atomic (A extension) instructions on words and doublewords: LR, SC and the AMOs.
    #[verifier::rlimit(40)]
    fn execute_amo<B: Bus>(&mut self, inst: u32, d: &DecodedInst, bus: &mut B) -> (r: Result<(), Trap64>)
        requires
            old(bus).inv(),
            old(self).wf(),
            decodes64(*d, inst),
        ensures
            final(bus).inv(),
            final(self).wf(),
            amo_post64(*old(self), *final(self), inst, r),
            final(self).instruction_count == old(self).instruction_count,
    {
        proof { crate::bits::lemma_u32_shift_mask(); }
        let funct5 = (inst >> 27u32) & 0x1F;
        let width = d.funct3;
        let vaddr = self.read_reg(d.rs1);
        let satp = self.csr.satp;
        let mstatus = self.csr.mstatus;
        let priv_level = self.priv_level;
        let access = if funct5 == FUNCT5_LR { AccessType::Load } else { AccessType::Store };
        let paddr = match self.mmu.translate(vaddr, access, priv_level, bus, satp, mstatus) {
            Ok(pa) => pa,
            Err(cause) => {
                return Err(Trap64::from_cause(cause, vaddr));
            },
        };
        let addr = match Self::map_paddr(paddr) {
            Ok(a) => a,
            Err(t) => {
                return Err(t);
            },
        };
        assert(self.regs == old(self).regs && self.reservation == old(self).reservation);
        assert(d.rd == rd_of(inst));
        if width == 0b010 {
            match self.execute_amo_word(funct5, d, addr, bus, vaddr) {
                Ok(()) => {},
                Err(t) => {
                    return Err(t);
                },
            }
        } else if width == 0b011 {
            match self.execute_amo_double(funct5, d, addr, bus, vaddr) {
                Ok(()) => {},
                Err(t) => {
                    return Err(t);
                },
            }
        } else {
            return Err(Trap64::IllegalInstruction(inst as u64));
        }
        proof {
            if funct5 != FUNCT5_SC {
                let v = choose|v: u64| #[trigger] regs_after64(old(self).regs@, d.rd, v) == self.regs@;
                assert(regs_after64(old(self).regs@, rd_of(inst), v) == self.regs@);
            }
        }
        self.pc = self.pc.wrapping_add(4);
        Ok(())
    }

    /// The word forms of the atomic instructions.
    fn execute_amo_word<B: Bus>(&mut self, funct5: u32, d: &DecodedInst, addr: u32, bus: &mut B, vaddr: u64) -> (r: Result<(), Trap64>)
        requires
            old(bus).inv(),
            old(self).wf(),
        ensures
            final(bus).inv(),
            final(self).wf(),
            final(self).pc == old(self).pc,
            final(self).csr == old(self).csr && final(self).priv_level == old(self).priv_level,
            final(self).fpu == old(self).fpu && final(self).mmu == old(self).mmu,
            final(self).instruction_count == old(self).instruction_count,
            vaddr % 4 != 0 ==> r == Err::<(), Trap64>(Trap64::StoreAddressMisaligned(vaddr)),
            vaddr % 4 == 0 && !is_amo_f5(funct5) ==> r == Err::<(), Trap64>(Trap64::IllegalInstruction(0)),
            vaddr % 4 == 0 && is_amo_f5(funct5) ==> r is Ok,
            r is Err ==> final(self).regs == old(self).regs && final(self).reservation == old(self).reservation,
            funct5 == FUNCT5_LR && r is Ok ==> final(self).reservation == Some(vaddr)
                && exists|v: u64| #[trigger] regs_after64(old(self).regs@, d.rd, v) == final(self).regs@,
            funct5 == FUNCT5_SC && r is Ok ==> final(self).reservation is None
                && final(self).regs@ == regs_after64(old(self).regs@, d.rd, if old(self).reservation == Some(vaddr) { 0 } else { 1 }),
            funct5 != FUNCT5_LR && funct5 != FUNCT5_SC && r is Ok ==> final(self).reservation == old(self).reservation
                && exists|v: u64| #[trigger] regs_after64(old(self).regs@, d.rd, v) == final(self).regs@,
    {
        if vaddr % 4 != 0 {
            return Err(Trap64::StoreAddressMisaligned(vaddr));
        }
        let ghost old_regs = self.regs@;
        if funct5 == FUNCT5_LR {
            let val = bus.read32(addr);
            self.reservation = Some(vaddr);
            let v = sext_w(val);
            self.write_reg(d.rd, v);
            assert(regs_after64(old_regs, d.rd, v) == self.regs@);
        } else if funct5 == FUNCT5_SC {
            if self.reservation == Some(vaddr) {
                let src = self.read_reg(d.rs2) as u32;
                bus.write32(addr, src);
                self.write_reg(d.rd, 0);
            } else {
                self.write_reg(d.rd, 1);
            }
            self.reservation = None;
        } else {
            let rs2 = self.read_reg(d.rs2) as u32;
            let old_val = bus.read32(addr);
            let new_val = if funct5 == FUNCT5_AMOSWAP {
                rs2
            } else if funct5 == FUNCT5_AMOADD {
                old_val.wrapping_add(rs2)
            } else if funct5 == FUNCT5_AMOXOR {
                old_val ^ rs2
            } else if funct5 == FUNCT5_AMOAND {
                old_val & rs2
            } else if funct5 == FUNCT5_AMOOR {
                old_val | rs2
            } else if funct5 == FUNCT5_AMOMIN {
                if crate::cpu::rv32::execute::lt_signed(old_val, rs2) { old_val } else { rs2 }
            } else if funct5 == FUNCT5_AMOMAX {
                if crate::cpu::rv32::execute::lt_signed(rs2, old_val) { old_val } else { rs2 }
            } else if funct5 == FUNCT5_AMOMINU {
                if old_val < rs2 { old_val } else { rs2 }
            } else if funct5 == FUNCT5_AMOMAXU {
                if old_val > rs2 { old_val } else { rs2 }
            } else {
                return Err(Trap64::IllegalInstruction(0));
            };
            bus.write32(addr, new_val);
            let v = sext_w(old_val);
            self.write_reg(d.rd, v);
            assert(regs_after64(old_regs, d.rd, v) == self.regs@);
        }
        Ok(())
    }

    /// The doubleword forms of the atomic instructions.
    fn execute_amo_double<B: Bus>(&mut self, funct5: u32, d: &DecodedInst, addr: u32, bus: &mut B, vaddr: u64) -> (r: Result<(), Trap64>)
        requires
            old(bus).inv(),
            old(self).wf(),
        ensures
            final(bus).inv(),
            final(self).wf(),
            final(self).pc == old(self).pc,
            final(self).csr == old(self).csr && final(self).priv_level == old(self).priv_level,
            final(self).fpu == old(self).fpu && final(self).mmu == old(self).mmu,
            final(self).instruction_count == old(self).instruction_count,
            vaddr % 8 != 0 ==> r == Err::<(), Trap64>(Trap64::StoreAddressMisaligned(vaddr)),
            vaddr % 8 == 0 && !is_amo_f5(funct5) ==> r == Err::<(), Trap64>(Trap64::IllegalInstruction(0)),
            vaddr % 8 == 0 && is_amo_f5(funct5) ==> r is Ok,
            r is Err ==> final(self).regs == old(self).regs && final(self).reservation == old(self).reservation,
            funct5 == FUNCT5_LR && r is Ok ==> final(self).reservation == Some(vaddr)
                && exists|v: u64| #[trigger] regs_after64(old(self).regs@, d.rd, v) == final(self).regs@,
            funct5 == FUNCT5_SC && r is Ok ==> final(self).reservation is None
                && final(self).regs@ == regs_after64(old(self).regs@, d.rd, if old(self).reservation == Some(vaddr) { 0 } else { 1 }),
            funct5 != FUNCT5_LR && funct5 != FUNCT5_SC && r is Ok ==> final(self).reservation == old(self).reservation
                && exists|v: u64| #[trigger] regs_after64(old(self).regs@, d.rd, v) == final(self).regs@,
    {
        if vaddr % 8 != 0 {
            return Err(Trap64::StoreAddressMisaligned(vaddr));
        }
        let ghost old_regs = self.regs@;
        if funct5 == FUNCT5_LR {
            let val = bus.read64(addr);
            self.reservation = Some(vaddr);
            self.write_reg(d.rd, val);
            assert(regs_after64(old_regs, d.rd, val) == self.regs@);
        } else if funct5 == FUNCT5_SC {
            if self.reservation == Some(vaddr) {
                let src = self.read_reg(d.rs2);
                bus.write64(addr, src);
                self.write_reg(d.rd, 0);
            } else {
                self.write_reg(d.rd, 1);
            }
            self.reservation = None;
        } else {
            let rs2 = self.read_reg(d.rs2);
            let old_val = bus.read64(addr);
            let new_val = if funct5 == FUNCT5_AMOSWAP {
                rs2
            } else if funct5 == FUNCT5_AMOADD {
                old_val.wrapping_add(rs2)
            } else if funct5 == FUNCT5_AMOXOR {
                old_val ^ rs2
            } else if funct5 == FUNCT5_AMOAND {
                old_val & rs2
            } else if funct5 == FUNCT5_AMOOR {
                old_val | rs2
            } else if funct5 == FUNCT5_AMOMIN {
                if lt_signed64(old_val, rs2) { old_val } else { rs2 }
            } else if funct5 == FUNCT5_AMOMAX {
                if lt_signed64(rs2, old_val) { old_val } else { rs2 }
            } else if funct5 == FUNCT5_AMOMINU {
                if old_val < rs2 { old_val } else { rs2 }
            } else if funct5 == FUNCT5_AMOMAXU {
                if old_val > rs2 { old_val } else { rs2 }
            } else {
                return Err(Trap64::IllegalInstruction(0));
            };
            bus.write64(addr, new_val);
            self.write_reg(d.rd, old_val);
            assert(regs_after64(old_regs, d.rd, old_val) == self.regs@);
        }
        Ok(())
    }

    /// SYSTEM instructions: ECALL, EBREAK, SRET, MRET, WFI, SFENCE.VMA and the CSR instructions.
    fn execute_system(&mut self, inst: u32, d: &DecodedInst) -> (r: Result<(), Trap64>)
        requires
            old(self).wf(),
            decodes64(*d, inst),
            d.opcode == OP_SYSTEM,
        ensures
            final(self).wf(),
            system_post64(*old(self), *final(self), inst, r),
            final(self).instruction_count == old(self).instruction_count,
    {
        let f3 = d.funct3;
        if f3 == FUNCT3_PRIV {
            if inst == INST_ECALL {
                let t = match self.priv_level {
                    PrivilegeLevel::User => Trap64::EnvironmentCallFromU,
                    PrivilegeLevel::Supervisor => Trap64::EnvironmentCallFromS,
                    PrivilegeLevel::Machine => Trap64::EnvironmentCallFromM,
                };
                Err(t)
            } else if inst == INST_EBREAK {
                Err(Trap64::Breakpoint(self.pc))
            } else if inst == INST_SRET {
                if self.priv_level == PrivilegeLevel::User {
                    return Err(Trap64::IllegalInstruction(inst as u64));
                }
                trap::sret(self);
                Ok(())
            } else if inst == INST_MRET {
                if self.priv_level != PrivilegeLevel::Machine {
                    return Err(Trap64::IllegalInstruction(inst as u64));
                }
                trap::mret(self);
                Ok(())
            } else if inst == INST_WFI {
                self.wfi = true;
                self.pc = self.pc.wrapping_add(4);
                Ok(())
            } else if inst >> 25u32 == 0b0001001 {
                self.mmu.invalidate();
                self.pc = self.pc.wrapping_add(4);
                Ok(())
            } else {
                Err(Trap64::IllegalInstruction(inst as u64))
            }
        } else if f3 == 4 {
            Err(Trap64::IllegalInstruction(inst as u64))
        } else {
            self.execute_csr(inst, d)
        }
    }

    /// CSRRW, CSRRS, CSRRC and their immediate forms.
    fn execute_csr(&mut self, inst: u32, d: &DecodedInst) -> (r: Result<(), Trap64>)
        requires
            old(self).wf(),
            decodes64(*d, inst),
            d.funct3 != 0 && d.funct3 != 4,
        ensures
            final(self).wf(),
            csr_post64(*old(self), *final(self), inst, r),
            final(self).instruction_count == old(self).instruction_count,
    {
        proof { crate::bits::lemma_u32_shift_mask(); }
        let csr_addr = (inst >> 20u32) & 0xFFF;
        let is_imm = d.funct3 >= FUNCT3_CSRRWI;
        let rs1_val: u64 = if is_imm { d.rs1 as u64 } else { self.read_reg(d.rs1) };
        let old_val: u64 = if csr_addr == CSR_FFLAGS {
            self.fpu.fflags.to_bits() as u64
        } else if csr_addr == CSR_FRM {
            self.fpu.frm.bits() as u64
        } else if csr_addr == CSR_FCSR {
            self.fpu.read_fcsr() as u64
        } else {
            match self.csr.read(csr_addr, self.priv_level) {
                Some(v) => v,
                None => {
                    return Err(Trap64::IllegalInstruction(inst as u64));
                },
            }
        };
        let op = d.funct3 % 4;
        let new_val = if op == 1 {
            rs1_val
        } else if op == 2 {
            old_val | rs1_val
        } else {
            old_val & !rs1_val
        };
        if op == 1 || rs1_val != 0 {
            if csr_addr == CSR_FFLAGS {
                self.fpu.fflags = FFlags::from_bits((new_val & 0x1F) as u32);
                self.csr.mstatus = self.csr.mstatus | MSTATUS_FS;
            } else if csr_addr == CSR_FRM {
                self.fpu.frm = RoundingMode::from_bits(new_val as u32);
                self.csr.mstatus = self.csr.mstatus | MSTATUS_FS;
            } else if csr_addr == CSR_FCSR {
                self.fpu.write_fcsr(new_val as u32);
                self.csr.mstatus = self.csr.mstatus | MSTATUS_FS;
            } else {
                if csr_addr == CSR_SATP && new_val != old_val {
                    self.mmu.invalidate();
                }
                if !self.csr.write(csr_addr, new_val, self.priv_level) {
                    return Err(Trap64::IllegalInstruction(inst as u64));
                }
            }
        }
        self.write_reg(d.rd, old_val);
        self.pc = self.pc.wrapping_add(4);
        Ok(())
    }
}

} // verus!
