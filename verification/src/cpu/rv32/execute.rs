//! Instruction execution: RV32I, M and A, and the system instructions.

use vstd::prelude::*;
use crate::cpu::{PrivilegeLevel, priv_encoding};
use crate::cpu::decode::{DecodedInst, decodes, spec_imm_i, spec_imm_s, spec_imm_b, spec_imm_u, spec_imm_j,
    OP_LUI, OP_AUIPC, OP_JAL, OP_JALR, OP_BRANCH, OP_LOAD, OP_STORE, OP_OP_IMM, OP_OP, OP_MISC_MEM, OP_SYSTEM,
    OP_AMO, OP_LOAD_FP, OP_STORE_FP, OP_MADD, OP_MSUB, OP_NMSUB, OP_NMADD, OP_OP_FP,
    FUNCT3_BEQ, FUNCT3_BNE, FUNCT3_BLT, FUNCT3_BGE, FUNCT3_BLTU, FUNCT3_BGEU,
    FUNCT3_LB, FUNCT3_LH, FUNCT3_LW, FUNCT3_LBU, FUNCT3_LHU,
    FUNCT3_ADD_SUB, FUNCT3_SLL, FUNCT3_SLT, FUNCT3_SLTU, FUNCT3_XOR, FUNCT3_SRL_SRA, FUNCT3_OR, FUNCT3_AND,
    FUNCT3_MUL, FUNCT3_MULH, FUNCT3_MULHSU, FUNCT3_MULHU, FUNCT3_DIV, FUNCT3_DIVU, FUNCT3_REM, FUNCT3_REMU,
    FUNCT3_PRIV, FUNCT3_CSRRW, FUNCT3_CSRRS, FUNCT3_CSRRC, FUNCT3_CSRRWI, FUNCT3_CSRRSI, FUNCT3_CSRRCI,
    FUNCT5_LR, FUNCT5_SC, FUNCT5_AMOSWAP, FUNCT5_AMOADD, FUNCT5_AMOXOR, FUNCT5_AMOAND, FUNCT5_AMOOR,
    FUNCT5_AMOMIN, FUNCT5_AMOMAX, FUNCT5_AMOMINU, FUNCT5_AMOMAXU};
use crate::cpu::fpu::{FloatArith, FFlags, Fpu, RoundingMode, fflags_of, fflags_bits, rm_encoding, rm_from_bits};
use crate::cpu::trap::{self, Trap, trap_from_cause, spec_status_mret, spec_status_sret};
use crate::memory::Bus;
use super::{Cpu, reg_value, regs_after};
use super::execute_fp::{load_fp_post, store_fp_post, fma_post, op_fp_post};
use super::mmu::fault_cause;
use crate::cpu::priv_from_bits;
use super::csr::{Csr, csr_min_priv, csr_read_only, MSTATUS_MPRV, MSTATUS_FS, CSR_FFLAGS, CSR_FRM, CSR_FCSR};
use super::mmu::AccessType;

verus! {

/// `x` read as a two's complement 32-bit number.
pub open spec fn sgn(x: u32) -> int {
    if x >= 0x8000_0000 { x - 0x1_0000_0000 } else { x as int }
}

/// `x` reduced modulo 2^32.
pub open spec fn wrap32(x: int) -> u32 {
    (x % 0x1_0000_0000) as u32
}

/// Adds a signed offset to an address, modulo 2^32.
pub fn add_offset(base: u32, off: i32) -> (r: u32)
    ensures
        r == wrap32(base + off),
{
    if off >= 0 {
        base.wrapping_add(off as u32)
    } else {
        let m = (-(off as i64)) as u32;
        base.wrapping_sub(m)
    }
}

/// Result of a register-register ALU instruction (OP with funct7 other than 1).
pub open spec fn spec_alu(funct3: u32, funct7: u32, a: u32, b: u32) -> Option<u32> {
    if funct3 == FUNCT3_ADD_SUB && funct7 == 0 { Some(a.wrapping_add(b)) }
    else if funct3 == FUNCT3_ADD_SUB && funct7 == 0x20 { Some(a.wrapping_sub(b)) }
    else if funct3 == FUNCT3_SLL && funct7 == 0 { Some(a << (b & 0x1f)) }
    else if funct3 == FUNCT3_SLT && funct7 == 0 { Some(if sgn(a) < sgn(b) { 1u32 } else { 0u32 }) }
    else if funct3 == FUNCT3_SLTU && funct7 == 0 { Some(if a < b { 1u32 } else { 0u32 }) }
    else if funct3 == FUNCT3_XOR && funct7 == 0 { Some(a ^ b) }
    else if funct3 == FUNCT3_SRL_SRA && funct7 == 0 { Some(a >> (b & 0x1f)) }
    else if funct3 == FUNCT3_SRL_SRA && funct7 == 0x20 { Some(((a as i32) >> (b & 0x1f)) as u32) }
    else if funct3 == FUNCT3_OR && funct7 == 0 { Some(a | b) }
    else if funct3 == FUNCT3_AND && funct7 == 0 { Some(a & b) }
    else { None }
}

/// The I-type immediate of `inst` as a 32-bit pattern.
pub open spec fn imm_i_bits(inst: u32) -> u32 {
    spec_imm_i(inst) as u32
}

/// Result of a register-immediate ALU instruction (OP-IMM).
pub open spec fn spec_alu_imm(funct3: u32, inst: u32, a: u32) -> u32 {
    let imm = imm_i_bits(inst);
    let shamt = imm & 0x1f;
    if funct3 == FUNCT3_ADD_SUB { a.wrapping_add(imm) }
    else if funct3 == FUNCT3_SLT { if sgn(a) < sgn(imm) { 1u32 } else { 0u32 } }
    else if funct3 == FUNCT3_SLTU { if a < imm { 1u32 } else { 0u32 } }
    else if funct3 == FUNCT3_XOR { a ^ imm }
    else if funct3 == FUNCT3_OR { a | imm }
    else if funct3 == FUNCT3_AND { a & imm }
    else if funct3 == FUNCT3_SLL { a << shamt }
    else if (imm >> 10u32) & 1 != 0 { ((a as i32) >> shamt) as u32 }
    else { a >> shamt }
}

/// Is a branch with this funct3 taken for operands `a`, `b`? `None` for an invalid funct3.
pub open spec fn spec_branch(funct3: u32, a: u32, b: u32) -> Option<bool> {
    if funct3 == FUNCT3_BEQ { Some(a == b) }
    else if funct3 == FUNCT3_BNE { Some(a != b) }
    else if funct3 == FUNCT3_BLT { Some(sgn(a) < sgn(b)) }
    else if funct3 == FUNCT3_BGE { Some(sgn(a) >= sgn(b)) }
    else if funct3 == FUNCT3_BLTU { Some(a < b) }
    else if funct3 == FUNCT3_BGEU { Some(a >= b) }
    else { None }
}

/// |x|.
pub open spec fn abs(x: int) -> int {
    if x < 0 { -x } else { x }
}

/// Division truncated toward zero.
pub open spec fn tdiv(a: int, b: int) -> int {
    if (a < 0) != (b < 0) { -(abs(a) / abs(b)) } else { abs(a) / abs(b) }
}

/// Remainder of division truncated toward zero (takes the sign of the dividend).
pub open spec fn trem(a: int, b: int) -> int {
    if a < 0 { -(abs(a) % abs(b)) } else { abs(a) % abs(b) }
}

/// Result of an M-extension instruction, as a two's complement value where signed.
spec fn spec_mext(funct3: u32, a: u32, b: u32, r: u32) -> bool {
    if funct3 == FUNCT3_MUL { r == a.wrapping_mul(b) }
    else if funct3 == FUNCT3_MULH { r as int == (sgn(a) * sgn(b)) / 0x1_0000_0000 % 0x1_0000_0000 }
    else if funct3 == FUNCT3_MULHSU { r as int == (sgn(a) * b) / 0x1_0000_0000 % 0x1_0000_0000 }
    else if funct3 == FUNCT3_MULHU { r as int == (a * b) / 0x1_0000_0000 }
    else if funct3 == FUNCT3_DIV {
        if b == 0 { r == u32::MAX }
        else if a == 0x8000_0000 && b == 0xFFFF_FFFF { r == a }
        else { sgn(r) == tdiv(sgn(a), sgn(b)) }
    }
    else if funct3 == FUNCT3_DIVU { r == if b == 0 { u32::MAX } else { a / b } }
    else if funct3 == FUNCT3_REM {
        if b == 0 { r == a }
        else if a == 0x8000_0000 && b == 0xFFFF_FFFF { r == 0 }
        else { sgn(r) == trem(sgn(a), sgn(b)) }
    }
    else { r == if b == 0 { a } else { a % b } }
}

/// The 32-bit pattern of a value in [-2^31, 2^32).
pub open spec fn from_sgn(i: int) -> u32 {
    if i < 0 { (i + 0x1_0000_0000) as u32 } else { i as u32 }
}

/// The value an M-extension instruction writes to rd.
pub open spec fn mext_value(funct3: u32, a: u32, b: u32) -> u32 {
    if funct3 == FUNCT3_MUL { a.wrapping_mul(b) }
    else if funct3 == FUNCT3_MULH { ((sgn(a) * sgn(b)) / 0x1_0000_0000 % 0x1_0000_0000) as u32 }
    else if funct3 == FUNCT3_MULHSU { ((sgn(a) * b) / 0x1_0000_0000 % 0x1_0000_0000) as u32 }
    else if funct3 == FUNCT3_MULHU { ((a * b) / 0x1_0000_0000) as u32 }
    else if funct3 == FUNCT3_DIV {
        if b == 0 { u32::MAX }
        else if a == 0x8000_0000 && b == 0xFFFF_FFFF { a }
        else { from_sgn(tdiv(sgn(a), sgn(b))) }
    }
    else if funct3 == FUNCT3_DIVU { if b == 0 { u32::MAX } else { a / b } }
    else if funct3 == FUNCT3_REM {
        if b == 0 { a }
        else if a == 0x8000_0000 && b == 0xFFFF_FFFF { 0 }
        else { from_sgn(trem(sgn(a), sgn(b))) }
    }
    else { if b == 0 { a } else { a % b } }
}

proof fn lemma_mext_value(funct3: u32, a: u32, b: u32, r: u32)
    requires
        funct3 < 8,
        spec_mext(funct3, a, b, r),
    ensures
        r == mext_value(funct3, a, b),
{
    assert(sgn(r) < 0 ==> r == from_sgn(sgn(r)));
    assert(sgn(r) >= 0 ==> r == from_sgn(sgn(r)));
    if funct3 == FUNCT3_MULHU {
        assert((a * b) / 0x1_0000_0000 < 0x1_0000_0000) by (nonlinear_arith)
            requires a < 0x1_0000_0000, b < 0x1_0000_0000;
    }
}

/// Magnitude of a two's complement value.
fn magnitude(x: u32) -> (r: u32)
    ensures
        r as int == abs(sgn(x)),
{
    if x >= 0x8000_0000 { 0u32.wrapping_sub(x) } else { x }
}

/// Two's complement of `q`, for `q <= 2^31`.
fn negate(q: u32) -> (r: u32)
    requires
        q <= 0x8000_0000,
    ensures
        sgn(r) == -(q as int),
{
    0u32.wrapping_sub(q)
}

/// The M-extension result (all eight funct3 values are defined).
pub fn m_ext(funct3: u32, rs1: u32, rs2: u32) -> (r: u32)
    requires
        funct3 < 8,
    ensures
        r == mext_value(funct3, rs1, rs2),
{
    let r = m_ext_raw(funct3, rs1, rs2);
    proof { lemma_mext_value(funct3, rs1, rs2, r); }
    r
}

fn m_ext_raw(funct3: u32, rs1: u32, rs2: u32) -> (r: u32)
    requires
        funct3 < 8,
    ensures
        spec_mext(funct3, rs1, rs2, r),
{
    if funct3 == FUNCT3_MUL {
        rs1.wrapping_mul(rs2)
    } else if funct3 == FUNCT3_MULH || funct3 == FUNCT3_MULHSU || funct3 == FUNCT3_MULHU {
        let ma = magnitude(rs1) as u64;
        let neg_a = rs1 >= 0x8000_0000 && funct3 != FUNCT3_MULHU;
        let ub = if funct3 == FUNCT3_MULH { magnitude(rs2) } else { rs2 } as u64;
        let neg_b = funct3 == FUNCT3_MULH && rs2 >= 0x8000_0000;
        let a_mag: u64 = if funct3 == FUNCT3_MULHU { rs1 as u64 } else { ma };
        assert(a_mag <= 0xFFFF_FFFF && ub <= 0xFFFF_FFFF);
        assert(a_mag * ub <= 0xFFFF_FFFF * 0xFFFF_FFFF) by (nonlinear_arith)
            requires a_mag <= 0xFFFF_FFFF, ub <= 0xFFFF_FFFF;
        let p = a_mag * ub;
        let neg = neg_a != neg_b;
        // |product| = p; the product is -p when exactly one operand is negative.
        let hi = if neg && p != 0 {
            // floor(-p / 2^32) mod 2^32 == !(p - 1) >> 32 ... computed as (2^64 - p) >> 32 reinterpreted
            let np = 0u64.wrapping_sub(p);
            (np >> 32u64) as u32
        } else {
            (p >> 32u64) as u32
        };
        proof {
            let sa = if funct3 == FUNCT3_MULHU { rs1 as int } else { sgn(rs1) };
            let sb = if funct3 == FUNCT3_MULH { sgn(rs2) } else { rs2 as int };
            assert(sa * sb == if neg { -(p as int) } else { p as int }) by (nonlinear_arith)
                requires
                    abs(sa) == a_mag, abs(sb) == ub, p == a_mag * ub,
                    (sa < 0) == neg_a, (sb < 0) == neg_b, neg == (neg_a != neg_b),
                    sa >= 0 || neg_a, sb >= 0 || neg_b;
            lemma_high_word(p, neg, hi);
        }
        hi
    } else if funct3 == FUNCT3_DIV {
        if rs2 == 0 {
            u32::MAX
        } else if rs1 == 0x8000_0000 && rs2 == 0xFFFF_FFFF {
            rs1
        } else {
            let ma = magnitude(rs1);
            let mb = magnitude(rs2);
            let q = ma / mb;
            assert(q <= ma) by (nonlinear_arith) requires mb >= 1, q == ma / mb;
            let neg = (rs1 >= 0x8000_0000) != (rs2 >= 0x8000_0000);
            if neg {
                negate(q)
            } else {
                proof {
                    if rs1 == 0x8000_0000 {
                        assert(mb >= 2);
                        assert(q < 0x8000_0000) by (nonlinear_arith) requires mb >= 2, ma <= 0x8000_0000, q == ma / mb;
                    }
                }
                q
            }
        }
    } else if funct3 == FUNCT3_DIVU {
        if rs2 == 0 { u32::MAX } else { rs1 / rs2 }
    } else if funct3 == FUNCT3_REM {
        if rs2 == 0 {
            rs1
        } else if rs1 == 0x8000_0000 && rs2 == 0xFFFF_FFFF {
            0
        } else {
            let ma = magnitude(rs1);
            let mb = magnitude(rs2);
            let m = ma % mb;
            assert(m < mb) by (nonlinear_arith) requires mb >= 1, m == ma % mb;
            if rs1 >= 0x8000_0000 { negate(m) } else { m }
        }
    } else {
        if rs2 == 0 { rs1 } else { rs1 % rs2 }
    }
}

/// The upper word of a product of magnitude `p` and sign `neg`, as computed by `m_ext`.
proof fn lemma_high_word(p: u64, neg: bool, hi: u32)
    requires
        hi == if neg && p != 0 { (0u64.wrapping_sub(p) >> 32u64) as u32 } else { (p >> 32u64) as u32 },
    ensures
        hi as int == (if neg { -(p as int) } else { p as int }) / 0x1_0000_0000 % 0x1_0000_0000,
{
    if neg && p != 0 {
        let np = 0u64.wrapping_sub(p);
        assert(np == 0x1_0000_0000_0000_0000 - p);
        assert((np >> 32u64) == np / 0x1_0000_0000) by (bit_vector);
        assert(hi as int == (np / 0x1_0000_0000) % 0x1_0000_0000) by {
            assert((np >> 32u64) as u32 == (np >> 32u64)) by (bit_vector)
                requires np >> 32u64 <= 0xFFFF_FFFF;
        }
        assert((-(p as int)) / 0x1_0000_0000 % 0x1_0000_0000 == (np as int / 0x1_0000_0000) % 0x1_0000_0000)
            by (nonlinear_arith)
            requires np == 0x1_0000_0000_0000_0000 - p, p > 0;
    } else {
        assert((p >> 32u64) == p / 0x1_0000_0000) by (bit_vector);
        assert((p >> 32u64) as u32 == (p >> 32u64)) by (bit_vector);
        assert((p as int) / 0x1_0000_0000 < 0x1_0000_0000);
    }
}


/// Signed (two's complement) less-than.
pub fn lt_signed(a: u32, b: u32) -> (r: bool)
    ensures
        r == (sgn(a) < sgn(b)),
{
    if a >= 0x8000_0000 {
        if b >= 0x8000_0000 { a < b } else { true }
    } else {
        if b >= 0x8000_0000 { false } else { a < b }
    }
}

/// The opcode field of an instruction.
pub open spec fn inst_opcode(inst: u32) -> u32 { inst & 0x7f }
/// The rd field of an instruction.
pub open spec fn inst_rd(inst: u32) -> u32 { (inst >> 7u32) & 0x1f }
/// The funct3 field of an instruction.
pub open spec fn inst_funct3(inst: u32) -> u32 { (inst >> 12u32) & 0x7 }
/// The rs1 field of an instruction.
pub open spec fn inst_rs1(inst: u32) -> u32 { (inst >> 15u32) & 0x1f }
/// The rs2 field of an instruction.
pub open spec fn inst_rs2(inst: u32) -> u32 { (inst >> 20u32) & 0x1f }
/// The funct7 field of an instruction.
pub open spec fn inst_funct7(inst: u32) -> u32 { inst >> 25u32 }

/// Opcodes whose effect is on pc and the integer registers alone.
pub open spec fn is_int_opcode(op: u32) -> bool {
    op == OP_LUI || op == OP_AUIPC || op == OP_JAL || op == OP_JALR || op == OP_BRANCH
        || op == OP_OP_IMM || op == OP_OP || op == OP_MISC_MEM
}

/// Opcodes the core implements.
pub open spec fn is_known_opcode(op: u32) -> bool {
    is_int_opcode(op) || op == OP_LOAD || op == OP_STORE || op == OP_SYSTEM || op == OP_AMO
        || op == OP_LOAD_FP || op == OP_STORE_FP || op == OP_MADD || op == OP_MSUB
        || op == OP_NMSUB || op == OP_NMADD || op == OP_OP_FP
}

/// The next pc and register file of an instruction with an integer-only opcode,
/// or `None` when the encoding is illegal.
pub open spec fn spec_int_step(pc: u32, regs: Seq<u32>, inst: u32) -> Option<(u32, Seq<u32>)> {
    let op = inst_opcode(inst);
    let rd = inst_rd(inst);
    let f3 = inst_funct3(inst);
    let f7 = inst_funct7(inst);
    let a = reg_value(regs, inst_rs1(inst));
    let b = reg_value(regs, inst_rs2(inst));
    let next = pc.wrapping_add(4);
    if op == OP_LUI {
        Some((next, regs_after(regs, rd, spec_imm_u(inst) as u32)))
    } else if op == OP_AUIPC {
        Some((next, regs_after(regs, rd, pc.wrapping_add(spec_imm_u(inst) as u32))))
    } else if op == OP_JAL {
        Some((pc.wrapping_add(spec_imm_j(inst) as u32), regs_after(regs, rd, next)))
    } else if op == OP_JALR {
        Some((a.wrapping_add(spec_imm_i(inst) as u32) & !1u32, regs_after(regs, rd, next)))
    } else if op == OP_BRANCH {
        match spec_branch(f3, a, b) {
            Some(taken) => Some((if taken { pc.wrapping_add(spec_imm_b(inst) as u32) } else { next }, regs)),
            None => None,
        }
    } else if op == OP_OP_IMM {
        Some((next, regs_after(regs, rd, spec_alu_imm(f3, inst, a))))
    } else if op == OP_OP {
        if f7 == 1 {
            Some((next, regs_after(regs, rd, mext_value(f3, a, b))))
        } else {
            match spec_alu(f3, f7, a, b) {
                Some(v) => Some((next, regs_after(regs, rd, v))),
                None => None,
            }
        }
    } else if op == OP_MISC_MEM {
        Some((next, regs))
    } else {
        None
    }
}

/// Everything but pc and the integer registers is the same in `a` and `b`.
pub open spec fn same_but_pc_regs(a: Cpu, b: Cpu) -> bool {
    &&& a.fpu == b.fpu
    &&& a.csr == b.csr
    &&& a.priv_level == b.priv_level
    &&& a.wfi == b.wfi
    &&& a.reservation == b.reservation
    &&& a.instruction_count == b.instruction_count
    &&& a.mmu == b.mmu
    &&& a.icache == b.icache
    &&& a.cache_invalidation_pending == b.cache_invalidation_pending
    &&& a.pending_sbi_call == b.pending_sbi_call
    &&& a.last_write_addr == b.last_write_addr
    &&& a.last_write_val == b.last_write_val
}

/// The privilege level loads and stores are checked at (MPRV in M-mode selects MPP).
pub open spec fn data_priv(mstatus: u32, p: PrivilegeLevel) -> PrivilegeLevel {
    if mstatus & MSTATUS_MPRV != 0 && p == PrivilegeLevel::Machine {
        priv_from_bits((mstatus >> 11u32) & 3)
    } else {
        p
    }
}

/// Loads and stores translate nothing at this privilege and satp.
pub open spec fn data_untranslated(c: Cpu) -> bool {
    data_priv(c.csr.mstatus, c.priv_level) == PrivilegeLevel::Machine || c.csr.satp >> 31u32 == 0
}

/// `v` is a value a load with this funct3 can produce (sign- or zero-extended to its width).
pub open spec fn load_width_ok(funct3: u32, v: u32) -> bool {
    if funct3 == FUNCT3_LB { v < 0x80 || v >= 0xFFFF_FF80 }
    else if funct3 == FUNCT3_LH { v < 0x8000 || v >= 0xFFFF_8000 }
    else if funct3 == FUNCT3_LBU { v < 0x100 }
    else if funct3 == FUNCT3_LHU { v < 0x1_0000 }
    else { true }
}

/// The load funct3 values.
pub open spec fn is_load_funct3(f3: u32) -> bool {
    f3 == FUNCT3_LB || f3 == FUNCT3_LH || f3 == FUNCT3_LW || f3 == FUNCT3_LBU || f3 == FUNCT3_LHU
}

/// What a LOAD leaves behind.
pub open spec fn load_post(o: Cpu, c: Cpu, inst: u32, r: Result<(), Trap>) -> bool {
    let vaddr = reg_value(o.regs@, inst_rs1(inst)).wrapping_add(spec_imm_i(inst) as u32);
    let f3 = inst_funct3(inst);
    &&& r is Ok ==> {
        &&& is_load_funct3(f3)
        &&& c.pc == o.pc.wrapping_add(4)
        &&& exists|v: u32| load_width_ok(f3, v) && #[trigger] regs_after(o.regs@, inst_rd(inst), v) == c.regs@
    }
    &&& r is Err ==> {
        ||| r == Err::<(), Trap>(trap_from_cause(fault_cause(AccessType::Load), vaddr))
        ||| (!is_load_funct3(f3) && r == Err::<(), Trap>(Trap::IllegalInstruction(inst)))
    }
    &&& r is Err ==> c.pc == o.pc && c.regs == o.regs
    &&& data_untranslated(o) && is_load_funct3(f3) ==> r is Ok
}

/// The little-endian value of the four bytes from `a` that reads of `b`
/// see, when reading them changes nothing.
pub open spec fn peek_word<B: Bus>(b: B, a: u32) -> Option<u32> {
    if b.peek8(a) is Some && b.peek8(a.wrapping_add(1)) is Some && b.peek8(a.wrapping_add(2)) is Some
        && b.peek8(a.wrapping_add(3)) is Some {
        Some((b.peek8(a).unwrap() + b.peek8(a.wrapping_add(1)).unwrap() * 0x100 + b.peek8(a.wrapping_add(2)).unwrap()
            * 0x1_0000 + b.peek8(a.wrapping_add(3)).unwrap() * 0x100_0000) as u32)
    } else {
        None
    }
}

/// The little-endian value of the two bytes from `a` that reads of `b` see,
/// when reading them changes nothing.
pub open spec fn peek_half<B: Bus>(b: B, a: u32) -> Option<u32> {
    if b.peek8(a) is Some && b.peek8(a.wrapping_add(1)) is Some {
        Some((b.peek8(a).unwrap() + b.peek8(a.wrapping_add(1)).unwrap() * 0x100) as u32)
    } else {
        None
    }
}

/// The value a load with funct3 `f3` at `a` gives on bus `b`, extended to
/// 32 bits, when reading there changes nothing.
pub open spec fn bus_load<B: Bus>(b: B, f3: u32, a: u32) -> Option<u32> {
    if f3 == FUNCT3_LB || f3 == FUNCT3_LBU {
        match b.peek8(a) {
            Some(x) => Some(if f3 == FUNCT3_LB && x >= 0x80 { (x + 0xFFFF_FF00) as u32 } else { x as u32 }),
            None => None,
        }
    } else if f3 == FUNCT3_LH || f3 == FUNCT3_LHU {
        match peek_half(b, a) {
            Some(h) => Some(if f3 == FUNCT3_LH && h >= 0x8000 { (h + 0xFFFF_0000) as u32 } else { h }),
            None => None,
        }
    } else {
        peek_word(b, a)
    }
}

/// A load that translates nothing and reads where reading changes nothing
/// writes the value read to rd and leaves the bus as it was.
pub open spec fn load_value_post<B: Bus>(o: Cpu, c: Cpu, ob: B, fb: B, inst: u32, r: Result<(), Trap>) -> bool {
    let vaddr = reg_value(o.regs@, inst_rs1(inst)).wrapping_add(spec_imm_i(inst) as u32);
    let f3 = inst_funct3(inst);
    data_untranslated(o) && is_load_funct3(f3) ==> match bus_load(ob, f3, vaddr) {
        Some(v) => r is Ok && c.regs@ == regs_after(o.regs@, inst_rd(inst), v) && fb == ob,
        None => true,
    }
}

/// The store funct3 values (SB, SH, SW).
pub open spec fn is_store_funct3(f3: u32) -> bool {
    f3 < 3
}

/// The part of a stored register value that a store of this width writes.
pub open spec fn store_value(f3: u32, v: u32) -> u32 {
    if f3 == 0 { v % 0x100 } else if f3 == 1 { v % 0x1_0000 } else { v }
}

/// The bytes a store with funct3 `f3` writes of the register value `v`, and how many.
pub open spec fn store_bytes(f3: u32, v: u32) -> (u64, nat) {
    if f3 == 0 { ((v as u8) as u64, 1) } else if f3 == 1 { ((v as u16) as u64, 2) } else { (v as u64, 4) }
}

/// A naturally aligned store that translates nothing writes its bytes at
/// the address: the bus states how that changes it.
pub open spec fn store_value_post<B: Bus>(o: Cpu, ob: B, fb: B, inst: u32, r: Result<(), Trap>) -> bool {
    let vaddr = reg_value(o.regs@, inst_rs1(inst)).wrapping_add(spec_imm_s(inst) as u32);
    let f3 = inst_funct3(inst);
    let (v, n) = store_bytes(f3, reg_value(o.regs@, inst_rs2(inst)));
    data_untranslated(o) && is_store_funct3(f3) && vaddr % (n as u32) == 0 ==> r is Ok && ob.wrote(vaddr, v, n, fb)
}

/// An atomic that translates nothing, at an aligned address where reading
/// changes nothing, works on the word there: LR and the AMOs give it to rd,
/// the AMOs write back their result, and a successful SC writes rs2.
pub open spec fn amo_value_post<B: Bus>(o: Cpu, c: Cpu, ob: B, fb: B, inst: u32, r: Result<(), Trap>) -> bool {
    let vaddr = reg_value(o.regs@, inst_rs1(inst));
    let f5 = inst_funct7(inst) / 4;
    let rs2 = reg_value(o.regs@, inst_rs2(inst));
    data_untranslated(o) && vaddr % 4 == 0 && is_amo_funct5(f5) ==> {
        &&& f5 == FUNCT5_SC && o.reservation == Some(vaddr) ==> ob.wrote(vaddr, rs2 as u64, 4, fb)
        &&& f5 != FUNCT5_SC ==> match peek_word(ob, vaddr) {
            Some(w) => {
                &&& c.regs@ == regs_after(o.regs@, inst_rd(inst), w)
                &&& f5 == FUNCT5_LR ==> fb == ob
                &&& f5 != FUNCT5_LR ==> ob.wrote(vaddr, amo_value(f5, w, rs2) as u64, 4, fb)
            },
            None => true,
        }
    }
}

/// What executing `inst` does to the bus, as far as `Cpu::execute` states it.
pub open spec fn exec_bus_outcome<B: Bus>(o: Cpu, c: Cpu, ob: B, fb: B, inst: u32, r: Result<(), Trap>) -> bool {
    &&& inst_opcode(inst) == OP_LOAD ==> load_value_post(o, c, ob, fb, inst, r)
    &&& inst_opcode(inst) == OP_STORE ==> store_value_post(o, ob, fb, inst, r)
    &&& inst_opcode(inst) == OP_AMO ==> amo_value_post(o, c, ob, fb, inst, r)
}

/// What a STORE leaves behind.
pub open spec fn store_post(o: Cpu, c: Cpu, inst: u32, r: Result<(), Trap>) -> bool {
    let vaddr = reg_value(o.regs@, inst_rs1(inst)).wrapping_add(spec_imm_s(inst) as u32);
    let f3 = inst_funct3(inst);
    &&& c.regs == o.regs
    &&& r is Ok ==> {
        &&& is_store_funct3(f3)
        &&& c.pc == o.pc.wrapping_add(4)
        &&& c.last_write_val == store_value(f3, reg_value(o.regs@, inst_rs2(inst)))
    }
    &&& r is Err ==> {
        ||| r == Err::<(), Trap>(trap_from_cause(fault_cause(AccessType::Store), vaddr))
        ||| (!is_store_funct3(f3) && r == Err::<(), Trap>(Trap::IllegalInstruction(inst)))
    }
    &&& r is Err ==> c.pc == o.pc
    &&& data_untranslated(o) && is_store_funct3(f3) ==> r is Ok
}

/// What executing the word `inst` leaves behind, as `Cpu::execute` states it.
pub open spec fn exec_outcome(o: Cpu, c: Cpu, inst: u32, r: Result<(), Trap>) -> bool {
    &&& c.instruction_count == o.instruction_count
    &&& r is Err ==> c.pc == o.pc && c.regs == o.regs
    &&& is_int_opcode(inst_opcode(inst)) ==> match spec_int_step(o.pc, o.regs@, inst) {
        Some(next) => {
            &&& r is Ok
            &&& c.pc == next.0
            &&& c.regs@ == next.1
            &&& same_but_pc_regs(o, c)
        },
        None => r == Err::<(), Trap>(Trap::IllegalInstruction(inst)) && c == o,
    }
    &&& inst_opcode(inst) == OP_LOAD ==> load_post(o, c, inst, r)
    &&& inst_opcode(inst) == OP_STORE ==> store_post(o, c, inst, r)
    &&& inst_opcode(inst) == OP_SYSTEM ==> system_post(o, c, inst, r)
    &&& inst_opcode(inst) == OP_AMO ==> amo_post(o, c, inst, r)
    &&& inst_opcode(inst) == OP_LOAD_FP ==> load_fp_post(o, c, inst, r)
    &&& inst_opcode(inst) == OP_STORE_FP ==> store_fp_post(o, c, inst, r)
    &&& is_fma_opcode(inst_opcode(inst)) ==> fma_post(o, c, inst, r)
    &&& inst_opcode(inst) == OP_OP_FP ==> op_fp_post(o, c, inst, r)
    &&& !is_known_opcode(inst_opcode(inst)) ==> r == Err::<(), Trap>(Trap::IllegalInstruction(inst)) && c == o
}

/// The fused multiply-add opcodes.
pub open spec fn is_fma_opcode(op: u32) -> bool {
    op == OP_MADD || op == OP_MSUB || op == OP_NMSUB || op == OP_NMADD
}

impl Cpu {
    /// Execute a single instruction.
    pub fn execute<B: Bus, F: FloatArith>(&mut self, inst: u32, bus: &mut B, fpa: &F) -> (r: Result<(), Trap>)
        requires
            old(bus).inv(),
            old(self).wf(),
        ensures
            final(bus).inv(),
            final(self).wf(),
            final(self).instruction_count == old(self).instruction_count,
            r is Err ==> final(self).pc == old(self).pc && final(self).regs == old(self).regs,
            is_int_opcode(inst_opcode(inst)) ==> match spec_int_step(old(self).pc, old(self).regs@, inst) {
                Some(next) => {
                    &&& r is Ok
                    &&& final(self).pc == next.0
                    &&& final(self).regs@ == next.1
                    &&& same_but_pc_regs(*old(self), *final(self))
                },
                None => r == Err::<(), Trap>(Trap::IllegalInstruction(inst)) && *final(self) == *old(self),
            },
            inst_opcode(inst) == OP_LOAD ==> load_post(*old(self), *final(self), inst, r),
            inst_opcode(inst) == OP_LOAD ==> load_value_post(*old(self), *final(self), *old(bus), *final(bus), inst, r),
            inst_opcode(inst) == OP_STORE ==> store_post(*old(self), *final(self), inst, r),
            inst_opcode(inst) == OP_STORE ==> store_value_post(*old(self), *old(bus), *final(bus), inst, r),
            inst_opcode(inst) == OP_SYSTEM ==> system_post(*old(self), *final(self), inst, r),
            inst_opcode(inst) == OP_AMO ==> amo_post(*old(self), *final(self), inst, r),
            inst_opcode(inst) == OP_AMO ==> amo_value_post(*old(self), *final(self), *old(bus), *final(bus), inst, r),
            inst_opcode(inst) == OP_LOAD_FP ==> load_fp_post(*old(self), *final(self), inst, r),
            inst_opcode(inst) == OP_STORE_FP ==> store_fp_post(*old(self), *final(self), inst, r),
            is_fma_opcode(inst_opcode(inst)) ==> fma_post(*old(self), *final(self), inst, r),
            inst_opcode(inst) == OP_OP_FP ==> op_fp_post(*old(self), *final(self), inst, r),
            !is_known_opcode(inst_opcode(inst)) ==>
                r == Err::<(), Trap>(Trap::IllegalInstruction(inst)) && *final(self) == *old(self),
            exec_outcome(*old(self), *final(self), inst, r),
            exec_bus_outcome(*old(self), *final(self), *old(bus), *final(bus), inst, r),
    {
        let d = DecodedInst::decode(inst);
        proof { crate::bits::lemma_u32_shift_mask(); }
        let op = d.opcode;
        if op == OP_LUI {
            self.write_reg(d.rd, d.imm_u as u32);
            self.pc = self.pc.wrapping_add(4);
        } else if op == OP_AUIPC {
            let v = self.pc.wrapping_add(d.imm_u as u32);
            self.write_reg(d.rd, v);
            self.pc = self.pc.wrapping_add(4);
        } else if op == OP_JAL {
            let link = self.pc.wrapping_add(4);
            self.write_reg(d.rd, link);
            self.pc = self.pc.wrapping_add(d.imm_j as u32);
        } else if op == OP_JALR {
            let target = self.read_reg(d.rs1).wrapping_add(d.imm_i as u32) & !1u32;
            let link = self.pc.wrapping_add(4);
            self.write_reg(d.rd, link);
            self.pc = target;
        } else if op == OP_BRANCH {
            let rs1 = self.read_reg(d.rs1);
            let rs2 = self.read_reg(d.rs2);
            let f3 = d.funct3;
            let taken = if f3 == FUNCT3_BEQ {
                rs1 == rs2
            } else if f3 == FUNCT3_BNE {
                rs1 != rs2
            } else if f3 == FUNCT3_BLT {
                lt_signed(rs1, rs2)
            } else if f3 == FUNCT3_BGE {
                !lt_signed(rs1, rs2)
            } else if f3 == FUNCT3_BLTU {
                rs1 < rs2
            } else if f3 == FUNCT3_BGEU {
                rs1 >= rs2
            } else {
                return Err(Trap::IllegalInstruction(inst));
            };
            if taken {
                self.pc = self.pc.wrapping_add(d.imm_b as u32);
            } else {
                self.pc = self.pc.wrapping_add(4);
            }
        } else if op == OP_LOAD {
            return self.execute_load(inst, &d, bus);
        } else if op == OP_STORE {
            return self.execute_store(inst, &d, bus);
        } else if op == OP_OP_IMM {
            let rs1 = self.read_reg(d.rs1);
            let imm = d.imm_i as u32;
            let shamt = imm & 0x1F;
            let f3 = d.funct3;
            let result = if f3 == FUNCT3_ADD_SUB {
                rs1.wrapping_add(imm)
            } else if f3 == FUNCT3_SLT {
                if lt_signed(rs1, imm) { 1 } else { 0 }
            } else if f3 == FUNCT3_SLTU {
                if rs1 < imm { 1 } else { 0 }
            } else if f3 == FUNCT3_XOR {
                rs1 ^ imm
            } else if f3 == FUNCT3_OR {
                rs1 | imm
            } else if f3 == FUNCT3_AND {
                rs1 & imm
            } else if f3 == FUNCT3_SLL {
                rs1 << shamt
            } else if (imm >> 10u32) & 1 != 0 {
                ((rs1 as i32) >> shamt) as u32
            } else {
                rs1 >> shamt
            };
            self.write_reg(d.rd, result);
            self.pc = self.pc.wrapping_add(4);
        } else if op == OP_OP {
            let rs1 = self.read_reg(d.rs1);
            let rs2 = self.read_reg(d.rs2);
            let f3 = d.funct3;
            let f7 = d.funct7;
            let result = if f7 == 1 {
                self.execute_m_extension(f3, rs1, rs2)?
            } else if f3 == FUNCT3_ADD_SUB && f7 == 0 {
                rs1.wrapping_add(rs2)
            } else if f3 == FUNCT3_ADD_SUB && f7 == 0x20 {
                rs1.wrapping_sub(rs2)
            } else if f3 == FUNCT3_SLL && f7 == 0 {
                rs1 << (rs2 & 0x1F)
            } else if f3 == FUNCT3_SLT && f7 == 0 {
                if lt_signed(rs1, rs2) { 1 } else { 0 }
            } else if f3 == FUNCT3_SLTU && f7 == 0 {
                if rs1 < rs2 { 1 } else { 0 }
            } else if f3 == FUNCT3_XOR && f7 == 0 {
                rs1 ^ rs2
            } else if f3 == FUNCT3_SRL_SRA && f7 == 0 {
                rs1 >> (rs2 & 0x1F)
            } else if f3 == FUNCT3_SRL_SRA && f7 == 0x20 {
                ((rs1 as i32) >> (rs2 & 0x1F)) as u32
            } else if f3 == FUNCT3_OR && f7 == 0 {
                rs1 | rs2
            } else if f3 == FUNCT3_AND && f7 == 0 {
                rs1 & rs2
            } else {
                return Err(Trap::IllegalInstruction(inst));
            };
            self.write_reg(d.rd, result);
            self.pc = self.pc.wrapping_add(4);
        } else if op == OP_MISC_MEM {
            // FENCE and FENCE.I: memory is coherent in this model.
            self.pc = self.pc.wrapping_add(4);
        } else if op == OP_SYSTEM {
            return self.execute_system(inst, &d, bus);
        } else if op == OP_AMO {
            return self.execute_amo(inst, &d, bus);
        } else if op == OP_LOAD_FP {
            return self.execute_load_fp(inst, &d, bus);
        } else if op == OP_STORE_FP {
            return self.execute_store_fp(inst, &d, bus);
        } else if op == OP_MADD || op == OP_MSUB || op == OP_NMSUB || op == OP_NMADD {
            return self.execute_fma(inst, &d, op, fpa);
        } else if op == OP_OP_FP {
            return self.execute_op_fp(inst, &d, fpa);
        } else {
            return Err(Trap::IllegalInstruction(inst));
        }
        Ok(())
    }

    /// Execute M extension instructions.
    fn execute_m_extension(&self, funct3: u32, rs1: u32, rs2: u32) -> (r: Result<u32, Trap>)
        requires
            funct3 < 8,
        ensures
            r == Ok::<u32, Trap>(mext_value(funct3, rs1, rs2)),
    {
        Ok(m_ext(funct3, rs1, rs2))
    }
}


/// The AMO funct5 values the core implements.
pub open spec fn is_amo_funct5(f5: u32) -> bool {
    f5 == FUNCT5_LR || f5 == FUNCT5_SC || f5 == FUNCT5_AMOSWAP || f5 == FUNCT5_AMOADD
        || f5 == FUNCT5_AMOXOR || f5 == FUNCT5_AMOAND || f5 == FUNCT5_AMOOR || f5 == FUNCT5_AMOMIN
        || f5 == FUNCT5_AMOMAX || f5 == FUNCT5_AMOMINU || f5 == FUNCT5_AMOMAXU
}

/// The value a read-modify-write AMO stores, given the old memory word and rs2.
pub open spec fn amo_value(f5: u32, old: u32, src: u32) -> u32 {
    if f5 == FUNCT5_AMOSWAP { src }
    else if f5 == FUNCT5_AMOADD { old.wrapping_add(src) }
    else if f5 == FUNCT5_AMOXOR { old ^ src }
    else if f5 == FUNCT5_AMOAND { old & src }
    else if f5 == FUNCT5_AMOOR { old | src }
    else if f5 == FUNCT5_AMOMIN { if sgn(old) <= sgn(src) { old } else { src } }
    else if f5 == FUNCT5_AMOMAX { if sgn(old) >= sgn(src) { old } else { src } }
    else if f5 == FUNCT5_AMOMINU { if old <= src { old } else { src } }
    else { if old >= src { old } else { src } }
}

/// What an AMO instruction leaves behind.
pub open spec fn amo_post(o: Cpu, c: Cpu, inst: u32, r: Result<(), Trap>) -> bool {
    let vaddr = reg_value(o.regs@, inst_rs1(inst));
    let f5 = inst_funct7(inst) / 4;
    let rd = inst_rd(inst);
    &&& vaddr % 4 != 0 ==> r == Err::<(), Trap>(Trap::StoreAddressMisaligned(vaddr)) && c == o
    &&& r is Err ==> c.pc == o.pc && c.regs == o.regs && c.reservation == o.reservation
    &&& r is Err && vaddr % 4 == 0 ==> {
        ||| r == Err::<(), Trap>(trap_from_cause(fault_cause(AccessType::Load), vaddr))
        ||| r == Err::<(), Trap>(trap_from_cause(fault_cause(AccessType::Store), vaddr))
        ||| (!is_amo_funct5(f5) && r == Err::<(), Trap>(Trap::IllegalInstruction(inst)))
    }
    &&& r is Ok ==> c.pc == o.pc.wrapping_add(4) && is_amo_funct5(f5)
    &&& vaddr % 4 == 0 && is_amo_funct5(f5) && data_untranslated(o) ==> r is Ok
    &&& f5 == FUNCT5_LR && r is Ok ==> {
        &&& c.reservation == Some(vaddr)
        &&& exists|v: u32| #[trigger] regs_after(o.regs@, rd, v) == c.regs@
    }
    &&& f5 == FUNCT5_SC && vaddr % 4 == 0 && o.reservation != Some(vaddr) ==> {
        &&& r is Ok
        &&& c.regs@ == regs_after(o.regs@, rd, 1)
        &&& c.reservation is None
    }
    &&& f5 == FUNCT5_SC && r is Ok && o.reservation == Some(vaddr) ==> {
        &&& c.regs@ == regs_after(o.regs@, rd, 0)
        &&& c.reservation is None
    }
    &&& f5 != FUNCT5_LR && f5 != FUNCT5_SC && r is Ok ==> {
        &&& c.reservation == o.reservation
        &&& exists|v: u32| #[trigger] regs_after(o.regs@, rd, v) == c.regs@
    }
}

/// The trap an ECALL raises at privilege `p`.
pub open spec fn ecall_trap(p: PrivilegeLevel) -> Trap {
    match p {
        PrivilegeLevel::User => Trap::EnvironmentCallFromU,
        PrivilegeLevel::Supervisor => Trap::EnvironmentCallFromS,
        PrivilegeLevel::Machine => Trap::EnvironmentCallFromM,
    }
}

pub const INST_ECALL: u32 = 0x0000_0073;
pub const INST_EBREAK: u32 = 0x0010_0073;
pub const INST_SRET: u32 = 0x1020_0073;
pub const INST_MRET: u32 = 0x3020_0073;
pub const INST_WFI: u32 = 0x1050_0073;

/// The value a CSR instruction reads, or `None` when the CSR cannot be read
/// at the current privilege (the floating-point CSRs live in the FPU).
pub open spec fn csr_old_value(c: Cpu, addr: u32) -> Option<u32> {
    if addr == CSR_FFLAGS { Some(fflags_bits(c.fpu.fflags)) }
    else if addr == CSR_FRM { Some(rm_encoding(c.fpu.frm)) }
    else if addr == CSR_FCSR { Some((rm_encoding(c.fpu.frm) * 32 + fflags_bits(c.fpu.fflags)) as u32) }
    else if priv_encoding(c.priv_level) < csr_min_priv(addr) { None }
    else { Some(c.csr.spec_value(addr)) }
}

/// May `addr` be written at privilege `p`?
pub open spec fn csr_writable_at(addr: u32, p: PrivilegeLevel) -> bool {
    priv_encoding(p) >= csr_min_priv(addr) && !csr_read_only(addr) && Csr::spec_writable(addr)
}

/// The CPU after a CSR instruction wrote `v` to `addr` (before rd and pc are updated).
pub open spec fn csr_written(o: Cpu, addr: u32, v: u32) -> Cpu {
    let dirty = Csr { mstatus: o.csr.mstatus | MSTATUS_FS, ..o.csr };
    if addr == CSR_FFLAGS {
        Cpu { fpu: Fpu { fflags: fflags_of(v & 0x1f), ..o.fpu }, csr: dirty, ..o }
    } else if addr == CSR_FRM {
        Cpu { fpu: Fpu { frm: rm_from_bits(v), ..o.fpu }, csr: dirty, ..o }
    } else if addr == CSR_FCSR {
        Cpu { fpu: Fpu { fflags: fflags_of(v & 0x1f), frm: rm_from_bits((v >> 5u32) & 0b111), ..o.fpu }, csr: dirty, ..o }
    } else {
        Cpu { csr: o.csr.spec_after_write(addr, v), ..o }
    }
}

/// What a CSR instruction (CSRRW, CSRRS, CSRRC and their immediate forms) leaves behind.
pub open spec fn csr_post(o: Cpu, c: Cpu, inst: u32, r: Result<(), Trap>) -> bool {
    let f3 = inst_funct3(inst);
    let addr = inst >> 20u32;
    let src = if f3 >= FUNCT3_CSRRWI { inst_rs1(inst) } else { reg_value(o.regs@, inst_rs1(inst)) };
    let fp = addr == CSR_FFLAGS || addr == CSR_FRM || addr == CSR_FCSR;
    match csr_old_value(o, addr) {
        None => r == Err::<(), Trap>(Trap::IllegalInstruction(inst)) && c == o,
        Some(old_val) => {
            let new_val = if f3 % 4 == 1 { src } else if f3 % 4 == 2 { old_val | src } else { old_val & !src };
            let writes = f3 % 4 == 1 || src != 0;
            if writes && !fp && !csr_writable_at(addr, o.priv_level) {
                r == Err::<(), Trap>(Trap::IllegalInstruction(inst)) && c == o
            } else {
                let w = if writes { csr_written(o, addr, new_val) } else { o };
                &&& r is Ok
                &&& c == Cpu { pc: o.pc.wrapping_add(4), regs: c.regs, ..w }
                &&& c.regs@ == regs_after(o.regs@, inst_rd(inst), old_val)
            }
        },
    }
}

/// What a SYSTEM instruction leaves behind.
pub open spec fn system_post(o: Cpu, c: Cpu, inst: u32, r: Result<(), Trap>) -> bool {
    let f3 = inst_funct3(inst);
    if f3 == FUNCT3_PRIV {
        if inst == INST_ECALL {
            r == Err::<(), Trap>(ecall_trap(o.priv_level)) && c == o
        } else if inst == INST_EBREAK {
            r == Err::<(), Trap>(Trap::Breakpoint(o.pc)) && c == o
        } else if inst == INST_SRET {
            if o.priv_level == PrivilegeLevel::User {
                r == Err::<(), Trap>(Trap::IllegalInstruction(inst)) && c == o
            } else {
                &&& r is Ok
                &&& c == Cpu {
                    pc: o.csr.sepc,
                    csr: Csr { mstatus: spec_status_sret(o.csr.mstatus), ..o.csr },
                    priv_level: if (o.csr.mstatus >> 8u32) & 1 == 1 { PrivilegeLevel::Supervisor } else { PrivilegeLevel::User },
                    ..o
                }
            }
        } else if inst == INST_MRET {
            if o.priv_level != PrivilegeLevel::Machine {
                r == Err::<(), Trap>(Trap::IllegalInstruction(inst)) && c == o
            } else {
                &&& r is Ok
                &&& c == Cpu {
                    pc: o.csr.mepc,
                    csr: Csr { mstatus: spec_status_mret(o.csr.mstatus), ..o.csr },
                    priv_level: priv_from_bits((o.csr.mstatus >> 11u32) & 3),
                    ..o
                }
            }
        } else if inst == INST_WFI {
            r is Ok && c == Cpu { wfi: true, pc: o.pc.wrapping_add(4), ..o }
        } else if inst >> 25u32 == 0b0001001 {
            r is Ok && c == Cpu { pc: o.pc.wrapping_add(4), ..o }
        } else {
            r == Err::<(), Trap>(Trap::IllegalInstruction(inst)) && c == o
        }
    } else if f3 == 4 {
        r == Err::<(), Trap>(Trap::IllegalInstruction(inst)) && c == o
    } else {
        csr_post(o, c, inst, r)
    }
}

impl Cpu {
    /// The privilege level used for data accesses.
    pub(crate) fn data_access_priv(&self) -> (p: PrivilegeLevel)
        ensures
            p == data_priv(self.csr.mstatus, self.priv_level),
    {
        let mstatus = self.csr.mstatus;
        if (mstatus & MSTATUS_MPRV) != 0 && self.priv_level == PrivilegeLevel::Machine {
            proof { crate::bits::lemma_u32_shift_mask(); }
            let mpp = (mstatus >> 11u32) & 3;
            PrivilegeLevel::from_u8(mpp as u8)
        } else {
            self.priv_level
        }
    }

    /// LB, LH, LW, LBU, LHU (misaligned accesses are done byte by byte).
    fn execute_load<B: Bus>(&mut self, inst: u32, d: &DecodedInst, bus: &mut B) -> (r: Result<(), Trap>)
        requires
            old(bus).inv(),
            old(self).wf(),
            decodes(*d, inst),
        ensures
            final(bus).inv(),
            final(self).wf(),
            load_post(*old(self), *final(self), inst, r),
            load_value_post(*old(self), *final(self), *old(bus), *final(bus), inst, r),
            final(self).instruction_count == old(self).instruction_count,
    {
        proof { crate::bits::lemma_u32_shift_mask(); }
        let vaddr = self.read_reg(d.rs1).wrapping_add(d.imm_i as u32);
        let satp = self.csr.satp;
        let mstatus = self.csr.mstatus;
        let p = self.data_access_priv();
        let paddr = match self.mmu.translate(vaddr, AccessType::Load, p, bus, satp, mstatus) {
            Ok(pa) => pa,
            Err(cause) => {
                return Err(Trap::from_cause(cause, vaddr));
            },
        };
        let f3 = d.funct3;
        let value: u32 = if f3 == FUNCT3_LB {
            let b = bus.read8(paddr) as u32;
            if b >= 0x80 { b + 0xFFFF_FF00 } else { b }
        } else if f3 == FUNCT3_LH || f3 == FUNCT3_LHU {
            let h: u32 = if vaddr % 2 != 0 {
                let b0 = bus.read8(paddr) as u32;
                let b1 = bus.read8(paddr.wrapping_add(1)) as u32;
                b1 * 0x100 + b0
            } else {
                bus.read16(paddr) as u32
            };
            if f3 == FUNCT3_LH && h >= 0x8000 { h + 0xFFFF_0000 } else { h }
        } else if f3 == FUNCT3_LW {
            if vaddr % 4 != 0 {
                let b0 = bus.read8(paddr) as u32;
                let b1 = bus.read8(paddr.wrapping_add(1)) as u32;
                let b2 = bus.read8(paddr.wrapping_add(2)) as u32;
                let b3 = bus.read8(paddr.wrapping_add(3)) as u32;
                b3 * 0x100_0000 + b2 * 0x1_0000 + b1 * 0x100 + b0
            } else {
                bus.read32(paddr)
            }
        } else if f3 == FUNCT3_LBU {
            bus.read8(paddr) as u32
        } else {
            return Err(Trap::IllegalInstruction(inst));
        };
        let ghost old_regs = self.regs@;
        self.write_reg(d.rd, value);
        assert(regs_after(old_regs, inst_rd(inst), value) == self.regs@);
        self.pc = self.pc.wrapping_add(4);
        Ok(())
    }

    /// SB, SH, SW (misaligned accesses are done byte by byte).
    fn execute_store<B: Bus>(&mut self, inst: u32, d: &DecodedInst, bus: &mut B) -> (r: Result<(), Trap>)
        requires
            old(bus).inv(),
            old(self).wf(),
            decodes(*d, inst),
        ensures
            final(bus).inv(),
            final(self).wf(),
            store_post(*old(self), *final(self), inst, r),
            store_value_post(*old(self), *old(bus), *final(bus), inst, r),
            final(self).instruction_count == old(self).instruction_count,
    {
        proof { crate::bits::lemma_u32_shift_mask(); }
        let vaddr = self.read_reg(d.rs1).wrapping_add(d.imm_s as u32);
        let value = self.read_reg(d.rs2);
        let satp = self.csr.satp;
        let mstatus = self.csr.mstatus;
        let p = self.data_access_priv();
        let paddr = match self.mmu.translate(vaddr, AccessType::Store, p, bus, satp, mstatus) {
            Ok(pa) => pa,
            Err(cause) => {
                return Err(Trap::from_cause(cause, vaddr));
            },
        };
        let f3 = d.funct3;
        if f3 == 0 {
            bus.write8(paddr, value as u8);
            self.last_write_addr = paddr;
            self.last_write_val = value % 0x100;
        } else if f3 == 1 {
            if vaddr % 2 != 0 {
                bus.write8(paddr, value as u8);
                bus.write8(paddr.wrapping_add(1), (value >> 8u32) as u8);
            } else {
                bus.write16(paddr, value as u16);
            }
            self.last_write_addr = paddr;
            self.last_write_val = value % 0x1_0000;
        } else if f3 == 2 {
            if vaddr % 4 != 0 {
                bus.write8(paddr, value as u8);
                bus.write8(paddr.wrapping_add(1), (value >> 8u32) as u8);
                bus.write8(paddr.wrapping_add(2), (value >> 16u32) as u8);
                bus.write8(paddr.wrapping_add(3), (value >> 24u32) as u8);
            } else {
                bus.write32(paddr, value);
            }
            self.last_write_addr = paddr;
            self.last_write_val = value;
        } else {
            return Err(Trap::IllegalInstruction(inst));
        }
        self.pc = self.pc.wrapping_add(4);
        Ok(())
    }

    /// Atomic (A extension) instructions: LR.W, SC.W and the AMOs.
    fn execute_amo<B: Bus>(&mut self, inst: u32, d: &DecodedInst, bus: &mut B) -> (r: Result<(), Trap>)
        requires
            old(bus).inv(),
            old(self).wf(),
            decodes(*d, inst),
        ensures
            final(bus).inv(),
            final(self).wf(),
            amo_post(*old(self), *final(self), inst, r),
            amo_value_post(*old(self), *final(self), *old(bus), *final(bus), inst, r),
            final(self).instruction_count == old(self).instruction_count,
    {
        proof { crate::bits::lemma_u32_shift_mask(); }
        let vaddr = self.read_reg(d.rs1);
        if vaddr % 4 != 0 {
            return Err(Trap::StoreAddressMisaligned(vaddr));
        }
        let satp = self.csr.satp;
        let mstatus = self.csr.mstatus;
        let p = self.data_access_priv();
        let funct5 = d.funct7 / 4;
        let ghost old_regs = self.regs@;
        if funct5 == FUNCT5_LR {
            let paddr = match self.mmu.translate(vaddr, AccessType::Load, p, bus, satp, mstatus) {
                Ok(pa) => pa,
                Err(cause) => {
                    return Err(Trap::from_cause(cause, vaddr));
                },
            };
            let value = bus.read32(paddr);
            self.write_reg(d.rd, value);
            assert(regs_after(old_regs, inst_rd(inst), value) == self.regs@);
            self.reservation = Some(vaddr);
        } else if funct5 == FUNCT5_SC {
            if self.reservation == Some(vaddr) {
                let paddr = match self.mmu.translate(vaddr, AccessType::Store, p, bus, satp, mstatus) {
                    Ok(pa) => pa,
                    Err(cause) => {
                        return Err(Trap::from_cause(cause, vaddr));
                    },
                };
                let v = self.read_reg(d.rs2);
                bus.write32(paddr, v);
                self.write_reg(d.rd, 0);
            } else {
                self.write_reg(d.rd, 1);
            }
            self.reservation = None;
        } else {
            let paddr = match self.mmu.translate(vaddr, AccessType::Store, p, bus, satp, mstatus) {
                Ok(pa) => pa,
                Err(cause) => {
                    return Err(Trap::from_cause(cause, vaddr));
                },
            };
            let old_val = bus.read32(paddr);
            let rs2 = self.read_reg(d.rs2);
            if !(funct5 == FUNCT5_AMOSWAP || funct5 == FUNCT5_AMOADD || funct5 == FUNCT5_AMOXOR
                || funct5 == FUNCT5_AMOAND || funct5 == FUNCT5_AMOOR || funct5 == FUNCT5_AMOMIN
                || funct5 == FUNCT5_AMOMAX || funct5 == FUNCT5_AMOMINU || funct5 == FUNCT5_AMOMAXU) {
                return Err(Trap::IllegalInstruction(inst));
            }
            let new_val = if funct5 == FUNCT5_AMOSWAP {
                rs2
            } else if funct5 == FUNCT5_AMOADD {
                old_val.wrapping_add(rs2)
            } else if funct5 == FUNCT5_AMOXOR {
                old_val ^ rs2
            } else if funct5 == FUNCT5_AMOAND {
                old_val & rs2
            } else if funct5 == FUNCT5_AMOOR {
                old_val | rs2
            } else if funct5 == FUNCT5_AMOMIN {
                if lt_signed(rs2, old_val) { rs2 } else { old_val }
            } else if funct5 == FUNCT5_AMOMAX {
                if lt_signed(old_val, rs2) { rs2 } else { old_val }
            } else if funct5 == FUNCT5_AMOMINU {
                if rs2 < old_val { rs2 } else { old_val }
            } else {
                if old_val < rs2 { rs2 } else { old_val }
            };
            assert(new_val == amo_value(funct5, old_val, rs2));
            bus.write32(paddr, new_val);
            self.write_reg(d.rd, old_val);
            assert(regs_after(old_regs, inst_rd(inst), old_val) == self.regs@);
        }
        self.pc = self.pc.wrapping_add(4);
        Ok(())
    }

    /// SYSTEM instructions: ECALL, EBREAK, SRET, MRET, WFI, SFENCE.VMA and the CSR instructions.
    fn execute_system<B: Bus>(&mut self, inst: u32, d: &DecodedInst, bus: &mut B) -> (r: Result<(), Trap>)
        requires
            old(bus).inv(),
            old(self).wf(),
            decodes(*d, inst),
            d.opcode == OP_SYSTEM,
        ensures
            final(bus).inv(),
            final(self).wf(),
            system_post(*old(self), *final(self), inst, r),
    {
        proof { crate::bits::lemma_u32_shift_mask(); }
        let f3 = d.funct3;
        if f3 == FUNCT3_PRIV {
            if inst == INST_ECALL {
                let t = match self.priv_level {
                    PrivilegeLevel::User => Trap::EnvironmentCallFromU,
                    PrivilegeLevel::Supervisor => Trap::EnvironmentCallFromS,
                    PrivilegeLevel::Machine => Trap::EnvironmentCallFromM,
                };
                Err(t)
            } else if inst == INST_EBREAK {
                Err(Trap::Breakpoint(self.pc))
            } else if inst == INST_SRET {
                if self.priv_level == PrivilegeLevel::User {
                    return Err(Trap::IllegalInstruction(inst));
                }
                trap::sret(self);
                Ok(())
            } else if inst == INST_MRET {
                if self.priv_level != PrivilegeLevel::Machine {
                    return Err(Trap::IllegalInstruction(inst));
                }
                trap::mret(self);
                Ok(())
            } else if inst == INST_WFI {
                self.wfi = true;
                self.pc = self.pc.wrapping_add(4);
                Ok(())
            } else if inst >> 25u32 == 0b0001001 {
                // SFENCE.VMA: the TLB is refilled on demand and never outlives a satp write here.
                self.pc = self.pc.wrapping_add(4);
                Ok(())
            } else {
                Err(Trap::IllegalInstruction(inst))
            }
        } else if f3 == 4 {
            Err(Trap::IllegalInstruction(inst))
        } else {
            self.execute_csr(inst, d)
        }
    }

    /// CSRRW, CSRRS, CSRRC and their immediate forms.
    fn execute_csr(&mut self, inst: u32, d: &DecodedInst) -> (r: Result<(), Trap>)
        requires
            old(self).wf(),
            decodes(*d, inst),
            d.funct3 != 0 && d.funct3 != 4,
        ensures
            final(self).wf(),
            csr_post(*old(self), *final(self), inst, r),
    {
        proof { crate::bits::lemma_u32_shift_mask(); }
        let csr_addr = inst >> 20u32;
        let is_imm = d.funct3 >= FUNCT3_CSRRWI;
        let rs1_val = if is_imm { d.rs1 } else { self.read_reg(d.rs1) };
        let old_val = if csr_addr == CSR_FFLAGS {
            self.fpu.fflags.to_bits()
        } else if csr_addr == CSR_FRM {
            self.fpu.frm.bits()
        } else if csr_addr == CSR_FCSR {
            self.fpu.read_fcsr()
        } else {
            match self.csr.read(csr_addr, self.priv_level) {
                Some(v) => v,
                None => {
                    return Err(Trap::IllegalInstruction(inst));
                },
            }
        };
        let op = d.funct3 % 4;
        let new_val = if op == 1 {
            rs1_val
        } else if op == 2 {
            old_val | rs1_val
        } else {
            old_val & !rs1_val
        };
        if op == 1 || rs1_val != 0 {
            if csr_addr == CSR_FFLAGS {
                self.fpu.fflags = FFlags::from_bits(new_val & 0x1F);
                self.csr.mstatus = self.csr.mstatus | MSTATUS_FS;
            } else if csr_addr == CSR_FRM {
                self.fpu.frm = RoundingMode::from_bits(new_val);
                self.csr.mstatus = self.csr.mstatus | MSTATUS_FS;
            } else if csr_addr == CSR_FCSR {
                self.fpu.write_fcsr(new_val);
                self.csr.mstatus = self.csr.mstatus | MSTATUS_FS;
            } else {
                if !self.csr.write(csr_addr, new_val, self.priv_level) {
                    return Err(Trap::IllegalInstruction(inst));
                }
            }
        }
        self.write_reg(d.rd, old_val);
        self.pc = self.pc.wrapping_add(4);
        Ok(())
    }
}

} // verus!
