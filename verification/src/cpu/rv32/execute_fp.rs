//! Floating-point instruction execution (F and D extensions).
//!
//! The core decides which operation runs on which registers and where the
//! result and the exception flags go; the IEEE-754 arithmetic itself is
//! supplied through `FloatArith`.

use vstd::prelude::*;
use crate::cpu::decode::{DecodedInst, decodes, spec_imm_i, spec_imm_s, FUNCT3_FLW, FUNCT3_FLD, FMT_S, FMT_D,
    OP_MADD, OP_MSUB, OP_NMSUB, OP_NMADD,
    FUNCT7_FADD_S, FUNCT7_FSUB_S, FUNCT7_FMUL_S, FUNCT7_FDIV_S, FUNCT7_FSQRT_S, FUNCT7_FSGNJ_S, FUNCT7_FMIN_S,
    FUNCT7_FCVT_W_S, FUNCT7_FMV_X_W, FUNCT7_FCMP_S, FUNCT7_FCVT_S_W, FUNCT7_FMV_W_X,
    FUNCT7_FADD_D, FUNCT7_FSUB_D, FUNCT7_FMUL_D, FUNCT7_FDIV_D, FUNCT7_FSQRT_D, FUNCT7_FSGNJ_D, FUNCT7_FMIN_D,
    FUNCT7_FCVT_S_D, FUNCT7_FCVT_D_S, FUNCT7_FCVT_W_D, FUNCT7_FCMP_D, FUNCT7_FCLASS_D, FUNCT7_FCVT_D_W,
    FUNCT3_FSGNJ, FUNCT3_FSGNJN, FUNCT3_FSGNJX, FUNCT3_FMIN, FUNCT3_FMAX, FUNCT3_FEQ, FUNCT3_FLT, FUNCT3_FLE};
use crate::cpu::fpu::{self, FloatArith, FpBinOp, FpCompare, nan_box, unbox_f32, spec_f32_class, spec_f64_class};
use crate::cpu::trap::{Trap, trap_from_cause};
use crate::memory::Bus;
use super::{Cpu, reg_value, regs_after};
use super::csr::{Csr, MSTATUS_FS};
use super::mmu::{AccessType, fault_cause};
use super::execute::{inst_rd, inst_rs1, inst_rs2, inst_funct3, inst_funct7, data_untranslated};

verus! {

/// Is the FPU switched on (mstatus.FS != Off)?
pub open spec fn fp_enabled(c: Cpu) -> bool {
    c.csr.mstatus & MSTATUS_FS != 0
}

/// `c` is `o` with pc advanced, FS marked dirty, and only the FPU changed otherwise.
pub open spec fn fp_done(o: Cpu, c: Cpu) -> bool {
    &&& c.pc == o.pc.wrapping_add(4)
    &&& c.csr == Csr { mstatus: o.csr.mstatus | MSTATUS_FS, ..o.csr }
    &&& c.priv_level == o.priv_level
    &&& c.icache == o.icache
    &&& c.reservation == o.reservation
    &&& c.instruction_count == o.instruction_count
}

/// The flags in `c` contain those of `o` (exception flags are sticky).
pub open spec fn flags_kept(o: Cpu, c: Cpu) -> bool {
    &&& o.fpu.fflags.nv ==> c.fpu.fflags.nv
    &&& o.fpu.fflags.dz ==> c.fpu.fflags.dz
    &&& o.fpu.fflags.of ==> c.fpu.fflags.of
    &&& o.fpu.fflags.uf ==> c.fpu.fflags.uf
    &&& o.fpu.fflags.nx ==> c.fpu.fflags.nx
}

/// Only f-register `rd` may differ between `a` and `b`.
pub open spec fn fregs_but(a: Seq<u64>, b: Seq<u64>, rd: u32) -> bool {
    a.len() == b.len() && forall|i: int| 0 <= i < a.len() && i != (rd % 32) as int ==> a[i] == b[i]
}

/// Which OP-FP encodings are implemented.
pub open spec fn op_fp_legal(inst: u32) -> bool {
    let f7 = inst_funct7(inst);
    let f3 = inst_funct3(inst);
    let rs2 = inst_rs2(inst);
    if f7 == FUNCT7_FADD_S || f7 == FUNCT7_FSUB_S || f7 == FUNCT7_FMUL_S || f7 == FUNCT7_FDIV_S
        || f7 == FUNCT7_FSQRT_S || f7 == FUNCT7_FADD_D || f7 == FUNCT7_FSUB_D || f7 == FUNCT7_FMUL_D
        || f7 == FUNCT7_FDIV_D || f7 == FUNCT7_FSQRT_D || f7 == FUNCT7_FCVT_S_D || f7 == FUNCT7_FCVT_D_S {
        true
    } else if f7 == FUNCT7_FSGNJ_S || f7 == FUNCT7_FSGNJ_D {
        f3 <= 2
    } else if f7 == FUNCT7_FMIN_S || f7 == FUNCT7_FMIN_D {
        f3 <= 1
    } else if f7 == FUNCT7_FCMP_S || f7 == FUNCT7_FCMP_D {
        f3 <= 2
    } else if f7 == FUNCT7_FCVT_W_S || f7 == FUNCT7_FCVT_S_W || f7 == FUNCT7_FCVT_W_D || f7 == FUNCT7_FCVT_D_W {
        rs2 <= 1
    } else if f7 == FUNCT7_FMV_X_W {
        rs2 == 0 && f3 <= 1
    } else if f7 == FUNCT7_FMV_W_X {
        rs2 == 0 && f3 == 0
    } else if f7 == FUNCT7_FCLASS_D {
        rs2 == 0 && f3 == 1
    } else {
        false
    }
}

/// Does this OP-FP instruction write an integer register (the rest write an f-register)?
pub open spec fn op_fp_writes_x(inst: u32) -> bool {
    let f7 = inst_funct7(inst);
    f7 == FUNCT7_FCVT_W_S || f7 == FUNCT7_FMV_X_W || f7 == FUNCT7_FCMP_S || f7 == FUNCT7_FCVT_W_D
        || f7 == FUNCT7_FCMP_D || f7 == FUNCT7_FCLASS_D
}

/// The exact results of the OP-FP instructions that involve no rounding:
/// sign injection, moves between register files and classification.
pub open spec fn op_fp_exact(o: Cpu, c: Cpu, inst: u32) -> bool {
    let f7 = inst_funct7(inst);
    let f3 = inst_funct3(inst);
    let rd = inst_rd(inst);
    let fa = unbox_f32(o.fpu.fregs@[(inst_rs1(inst) % 32) as int]);
    let fb = unbox_f32(o.fpu.fregs@[(inst_rs2(inst) % 32) as int]);
    let da = o.fpu.fregs@[(inst_rs1(inst) % 32) as int];
    let db = o.fpu.fregs@[(inst_rs2(inst) % 32) as int];
    let fset = |v: u64| c.fpu.fregs@ == o.fpu.fregs@.update((rd % 32) as int, v) && c.fpu.fflags == o.fpu.fflags
        && c.regs == o.regs;
    let xset = |v: u32| c.regs@ == regs_after(o.regs@, rd, v) && c.fpu == o.fpu;
    &&& f7 == FUNCT7_FSGNJ_S && f3 == FUNCT3_FSGNJ ==> fset(nan_box((fa & 0x7FFF_FFFF) | (fb & 0x8000_0000)))
    &&& f7 == FUNCT7_FSGNJ_S && f3 == FUNCT3_FSGNJN ==> fset(nan_box((fa & 0x7FFF_FFFF) | ((fb ^ 0x8000_0000) & 0x8000_0000)))
    &&& f7 == FUNCT7_FSGNJ_S && f3 == FUNCT3_FSGNJX ==> fset(nan_box(fa ^ (fb & 0x8000_0000)))
    &&& f7 == FUNCT7_FSGNJ_D && f3 == FUNCT3_FSGNJ ==> fset((da & 0x7FFF_FFFF_FFFF_FFFF) | (db & 0x8000_0000_0000_0000))
    &&& f7 == FUNCT7_FSGNJ_D && f3 == FUNCT3_FSGNJN ==>
            fset((da & 0x7FFF_FFFF_FFFF_FFFF) | ((db ^ 0x8000_0000_0000_0000) & 0x8000_0000_0000_0000))
    &&& f7 == FUNCT7_FSGNJ_D && f3 == FUNCT3_FSGNJX ==> fset(da ^ (db & 0x8000_0000_0000_0000))
    &&& f7 == FUNCT7_FMV_X_W && f3 == 0 && inst_rs2(inst) == 0 ==> xset(fa)
    &&& f7 == FUNCT7_FMV_X_W && f3 == 1 && inst_rs2(inst) == 0 ==> xset(spec_f32_class(fa))
    &&& f7 == FUNCT7_FCLASS_D && f3 == 1 && inst_rs2(inst) == 0 ==> xset(spec_f64_class(da))
    &&& f7 == FUNCT7_FMV_W_X && f3 == 0 && inst_rs2(inst) == 0 ==>
            fset(nan_box(reg_value(o.regs@, inst_rs1(inst))))
}

/// What FLW/FLD leaves behind: the integer registers and the flags untouched, the value loaded
/// into rd on success (NaN-boxed for FLW), and the faults it can raise.
pub open spec fn load_fp_post(o: Cpu, c: Cpu, inst: u32, r: Result<(), Trap>) -> bool {
    &&& c.instruction_count == o.instruction_count
    &&& !fp_enabled(o) ==> r == Err::<(), Trap>(Trap::IllegalInstruction(inst)) && c == o
    &&& r is Err ==> c.pc == o.pc && c.regs == o.regs
        && c.fpu == o.fpu && c.csr == o.csr
    &&& ({
        let vaddr = reg_value(o.regs@, inst_rs1(inst)).wrapping_add(spec_imm_i(inst) as u32);
        let f3 = inst_funct3(inst);
        &&& r is Err && fp_enabled(o) ==> {
            ||| r == Err::<(), Trap>(trap_from_cause(fault_cause(AccessType::Load), vaddr))
            ||| r == Err::<(), Trap>(Trap::LoadAddressMisaligned(vaddr))
            ||| (f3 != FUNCT3_FLW && f3 != FUNCT3_FLD && r == Err::<(), Trap>(Trap::IllegalInstruction(inst)))
        }
        &&& r is Ok ==> {
            &&& fp_done(o, c)
            &&& c.regs == o.regs
            &&& c.fpu.frm == o.fpu.frm && c.fpu.fflags == o.fpu.fflags
            &&& f3 == FUNCT3_FLW ==> vaddr % 4 == 0
                && exists|v: u32| #[trigger] o.fpu.fregs@.update((inst_rd(inst) % 32) as int, nan_box(v)) == c.fpu.fregs@
            &&& f3 == FUNCT3_FLD ==> vaddr % 8 == 0
                && exists|v: u64| #[trigger] o.fpu.fregs@.update((inst_rd(inst) % 32) as int, v) == c.fpu.fregs@
            &&& f3 == FUNCT3_FLW || f3 == FUNCT3_FLD
        }
        &&& fp_enabled(o) && data_untranslated(o)
            && ((f3 == FUNCT3_FLW && vaddr % 4 == 0) || (f3 == FUNCT3_FLD && vaddr % 8 == 0)) ==> r is Ok
    })
}

/// What FSW/FSD leaves behind: the hart untouched but for the pc on success, and the faults it can raise.
pub open spec fn store_fp_post(o: Cpu, c: Cpu, inst: u32, r: Result<(), Trap>) -> bool {
    &&& c.instruction_count == o.instruction_count
    &&& c.regs == o.regs
    &&& c.fpu == o.fpu
    &&& c.csr == o.csr
    &&& c.priv_level == o.priv_level
    &&& !fp_enabled(o) ==> r == Err::<(), Trap>(Trap::IllegalInstruction(inst)) && c == o
    &&& r is Err ==> c.pc == o.pc
    &&& r is Ok ==> c.pc == o.pc.wrapping_add(4)
    &&& ({
        let vaddr = reg_value(o.regs@, inst_rs1(inst)).wrapping_add(spec_imm_s(inst) as u32);
        let f3 = inst_funct3(inst);
        &&& r is Err && fp_enabled(o) ==> {
            ||| r == Err::<(), Trap>(trap_from_cause(fault_cause(AccessType::Store), vaddr))
            ||| r == Err::<(), Trap>(Trap::StoreAddressMisaligned(vaddr))
            ||| (f3 != FUNCT3_FLW && f3 != FUNCT3_FLD && r == Err::<(), Trap>(Trap::IllegalInstruction(inst)))
        }
        &&& r is Ok ==> (f3 == FUNCT3_FLW && vaddr % 4 == 0) || (f3 == FUNCT3_FLD && vaddr % 8 == 0)
        &&& fp_enabled(o) && data_untranslated(o)
            && ((f3 == FUNCT3_FLW && vaddr % 4 == 0) || (f3 == FUNCT3_FLD && vaddr % 8 == 0)) ==> r is Ok
    })
}

/// What a fused multiply-add leaves behind: only rd of the float registers and the flags may change,
/// and it is illegal exactly when the FPU is off or the format is neither S nor D.
pub open spec fn fma_post(o: Cpu, c: Cpu, inst: u32, r: Result<(), Trap>) -> bool {
    &&& c.instruction_count == o.instruction_count
    &&& c.regs == o.regs
    &&& r is Err ==> r == Err::<(), Trap>(Trap::IllegalInstruction(inst)) && c == o
    &&& r is Err <==> !fp_enabled(o) || (inst >> 25u32) % 4 > 1
    &&& r is Ok ==> fp_done(o, c) && flags_kept(o, c)
        && c.fpu.frm == o.fpu.frm
        && fregs_but(o.fpu.fregs@, c.fpu.fregs@, inst_rd(inst))
}

/// What an OP-FP instruction leaves behind: illegal exactly when the FPU is off or the encoding names
/// no operation; otherwise the result goes to rd (a float or an integer register), with the exact
/// results of sign injection, moves and classification that `op_fp_exact` gives.
pub open spec fn op_fp_post(o: Cpu, c: Cpu, inst: u32, r: Result<(), Trap>) -> bool {
    &&& r is Err ==> r == Err::<(), Trap>(Trap::IllegalInstruction(inst)) && c == o
    &&& r is Ok <==> fp_enabled(o) && op_fp_legal(inst)
    &&& r is Ok ==> {
        &&& fp_done(o, c)
        &&& c.mmu == o.mmu
        &&& flags_kept(o, c)
        &&& c.fpu.frm == o.fpu.frm
        &&& op_fp_writes_x(inst) ==> c.fpu.fregs == o.fpu.fregs
            && exists|v: u32| #[trigger] regs_after(o.regs@, inst_rd(inst), v) == c.regs@
        &&& !op_fp_writes_x(inst) ==> c.regs == o.regs
            && fregs_but(o.fpu.fregs@, c.fpu.fregs@, inst_rd(inst))
        &&& op_fp_exact(o, c, inst)
    }
}

impl Cpu {
    /// FLW and FLD.
    pub fn execute_load_fp<B: Bus>(&mut self, inst: u32, d: &DecodedInst, bus: &mut B) -> (r: Result<(), Trap>)
        requires
            old(bus).inv(),
            old(self).wf(),
            decodes(*d, inst),
        ensures
            final(bus).inv(),
            final(self).wf(),
            load_fp_post(*old(self), *final(self), inst, r),
    {
        proof { crate::bits::lemma_u32_shift_mask(); crate::bits::lemma_u64_shift_mask(); }
        if (self.csr.mstatus & MSTATUS_FS) == 0 {
            return Err(Trap::IllegalInstruction(inst));
        }
        let vaddr = self.read_reg(d.rs1).wrapping_add(d.imm_i as u32);
        let satp = self.csr.satp;
        let mstatus = self.csr.mstatus;
        let p = self.data_access_priv();
        let paddr = match self.mmu.translate(vaddr, AccessType::Load, p, bus, satp, mstatus) {
            Ok(pa) => pa,
            Err(cause) => {
                return Err(Trap::from_cause(cause, vaddr));
            },
        };
        let ghost old_fregs = self.fpu.fregs@;
        if d.funct3 == FUNCT3_FLW {
            if vaddr % 4 != 0 {
                return Err(Trap::LoadAddressMisaligned(vaddr));
            }
            let value = bus.read32(paddr);
            self.fpu.write_f32(d.rd, value);
            assert(old_fregs.update((inst_rd(inst) % 32) as int, nan_box(value)) == self.fpu.fregs@);
        } else if d.funct3 == FUNCT3_FLD {
            if vaddr % 8 != 0 {
                return Err(Trap::LoadAddressMisaligned(vaddr));
            }
            let lo = bus.read32(paddr);
            let hi = bus.read32(paddr.wrapping_add(4));
            let value = (hi as u64) * 0x1_0000_0000 + lo as u64;
            self.fpu.write_f64(d.rd, value);
            assert(old_fregs.update((inst_rd(inst) % 32) as int, value) == self.fpu.fregs@);
        } else {
            return Err(Trap::IllegalInstruction(inst));
        }
        self.csr.mstatus = self.csr.mstatus | MSTATUS_FS;
        self.pc = self.pc.wrapping_add(4);
        Ok(())
    }

    /// FSW and FSD.
    pub fn execute_store_fp<B: Bus>(&mut self, inst: u32, d: &DecodedInst, bus: &mut B) -> (r: Result<(), Trap>)
        requires
            old(bus).inv(),
            old(self).wf(),
            decodes(*d, inst),
        ensures
            final(bus).inv(),
            final(self).wf(),
            store_fp_post(*old(self), *final(self), inst, r),
    {
        proof { crate::bits::lemma_u32_shift_mask(); crate::bits::lemma_u64_shift_mask(); }
        if (self.csr.mstatus & MSTATUS_FS) == 0 {
            return Err(Trap::IllegalInstruction(inst));
        }
        let vaddr = self.read_reg(d.rs1).wrapping_add(d.imm_s as u32);
        let satp = self.csr.satp;
        let mstatus = self.csr.mstatus;
        let p = self.data_access_priv();
        let paddr = match self.mmu.translate(vaddr, AccessType::Store, p, bus, satp, mstatus) {
            Ok(pa) => pa,
            Err(cause) => {
                return Err(Trap::from_cause(cause, vaddr));
            },
        };
        if d.funct3 == FUNCT3_FLW {
            if vaddr % 4 != 0 {
                return Err(Trap::StoreAddressMisaligned(vaddr));
            }
            let value = self.fpu.read_f32(d.rs2);
            bus.write32(paddr, value);
        } else if d.funct3 == FUNCT3_FLD {
            if vaddr % 8 != 0 {
                return Err(Trap::StoreAddressMisaligned(vaddr));
            }
            let value = self.fpu.read_f64(d.rs2);
            bus.write32(paddr, (value % 0x1_0000_0000) as u32);
            bus.write32(paddr.wrapping_add(4), (value / 0x1_0000_0000) as u32);
        } else {
            return Err(Trap::IllegalInstruction(inst));
        }
        self.pc = self.pc.wrapping_add(4);
        Ok(())
    }

    /// FMADD, FMSUB, FNMSUB and FNMADD in single and double precision.
    pub fn execute_fma<F: FloatArith>(&mut self, inst: u32, d: &DecodedInst, opcode: u32, fpa: &F) -> (r: Result<(), Trap>)
        requires
            old(self).wf(),
            decodes(*d, inst),
            opcode == OP_MADD || opcode == OP_MSUB || opcode == OP_NMSUB || opcode == OP_NMADD,
        ensures
            final(self).wf(),
            fma_post(*old(self), *final(self), inst, r),
    {
        proof { crate::bits::lemma_u32_shift_mask(); }
        if (self.csr.mstatus & MSTATUS_FS) == 0 {
            return Err(Trap::IllegalInstruction(inst));
        }
        let rm = self.fpu.effective_rm(d.funct3);
        let fmt = (inst >> 25u32) % 4;
        let rs3 = inst >> 27u32;
        if fmt == FMT_S {
            let a = self.fpu.read_f32(d.rs1);
            let b = self.fpu.read_f32(d.rs2);
            let c = self.fpu.read_f32(rs3);
            let (result, flags) = if opcode == OP_MADD {
                fpa.f32_fmadd(a, b, c, rm)
            } else if opcode == OP_MSUB {
                fpa.f32_fmadd(a, b, c ^ 0x8000_0000, rm)
            } else if opcode == OP_NMSUB {
                fpa.f32_fmadd(a ^ 0x8000_0000, b, c, rm)
            } else {
                fpa.f32_fmadd(a ^ 0x8000_0000, b, c ^ 0x8000_0000, rm)
            };
            self.fpu.fflags.merge(flags);
            self.fpu.write_f32(d.rd, result);
        } else if fmt == FMT_D {
            let a = self.fpu.read_f64(d.rs1);
            let b = self.fpu.read_f64(d.rs2);
            let c = self.fpu.read_f64(rs3);
            let (result, flags) = if opcode == OP_MADD {
                fpa.f64_fmadd(a, b, c, rm)
            } else if opcode == OP_MSUB {
                fpa.f64_fmadd(a, b, c ^ 0x8000_0000_0000_0000, rm)
            } else if opcode == OP_NMSUB {
                fpa.f64_fmadd(a ^ 0x8000_0000_0000_0000, b, c, rm)
            } else {
                fpa.f64_fmadd(a ^ 0x8000_0000_0000_0000, b, c ^ 0x8000_0000_0000_0000, rm)
            };
            self.fpu.fflags.merge(flags);
            self.fpu.write_f64(d.rd, result);
        } else {
            return Err(Trap::IllegalInstruction(inst));
        }
        self.csr.mstatus = self.csr.mstatus | MSTATUS_FS;
        self.pc = self.pc.wrapping_add(4);
        Ok(())
    }

    /// Writes a single-precision result and accumulates its flags.
    fn fp_put32(&mut self, rd: u32, v: u32, flags: fpu::FFlags)
        ensures
            final(self).fpu.fregs@ == old(self).fpu.fregs@.update((rd % 32) as int, nan_box(v)),
            final(self).fpu.frm == old(self).fpu.frm,
            flags_kept(*old(self), *final(self)),
            *final(self) == (Cpu { fpu: final(self).fpu, ..*old(self) }),
    {
        self.fpu.fflags.merge(flags);
        self.fpu.write_f32(rd, v);
    }

    /// Writes a double-precision result and accumulates its flags.
    fn fp_put64(&mut self, rd: u32, v: u64, flags: fpu::FFlags)
        ensures
            final(self).fpu.fregs@ == old(self).fpu.fregs@.update((rd % 32) as int, v),
            final(self).fpu.frm == old(self).fpu.frm,
            flags_kept(*old(self), *final(self)),
            *final(self) == (Cpu { fpu: final(self).fpu, ..*old(self) }),
    {
        self.fpu.fflags.merge(flags);
        self.fpu.write_f64(rd, v);
    }

    /// Writes an integer result and accumulates its flags.
    fn fp_put_x(&mut self, rd: u32, v: u32, flags: fpu::FFlags)
        ensures
            final(self).regs@ == regs_after(old(self).regs@, rd, v),
            final(self).fpu.fregs == old(self).fpu.fregs,
            final(self).fpu.frm == old(self).fpu.frm,
            flags_kept(*old(self), *final(self)),
            *final(self) == (Cpu { fpu: final(self).fpu, regs: final(self).regs, ..*old(self) }),
    {
        self.fpu.fflags.merge(flags);
        self.write_reg(rd, v);
    }

    /// The OP-FP instructions: arithmetic, sign injection, min/max, comparisons,
    /// conversions, moves and classification.
    #[verifier::spinoff_prover]
    #[verifier::rlimit(40)]
    pub fn execute_op_fp<F: FloatArith>(&mut self, inst: u32, d: &DecodedInst, fpa: &F) -> (r: Result<(), Trap>)
        requires
            old(self).wf(),
            decodes(*d, inst),
        ensures
            final(self).wf(),
            r is Err ==> r == Err::<(), Trap>(Trap::IllegalInstruction(inst)) && *final(self) == *old(self),
            r is Ok <==> fp_enabled(*old(self)) && op_fp_legal(inst),
            r is Ok ==> {
                &&& fp_done(*old(self), *final(self))
                &&& final(self).mmu == old(self).mmu
                &&& flags_kept(*old(self), *final(self))
                &&& final(self).fpu.frm == old(self).fpu.frm
                &&& op_fp_writes_x(inst) ==> final(self).fpu.fregs == old(self).fpu.fregs
                    && exists|v: u32| #[trigger] regs_after(old(self).regs@, inst_rd(inst), v) == final(self).regs@
                &&& !op_fp_writes_x(inst) ==> final(self).regs == old(self).regs
                    && fregs_but(old(self).fpu.fregs@, final(self).fpu.fregs@, inst_rd(inst))
                &&& op_fp_exact(*old(self), *final(self), inst)
            },
    {
        proof { crate::bits::lemma_u32_shift_mask(); }
        if (self.csr.mstatus & MSTATUS_FS) == 0 {
            return Err(Trap::IllegalInstruction(inst));
        }
        let rm = self.fpu.effective_rm(d.funct3);
        let f7 = d.funct7;
        let f3 = d.funct3;
        let rd = d.rd;
        let ghost o = *self;
        if f7 == FUNCT7_FADD_S || f7 == FUNCT7_FSUB_S || f7 == FUNCT7_FMUL_S || f7 == FUNCT7_FDIV_S {
            let a = self.fpu.read_f32(d.rs1);
            let b = self.fpu.read_f32(d.rs2);
            let op = if f7 == FUNCT7_FADD_S { FpBinOp::Add } else if f7 == FUNCT7_FSUB_S { FpBinOp::Sub }
                else if f7 == FUNCT7_FMUL_S { FpBinOp::Mul } else { FpBinOp::Div };
            let (v, flags) = fpa.f32_binop(op, a, b, rm);
            self.fp_put32(rd, v, flags);
        } else if f7 == FUNCT7_FSQRT_S {
            let a = self.fpu.read_f32(d.rs1);
            let (v, flags) = fpa.f32_sqrt(a, rm);
            self.fp_put32(rd, v, flags);
        } else if f7 == FUNCT7_FSGNJ_S {
            let a = self.fpu.read_f32(d.rs1);
            let b = self.fpu.read_f32(d.rs2);
            let v = if f3 == FUNCT3_FSGNJ {
                fpu::f32_sgnj(a, b)
            } else if f3 == FUNCT3_FSGNJN {
                fpu::f32_sgnjn(a, b)
            } else if f3 == FUNCT3_FSGNJX {
                fpu::f32_sgnjx(a, b)
            } else {
                return Err(Trap::IllegalInstruction(inst));
            };
            self.fpu.write_f32(rd, v);
        } else if f7 == FUNCT7_FMIN_S {
            let a = self.fpu.read_f32(d.rs1);
            let b = self.fpu.read_f32(d.rs2);
            let op = if f3 == FUNCT3_FMIN {
                FpBinOp::Min
            } else if f3 == FUNCT3_FMAX {
                FpBinOp::Max
            } else {
                return Err(Trap::IllegalInstruction(inst));
            };
            let (v, flags) = fpa.f32_binop(op, a, b, rm);
            self.fp_put32(rd, v, flags);
        } else if f7 == FUNCT7_FCVT_W_S {
            let a = self.fpu.read_f32(d.rs1);
            if d.rs2 > 1 {
                return Err(Trap::IllegalInstruction(inst));
            }
            let (v, flags) = fpa.f32_to_int(a, d.rs2 == 0, rm);
            self.fp_put_x(rd, v, flags);
        } else if f7 == FUNCT7_FMV_X_W {
            if f3 == 0 && d.rs2 == 0 {
                let v = self.fpu.read_f32(d.rs1);
                self.write_reg(rd, v);
            } else if f3 == 1 && d.rs2 == 0 {
                let a = self.fpu.read_f32(d.rs1);
                let v = fpu::f32_classify(a);
                self.write_reg(rd, v);
            } else {
                return Err(Trap::IllegalInstruction(inst));
            }
        } else if f7 == FUNCT7_FCMP_S {
            let a = self.fpu.read_f32(d.rs1);
            let b = self.fpu.read_f32(d.rs2);
            let op = if f3 == FUNCT3_FEQ {
                FpCompare::Eq
            } else if f3 == FUNCT3_FLT {
                FpCompare::Lt
            } else if f3 == FUNCT3_FLE {
                FpCompare::Le
            } else {
                return Err(Trap::IllegalInstruction(inst));
            };
            let (t, flags) = fpa.f32_compare(op, a, b);
            self.fp_put_x(rd, if t { 1 } else { 0 }, flags);
        } else if f7 == FUNCT7_FCVT_S_W {
            let a = self.read_reg(d.rs1);
            if d.rs2 > 1 {
                return Err(Trap::IllegalInstruction(inst));
            }
            let (v, flags) = fpa.int_to_f32(a, d.rs2 == 0, rm);
            self.fp_put32(rd, v, flags);
        } else if f7 == FUNCT7_FMV_W_X {
            if f3 == 0 && d.rs2 == 0 {
                let v = self.read_reg(d.rs1);
                self.fpu.write_f32(rd, v);
            } else {
                return Err(Trap::IllegalInstruction(inst));
            }
        } else if f7 == FUNCT7_FADD_D || f7 == FUNCT7_FSUB_D || f7 == FUNCT7_FMUL_D || f7 == FUNCT7_FDIV_D {
            let a = self.fpu.read_f64(d.rs1);
            let b = self.fpu.read_f64(d.rs2);
            let op = if f7 == FUNCT7_FADD_D { FpBinOp::Add } else if f7 == FUNCT7_FSUB_D { FpBinOp::Sub }
                else if f7 == FUNCT7_FMUL_D { FpBinOp::Mul } else { FpBinOp::Div };
            let (v, flags) = fpa.f64_binop(op, a, b, rm);
            self.fp_put64(rd, v, flags);
        } else if f7 == FUNCT7_FSQRT_D {
            let a = self.fpu.read_f64(d.rs1);
            let (v, flags) = fpa.f64_sqrt(a, rm);
            self.fp_put64(rd, v, flags);
        } else if f7 == FUNCT7_FSGNJ_D {
            let a = self.fpu.read_f64(d.rs1);
            let b = self.fpu.read_f64(d.rs2);
            let v = if f3 == FUNCT3_FSGNJ {
                fpu::f64_sgnj(a, b)
            } else if f3 == FUNCT3_FSGNJN {
                fpu::f64_sgnjn(a, b)
            } else if f3 == FUNCT3_FSGNJX {
                fpu::f64_sgnjx(a, b)
            } else {
                return Err(Trap::IllegalInstruction(inst));
            };
            self.fpu.write_f64(rd, v);
        } else if f7 == FUNCT7_FMIN_D {
            let a = self.fpu.read_f64(d.rs1);
            let b = self.fpu.read_f64(d.rs2);
            let op = if f3 == FUNCT3_FMIN {
                FpBinOp::Min
            } else if f3 == FUNCT3_FMAX {
                FpBinOp::Max
            } else {
                return Err(Trap::IllegalInstruction(inst));
            };
            let (v, flags) = fpa.f64_binop(op, a, b, rm);
            self.fp_put64(rd, v, flags);
        } else if f7 == FUNCT7_FCVT_S_D {
            let a = self.fpu.read_f64(d.rs1);
            let (v, flags) = fpa.f64_to_f32(a, rm);
            self.fp_put32(rd, v, flags);
        } else if f7 == FUNCT7_FCVT_D_S {
            let a = self.fpu.read_f32(d.rs1);
            let (v, flags) = fpa.f32_to_f64(a);
            self.fp_put64(rd, v, flags);
        } else if f7 == FUNCT7_FCVT_W_D {
            let a = self.fpu.read_f64(d.rs1);
            if d.rs2 > 1 {
                return Err(Trap::IllegalInstruction(inst));
            }
            let (v, flags) = fpa.f64_to_int(a, d.rs2 == 0, rm);
            self.fp_put_x(rd, v, flags);
        } else if f7 == FUNCT7_FCMP_D {
            let a = self.fpu.read_f64(d.rs1);
            let b = self.fpu.read_f64(d.rs2);
            let op = if f3 == FUNCT3_FEQ {
                FpCompare::Eq
            } else if f3 == FUNCT3_FLT {
                FpCompare::Lt
            } else if f3 == FUNCT3_FLE {
                FpCompare::Le
            } else {
                return Err(Trap::IllegalInstruction(inst));
            };
            let (t, flags) = fpa.f64_compare(op, a, b);
            self.fp_put_x(rd, if t { 1 } else { 0 }, flags);
        } else if f7 == FUNCT7_FCLASS_D {
            if f3 == 1 && d.rs2 == 0 {
                let a = self.fpu.read_f64(d.rs1);
                let v = fpu::f64_classify(a);
                self.write_reg(rd, v);
            } else {
                return Err(Trap::IllegalInstruction(inst));
            }
        } else if f7 == FUNCT7_FCVT_D_W {
            let a = self.read_reg(d.rs1);
            if d.rs2 > 1 {
                return Err(Trap::IllegalInstruction(inst));
            }
            let v = fpa.int_to_f64(a, d.rs2 == 0);
            self.fpu.write_f64(rd, v);
        } else {
            return Err(Trap::IllegalInstruction(inst));
        }
        proof {
            if op_fp_writes_x(inst) {
                let v = self.regs@[(rd % 32) as int];
                assert(regs_after(o.regs@, inst_rd(inst), v) =~= self.regs@);
            }
        }
        self.csr.mstatus = self.csr.mstatus | MSTATUS_FS;
        self.pc = self.pc.wrapping_add(4);
        Ok(())
    }
}

} // verus!
