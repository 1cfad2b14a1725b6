//! RV32IMAFD CPU: the base integer instruction set with the M (multiply and
//! divide), A (atomic), F and D (floating-point) extensions.

use vstd::prelude::*;

pub mod csr;
pub mod mmu;
pub mod icache;
pub mod execute;
pub mod execute_fp;
pub mod jit;
pub mod run_inline_switch;

use crate::cpu::PrivilegeLevel;
use crate::cpu::fpu::{Fpu, FloatArith};
use crate::cpu::trap::{self, Trap, trap_from_cause};
use crate::memory::Bus;
use csr::Csr;
use mmu::Mmu;
use icache::ICache;

verus! {

/// 32-bit CPU state.
pub struct Cpu {
    /// Program counter
    pub pc: u32,
    /// General purpose registers (x0-x31)
    pub regs: [u32; 32],
    /// Floating-point unit (f0-f31 + FCSR)
    pub fpu: Fpu,
    /// Control and Status Registers
    pub csr: Csr,
    /// Current privilege level
    pub priv_level: PrivilegeLevel,
    /// Wait for interrupt (WFI executed)
    pub wfi: bool,
    /// Reservation set for LR/SC
    pub reservation: Option<u32>,
    /// Instruction counter
    pub instruction_count: u64,
    /// MMU for address translation
    pub mmu: Mmu,
    /// Instruction cache
    pub icache: ICache,
    /// Set when cached translations or instructions were dropped (FENCE.I, SFENCE.VMA)
    pub cache_invalidation_pending: bool,
    /// Set when an SBI call must be finished by the system
    pub pending_sbi_call: bool,
    // Debugging helpers
    pub last_write_addr: u32,
    pub last_write_val: u32,
}

/// The value of register `r` in register file `regs` (x0 reads as zero).
pub open spec fn reg_value(regs: Seq<u32>, r: u32) -> u32 {
    if r == 0 { 0 } else { regs[(r % 32) as int] }
}

/// The register file after writing `v` to register `r` (writes to x0 are dropped).
pub open spec fn regs_after(regs: Seq<u32>, r: u32, v: u32) -> Seq<u32> {
    if r == 0 { regs } else { regs.update((r % 32) as int, v) }
}

/// `c` with its instruction count set to `n`.
pub open spec fn with_count(c: Cpu, n: u64) -> Cpu {
    Cpu { instruction_count: n, ..c }
}

/// `p` is `o` after an instruction fetch: only the MMU's and the
/// instruction cache's state may differ.
pub open spec fn fetched_from(o: Cpu, p: Cpu) -> bool {
    p == (Cpu { mmu: p.mmu, icache: p.icache, ..o })
}

/// What a step of `o` may leave behind: an instruction fetch fault with only
/// the MMU changed, or the outcome of executing some fetched word, with the
/// instruction counted when it completes.
pub open spec fn step_outcome(o: Cpu, c: Cpu, r: Result<(), Trap>) -> bool {
    &&& r is Ok ==> c.instruction_count == o.instruction_count.wrapping_add(1)
    &&& r is Err ==> c.pc == o.pc && c.regs == o.regs && c.instruction_count == o.instruction_count
    &&& r == Err::<(), Trap>(trap::trap_from_cause(mmu::fault_cause(mmu::AccessType::Instruction), o.pc))
            && c == (Cpu { mmu: c.mmu, ..o })
        || exists|w: u32, p: Cpu| #[trigger] execute::exec_outcome(p, with_count(c, o.instruction_count), w, r)
            && fetched_from(o, p)
}

/// A step from `c0` on `b0` to `c1` on `b1` with result `r`: its outcome as
/// `step_outcome` says and, when the fetch is untranslated and the word at
/// the pc reads plainly, the execution of exactly that word.
pub open spec fn step_post<B: Bus>(c0: Cpu, b0: B, c1: Cpu, b1: B, r: Result<(), Trap>) -> bool {
    &&& step_outcome(c0, c1, r)
    &&& (c0.priv_level == PrivilegeLevel::Machine || c0.csr.satp >> 31u32 == 0)
        ==> match execute::peek_word(b0, c0.pc) {
        Some(w) => exists|p: Cpu| #[trigger] execute::exec_outcome(p, with_count(c1, c0.instruction_count), w, r)
            && fetched_from(c0, p) && execute::exec_bus_outcome(p, with_count(c1, c0.instruction_count), b0, b1, w, r),
        None => true,
    }
}

impl Cpu {
    /// Internal caches are well formed.
    pub open spec fn wf(&self) -> bool {
        self.mmu.wf() && self.icache.wf()
    }

    pub fn new() -> (c: Cpu)
        ensures
            c.wf(),
            c.pc == 0x1000,
            forall|i: int| 0 <= i < 32 ==> #[trigger] c.regs@[i] == 0,
            c.priv_level == PrivilegeLevel::Machine,
            !c.wfi,
            c.reservation is None,
            c.instruction_count == 0,
    {
        Cpu {
            pc: 0x0000_1000,
            regs: [0u32; 32],
            fpu: Fpu::new(),
            csr: Csr::new(),
            priv_level: PrivilegeLevel::Machine,
            wfi: false,
            reservation: None,
            instruction_count: 0,
            mmu: Mmu::new(),
            icache: ICache::new(),
            cache_invalidation_pending: false,
            pending_sbi_call: false,
            last_write_addr: 0,
            last_write_val: 0,
        }
    }

    /// Read register (x0 always returns 0).
    pub fn read_reg(&self, reg: u32) -> (r: u32)
        ensures
            r == reg_value(self.regs@, reg),
    {
        if reg == 0 {
            0
        } else {
                self.regs[(reg % 32) as usize]
        }
    }

    /// Write register (x0 writes are ignored).
    pub fn write_reg(&mut self, reg: u32, value: u32)
        ensures
            final(self).regs@ == regs_after(old(self).regs@, reg, value),
            final(self).pc == old(self).pc,
            final(self).fpu == old(self).fpu,
            final(self).csr == old(self).csr,
            final(self).priv_level == old(self).priv_level,
            final(self).wfi == old(self).wfi,
            final(self).reservation == old(self).reservation,
            final(self).instruction_count == old(self).instruction_count,
            final(self).mmu == old(self).mmu,
            final(self).icache == old(self).icache,
            final(self).cache_invalidation_pending == old(self).cache_invalidation_pending,
            final(self).pending_sbi_call == old(self).pending_sbi_call,
            final(self).last_write_addr == old(self).last_write_addr,
            final(self).last_write_val == old(self).last_write_val,
    {
        if reg != 0 {
                self.regs[(reg % 32) as usize] = value;
        }
    }

    /// Execute one instruction: fetch through the MMU, decode (through the
    /// instruction cache) and execute.
    pub fn step<B: Bus, F: FloatArith>(&mut self, bus: &mut B, fpa: &F) -> (r: Result<(), Trap>)
        requires
            old(bus).inv(),
            old(self).wf(),
        ensures
            final(bus).inv(),
            final(self).wf(),
            r is Ok ==> final(self).instruction_count == old(self).instruction_count.wrapping_add(1),
            r is Err ==> final(self).pc == old(self).pc && final(self).regs == old(self).regs
                && final(self).instruction_count == old(self).instruction_count,
            step_post(*old(self), *old(bus), *final(self), *final(bus), r),
    {
        let satp = self.csr.satp;
        let mstatus = self.csr.mstatus;
        let priv_level = self.priv_level;
        let pc = self.pc;
        let paddr = match self.mmu.translate(pc, mmu::AccessType::Instruction, priv_level, bus, satp, mstatus) {
            Ok(pa) => pa,
            Err(cause) => {
                return Err(Trap::from_cause(cause, pc));
            },
        };
        let inst = bus.read32(paddr);
        let ghost plain = (old(self).priv_level == PrivilegeLevel::Machine || old(self).csr.satp >> 31u32 == 0)
            && execute::peek_word(*old(bus), old(self).pc) is Some;
        proof {
            if plain {
                assert(paddr == pc);
                assert(*bus == *old(bus));
                assert(inst == execute::peek_word(*old(bus), old(self).pc).unwrap());
            }
        }
        let cached = self.icache.get_or_decode(paddr, inst);
        let ghost p = *self;
        let ghost b0 = *bus;
        assert(cached.raw == inst);
        let res = self.execute_cached(cached.raw, &cached, bus, fpa);
        let ghost c = *self;
        match res {
            Ok(()) => {},
            Err(t) => {
                assert(with_count(c, old(self).instruction_count) == c);
                assert(execute::exec_outcome(p, with_count(c, old(self).instruction_count), cached.raw, res));
                assert(execute::exec_bus_outcome(p, with_count(c, old(self).instruction_count), b0, *bus, cached.raw, res));
                return Err(t);
            },
        }
        self.instruction_count = self.instruction_count.wrapping_add(1);
        assert(with_count(*self, old(self).instruction_count) == c);
        assert(execute::exec_outcome(p, c, cached.raw, Ok(())));
        assert(execute::exec_bus_outcome(p, c, b0, *bus, cached.raw, Ok(())));
        Ok(())
    }

    /// Execute an instruction from its cached decoding.
    pub fn execute_cached<B: Bus, F: FloatArith>(&mut self, inst: u32, cached: &icache::CachedInst, bus: &mut B, fpa: &F) -> (r: Result<(), Trap>)
        requires
            old(bus).inv(),
            old(self).wf(),
        ensures
            final(bus).inv(),
            final(self).wf(),
            final(self).instruction_count == old(self).instruction_count,
            r is Err ==> final(self).pc == old(self).pc && final(self).regs == old(self).regs,
            execute::is_int_opcode(execute::inst_opcode(inst)) ==> match execute::spec_int_step(old(self).pc, old(self).regs@, inst) {
                Some(next) => r is Ok && final(self).pc == next.0 && final(self).regs@ == next.1,
                None => r is Err,
            },
            execute::exec_outcome(*old(self), *final(self), inst, r),
            execute::exec_bus_outcome(*old(self), *final(self), *old(bus), *final(bus), inst, r),
    {
        self.execute(inst, bus, fpa)
    }

    /// Reset CPU state.
    pub fn reset(&mut self)
        requires
            old(self).wf(),
        ensures
            final(self).wf(),
            final(self).pc == 0x1000,
            forall|i: int| 0 <= i < 32 ==> #[trigger] final(self).regs@[i] == 0,
            final(self).priv_level == PrivilegeLevel::Machine,
            !final(self).wfi,
            final(self).reservation is None,
            final(self).csr.mtvec == 0x1080,
            final(self).instruction_count == old(self).instruction_count,
    {
        self.pc = 0x0000_1000;
        self.regs = [0u32; 32];
        self.fpu.reset();
        self.csr.reset();
        self.priv_level = PrivilegeLevel::Machine;
        self.wfi = false;
        self.reservation = None;
        self.mmu.reset();
        self.cache_invalidation_pending = false;
    }

    pub fn tlb_stats(&self) -> (r: (u64, u64))
        ensures
            r == self.mmu.stats(),
    {
        self.mmu.tlb_stats()
    }

    /// Check for pending interrupts.
    pub fn check_interrupts(&mut self) -> (r: Option<Trap>)
        ensures
            r == trap::spec_pending_interrupt(old(self).csr.mip, old(self).csr.mie, old(self).csr.mideleg,
                old(self).csr.mstatus, old(self).priv_level),
            *final(self) == *old(self),
    {
        trap::check_pending_interrupts(self)
    }

    /// Handle a trap (exception or interrupt).
    pub fn handle_trap(&mut self, t: Trap)
        requires
            old(self).wf(),
        ensures
            final(self).wf(),
            !final(self).wfi,
            final(self).regs == old(self).regs,
            final(self).instruction_count == old(self).instruction_count,
            trap::trap_taken(*old(self), *final(self), t),
    {
        trap::handle_trap(self, t);
    }
}

impl Default for Cpu {
    fn default() -> (c: Cpu)
        ensures
            c.wf(),
    {
        Cpu::new()
    }
}

} // verus!
