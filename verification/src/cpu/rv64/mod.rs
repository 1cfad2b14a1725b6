//! RV64 CPU: the 64-bit base integer instruction set with the M, A and C
//! extensions, and Sv39/Sv48/Sv57 virtual memory.

use vstd::prelude::*;

pub mod csr;
pub mod debug;
pub mod decode;
pub mod jit;
pub mod execute;
pub mod execute_c;
pub mod mmu;
pub mod trap;

pub use csr::Csr64;
pub use mmu::Mmu64;

use crate::cpu::PrivilegeLevel;
use crate::cpu::fpu::Fpu;
use trap::{Trap64, check_pending_interrupts, handle_trap};
use crate::memory::Bus;

verus! {

/// 64-bit CPU state.
pub struct Cpu64 {
    /// Program counter
    pub pc: u64,
    /// General purpose registers (x0-x31)
    pub regs: [u64; 32],
    /// Floating-point unit (f0-f31 + FCSR)
    pub fpu: Fpu,
    /// Control and Status Registers
    pub csr: Csr64,
    /// Current privilege level
    pub priv_level: PrivilegeLevel,
    /// Wait for interrupt (WFI executed)
    pub wfi: bool,
    /// Reservation set for LR/SC
    pub reservation: Option<u64>,
    /// Instruction counter
    pub instruction_count: u64,
    /// MMU for address translation
    pub mmu: Mmu64,
    // Debugging helpers
    pub last_write_addr: u64,
    pub last_write_val: u64,
}

/// The value of register `r` in register file `regs` (x0 reads as zero).
pub open spec fn reg_value64(regs: Seq<u64>, r: u32) -> u64 {
    if r == 0 { 0 } else { regs[(r % 32) as int] }
}

/// The register file after writing `v` to register `r` (writes to x0 are dropped).
pub open spec fn regs_after64(regs: Seq<u64>, r: u32, v: u64) -> Seq<u64> {
    if r == 0 { regs } else { regs.update((r % 32) as int, v) }
}

/// The instruction word a fetch at `a` reads on `b` (a halfword when its low
/// two bits are not both set), when reading there changes nothing.
pub open spec fn fetch_word64<B: Bus>(b: B, a: u32) -> Option<u32> {
    match crate::cpu::rv32::execute::peek_half(b, a) {
        Some(h) => if h & 3 != 3 { Some(h) } else { crate::cpu::rv32::execute::peek_word(b, a) },
        None => None,
    }
}

/// `c` with its instruction count set to `n`.
pub open spec fn with_count64(c: Cpu64, n: u64) -> Cpu64 {
    Cpu64 { instruction_count: n, ..c }
}

/// What executing the fetched word `w` leaves behind: a compressed
/// instruction when its low two bits are not both set, a full one otherwise.
pub open spec fn word_outcome64(o: Cpu64, c: Cpu64, w: u32, r: Result<(), Trap64>) -> bool {
    if w & 0b11 != 0b11 {
        &&& c.instruction_count == o.instruction_count
        &&& r is Err ==> c.pc == o.pc && c.regs == o.regs
        &&& execute_c::compressed_post(o, c, w as u16, r)
    } else {
        execute::exec_outcome64(o, c, w, r)
    }
}

/// What a step of `o` may leave behind: an instruction fetch fault with only
/// the MMU changed, or the outcome of executing some fetched word, with the
/// instruction counted when it completes.
pub open spec fn step_outcome64(o: Cpu64, c: Cpu64, r: Result<(), Trap64>) -> bool {
    &&& r is Ok ==> c.instruction_count == o.instruction_count.wrapping_add(1)
    &&& r is Err ==> c.pc == o.pc && c.regs == o.regs && c.instruction_count == o.instruction_count
    &&& (exists|cause: u64| r == Err::<(), Trap64>(#[trigger] trap::trap_from_cause64(cause, o.pc)))
            && c == (Cpu64 { mmu: c.mmu, ..o })
        || (r matches Err(Trap64::LoadAccessFault(a)) && a > u32::MAX && c == (Cpu64 { mmu: c.mmu, ..o }))
        || exists|w: u32, p: Cpu64| #[trigger] word_outcome64(p, with_count64(c, o.instruction_count), w, r)
            && p == (Cpu64 { mmu: p.mmu, ..o })
}

/// A step from `c0` on `b0` to `c1` on `b1` with result `r`: its outcome as
/// `step_outcome64` says and, when the fetch is untranslated below 4 GiB and
/// the word at the pc reads plainly, the execution of exactly that word.
pub open spec fn step_post64<B: Bus>(c0: Cpu64, b0: B, c1: Cpu64, b1: B, r: Result<(), Trap64>) -> bool {
    &&& r is Ok ==> c1.instruction_count == c0.instruction_count.wrapping_add(1)
    &&& r is Err ==> c1.pc == c0.pc && c1.regs == c0.regs && c1.instruction_count == c0.instruction_count
    &&& step_outcome64(c0, c1, r)
    &&& (c0.priv_level == PrivilegeLevel::Machine || (c0.csr.satp >> 60u64) & 0xF == 0)
        && c0.pc <= u32::MAX ==> match fetch_word64(b0, c0.pc as u32) {
        Some(w) => exists|p: Cpu64| #[trigger] word_outcome64(p, with_count64(c1, c0.instruction_count), w, r)
            && p == (Cpu64 { mmu: p.mmu, ..c0 }),
        None => true,
    }
}

impl Cpu64 {
    /// The MMU is well formed.
    pub open spec fn wf(&self) -> bool {
        self.mmu.wf()
    }

    pub fn new() -> (c: Cpu64)
        ensures
            c.wf(),
            c.pc == 0x1000,
            forall|i: int| 0 <= i < 32 ==> #[trigger] c.regs@[i] == 0,
            c.priv_level == PrivilegeLevel::Machine,
            !c.wfi,
            c.reservation is None,
            c.instruction_count == 0,
            c.csr.misa == csr::MISA_RV64,
    {
        Cpu64 {
            pc: 0x0000_0000_0000_1000,
            regs: [0u64; 32],
            fpu: Fpu::new(),
            csr: Csr64::new(),
            priv_level: PrivilegeLevel::Machine,
            wfi: false,
            reservation: None,
            instruction_count: 0,
            mmu: Mmu64::new(),
            last_write_addr: 0,
            last_write_val: 0,
        }
    }

    /// Read register (x0 always returns 0).
    pub fn read_reg(&self, reg: u32) -> (r: u64)
        ensures
            r == reg_value64(self.regs@, reg),
    {
        if reg == 0 {
            0
        } else {
            self.regs[(reg % 32) as usize]
        }
    }

    /// Write register (x0 writes are ignored).
    pub fn write_reg(&mut self, reg: u32, value: u64)
        ensures
            final(self).regs@ == regs_after64(old(self).regs@, reg, value),
            final(self).pc == old(self).pc,
            final(self).fpu == old(self).fpu,
            final(self).csr == old(self).csr,
            final(self).priv_level == old(self).priv_level,
            final(self).wfi == old(self).wfi,
            final(self).reservation == old(self).reservation,
            final(self).instruction_count == old(self).instruction_count,
            final(self).mmu == old(self).mmu,
            final(self).last_write_addr == old(self).last_write_addr,
            final(self).last_write_val == old(self).last_write_val,
    {
        if reg != 0 {
            self.regs[(reg % 32) as usize] = value;
        }
    }

    /// Execute one instruction: fetch through the MMU (two bytes, and two
    /// more when the low bits say the instruction is not compressed), then
    /// execute it in its compressed or full form.
    pub fn step<B: Bus>(&mut self, bus: &mut B) -> (r: Result<(), Trap64>)
        requires
            old(bus).inv(),
            old(self).wf(),
        ensures
            final(bus).inv(),
            final(self).wf(),
            step_post64(*old(self), *old(bus), *final(self), *final(bus), r),
    {
        let satp = self.csr.satp;
        let mstatus = self.csr.mstatus;
        let priv_level = self.priv_level;
        let pc = self.pc;
        let paddr = match self.mmu.translate(pc, mmu::AccessType::Instruction, priv_level, bus, satp, mstatus) {
            Ok(pa) => pa,
            Err(cause) => {
                return Err(Trap64::from_cause(cause, pc));
            },
        };
        let inst = match Self::read_inst(bus, paddr) {
            Ok(i) => i,
            Err(t) => {
                return Err(t);
            },
        };
        let ghost p = *self;
        if (inst & 0b11) != 0b11 {
            match self.execute_compressed(inst as u16, bus) {
                Ok(()) => {},
                Err(t) => {
                    assert(with_count64(*self, old(self).instruction_count) == *self);
                    assert(word_outcome64(p, *self, inst, Err(t)));
                    return Err(t);
                },
            }
        } else {
            match self.execute(inst, bus) {
                Ok(()) => {},
                Err(t) => {
                    assert(with_count64(*self, old(self).instruction_count) == *self);
                    assert(word_outcome64(p, *self, inst, Err(t)));
                    return Err(t);
                },
            }
        }
        let ghost c = *self;
        assert(word_outcome64(p, c, inst, Ok(())));
        self.instruction_count = self.instruction_count.wrapping_add(1);
        assert(with_count64(*self, old(self).instruction_count) == c);
        Ok(())
    }

    /// The instruction at `paddr`: a halfword, or a word when its low two bits are set.
    fn read_inst<B: Bus>(bus: &mut B, paddr: u64) -> (r: Result<u32, Trap64>)
        requires
            old(bus).inv(),
        ensures
            final(bus).inv(),
            paddr > u32::MAX ==> r == Err::<u32, Trap64>(Trap64::LoadAccessFault(paddr)),
            paddr <= u32::MAX ==> r is Ok,
            paddr <= u32::MAX ==> match fetch_word64(*old(bus), paddr as u32) {
                Some(w) => r == Ok::<u32, Trap64>(w) && *final(bus) == *old(bus),
                None => true,
            },
    {
        let addr = Self::map_paddr(paddr)?;
        let inst16 = bus.read16(addr) as u32;
        if (inst16 & 0b11) != 0b11 {
            Ok(inst16)
        } else {
            Ok(bus.read32(addr))
        }
    }

    /// Reset CPU state.
    pub fn reset(&mut self)
        requires
            old(self).wf(),
        ensures
            final(self).wf(),
            final(self).pc == 0x1000,
            forall|i: int| 0 <= i < 32 ==> #[trigger] final(self).regs@[i] == 0,
            final(self).priv_level == PrivilegeLevel::Machine,
            !final(self).wfi,
            final(self).reservation is None,
            final(self).csr.mtvec == 0x1080,
            final(self).instruction_count == old(self).instruction_count,
            final(self).mmu.stats() == (0u64, 0u64),
    {
        self.pc = 0x0000_0000_0000_1000;
        self.regs = [0u64; 32];
        self.fpu.reset();
        self.csr.reset();
        self.priv_level = PrivilegeLevel::Machine;
        self.wfi = false;
        self.reservation = None;
        self.mmu.reset();
    }

    /// The interrupt to take now, if any.
    pub fn check_interrupts(&mut self) -> (r: Option<Trap64>)
        ensures
            r == trap::spec_pending_interrupt64(old(self).csr.mip, old(self).csr.mie, old(self).csr.mideleg,
                old(self).csr.mstatus, old(self).priv_level),
            *final(self) == *old(self),
    {
        check_pending_interrupts(self)
    }

    /// Take a trap (see `trap::handle_trap`).
    pub fn handle_trap(&mut self, trap: Trap64)
        requires
            old(self).wf(),
        ensures
            final(self).wf(),
            final(self).regs == old(self).regs,
            final(self).instruction_count == old(self).instruction_count,
            trap::trap_taken64(*old(self), *final(self), trap),
    {
        handle_trap(self, trap);
    }

    /// A physical address as a 32-bit bus address; beyond 4 GiB it is a load access fault.
    fn map_paddr(paddr: u64) -> (r: Result<u32, Trap64>)
        ensures
            paddr <= u32::MAX ==> r == Ok::<u32, Trap64>(paddr as u32),
            paddr > u32::MAX ==> r == Err::<u32, Trap64>(Trap64::LoadAccessFault(paddr)),
    {
        if paddr > 0xFFFF_FFFF {
            return Err(Trap64::LoadAccessFault(paddr));
        }
        Ok(paddr as u32)
    }
}

impl Default for Cpu64 {
    fn default() -> (c: Cpu64)
        ensures
            c.wf(),
    {
        Cpu64::new()
    }
}

} // verus!
