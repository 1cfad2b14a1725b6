//! Trap handling (exceptions and interrupts) for the 32-bit core.

use vstd::prelude::*;
use crate::cpu::{PrivilegeLevel, priv_encoding, priv_from_bits};
use crate::cpu::rv32::Cpu;
use crate::cpu::rv32::csr::{Csr, MSTATUS_SIE, MSTATUS_MIE, MSTATUS_SPIE, MSTATUS_MPIE, MSTATUS_SPP, MSTATUS_MPP,
    MIP_SSIP, MIP_MSIP, MIP_STIP, MIP_MTIP, MIP_SEIP, MIP_MEIP};

verus! {

/// Exception/interrupt cause.
#[derive(Debug, Clone, Copy, PartialEq, Eq, Structural)]
pub enum Trap {
    // Exceptions (synchronous)
    InstructionAddressMisaligned(u32),
    InstructionAccessFault(u32),
    IllegalInstruction(u32),
    Breakpoint(u32),
    LoadAddressMisaligned(u32),
    LoadAccessFault(u32),
    StoreAddressMisaligned(u32),
    StoreAccessFault(u32),
    EnvironmentCallFromU,
    EnvironmentCallFromS,
    EnvironmentCallFromM,
    InstructionPageFault(u32),
    LoadPageFault(u32),
    StorePageFault(u32),
    // Interrupts (asynchronous)
    UserSoftwareInterrupt,
    SupervisorSoftwareInterrupt,
    MachineSoftwareInterrupt,
    UserTimerInterrupt,
    SupervisorTimerInterrupt,
    MachineTimerInterrupt,
    UserExternalInterrupt,
    SupervisorExternalInterrupt,
    MachineExternalInterrupt,
}

/// The mcause/scause value of a trap: the exception code, with bit 31 set for interrupts.
pub open spec fn trap_code(t: Trap) -> u32 {
    match t {
        Trap::InstructionAddressMisaligned(_) => 0,
        Trap::InstructionAccessFault(_) => 1,
        Trap::IllegalInstruction(_) => 2,
        Trap::Breakpoint(_) => 3,
        Trap::LoadAddressMisaligned(_) => 4,
        Trap::LoadAccessFault(_) => 5,
        Trap::StoreAddressMisaligned(_) => 6,
        Trap::StoreAccessFault(_) => 7,
        Trap::EnvironmentCallFromU => 8,
        Trap::EnvironmentCallFromS => 9,
        Trap::EnvironmentCallFromM => 11,
        Trap::InstructionPageFault(_) => 12,
        Trap::LoadPageFault(_) => 13,
        Trap::StorePageFault(_) => 15,
        Trap::UserSoftwareInterrupt => 0x8000_0000,
        Trap::SupervisorSoftwareInterrupt => 0x8000_0001,
        Trap::MachineSoftwareInterrupt => 0x8000_0003,
        Trap::UserTimerInterrupt => 0x8000_0004,
        Trap::SupervisorTimerInterrupt => 0x8000_0005,
        Trap::MachineTimerInterrupt => 0x8000_0007,
        Trap::UserExternalInterrupt => 0x8000_0008,
        Trap::SupervisorExternalInterrupt => 0x8000_0009,
        Trap::MachineExternalInterrupt => 0x8000_000b,
    }
}

/// The mtval/stval value of a trap: the faulting address or instruction, else 0.
pub open spec fn trap_value(t: Trap) -> u32 {
    match t {
        Trap::InstructionAddressMisaligned(v) => v,
        Trap::InstructionAccessFault(v) => v,
        Trap::IllegalInstruction(v) => v,
        Trap::Breakpoint(v) => v,
        Trap::LoadAddressMisaligned(v) => v,
        Trap::LoadAccessFault(v) => v,
        Trap::StoreAddressMisaligned(v) => v,
        Trap::StoreAccessFault(v) => v,
        Trap::InstructionPageFault(v) => v,
        Trap::LoadPageFault(v) => v,
        Trap::StorePageFault(v) => v,
        _ => 0,
    }
}

/// The trap that an exception cause code and value stand for (unknown codes are illegal instructions).
pub open spec fn trap_from_cause(cause: u32, tval: u32) -> Trap {
    if cause == 0 { Trap::InstructionAddressMisaligned(tval) }
    else if cause == 1 { Trap::InstructionAccessFault(tval) }
    else if cause == 2 { Trap::IllegalInstruction(tval) }
    else if cause == 3 { Trap::Breakpoint(tval) }
    else if cause == 4 { Trap::LoadAddressMisaligned(tval) }
    else if cause == 5 { Trap::LoadAccessFault(tval) }
    else if cause == 6 { Trap::StoreAddressMisaligned(tval) }
    else if cause == 7 { Trap::StoreAccessFault(tval) }
    else if cause == 12 { Trap::InstructionPageFault(tval) }
    else if cause == 13 { Trap::LoadPageFault(tval) }
    else if cause == 15 { Trap::StorePageFault(tval) }
    else { Trap::IllegalInstruction(tval) }
}

impl Trap {
    /// Get the cause code for mcause/scause.
    pub fn code(&self) -> (r: u32)
        ensures
            r == trap_code(*self),
    {
        match self {
            Trap::InstructionAddressMisaligned(_) => 0,
            Trap::InstructionAccessFault(_) => 1,
            Trap::IllegalInstruction(_) => 2,
            Trap::Breakpoint(_) => 3,
            Trap::LoadAddressMisaligned(_) => 4,
            Trap::LoadAccessFault(_) => 5,
            Trap::StoreAddressMisaligned(_) => 6,
            Trap::StoreAccessFault(_) => 7,
            Trap::EnvironmentCallFromU => 8,
            Trap::EnvironmentCallFromS => 9,
            Trap::EnvironmentCallFromM => 11,
            Trap::InstructionPageFault(_) => 12,
            Trap::LoadPageFault(_) => 13,
            Trap::StorePageFault(_) => 15,
            Trap::UserSoftwareInterrupt => 0x8000_0000,
            Trap::SupervisorSoftwareInterrupt => 0x8000_0001,
            Trap::MachineSoftwareInterrupt => 0x8000_0003,
            Trap::UserTimerInterrupt => 0x8000_0004,
            Trap::SupervisorTimerInterrupt => 0x8000_0005,
            Trap::MachineTimerInterrupt => 0x8000_0007,
            Trap::UserExternalInterrupt => 0x8000_0008,
            Trap::SupervisorExternalInterrupt => 0x8000_0009,
            Trap::MachineExternalInterrupt => 0x8000_000b,
        }
    }

    /// Get the trap value (bad address, instruction, etc).
    pub fn value(&self) -> (r: u32)
        ensures
            r == trap_value(*self),
    {
        match self {
            Trap::InstructionAddressMisaligned(v) => *v,
            Trap::InstructionAccessFault(v) => *v,
            Trap::IllegalInstruction(v) => *v,
            Trap::Breakpoint(v) => *v,
            Trap::LoadAddressMisaligned(v) => *v,
            Trap::LoadAccessFault(v) => *v,
            Trap::StoreAddressMisaligned(v) => *v,
            Trap::StoreAccessFault(v) => *v,
            Trap::InstructionPageFault(v) => *v,
            Trap::LoadPageFault(v) => *v,
            Trap::StorePageFault(v) => *v,
            _ => 0,
        }
    }

    /// Is this an interrupt (vs exception)?
    pub fn is_interrupt(&self) -> (r: bool)
        ensures
            r == (trap_code(*self) >= 0x8000_0000),
    {
        self.code() >= 0x8000_0000
    }

    /// Create trap from cause code and value.
    pub fn from_cause(cause: u32, tval: u32) -> (t: Trap)
        ensures
            t == trap_from_cause(cause, tval),
    {
        match cause {
            0 => Trap::InstructionAddressMisaligned(tval),
            1 => Trap::InstructionAccessFault(tval),
            2 => Trap::IllegalInstruction(tval),
            3 => Trap::Breakpoint(tval),
            4 => Trap::LoadAddressMisaligned(tval),
            5 => Trap::LoadAccessFault(tval),
            6 => Trap::StoreAddressMisaligned(tval),
            7 => Trap::StoreAccessFault(tval),
            12 => Trap::InstructionPageFault(tval),
            13 => Trap::LoadPageFault(tval),
            15 => Trap::StorePageFault(tval),
            _ => Trap::IllegalInstruction(tval),
        }
    }
}

/// For every exception code that names a trap, rebuilding the trap from its code and value gives it back.
pub proof fn lemma_cause_round_trip(t: Trap)
    requires
        trap_code(t) < 16,
        trap_code(t) != 8 && trap_code(t) != 9 && trap_code(t) != 11,
    ensures
        trap_from_cause(trap_code(t), trap_value(t)) == t,
{
}

/// The interrupt that should be taken, if any, for pending bits `mip & mie`,
/// delegation mask `mideleg`, status `mstatus` and current privilege.
/// Machine interrupts (MEI > MSI > MTI) come before supervisor ones (SEI > SSI > STI).
pub open spec fn spec_pending_interrupt(mip: u32, mie: u32, mideleg: u32, mstatus: u32, p: PrivilegeLevel) -> Option<Trap> {
    let pending = mip & mie;
    let m_enabled = p != PrivilegeLevel::Machine || mstatus & MSTATUS_MIE != 0;
    let s_enabled = p == PrivilegeLevel::User || (p == PrivilegeLevel::Supervisor && mstatus & MSTATUS_SIE != 0);
    let m_int = pending & !mideleg;
    let s_int = pending & mideleg;
    if pending == 0 {
        None
    } else if m_enabled && m_int & MIP_MEIP != 0 {
        Some(Trap::MachineExternalInterrupt)
    } else if m_enabled && m_int & MIP_MSIP != 0 {
        Some(Trap::MachineSoftwareInterrupt)
    } else if m_enabled && m_int & MIP_MTIP != 0 {
        Some(Trap::MachineTimerInterrupt)
    } else if s_enabled && s_int & MIP_SEIP != 0 {
        Some(Trap::SupervisorExternalInterrupt)
    } else if s_enabled && s_int & MIP_SSIP != 0 {
        Some(Trap::SupervisorSoftwareInterrupt)
    } else if s_enabled && s_int & MIP_STIP != 0 {
        Some(Trap::SupervisorTimerInterrupt)
    } else {
        None
    }
}

/// `0` has no bits set.
proof fn lemma_zero_and()
    by (bit_vector)
    ensures
        forall|x: u32, y: u32| #[trigger] ((0u32 & x) & y) == 0u32,
{
}

/// Interrupt `bit` can be taken now as a machine-level (undelegated) interrupt.
pub open spec fn takeable_m(mip: u32, mie: u32, mideleg: u32, mstatus: u32, p: PrivilegeLevel, bit: u32) -> bool {
    (mip & mie) & !mideleg & bit != 0 && (p != PrivilegeLevel::Machine || mstatus & 0x8 != 0)
}

/// Interrupt `bit` can be taken now as a delegated supervisor interrupt.
pub open spec fn takeable_s(mip: u32, mie: u32, mideleg: u32, mstatus: u32, p: PrivilegeLevel, bit: u32) -> bool {
    (mip & mie) & mideleg & bit != 0
        && (p == PrivilegeLevel::User || (p == PrivilegeLevel::Supervisor && mstatus & 0x2 != 0))
}

/// The interrupt taken: whenever one of the six standard interrupts (MEI
/// 0x800, MSI 0x8, MTI 0x80, SEI 0x200, SSI 0x2, STI 0x20) can be taken, one
/// is; the one returned can be taken, and is the one its code names; a
/// machine-level interrupt that can be taken goes before any delegated one.
pub proof fn lemma_interrupt_taken(mip: u32, mie: u32, mideleg: u32, mstatus: u32, p: PrivilegeLevel)
    ensures
        ({
            let r = spec_pending_interrupt(mip, mie, mideleg, mstatus, p);
            &&& (takeable_m(mip, mie, mideleg, mstatus, p, 0x800) || takeable_m(mip, mie, mideleg, mstatus, p, 0x8)
                || takeable_m(mip, mie, mideleg, mstatus, p, 0x80) || takeable_s(mip, mie, mideleg, mstatus, p, 0x200)
                || takeable_s(mip, mie, mideleg, mstatus, p, 0x2) || takeable_s(mip, mie, mideleg, mstatus, p, 0x20))
                ==> r is Some
            &&& match r {
                Some(Trap::MachineExternalInterrupt) => takeable_m(mip, mie, mideleg, mstatus, p, 0x800),
                Some(Trap::MachineSoftwareInterrupt) => takeable_m(mip, mie, mideleg, mstatus, p, 0x8),
                Some(Trap::MachineTimerInterrupt) => takeable_m(mip, mie, mideleg, mstatus, p, 0x80),
                Some(Trap::SupervisorExternalInterrupt) => takeable_s(mip, mie, mideleg, mstatus, p, 0x200),
                Some(Trap::SupervisorSoftwareInterrupt) => takeable_s(mip, mie, mideleg, mstatus, p, 0x2),
                Some(Trap::SupervisorTimerInterrupt) => takeable_s(mip, mie, mideleg, mstatus, p, 0x20),
                Some(_) => false,
                None => true,
            }
            &&& (takeable_m(mip, mie, mideleg, mstatus, p, 0x800) || takeable_m(mip, mie, mideleg, mstatus, p, 0x8)
                || takeable_m(mip, mie, mideleg, mstatus, p, 0x80))
                ==> (r == Some(Trap::MachineExternalInterrupt) || r == Some(Trap::MachineSoftwareInterrupt)
                    || r == Some(Trap::MachineTimerInterrupt))
        }),
{
    lemma_zero_and();
}

/// Check for pending interrupts.
pub fn check_pending_interrupts(cpu: &Cpu) -> (r: Option<Trap>)
    ensures
        r == spec_pending_interrupt(cpu.csr.mip, cpu.csr.mie, cpu.csr.mideleg, cpu.csr.mstatus, cpu.priv_level),
{
    let pending = cpu.csr.mip & cpu.csr.mie;
    if pending == 0 {
        return None;
    }
    let mie_enabled = (cpu.csr.mstatus & MSTATUS_MIE) != 0;
    let sie_enabled = (cpu.csr.mstatus & MSTATUS_SIE) != 0;
    let m_enabled = cpu.priv_level != PrivilegeLevel::Machine || mie_enabled;
    let s_enabled = cpu.priv_level == PrivilegeLevel::User
        || (cpu.priv_level == PrivilegeLevel::Supervisor && sie_enabled);
    let m_interrupts = pending & !cpu.csr.mideleg;
    if m_enabled {
        if m_interrupts & MIP_MEIP != 0 {
            return Some(Trap::MachineExternalInterrupt);
        }
        if m_interrupts & MIP_MSIP != 0 {
            return Some(Trap::MachineSoftwareInterrupt);
        }
        if m_interrupts & MIP_MTIP != 0 {
            return Some(Trap::MachineTimerInterrupt);
        }
    }
    let s_interrupts = pending & cpu.csr.mideleg;
    if s_enabled {
        if s_interrupts & MIP_SEIP != 0 {
            return Some(Trap::SupervisorExternalInterrupt);
        }
        if s_interrupts & MIP_SSIP != 0 {
            return Some(Trap::SupervisorSoftwareInterrupt);
        }
        if s_interrupts & MIP_STIP != 0 {
            return Some(Trap::SupervisorTimerInterrupt);
        }
    }
    None
}

/// Is a trap with cause `cause` delegated to S-mode from privilege `p`?
pub open spec fn spec_delegated(cause: u32, is_interrupt: bool, medeleg: u32, mideleg: u32, p: PrivilegeLevel) -> bool {
    let deleg = if is_interrupt { mideleg } else { medeleg };
    let bit = cause & 0x7FFF_FFFF;
    p != PrivilegeLevel::Machine && bit < 32 && (deleg >> bit) & 1 == 1
}

/// Trap entry address: vectored (base + 4*cause) for interrupts when the low bit of tvec is set.
pub open spec fn spec_vector(tvec: u32, is_interrupt: bool, bit: u32) -> u32 {
    if is_interrupt && tvec & 1 != 0 {
        (tvec & !1u32).wrapping_add(bit.wrapping_mul(4))
    } else {
        tvec & !1u32
    }
}

/// mstatus after entering S-mode from privilege `p`: SPIE := SIE, SPP := (p == S), SIE := 0.
pub open spec fn spec_status_s_entry(s: u32, p: PrivilegeLevel) -> u32 {
    let t = s & !(MSTATUS_SIE | MSTATUS_SPIE | MSTATUS_SPP);
    let t1 = if s & MSTATUS_SIE != 0 { t | MSTATUS_SPIE } else { t };
    if p == PrivilegeLevel::Supervisor { t1 | MSTATUS_SPP } else { t1 }
}

/// mstatus after entering M-mode from privilege `p`: MPIE := MIE, MPP := p, MIE := 0.
pub open spec fn spec_status_m_entry(s: u32, p: PrivilegeLevel) -> u32 {
    let t = s & !(MSTATUS_MIE | MSTATUS_MPIE | MSTATUS_MPP);
    (if s & MSTATUS_MIE != 0 { t | MSTATUS_MPIE } else { t }) | (priv_encoding(p) << 11u32)
}

/// The hart `c` after taking `trap` from `o`. The trap goes to S-mode when
/// the current level is below Machine and the cause's bit is set in medeleg
/// (exceptions) or mideleg (interrupts); otherwise to M-mode. The
/// interrupted pc, the cause and the value go to sepc/scause/stval (or the M
/// versions), the status bits are stacked, the pc jumps to stvec/mtvec
/// (vectored for interrupts when its low bit is set), any wait ends, and
/// nothing else changes.
pub open spec fn trap_taken(o: Cpu, c: Cpu, trap: Trap) -> bool {
    let cause = trap_code(trap);
    let is_int = cause >= 0x8000_0000;
    let bit = cause & 0x7FFF_FFFF;
    &&& if spec_delegated(cause, is_int, o.csr.medeleg, o.csr.mideleg, o.priv_level) {
        &&& c.csr == (Csr {
                sepc: o.pc,
                scause: cause,
                stval: trap_value(trap),
                mstatus: spec_status_s_entry(o.csr.mstatus, o.priv_level),
                ..o.csr
            })
        &&& c.priv_level == PrivilegeLevel::Supervisor
        &&& c.pc == spec_vector(o.csr.stvec, is_int, bit)
    } else {
        &&& c.csr == (Csr {
                mepc: o.pc,
                mcause: cause,
                mtval: trap_value(trap),
                mstatus: spec_status_m_entry(o.csr.mstatus, o.priv_level),
                ..o.csr
            })
        &&& c.priv_level == PrivilegeLevel::Machine
        &&& c.pc == spec_vector(o.csr.mtvec, is_int, bit)
    }
    &&& c.wfi == false
    &&& c.regs == o.regs
    &&& c.fpu == o.fpu
    &&& c.mmu == o.mmu
    &&& c.icache == o.icache
    &&& c.reservation == o.reservation
    &&& c.instruction_count == o.instruction_count
    &&& c.cache_invalidation_pending == o.cache_invalidation_pending
    &&& c.pending_sbi_call == o.pending_sbi_call
    &&& c.last_write_addr == o.last_write_addr
    &&& c.last_write_val == o.last_write_val
}

/// Handle a trap (exception or interrupt).
///
/// The trap goes to S-mode when the current level is below Machine and the
/// cause's bit is set in medeleg (exceptions) or mideleg (interrupts);
/// otherwise to M-mode. The interrupted pc, the cause and the value go to
/// sepc/scause/stval (or the M versions), the status bits are stacked, and
/// the pc jumps to stvec/mtvec (vectored for interrupts when its low bit is set).
pub fn handle_trap(cpu: &mut Cpu, trap: Trap)
    ensures
        trap_taken(*old(cpu), *final(cpu), trap),
{
    let cause = trap.code();
    let tval = trap.value();
    let is_interrupt = trap.is_interrupt();
    let deleg = if is_interrupt { cpu.csr.mideleg } else { cpu.csr.medeleg };
    let bit = cause & 0x7FFF_FFFF;
    let delegate_to_s = cpu.priv_level != PrivilegeLevel::Machine && bit < 32 && (deleg >> bit) & 1 == 1;
    if delegate_to_s {
        cpu.csr.sepc = cpu.pc;
        cpu.csr.scause = cause;
        cpu.csr.stval = tval;
        let mut status = cpu.csr.mstatus & !(MSTATUS_SIE | MSTATUS_SPIE | MSTATUS_SPP);
        if (cpu.csr.mstatus & MSTATUS_SIE) != 0 {
            status = status | MSTATUS_SPIE;
        }
        if cpu.priv_level == PrivilegeLevel::Supervisor {
            status = status | MSTATUS_SPP;
        }
        cpu.csr.mstatus = status;
        cpu.priv_level = PrivilegeLevel::Supervisor;
        let vector = if is_interrupt && (cpu.csr.stvec & 1) != 0 {
            (cpu.csr.stvec & !1u32).wrapping_add(bit.wrapping_mul(4))
        } else {
            cpu.csr.stvec & !1u32
        };
        cpu.pc = vector;
    } else {
        cpu.csr.mepc = cpu.pc;
        cpu.csr.mcause = cause;
        cpu.csr.mtval = tval;
        let mut status = cpu.csr.mstatus & !(MSTATUS_MIE | MSTATUS_MPIE | MSTATUS_MPP);
        if (cpu.csr.mstatus & MSTATUS_MIE) != 0 {
            status = status | MSTATUS_MPIE;
        }
        status = status | (cpu.priv_level.bits() << 11u32);
        cpu.csr.mstatus = status;
        cpu.priv_level = PrivilegeLevel::Machine;
        let vector = if is_interrupt && (cpu.csr.mtvec & 1) != 0 {
            (cpu.csr.mtvec & !1u32).wrapping_add(bit.wrapping_mul(4))
        } else {
            cpu.csr.mtvec & !1u32
        };
        cpu.pc = vector;
    }
    cpu.wfi = false;
}

/// mstatus after MRET: MIE := MPIE, MPIE := 1, MPP := U.
pub open spec fn spec_status_mret(s: u32) -> u32 {
    let t = s & !(MSTATUS_MIE | MSTATUS_MPP);
    (if s & MSTATUS_MPIE != 0 { t | MSTATUS_MIE } else { t }) | MSTATUS_MPIE
}

/// mstatus after SRET: SIE := SPIE, SPIE := 1, SPP := U.
pub open spec fn spec_status_sret(s: u32) -> u32 {
    let t = s & !(MSTATUS_SIE | MSTATUS_SPP);
    (if s & MSTATUS_SPIE != 0 { t | MSTATUS_SIE } else { t }) | MSTATUS_SPIE
}

/// Handle MRET: return to the privilege in MPP at mepc.
pub fn mret(cpu: &mut Cpu)
    ensures
        final(cpu).priv_level == priv_from_bits((old(cpu).csr.mstatus >> 11u32) & 3),
        final(cpu).csr == (Csr { mstatus: spec_status_mret(old(cpu).csr.mstatus), ..old(cpu).csr }),
        final(cpu).pc == old(cpu).csr.mepc,
        final(cpu).regs == old(cpu).regs,
        final(cpu).fpu == old(cpu).fpu,
        final(cpu).mmu == old(cpu).mmu,
        final(cpu).icache == old(cpu).icache,
        final(cpu).wfi == old(cpu).wfi,
        final(cpu).reservation == old(cpu).reservation,
        final(cpu).instruction_count == old(cpu).instruction_count,
        final(cpu).cache_invalidation_pending == old(cpu).cache_invalidation_pending,
        final(cpu).pending_sbi_call == old(cpu).pending_sbi_call,
        final(cpu).last_write_addr == old(cpu).last_write_addr,
        final(cpu).last_write_val == old(cpu).last_write_val,
{
    proof { crate::bits::lemma_u32_shift_mask(); }
    let mpp = (cpu.csr.mstatus >> 11u32) & 3;
    cpu.priv_level = PrivilegeLevel::from_u8(mpp as u8);
    let mut status = cpu.csr.mstatus & !(MSTATUS_MIE | MSTATUS_MPP);
    if (cpu.csr.mstatus & MSTATUS_MPIE) != 0 {
        status = status | MSTATUS_MIE;
    }
    status = status | MSTATUS_MPIE;
    cpu.csr.mstatus = status;
    cpu.pc = cpu.csr.mepc;
}

/// Handle SRET: return to the privilege in SPP at sepc.
pub fn sret(cpu: &mut Cpu)
    ensures
        final(cpu).priv_level == if (old(cpu).csr.mstatus >> 8u32) & 1 == 1 {
            PrivilegeLevel::Supervisor
        } else {
            PrivilegeLevel::User
        },
        final(cpu).csr == (Csr { mstatus: spec_status_sret(old(cpu).csr.mstatus), ..old(cpu).csr }),
        final(cpu).pc == old(cpu).csr.sepc,
        final(cpu).regs == old(cpu).regs,
        final(cpu).fpu == old(cpu).fpu,
        final(cpu).mmu == old(cpu).mmu,
        final(cpu).icache == old(cpu).icache,
        final(cpu).wfi == old(cpu).wfi,
        final(cpu).reservation == old(cpu).reservation,
        final(cpu).instruction_count == old(cpu).instruction_count,
        final(cpu).cache_invalidation_pending == old(cpu).cache_invalidation_pending,
        final(cpu).pending_sbi_call == old(cpu).pending_sbi_call,
        final(cpu).last_write_addr == old(cpu).last_write_addr,
        final(cpu).last_write_val == old(cpu).last_write_val,
{
    let spp = (cpu.csr.mstatus >> 8u32) & 1;
    cpu.priv_level = if spp == 1 { PrivilegeLevel::Supervisor } else { PrivilegeLevel::User };
    let mut status = cpu.csr.mstatus & !(MSTATUS_SIE | MSTATUS_SPP);
    if (cpu.csr.mstatus & MSTATUS_SPIE) != 0 {
        status = status | MSTATUS_SIE;
    }
    status = status | MSTATUS_SPIE;
    cpu.csr.mstatus = status;
    cpu.pc = cpu.csr.sepc;
}

/// A trap taken into M-mode followed by MRET resumes at the interrupted pc,
/// in the interrupted privilege level, with the interrupted MIE bit restored.
pub proof fn lemma_m_trap_then_mret(s: u32, p: PrivilegeLevel)
    ensures
        priv_from_bits((spec_status_m_entry(s, p) >> 11u32) & 3) == p,
        spec_status_mret(spec_status_m_entry(s, p)) & MSTATUS_MIE == s & MSTATUS_MIE,
{
    let e = priv_encoding(p);
    assert(e == 0 || e == 1 || e == 3);
    let u = s & !(MSTATUS_MIE | MSTATUS_MPIE | MSTATUS_MPP);
    let t = spec_status_m_entry(s, p);
    assert(t == (if s & MSTATUS_MIE != 0 { u | MSTATUS_MPIE } else { u }) | (e << 11u32));
    assert((t >> 11u32) & 3 == e && (t & MSTATUS_MPIE != 0 <==> s & MSTATUS_MIE != 0)) by (bit_vector)
        requires
            e <= 3,
            u == s & !(MSTATUS_MIE | MSTATUS_MPIE | MSTATUS_MPP),
            t == (if s & MSTATUS_MIE != 0 { u | MSTATUS_MPIE } else { u }) | (e << 11u32),
    ;
    let v = t & !(MSTATUS_MIE | MSTATUS_MPP);
    assert(((if t & MSTATUS_MPIE != 0 { v | MSTATUS_MIE } else { v }) | MSTATUS_MPIE) & MSTATUS_MIE == s & MSTATUS_MIE)
        by (bit_vector)
        requires
            v == t & !(MSTATUS_MIE | MSTATUS_MPP),
            (t & MSTATUS_MPIE != 0) == (s & MSTATUS_MIE != 0),
    ;
}

/// A trap taken into S-mode from U or S followed by SRET resumes in the
/// interrupted privilege level with the interrupted SIE bit restored.
pub proof fn lemma_s_trap_then_sret(s: u32, p: PrivilegeLevel)
    requires
        p != PrivilegeLevel::Machine,
    ensures
        ((spec_status_s_entry(s, p) >> 8u32) & 1 == 1) == (p == PrivilegeLevel::Supervisor),
        spec_status_sret(spec_status_s_entry(s, p)) & MSTATUS_SIE == s & MSTATUS_SIE,
{
    let u = s & !(MSTATUS_SIE | MSTATUS_SPIE | MSTATUS_SPP);
    let t1 = if s & MSTATUS_SIE != 0 { u | MSTATUS_SPIE } else { u };
    let sup = p == PrivilegeLevel::Supervisor;
    let t = spec_status_s_entry(s, p);
    assert(t == if sup { t1 | MSTATUS_SPP } else { t1 });
    assert(((t >> 8u32) & 1 == 1) == sup && (t & MSTATUS_SPIE != 0 <==> s & MSTATUS_SIE != 0)) by (bit_vector)
        requires
            u == s & !(MSTATUS_SIE | MSTATUS_SPIE | MSTATUS_SPP),
            t1 == (if s & MSTATUS_SIE != 0 { u | MSTATUS_SPIE } else { u }),
            t == (if sup { t1 | MSTATUS_SPP } else { t1 }),
    ;
    let v = t & !(MSTATUS_SIE | MSTATUS_SPP);
    assert(((if t & MSTATUS_SPIE != 0 { v | MSTATUS_SIE } else { v }) | MSTATUS_SPIE) & MSTATUS_SIE == s & MSTATUS_SIE)
        by (bit_vector)
        requires
            v == t & !(MSTATUS_SIE | MSTATUS_SPP),
            (t & MSTATUS_SPIE != 0) == (s & MSTATUS_SIE != 0),
    ;
}

} // verus!
