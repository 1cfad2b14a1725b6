//! Trap handling (exceptions and interrupts) for the 64-bit core.

use vstd::prelude::*;
use crate::cpu::{PrivilegeLevel, priv_encoding, priv_from_bits};
use super::Cpu64;
use super::csr::{Csr64, MSTATUS_SIE, MSTATUS_MIE, MSTATUS_SPIE, MSTATUS_MPIE, MSTATUS_SPP, MSTATUS_MPP,
    MIP_SSIP, MIP_MSIP, MIP_STIP, MIP_MTIP, MIP_SEIP, MIP_MEIP};

verus! {

/// Exception/interrupt cause.
#[derive(Debug, Clone, Copy, PartialEq, Eq, Structural)]
pub enum Trap64 {
    // Exceptions (synchronous)
    InstructionAddressMisaligned(u64),
    InstructionAccessFault(u64),
    IllegalInstruction(u64),
    Breakpoint(u64),
    LoadAddressMisaligned(u64),
    LoadAccessFault(u64),
    StoreAddressMisaligned(u64),
    StoreAccessFault(u64),
    EnvironmentCallFromU,
    EnvironmentCallFromS,
    EnvironmentCallFromM,
    InstructionPageFault(u64),
    LoadPageFault(u64),
    StorePageFault(u64),
    // Interrupts (asynchronous)
    UserSoftwareInterrupt,
    SupervisorSoftwareInterrupt,
    MachineSoftwareInterrupt,
    UserTimerInterrupt,
    SupervisorTimerInterrupt,
    MachineTimerInterrupt,
    UserExternalInterrupt,
    SupervisorExternalInterrupt,
    MachineExternalInterrupt,
}

/// The mcause/scause value of a trap: the exception code, with bit 63 set for interrupts.
pub open spec fn trap_code64(t: Trap64) -> u64 {
    match t {
        Trap64::InstructionAddressMisaligned(_) => 0,
        Trap64::InstructionAccessFault(_) => 1,
        Trap64::IllegalInstruction(_) => 2,
        Trap64::Breakpoint(_) => 3,
        Trap64::LoadAddressMisaligned(_) => 4,
        Trap64::LoadAccessFault(_) => 5,
        Trap64::StoreAddressMisaligned(_) => 6,
        Trap64::StoreAccessFault(_) => 7,
        Trap64::EnvironmentCallFromU => 8,
        Trap64::EnvironmentCallFromS => 9,
        Trap64::EnvironmentCallFromM => 11,
        Trap64::InstructionPageFault(_) => 12,
        Trap64::LoadPageFault(_) => 13,
        Trap64::StorePageFault(_) => 15,
        Trap64::UserSoftwareInterrupt => 0x8000_0000_0000_0000,
        Trap64::SupervisorSoftwareInterrupt => 0x8000_0000_0000_0001,
        Trap64::MachineSoftwareInterrupt => 0x8000_0000_0000_0003,
        Trap64::UserTimerInterrupt => 0x8000_0000_0000_0004,
        Trap64::SupervisorTimerInterrupt => 0x8000_0000_0000_0005,
        Trap64::MachineTimerInterrupt => 0x8000_0000_0000_0007,
        Trap64::UserExternalInterrupt => 0x8000_0000_0000_0008,
        Trap64::SupervisorExternalInterrupt => 0x8000_0000_0000_0009,
        Trap64::MachineExternalInterrupt => 0x8000_0000_0000_000b,
    }
}

/// The mtval/stval value of a trap: the faulting address or instruction, else 0.
pub open spec fn trap_value64(t: Trap64) -> u64 {
    match t {
        Trap64::InstructionAddressMisaligned(v) => v,
        Trap64::InstructionAccessFault(v) => v,
        Trap64::IllegalInstruction(v) => v,
        Trap64::Breakpoint(v) => v,
        Trap64::LoadAddressMisaligned(v) => v,
        Trap64::LoadAccessFault(v) => v,
        Trap64::StoreAddressMisaligned(v) => v,
        Trap64::StoreAccessFault(v) => v,
        Trap64::InstructionPageFault(v) => v,
        Trap64::LoadPageFault(v) => v,
        Trap64::StorePageFault(v) => v,
        _ => 0,
    }
}

/// The trap that an exception cause code and value stand for (unknown codes are illegal instructions).
pub open spec fn trap_from_cause64(cause: u64, tval: u64) -> Trap64 {
    if cause == 0 { Trap64::InstructionAddressMisaligned(tval) }
    else if cause == 1 { Trap64::InstructionAccessFault(tval) }
    else if cause == 2 { Trap64::IllegalInstruction(tval) }
    else if cause == 3 { Trap64::Breakpoint(tval) }
    else if cause == 4 { Trap64::LoadAddressMisaligned(tval) }
    else if cause == 5 { Trap64::LoadAccessFault(tval) }
    else if cause == 6 { Trap64::StoreAddressMisaligned(tval) }
    else if cause == 7 { Trap64::StoreAccessFault(tval) }
    else if cause == 12 { Trap64::InstructionPageFault(tval) }
    else if cause == 13 { Trap64::LoadPageFault(tval) }
    else if cause == 15 { Trap64::StorePageFault(tval) }
    else { Trap64::IllegalInstruction(tval) }
}

impl Trap64 {
    /// Get the cause code for mcause/scause.
    pub fn code(&self) -> (r: u64)
        ensures
            r == trap_code64(*self),
    {
        match self {
            Trap64::InstructionAddressMisaligned(_) => 0,
            Trap64::InstructionAccessFault(_) => 1,
            Trap64::IllegalInstruction(_) => 2,
            Trap64::Breakpoint(_) => 3,
            Trap64::LoadAddressMisaligned(_) => 4,
            Trap64::LoadAccessFault(_) => 5,
            Trap64::StoreAddressMisaligned(_) => 6,
            Trap64::StoreAccessFault(_) => 7,
            Trap64::EnvironmentCallFromU => 8,
            Trap64::EnvironmentCallFromS => 9,
            Trap64::EnvironmentCallFromM => 11,
            Trap64::InstructionPageFault(_) => 12,
            Trap64::LoadPageFault(_) => 13,
            Trap64::StorePageFault(_) => 15,
            Trap64::UserSoftwareInterrupt => 0x8000_0000_0000_0000,
            Trap64::SupervisorSoftwareInterrupt => 0x8000_0000_0000_0001,
            Trap64::MachineSoftwareInterrupt => 0x8000_0000_0000_0003,
            Trap64::UserTimerInterrupt => 0x8000_0000_0000_0004,
            Trap64::SupervisorTimerInterrupt => 0x8000_0000_0000_0005,
            Trap64::MachineTimerInterrupt => 0x8000_0000_0000_0007,
            Trap64::UserExternalInterrupt => 0x8000_0000_0000_0008,
            Trap64::SupervisorExternalInterrupt => 0x8000_0000_0000_0009,
            Trap64::MachineExternalInterrupt => 0x8000_0000_0000_000b,
        }
    }

    /// Get the trap value (bad address, instruction, etc).
    pub fn value(&self) -> (r: u64)
        ensures
            r == trap_value64(*self),
    {
        match self {
            Trap64::InstructionAddressMisaligned(v) => *v,
            Trap64::InstructionAccessFault(v) => *v,
            Trap64::IllegalInstruction(v) => *v,
            Trap64::Breakpoint(v) => *v,
            Trap64::LoadAddressMisaligned(v) => *v,
            Trap64::LoadAccessFault(v) => *v,
            Trap64::StoreAddressMisaligned(v) => *v,
            Trap64::StoreAccessFault(v) => *v,
            Trap64::InstructionPageFault(v) => *v,
            Trap64::LoadPageFault(v) => *v,
            Trap64::StorePageFault(v) => *v,
            _ => 0,
        }
    }

    /// Is this an interrupt (vs exception)?
    pub fn is_interrupt(&self) -> (r: bool)
        ensures
            r == (trap_code64(*self) >= 0x8000_0000_0000_0000),
    {
        self.code() >= 0x8000_0000_0000_0000
    }

    /// Create trap from cause code and value.
    pub fn from_cause(cause: u64, tval: u64) -> (t: Trap64)
        ensures
            t == trap_from_cause64(cause, tval),
    {
        match cause {
            0 => Trap64::InstructionAddressMisaligned(tval),
            1 => Trap64::InstructionAccessFault(tval),
            2 => Trap64::IllegalInstruction(tval),
            3 => Trap64::Breakpoint(tval),
            4 => Trap64::LoadAddressMisaligned(tval),
            5 => Trap64::LoadAccessFault(tval),
            6 => Trap64::StoreAddressMisaligned(tval),
            7 => Trap64::StoreAccessFault(tval),
            12 => Trap64::InstructionPageFault(tval),
            13 => Trap64::LoadPageFault(tval),
            15 => Trap64::StorePageFault(tval),
            _ => Trap64::IllegalInstruction(tval),
        }
    }
}

/// The interrupt that should be taken, if any, for pending bits `mip & mie`,
/// delegation mask `mideleg`, status `mstatus` and current privilege.
/// Machine interrupts (MEI > MSI > MTI) come before supervisor ones (SEI > SSI > STI).
pub open spec fn spec_pending_interrupt64(mip: u64, mie: u64, mideleg: u64, mstatus: u64, p: PrivilegeLevel) -> Option<Trap64> {
    let pending = mip & mie;
    let m_enabled = p != PrivilegeLevel::Machine || mstatus & MSTATUS_MIE != 0;
    let s_enabled = p == PrivilegeLevel::User || (p == PrivilegeLevel::Supervisor && mstatus & MSTATUS_SIE != 0);
    let m_int = pending & !mideleg;
    let s_int = pending & mideleg;
    if pending == 0 {
        None
    } else if m_enabled && m_int & MIP_MEIP != 0 {
        Some(Trap64::MachineExternalInterrupt)
    } else if m_enabled && m_int & MIP_MSIP != 0 {
        Some(Trap64::MachineSoftwareInterrupt)
    } else if m_enabled && m_int & MIP_MTIP != 0 {
        Some(Trap64::MachineTimerInterrupt)
    } else if s_enabled && s_int & MIP_SEIP != 0 {
        Some(Trap64::SupervisorExternalInterrupt)
    } else if s_enabled && s_int & MIP_SSIP != 0 {
        Some(Trap64::SupervisorSoftwareInterrupt)
    } else if s_enabled && s_int & MIP_STIP != 0 {
        Some(Trap64::SupervisorTimerInterrupt)
    } else {
        None
    }
}

/// `0` has no bits set.
proof fn lemma_zero_and64()
    by (bit_vector)
    ensures
        forall|x: u64, y: u64| #[trigger] ((0u64 & x) & y) == 0u64,
{
}

/// Interrupt `bit` can be taken now as a machine-level (undelegated) interrupt.
pub open spec fn takeable_m64(mip: u64, mie: u64, mideleg: u64, mstatus: u64, p: PrivilegeLevel, bit: u64) -> bool {
    (mip & mie) & !mideleg & bit != 0 && (p != PrivilegeLevel::Machine || mstatus & 0x8 != 0)
}

/// Interrupt `bit` can be taken now as a delegated supervisor interrupt.
pub open spec fn takeable_s64(mip: u64, mie: u64, mideleg: u64, mstatus: u64, p: PrivilegeLevel, bit: u64) -> bool {
    (mip & mie) & mideleg & bit != 0
        && (p == PrivilegeLevel::User || (p == PrivilegeLevel::Supervisor && mstatus & 0x2 != 0))
}

/// The interrupt taken: whenever one of the six standard interrupts (MEI
/// 0x800, MSI 0x8, MTI 0x80, SEI 0x200, SSI 0x2, STI 0x20) can be taken, one
/// is; the one returned can be taken, and is the one its code names; a
/// machine-level interrupt that can be taken goes before any delegated one.
pub proof fn lemma_interrupt_taken64(mip: u64, mie: u64, mideleg: u64, mstatus: u64, p: PrivilegeLevel)
    ensures
        ({
            let r = spec_pending_interrupt64(mip, mie, mideleg, mstatus, p);
            &&& (takeable_m64(mip, mie, mideleg, mstatus, p, 0x800) || takeable_m64(mip, mie, mideleg, mstatus, p, 0x8)
                || takeable_m64(mip, mie, mideleg, mstatus, p, 0x80) || takeable_s64(mip, mie, mideleg, mstatus, p, 0x200)
                || takeable_s64(mip, mie, mideleg, mstatus, p, 0x2) || takeable_s64(mip, mie, mideleg, mstatus, p, 0x20))
                ==> r is Some
            &&& match r {
                Some(Trap64::MachineExternalInterrupt) => takeable_m64(mip, mie, mideleg, mstatus, p, 0x800),
                Some(Trap64::MachineSoftwareInterrupt) => takeable_m64(mip, mie, mideleg, mstatus, p, 0x8),
                Some(Trap64::MachineTimerInterrupt) => takeable_m64(mip, mie, mideleg, mstatus, p, 0x80),
                Some(Trap64::SupervisorExternalInterrupt) => takeable_s64(mip, mie, mideleg, mstatus, p, 0x200),
                Some(Trap64::SupervisorSoftwareInterrupt) => takeable_s64(mip, mie, mideleg, mstatus, p, 0x2),
                Some(Trap64::SupervisorTimerInterrupt) => takeable_s64(mip, mie, mideleg, mstatus, p, 0x20),
                Some(_) => false,
                None => true,
            }
            &&& (takeable_m64(mip, mie, mideleg, mstatus, p, 0x800) || takeable_m64(mip, mie, mideleg, mstatus, p, 0x8)
                || takeable_m64(mip, mie, mideleg, mstatus, p, 0x80))
                ==> (r == Some(Trap64::MachineExternalInterrupt) || r == Some(Trap64::MachineSoftwareInterrupt)
                    || r == Some(Trap64::MachineTimerInterrupt))
        }),
{
    lemma_zero_and64();
}

/// Check for pending interrupts.
pub fn check_pending_interrupts(cpu: &Cpu64) -> (r: Option<Trap64>)
    ensures
        r == spec_pending_interrupt64(cpu.csr.mip, cpu.csr.mie, cpu.csr.mideleg, cpu.csr.mstatus, cpu.priv_level),
{
    let pending = cpu.csr.mip & cpu.csr.mie;
    if pending == 0 {
        return None;
    }
    let mie_enabled = (cpu.csr.mstatus & MSTATUS_MIE) != 0;
    let sie_enabled = (cpu.csr.mstatus & MSTATUS_SIE) != 0;
    let m_enabled = cpu.priv_level != PrivilegeLevel::Machine || mie_enabled;
    let s_enabled = cpu.priv_level == PrivilegeLevel::User
        || (cpu.priv_level == PrivilegeLevel::Supervisor && sie_enabled);
    let m_interrupts = pending & !cpu.csr.mideleg;
    if m_enabled {
        if m_interrupts & MIP_MEIP != 0 {
            return Some(Trap64::MachineExternalInterrupt);
        }
        if m_interrupts & MIP_MSIP != 0 {
            return Some(Trap64::MachineSoftwareInterrupt);
        }
        if m_interrupts & MIP_MTIP != 0 {
            return Some(Trap64::MachineTimerInterrupt);
        }
    }
    let s_interrupts = pending & cpu.csr.mideleg;
    if s_enabled {
        if s_interrupts & MIP_SEIP != 0 {
            return Some(Trap64::SupervisorExternalInterrupt);
        }
        if s_interrupts & MIP_SSIP != 0 {
            return Some(Trap64::SupervisorSoftwareInterrupt);
        }
        if s_interrupts & MIP_STIP != 0 {
            return Some(Trap64::SupervisorTimerInterrupt);
        }
    }
    None
}

/// Is a trap with cause `cause` delegated to S-mode from privilege `p`?
pub open spec fn spec_delegated64(cause: u64, is_interrupt: bool, medeleg: u64, mideleg: u64, p: PrivilegeLevel) -> bool {
    let deleg = if is_interrupt { mideleg } else { medeleg };
    let bit = cause & 0x7FFF_FFFF_FFFF_FFFF;
    p != PrivilegeLevel::Machine && bit < 64 && deleg & (1u64 << bit) != 0
}

/// mstatus after entering S-mode from privilege `p`: SPIE := SIE, SPP := (p == S), SIE := 0.
pub open spec fn spec_status_s_entry64(s: u64, p: PrivilegeLevel) -> u64 {
    let t = s & !(MSTATUS_SIE | MSTATUS_SPIE | MSTATUS_SPP);
    let t1 = if s & MSTATUS_SIE != 0 { t | MSTATUS_SPIE } else { t };
    if p == PrivilegeLevel::Supervisor { t1 | MSTATUS_SPP } else { t1 }
}

/// mstatus after entering M-mode from privilege `p`: MPIE := MIE, MPP := p, MIE := 0.
pub open spec fn spec_status_m_entry64(s: u64, p: PrivilegeLevel) -> u64 {
    let t = s & !(MSTATUS_MIE | MSTATUS_MPIE | MSTATUS_MPP);
    (if s & MSTATUS_MIE != 0 { t | MSTATUS_MPIE } else { t }) | ((priv_encoding(p) as u64) << 11u64)
}

/// The hart `c` after taking `trap` from `o`: to S-mode when delegated from
/// below Machine, else to M-mode, with the interrupted pc, the cause and the
/// value saved, the status bits stacked and the pc at stvec/mtvec; nothing
/// else changes.
pub open spec fn trap_taken64(o: Cpu64, c: Cpu64, trap: Trap64) -> bool {
    let cause = trap_code64(trap);
    let is_int = cause >= 0x8000_0000_0000_0000;
    &&& if spec_delegated64(cause, is_int, o.csr.medeleg, o.csr.mideleg, o.priv_level) {
        &&& c.csr == (Csr64 {
                sepc: o.pc,
                scause: cause,
                stval: trap_value64(trap),
                mstatus: spec_status_s_entry64(o.csr.mstatus, o.priv_level),
                ..o.csr
            })
        &&& c.priv_level == PrivilegeLevel::Supervisor
        &&& c.pc == o.csr.stvec
    } else {
        &&& c.csr == (Csr64 {
                mepc: o.pc,
                mcause: cause,
                mtval: trap_value64(trap),
                mstatus: spec_status_m_entry64(o.csr.mstatus, o.priv_level),
                ..o.csr
            })
        &&& c.priv_level == PrivilegeLevel::Machine
        &&& c.pc == o.csr.mtvec
    }
    &&& c.wfi == o.wfi
    &&& c.regs == o.regs
    &&& c.fpu == o.fpu
    &&& c.mmu == o.mmu
    &&& c.reservation == o.reservation
    &&& c.instruction_count == o.instruction_count
    &&& c.last_write_addr == o.last_write_addr
    &&& c.last_write_val == o.last_write_val
}

/// Handle a trap (exception or interrupt).
///
/// The trap goes to S-mode when the current level is below Machine and the
/// cause's bit is set in medeleg (exceptions) or mideleg (interrupts);
/// otherwise to M-mode. The interrupted pc, the cause and the value go to
/// sepc/scause/stval (or the M versions), the status bits are stacked, and
/// the pc jumps to stvec (or mtvec).
pub fn handle_trap(cpu: &mut Cpu64, trap: Trap64)
    ensures
        trap_taken64(*old(cpu), *final(cpu), trap),
{
    let cause = trap.code();
    let tval = trap.value();
    let is_interrupt = trap.is_interrupt();
    let deleg = if is_interrupt { cpu.csr.mideleg } else { cpu.csr.medeleg };
    let bit = cause & 0x7FFF_FFFF_FFFF_FFFF;
    let delegate_to_s = cpu.priv_level != PrivilegeLevel::Machine && bit < 64 && (deleg & (1u64 << bit)) != 0;
    if delegate_to_s {
        cpu.csr.sepc = cpu.pc;
        cpu.csr.scause = cause;
        cpu.csr.stval = tval;
        let mut status = cpu.csr.mstatus & !(MSTATUS_SIE | MSTATUS_SPIE | MSTATUS_SPP);
        if (cpu.csr.mstatus & MSTATUS_SIE) != 0 {
            status = status | MSTATUS_SPIE;
        }
        if cpu.priv_level == PrivilegeLevel::Supervisor {
            status = status | MSTATUS_SPP;
        }
        cpu.csr.mstatus = status;
        cpu.priv_level = PrivilegeLevel::Supervisor;
        cpu.pc = cpu.csr.stvec;
    } else {
        cpu.csr.mepc = cpu.pc;
        cpu.csr.mcause = cause;
        cpu.csr.mtval = tval;
        let mut status = cpu.csr.mstatus & !(MSTATUS_MIE | MSTATUS_MPIE | MSTATUS_MPP);
        if (cpu.csr.mstatus & MSTATUS_MIE) != 0 {
            status = status | MSTATUS_MPIE;
        }
        status = status | ((cpu.priv_level.bits() as u64) << 11u64);
        cpu.csr.mstatus = status;
        cpu.priv_level = PrivilegeLevel::Machine;
        cpu.pc = cpu.csr.mtvec;
    }
}

/// mstatus after MRET: MIE := MPIE, MPIE := 1, MPP := U.
pub open spec fn spec_status_mret64(s: u64) -> u64 {
    let t = s & !(MSTATUS_MIE | MSTATUS_MPP);
    (if s & MSTATUS_MPIE != 0 { t | MSTATUS_MIE } else { t }) | MSTATUS_MPIE
}

/// mstatus after SRET: SIE := SPIE, SPIE := 1, SPP := U.
pub open spec fn spec_status_sret64(s: u64) -> u64 {
    let t = s & !(MSTATUS_SIE | MSTATUS_SPP);
    (if s & MSTATUS_SPIE != 0 { t | MSTATUS_SIE } else { t }) | MSTATUS_SPIE
}

/// Handle MRET: return to the privilege in MPP at mepc.
pub fn mret(cpu: &mut Cpu64)
    ensures
        final(cpu).priv_level == priv_from_bits(((old(cpu).csr.mstatus >> 11u64) % 4) as u32),
        final(cpu).csr == (Csr64 { mstatus: spec_status_mret64(old(cpu).csr.mstatus), ..old(cpu).csr }),
        final(cpu).pc == old(cpu).csr.mepc,
        final(cpu).regs == old(cpu).regs,
        final(cpu).fpu == old(cpu).fpu,
        final(cpu).mmu == old(cpu).mmu,
        final(cpu).wfi == old(cpu).wfi,
        final(cpu).reservation == old(cpu).reservation,
        final(cpu).instruction_count == old(cpu).instruction_count,
        final(cpu).last_write_addr == old(cpu).last_write_addr,
        final(cpu).last_write_val == old(cpu).last_write_val,
{
    let mpp = (cpu.csr.mstatus >> 11u64) % 4;
    cpu.priv_level = PrivilegeLevel::from_u8(mpp as u8);
    let mut status = cpu.csr.mstatus & !(MSTATUS_MIE | MSTATUS_MPP);
    if (cpu.csr.mstatus & MSTATUS_MPIE) != 0 {
        status = status | MSTATUS_MIE;
    }
    status = status | MSTATUS_MPIE;
    cpu.csr.mstatus = status;
    cpu.pc = cpu.csr.mepc;
}

/// Handle SRET: return to the privilege in SPP at sepc.
pub fn sret(cpu: &mut Cpu64)
    ensures
        final(cpu).priv_level == if (old(cpu).csr.mstatus >> 8u64) & 1 == 1 {
            PrivilegeLevel::Supervisor
        } else {
            PrivilegeLevel::User
        },
        final(cpu).csr == (Csr64 { mstatus: spec_status_sret64(old(cpu).csr.mstatus), ..old(cpu).csr }),
        final(cpu).pc == old(cpu).csr.sepc,
        final(cpu).regs == old(cpu).regs,
        final(cpu).fpu == old(cpu).fpu,
        final(cpu).mmu == old(cpu).mmu,
        final(cpu).wfi == old(cpu).wfi,
        final(cpu).reservation == old(cpu).reservation,
        final(cpu).instruction_count == old(cpu).instruction_count,
        final(cpu).last_write_addr == old(cpu).last_write_addr,
        final(cpu).last_write_val == old(cpu).last_write_val,
{
    let spp = (cpu.csr.mstatus >> 8u64) & 1;
    cpu.priv_level = if spp == 1 { PrivilegeLevel::Supervisor } else { PrivilegeLevel::User };
    let mut status = cpu.csr.mstatus & !(MSTATUS_SIE | MSTATUS_SPP);
    if (cpu.csr.mstatus & MSTATUS_SPIE) != 0 {
        status = status | MSTATUS_SIE;
    }
    status = status | MSTATUS_SPIE;
    cpu.csr.mstatus = status;
    cpu.pc = cpu.csr.sepc;
}

} // verus!
