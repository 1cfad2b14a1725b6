//! Control and Status Registers (RV64).

use vstd::prelude::*;
use crate::cpu::{PrivilegeLevel, priv_encoding};
use crate::cpu::rv32::csr::{csr_min_priv, csr_read_only};

verus! {

// CSR addresses
pub const CSR_FFLAGS: u32 = 0x001;
pub const CSR_FRM: u32 = 0x002;
pub const CSR_FCSR: u32 = 0x003;

// Supervisor CSRs
pub const CSR_SSTATUS: u32 = 0x100;
pub const CSR_SIE: u32 = 0x104;
pub const CSR_STVEC: u32 = 0x105;
pub const CSR_SCOUNTEREN: u32 = 0x106;
pub const CSR_SSCRATCH: u32 = 0x140;
pub const CSR_SEPC: u32 = 0x141;
pub const CSR_SCAUSE: u32 = 0x142;
pub const CSR_STVAL: u32 = 0x143;
pub const CSR_SIP: u32 = 0x144;
pub const CSR_SATP: u32 = 0x180;

// Machine CSRs
pub const CSR_MSTATUS: u32 = 0x300;
pub const CSR_MISA: u32 = 0x301;
pub const CSR_MEDELEG: u32 = 0x302;
pub const CSR_MIDELEG: u32 = 0x303;
pub const CSR_MIE: u32 = 0x304;
pub const CSR_MTVEC: u32 = 0x305;
pub const CSR_MCOUNTEREN: u32 = 0x306;
pub const CSR_MSCRATCH: u32 = 0x340;
pub const CSR_MEPC: u32 = 0x341;
pub const CSR_MCAUSE: u32 = 0x342;
pub const CSR_MTVAL: u32 = 0x343;
pub const CSR_MIP: u32 = 0x344;
pub const CSR_MHARTID: u32 = 0xF14;

// Counter CSRs
pub const CSR_CYCLE: u32 = 0xC00;
pub const CSR_TIME: u32 = 0xC01;
pub const CSR_INSTRET: u32 = 0xC02;
pub const CSR_CYCLEH: u32 = 0xC80;
pub const CSR_TIMEH: u32 = 0xC81;
pub const CSR_INSTRETH: u32 = 0xC82;

// MSTATUS bits
pub const MSTATUS_UIE: u64 = 0x1;
pub const MSTATUS_SIE: u64 = 0x2;
pub const MSTATUS_MIE: u64 = 0x8;
pub const MSTATUS_UPIE: u64 = 0x10;
pub const MSTATUS_SPIE: u64 = 0x20;
pub const MSTATUS_MPIE: u64 = 0x80;
pub const MSTATUS_SPP: u64 = 0x100;
pub const MSTATUS_MPP: u64 = 0x1800;
pub const MSTATUS_FS: u64 = 0x6000;
pub const MSTATUS_XS: u64 = 0x18000;
pub const MSTATUS_MPRV: u64 = 0x20000;
pub const MSTATUS_SUM: u64 = 0x40000;
pub const MSTATUS_MXR: u64 = 0x80000;
pub const MSTATUS_TVM: u64 = 0x100000;
pub const MSTATUS_TW: u64 = 0x200000;
pub const MSTATUS_TSR: u64 = 0x400000;
pub const MSTATUS_SD: u64 = 0x8000_0000_0000_0000;

// MIP/MIE bits
pub const MIP_SSIP: u64 = 0x2;
pub const MIP_MSIP: u64 = 0x8;
pub const MIP_STIP: u64 = 0x20;
pub const MIP_MTIP: u64 = 0x80;
pub const MIP_SEIP: u64 = 0x200;
pub const MIP_MEIP: u64 = 0x800;

/// mstatus bits that a write may set.
pub const MSTATUS_WRITE_MASK: u64 = 0x7E79AA;
/// mstatus bits visible and writable through sstatus.
pub const SSTATUS_WRITE_MASK: u64 = 0xDE122;
/// mstatus bits visible through sstatus.
pub const SSTATUS_READ_MASK: u64 = 0x8000_0000_000D_E122;

/// misa: RV64 with extensions A, B, C, D, F, I, M, S, U.
pub const MISA_RV64: u64 = 0x8000_0000_0004_112F;

/// CSR storage (RV64).
pub struct Csr64 {
    pub mstatus: u64,
    pub misa: u64,
    pub medeleg: u64,
    pub mideleg: u64,
    pub mie: u64,
    pub mtvec: u64,
    pub mcounteren: u64,
    pub mscratch: u64,
    pub mepc: u64,
    pub mcause: u64,
    pub mtval: u64,
    pub mip: u64,
    pub stvec: u64,
    pub scounteren: u64,
    pub sscratch: u64,
    pub sepc: u64,
    pub scause: u64,
    pub stval: u64,
    pub satp: u64,
    pub cycle: u64,
    pub time: u64,
}

impl Csr64 {
    /// The value that a read of `addr` returns when the access is permitted.
    pub open spec fn spec_value(&self, addr: u32) -> u64 {
        if addr == CSR_MSTATUS { self.mstatus }
        else if addr == CSR_MISA { self.misa }
        else if addr == CSR_MEDELEG { self.medeleg }
        else if addr == CSR_MIDELEG { self.mideleg }
        else if addr == CSR_MIE { self.mie }
        else if addr == CSR_MTVEC { self.mtvec }
        else if addr == CSR_MCOUNTEREN { self.mcounteren }
        else if addr == CSR_MSCRATCH { self.mscratch }
        else if addr == CSR_MEPC { self.mepc }
        else if addr == CSR_MCAUSE { self.mcause }
        else if addr == CSR_MTVAL { self.mtval }
        else if addr == CSR_MIP { self.mip }
        else if addr == CSR_SSTATUS { self.mstatus & SSTATUS_READ_MASK }
        else if addr == CSR_SIE { self.mie & self.mideleg }
        else if addr == CSR_STVEC { self.stvec }
        else if addr == CSR_SCOUNTEREN { self.scounteren }
        else if addr == CSR_SSCRATCH { self.sscratch }
        else if addr == CSR_SEPC { self.sepc }
        else if addr == CSR_SCAUSE { self.scause }
        else if addr == CSR_STVAL { self.stval }
        else if addr == CSR_SIP { self.mip & self.mideleg }
        else if addr == CSR_SATP { self.satp }
        else if addr == CSR_CYCLE || addr == CSR_INSTRET { self.cycle }
        else if addr == CSR_TIME { self.time }
        else if addr == CSR_CYCLEH || addr == CSR_INSTRETH { (self.cycle >> 32u64) & 0xFFFF_FFFF }
        else if addr == CSR_TIMEH { (self.time >> 32u64) & 0xFFFF_FFFF }
        else { 0 }
    }

    pub fn new() -> (c: Csr64)
        ensures
            c.mstatus == MSTATUS_FS,
            c.misa == MISA_RV64,
            c.medeleg == 0 && c.mideleg == 0 && c.mie == 0 && c.mip == 0,
            c.mtvec == 0 && c.mepc == 0 && c.mcause == 0 && c.mtval == 0,
            c.mcounteren == 0 && c.mscratch == 0,
            c.stvec == 0 && c.sepc == 0 && c.scause == 0 && c.stval == 0,
            c.scounteren == 0 && c.sscratch == 0 && c.satp == 0,
            c.cycle == 0 && c.time == 0,
    {
        Csr64 {
            mstatus: MSTATUS_FS,
            misa: MISA_RV64,
            medeleg: 0,
            mideleg: 0,
            mie: 0,
            mtvec: 0,
            mcounteren: 0,
            mscratch: 0,
            mepc: 0,
            mcause: 0,
            mtval: 0,
            mip: 0,
            stvec: 0,
            scounteren: 0,
            sscratch: 0,
            sepc: 0,
            scause: 0,
            stval: 0,
            satp: 0,
            cycle: 0,
            time: 0,
        }
    }

    /// Reads CSR `addr` at privilege `priv_level`; `None` when the level is too low.
    pub fn read(&self, addr: u32, priv_level: PrivilegeLevel) -> (r: Option<u64>)
        ensures
            r == if priv_encoding(priv_level) < csr_min_priv(addr) { None } else { Some(self.spec_value(addr)) },
    {
        let min_priv = (addr >> 8u32) & 3;
        if priv_level.bits() < min_priv {
            return None;
        }
        Some(
            if addr == CSR_MSTATUS { self.mstatus }
            else if addr == CSR_MISA { self.misa }
            else if addr == CSR_MEDELEG { self.medeleg }
            else if addr == CSR_MIDELEG { self.mideleg }
            else if addr == CSR_MIE { self.mie }
            else if addr == CSR_MTVEC { self.mtvec }
            else if addr == CSR_MCOUNTEREN { self.mcounteren }
            else if addr == CSR_MSCRATCH { self.mscratch }
            else if addr == CSR_MEPC { self.mepc }
            else if addr == CSR_MCAUSE { self.mcause }
            else if addr == CSR_MTVAL { self.mtval }
            else if addr == CSR_MIP { self.mip }
            else if addr == CSR_SSTATUS { self.mstatus & SSTATUS_READ_MASK }
            else if addr == CSR_SIE { self.mie & self.mideleg }
            else if addr == CSR_STVEC { self.stvec }
            else if addr == CSR_SCOUNTEREN { self.scounteren }
            else if addr == CSR_SSCRATCH { self.sscratch }
            else if addr == CSR_SEPC { self.sepc }
            else if addr == CSR_SCAUSE { self.scause }
            else if addr == CSR_STVAL { self.stval }
            else if addr == CSR_SIP { self.mip & self.mideleg }
            else if addr == CSR_SATP { self.satp }
            else if addr == CSR_CYCLE || addr == CSR_INSTRET { self.cycle }
            else if addr == CSR_TIME { self.time }
            else if addr == CSR_CYCLEH || addr == CSR_INSTRETH { (self.cycle >> 32u64) & 0xFFFF_FFFF }
            else if addr == CSR_TIMEH { (self.time >> 32u64) & 0xFFFF_FFFF }
            else { 0 }
        )
    }

    /// Is `addr` a CSR that `write` accepts?
    pub open spec fn spec_writable(addr: u32) -> bool {
        addr == CSR_MSTATUS || addr == CSR_MISA || addr == CSR_MEDELEG || addr == CSR_MIDELEG
            || addr == CSR_MIE || addr == CSR_MTVEC || addr == CSR_MCOUNTEREN || addr == CSR_MSCRATCH
            || addr == CSR_MEPC || addr == CSR_MCAUSE || addr == CSR_MTVAL || addr == CSR_MIP
            || addr == CSR_SSTATUS || addr == CSR_SIE || addr == CSR_STVEC || addr == CSR_SCOUNTEREN
            || addr == CSR_SSCRATCH || addr == CSR_SEPC || addr == CSR_SCAUSE || addr == CSR_STVAL
            || addr == CSR_SIP || addr == CSR_SATP
    }

    /// The register file after a permitted write of `value` to `addr`.
    pub open spec fn spec_after_write(self, addr: u32, value: u64) -> Csr64 {
        if addr == CSR_MSTATUS { Csr64 { mstatus: value & MSTATUS_WRITE_MASK, ..self } }
        else if addr == CSR_MEDELEG { Csr64 { medeleg: value, ..self } }
        else if addr == CSR_MIDELEG { Csr64 { mideleg: value, ..self } }
        else if addr == CSR_MIE { Csr64 { mie: value, ..self } }
        else if addr == CSR_MTVEC { Csr64 { mtvec: value & !3u64, ..self } }
        else if addr == CSR_MCOUNTEREN { Csr64 { mcounteren: value, ..self } }
        else if addr == CSR_MSCRATCH { Csr64 { mscratch: value, ..self } }
        else if addr == CSR_MEPC { Csr64 { mepc: value & !1u64, ..self } }
        else if addr == CSR_MCAUSE { Csr64 { mcause: value, ..self } }
        else if addr == CSR_MTVAL { Csr64 { mtval: value, ..self } }
        else if addr == CSR_MIP {
            Csr64 { mip: (self.mip & !(MIP_SSIP | MIP_STIP)) | (value & (MIP_SSIP | MIP_STIP)), ..self }
        }
        else if addr == CSR_SSTATUS {
            Csr64 { mstatus: (self.mstatus & !SSTATUS_WRITE_MASK) | (value & SSTATUS_WRITE_MASK), ..self }
        }
        else if addr == CSR_SIE { Csr64 { mie: (self.mie & !self.mideleg) | (value & self.mideleg), ..self } }
        else if addr == CSR_STVEC { Csr64 { stvec: value & !3u64, ..self } }
        else if addr == CSR_SCOUNTEREN { Csr64 { scounteren: value, ..self } }
        else if addr == CSR_SSCRATCH { Csr64 { sscratch: value, ..self } }
        else if addr == CSR_SEPC { Csr64 { sepc: value & !1u64, ..self } }
        else if addr == CSR_SCAUSE { Csr64 { scause: value, ..self } }
        else if addr == CSR_STVAL { Csr64 { stval: value, ..self } }
        else if addr == CSR_SIP {
            Csr64 { mip: (self.mip & !(MIP_SSIP & self.mideleg)) | (value & (MIP_SSIP & self.mideleg)), ..self }
        }
        else if addr == CSR_SATP { Csr64 { satp: value, ..self } }
        else { self }
    }

    /// Writes CSR `addr` at privilege `priv_level`. Returns false, changing
    /// nothing, when the level is too low, the CSR is read-only or unknown.
    pub fn write(&mut self, addr: u32, value: u64, priv_level: PrivilegeLevel) -> (ok: bool)
        ensures
            ok == (priv_encoding(priv_level) >= csr_min_priv(addr) && !csr_read_only(addr)
                && Self::spec_writable(addr)),
            ok ==> *final(self) == old(self).spec_after_write(addr, value),
            !ok ==> *final(self) == *old(self),
    {
        let min_priv = (addr >> 8u32) & 3;
        if priv_level.bits() < min_priv {
            return false;
        }
        if (addr >> 10u32) & 3 == 3 {
            return false;
        }
        if addr == CSR_MSTATUS { self.mstatus = value & MSTATUS_WRITE_MASK; }
        else if addr == CSR_MISA { }
        else if addr == CSR_MEDELEG { self.medeleg = value; }
        else if addr == CSR_MIDELEG { self.mideleg = value; }
        else if addr == CSR_MIE { self.mie = value; }
        else if addr == CSR_MTVEC { self.mtvec = value & !3u64; }
        else if addr == CSR_MCOUNTEREN { self.mcounteren = value; }
        else if addr == CSR_MSCRATCH { self.mscratch = value; }
        else if addr == CSR_MEPC { self.mepc = value & !1u64; }
        else if addr == CSR_MCAUSE { self.mcause = value; }
        else if addr == CSR_MTVAL { self.mtval = value; }
        else if addr == CSR_MIP {
            let mask = MIP_SSIP | MIP_STIP;
            self.mip = (self.mip & !mask) | (value & mask);
        }
        else if addr == CSR_SSTATUS {
            self.mstatus = (self.mstatus & !SSTATUS_WRITE_MASK) | (value & SSTATUS_WRITE_MASK);
        }
        else if addr == CSR_SIE { self.mie = (self.mie & !self.mideleg) | (value & self.mideleg); }
        else if addr == CSR_STVEC { self.stvec = value & !3u64; }
        else if addr == CSR_SCOUNTEREN { self.scounteren = value; }
        else if addr == CSR_SSCRATCH { self.sscratch = value; }
        else if addr == CSR_SEPC { self.sepc = value & !1u64; }
        else if addr == CSR_SCAUSE { self.scause = value; }
        else if addr == CSR_STVAL { self.stval = value; }
        else if addr == CSR_SIP {
            let mask = MIP_SSIP & self.mideleg;
            self.mip = (self.mip & !mask) | (value & mask);
        }
        else if addr == CSR_SATP { self.satp = value; }
        else { return false; }
        true
    }

    /// Reset: all registers zero except mtvec, which points at the SBI stub.
    pub fn reset(&mut self)
        ensures
            *final(self) == (Csr64 {
                mstatus: 0, medeleg: 0, mideleg: 0, mie: 0, mtvec: 0x1080, mcounteren: 0,
                mscratch: 0, mepc: 0, mcause: 0, mtval: 0, mip: 0, stvec: 0, scounteren: 0,
                sscratch: 0, sepc: 0, scause: 0, stval: 0, satp: 0, cycle: 0, time: 0,
                misa: old(self).misa,
            }),
    {
        self.mstatus = 0;
        self.medeleg = 0;
        self.mideleg = 0;
        self.mie = 0;
        self.mtvec = 0x1080;
        self.mcounteren = 0;
        self.mscratch = 0;
        self.mepc = 0;
        self.mcause = 0;
        self.mtval = 0;
        self.mip = 0;
        self.stvec = 0;
        self.scounteren = 0;
        self.sscratch = 0;
        self.sepc = 0;
        self.scause = 0;
        self.stval = 0;
        self.satp = 0;
        self.cycle = 0;
        self.time = 0;
    }
}

} // verus!
