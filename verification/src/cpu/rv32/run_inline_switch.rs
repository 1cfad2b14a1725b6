//! The inline execution loop: the common integer, load and store
//! instructions are executed directly against the machine's bus, the timer
//! and interrupt lines are refreshed every 64 cycles, and everything else
//! goes through the CPU's full step; SBI calls are answered inline.

use vstd::prelude::*;
use crate::memory::{Memory, Bus, DRAM_BASE, lemma_le_sums, lemma_write_one};
use crate::devices::{Uart, Clint, Plic, Virtio9p};
use crate::devices::virtio_9p::p9_inv;
use crate::cpu::PrivilegeLevel;
use crate::cpu::fpu::FloatArith;
use crate::cpu::decode::{imm_i, imm_s, imm_b, imm_u, imm_j, spec_imm_s, spec_imm_i,
    OP_LUI, OP_AUIPC, OP_JAL, OP_JALR, OP_BRANCH, OP_LOAD, OP_STORE, OP_OP_IMM, OP_OP, OP_MISC_MEM, OP_SYSTEM,
    OP_AMO, OP_LOAD_FP, OP_STORE_FP, OP_MADD, OP_MSUB, OP_NMSUB, OP_NMADD, OP_OP_FP};
use crate::cpu::trap::Trap;
use super::{Cpu, reg_value, regs_after, step_post};
use crate::cpu::trap::trap_taken;
use super::csr::{Csr, MIP_STIP, MIP_MTIP, MIP_MSIP, MIP_MEIP, MIP_SEIP};
use super::execute::{spec_int_step, same_but_pc_regs, inst_opcode, inst_rd, inst_rs1, inst_rs2, inst_funct3,
    lt_signed, m_ext, is_load_funct3};
use super::mmu::AccessType;
use crate::devices::clint::{ClintState, timer_checked};
use crate::devices::plic::{lines_updated, with_pending};
use crate::devices::uart::{rx_int, tx_int};
use crate::system::mip_from_lines;
use crate::cpu::trap::spec_pending_interrupt;
use crate::devices::clint::{clint_read32, clint_write32};
use crate::devices::plic::{plic_read32, plic_after_read32, plic_write32};
use crate::devices::uart::{uart_read, uart_after_read, uart_after_write};
use crate::devices::virtio::{mmio_read32, mmio_write32};

verus! {

/// CLINT window.
pub const CLINT_BASE: u32 = 0x0200_0000;
pub const CLINT_SIZE: u32 = 0x0001_0000;
/// UART window.
pub const UART_BASE: u32 = 0x0300_0000;
pub const UART_SIZE: u32 = 0x0000_1000;
/// PLIC window.
pub const PLIC_BASE: u32 = 0x0400_0000;
pub const PLIC_SIZE: u32 = 0x0400_0000;
/// VirtIO window.
pub const VIRTIO_BASE: u32 = 0x2000_0000;
pub const VIRTIO_SIZE: u32 = 0x0000_1000;
/// UART interrupt line on the PLIC.
pub const UART_IRQ: u32 = 10;

/// RAM, boot ROM and the devices, as seen by the CPU.
pub struct FastBus {
    pub memory: Memory,
    pub uart: Uart,
    pub clint: Clint,
    pub plic: Plic,
    pub virtio9p: Virtio9p,
}

impl FastBus {
    /// RAM is well formed, the memory holds no device windows (the bus
    /// dispatches its devices itself), and the 9P server's root exists.
    pub open spec fn inv(&self) -> bool {
        self.memory.wf() && self.memory.no_devices() && p9_inv(self.virtio9p)
    }

    /// RAM/ROM fast path, devices otherwise.
    pub fn read32_fast(&mut self, paddr: u32) -> (r: u32)
        requires
            old(self).inv(),
        ensures
            final(self).inv(),
            paddr >= DRAM_BASE || (0x1000 <= paddr < 0x3000) ==> r == old(self).memory.spec_read32(paddr)
                && *final(self) == *old(self),
            old(self).peek8(paddr) is Some && old(self).peek8(paddr.wrapping_add(1)) is Some && old(self).peek8(paddr.wrapping_add(2)) is Some && old(self).peek8(paddr.wrapping_add(3)) is Some
                ==> r == old(self).peek8(paddr).unwrap() + old(self).peek8(paddr.wrapping_add(1)).unwrap() * 0x100 + old(self).peek8(paddr.wrapping_add(2)).unwrap() * 0x10000 + old(self).peek8(paddr.wrapping_add(3)).unwrap() * 0x1000000
                && *final(self) == *old(self),
    {
        proof {
            let m = self.memory;
            assert(paddr.wrapping_add(0) == paddr);
            assert(paddr.wrapping_add(2).wrapping_add(1) == paddr.wrapping_add(3));
            m.lemma_no_devices_free(paddr, 4);
            lemma_le_sums(m.spec_read8(paddr), m.spec_read8(paddr.wrapping_add(1)),
                m.spec_read8(paddr.wrapping_add(2)), m.spec_read8(paddr.wrapping_add(3)), 0, 0);
            lemma_le_sums(m.spec_read8(paddr), m.spec_read8(paddr.wrapping_add(1)), 0, 0, 0, 0);
            lemma_le_sums(m.spec_read8(paddr.wrapping_add(2)), m.spec_read8(paddr.wrapping_add(3)), 0, 0, 0, 0);
        }
        if paddr >= DRAM_BASE || (paddr >= 0x1000 && paddr < 0x3000) {
            self.memory.read32(paddr)
        } else {
            self.read32_device(paddr)
        }
    }

    fn read32_device(&mut self, paddr: u32) -> (r: u32)
        requires
            old(self).inv(),
        ensures
            final(self).inv(),
            CLINT_BASE <= paddr < CLINT_BASE + CLINT_SIZE ==> r == clint_read32(old(self).clint@, (paddr - CLINT_BASE) as u32)
                && *final(self) == *old(self),
            UART_BASE <= paddr < UART_BASE + UART_SIZE ==> r == uart_read(old(self).uart@, (paddr - UART_BASE) as u32)
                && final(self).uart@ == uart_after_read(old(self).uart@, (paddr - UART_BASE) as u32)
                && *final(self) == (FastBus { uart: final(self).uart, ..*old(self) }),
            PLIC_BASE <= paddr < PLIC_BASE + PLIC_SIZE ==> r == plic_read32(old(self).plic@, (paddr - PLIC_BASE) as u32)
                && final(self).plic@ == plic_after_read32(old(self).plic@, (paddr - PLIC_BASE) as u32)
                && *final(self) == (FastBus { plic: final(self).plic, ..*old(self) }),
            VIRTIO_BASE <= paddr < VIRTIO_BASE + VIRTIO_SIZE ==> r == mmio_read32(old(self).virtio9p.virtio,
                (paddr - VIRTIO_BASE) as u32) && *final(self) == *old(self),
            !(CLINT_BASE <= paddr < CLINT_BASE + CLINT_SIZE) && !(UART_BASE <= paddr < UART_BASE + UART_SIZE)
                && !(PLIC_BASE <= paddr < PLIC_BASE + PLIC_SIZE) && !(VIRTIO_BASE <= paddr < VIRTIO_BASE + VIRTIO_SIZE)
                ==> r == 0 && *final(self) == *old(self),
    {
        if paddr >= CLINT_BASE && paddr < CLINT_BASE + CLINT_SIZE {
            self.clint.read32(paddr - CLINT_BASE)
        } else if paddr >= UART_BASE && paddr < UART_BASE + UART_SIZE {
            self.uart.read8(paddr - UART_BASE) as u32
        } else if paddr >= PLIC_BASE && paddr < PLIC_BASE + PLIC_SIZE {
            self.plic.read32(paddr - PLIC_BASE)
        } else if paddr >= VIRTIO_BASE && paddr < VIRTIO_BASE + VIRTIO_SIZE {
            self.virtio9p.read32(paddr - VIRTIO_BASE)
        } else {
            0
        }
    }

    pub fn write32_fast(&mut self, paddr: u32, value: u32)
        requires
            old(self).inv(),
        ensures
            final(self).inv(),
            paddr >= DRAM_BASE ==> final(self).memory.ram_view()
                == Memory::ram_after_write(old(self).memory.ram_view(), paddr, value as u64, 4),
    {
        if paddr >= DRAM_BASE {
            self.memory.write32(paddr, value);
        } else {
            self.write32_device(paddr, value);
        }
    }

    fn write32_device(&mut self, paddr: u32, value: u32)
        requires
            old(self).inv(),
        ensures
            final(self).inv(),
            CLINT_BASE <= paddr < CLINT_BASE + CLINT_SIZE ==> final(self).clint@ == clint_write32(old(self).clint@,
                (paddr - CLINT_BASE) as u32, value) && *final(self) == (FastBus { clint: final(self).clint, ..*old(self) }),
            UART_BASE <= paddr < UART_BASE + UART_SIZE ==> final(self).uart@ == uart_after_write(old(self).uart@,
                (paddr - UART_BASE) as u32, (value % 0x100) as u8)
                && *final(self) == (FastBus { uart: final(self).uart, ..*old(self) }),
            PLIC_BASE <= paddr < PLIC_BASE + PLIC_SIZE ==> final(self).plic@ == plic_write32(old(self).plic@,
                (paddr - PLIC_BASE) as u32, value) && *final(self) == (FastBus { plic: final(self).plic, ..*old(self) }),
            VIRTIO_BASE <= paddr < VIRTIO_BASE + VIRTIO_SIZE ==> mmio_write32(old(self).virtio9p.virtio,
                final(self).virtio9p.virtio, (paddr - VIRTIO_BASE) as u32, value)
                && *final(self) == (FastBus { virtio9p: final(self).virtio9p, ..*old(self) }),
            !(CLINT_BASE <= paddr < CLINT_BASE + CLINT_SIZE) && !(UART_BASE <= paddr < UART_BASE + UART_SIZE)
                && !(PLIC_BASE <= paddr < PLIC_BASE + PLIC_SIZE) && !(VIRTIO_BASE <= paddr < VIRTIO_BASE + VIRTIO_SIZE)
                ==> *final(self) == *old(self),
    {
        if paddr >= CLINT_BASE && paddr < CLINT_BASE + CLINT_SIZE {
            self.clint.write32(paddr - CLINT_BASE, value);
        } else if paddr >= UART_BASE && paddr < UART_BASE + UART_SIZE {
            self.uart.write8(paddr - UART_BASE, (value % 0x100) as u8);
        } else if paddr >= PLIC_BASE && paddr < PLIC_BASE + PLIC_SIZE {
            self.plic.write32(paddr - PLIC_BASE, value);
        } else if paddr >= VIRTIO_BASE && paddr < VIRTIO_BASE + VIRTIO_SIZE {
            self.virtio9p.write32(paddr - VIRTIO_BASE, value);
        }
    }

    pub fn read8_fast(&mut self, paddr: u32) -> (r: u8)
        requires
            old(self).inv(),
        ensures
            final(self).inv(),
            paddr >= DRAM_BASE || (0x1000 <= paddr < 0x3000) ==> r == old(self).memory.spec_read8(paddr)
                && *final(self) == *old(self),
    {
        proof {
            assert(paddr.wrapping_add(0) == paddr);
            self.memory.lemma_no_devices_free(paddr, 1);
        }
        if paddr >= DRAM_BASE || (paddr >= 0x1000 && paddr < 0x3000) {
            self.memory.read8(paddr)
        } else if paddr >= CLINT_BASE && paddr < CLINT_BASE + CLINT_SIZE {
            self.clint.read8(paddr - CLINT_BASE)
        } else if paddr >= UART_BASE && paddr < UART_BASE + UART_SIZE {
            self.uart.read8(paddr - UART_BASE)
        } else if paddr >= PLIC_BASE && paddr < PLIC_BASE + PLIC_SIZE {
            self.plic.read8(paddr - PLIC_BASE)
        } else if paddr >= VIRTIO_BASE && paddr < VIRTIO_BASE + VIRTIO_SIZE {
            self.virtio9p.read8(paddr - VIRTIO_BASE)
        } else {
            0
        }
    }

    pub fn read16_fast(&mut self, paddr: u32) -> (r: u16)
        requires
            old(self).inv(),
        ensures
            final(self).inv(),
            paddr >= DRAM_BASE ==> r == old(self).memory.spec_read16(paddr) && final(self).memory == old(self).memory,
            old(self).peek8(paddr) is Some && old(self).peek8(paddr.wrapping_add(1)) is Some
                ==> r == old(self).peek8(paddr).unwrap() + old(self).peek8(paddr.wrapping_add(1)).unwrap() * 0x100
                && *final(self) == *old(self),
    {
        proof {
            assert(paddr.wrapping_add(0) == paddr);
            self.memory.lemma_no_devices_free(paddr, 2);
            lemma_le_sums(self.memory.spec_read8(paddr), self.memory.spec_read8(paddr.wrapping_add(1)), 0, 0, 0, 0);
        }
        if paddr >= DRAM_BASE {
            self.memory.read16(paddr)
        } else {
            let lo = self.read8_fast(paddr) as u16;
            let hi = self.read8_fast(paddr.wrapping_add(1)) as u16;
            lo + hi * 0x100
        }
    }

    pub fn write8_fast(&mut self, paddr: u32, value: u8)
        requires
            old(self).inv(),
        ensures
            final(self).inv(),
            paddr >= DRAM_BASE ==> final(self).memory.ram_view()
                == Memory::ram_after_write8(old(self).memory.ram_view(), paddr, value),
    {
        if paddr >= DRAM_BASE {
            self.memory.write8(paddr, value);
        } else if paddr >= CLINT_BASE && paddr < CLINT_BASE + CLINT_SIZE {
            self.clint.write8(paddr - CLINT_BASE, value);
        } else if paddr >= UART_BASE && paddr < UART_BASE + UART_SIZE {
            self.uart.write8(paddr - UART_BASE, value);
        } else if paddr >= PLIC_BASE && paddr < PLIC_BASE + PLIC_SIZE {
            self.plic.write8(paddr - PLIC_BASE, value);
        } else if paddr >= VIRTIO_BASE && paddr < VIRTIO_BASE + VIRTIO_SIZE {
            self.virtio9p.write8(paddr - VIRTIO_BASE, value);
        }
    }

    pub fn write16_fast(&mut self, paddr: u32, value: u16)
        requires
            old(self).inv(),
        ensures
            final(self).inv(),
            paddr >= DRAM_BASE ==> final(self).memory.ram_view()
                == Memory::ram_after_write(old(self).memory.ram_view(), paddr, value as u64, 2),
    {
        if paddr >= DRAM_BASE {
            self.memory.write16(paddr, value);
        } else {
            self.write8_fast(paddr, (value % 0x100) as u8);
            self.write8_fast(paddr.wrapping_add(1), (value / 0x100) as u8);
        }
    }
}

impl Bus for FastBus {
    open spec fn inv(&self) -> bool {
        self.memory.wf() && self.memory.no_devices() && p9_inv(self.virtio9p)
    }

    /// Reads of RAM and of the boot ROM change nothing.
    open spec fn peek8(&self, addr: u32) -> Option<u8> {
        if addr >= DRAM_BASE || (0x1000 <= addr < 0x3000) { Some(self.memory.spec_read8(addr)) } else { None }
    }

    /// A write that lies at or above `DRAM_BASE` stores its bytes in RAM.
    open spec fn wrote(&self, addr: u32, v: u64, n: nat, after: FastBus) -> bool {
        addr >= DRAM_BASE && addr + n <= 0x1_0000_0000 ==> after.memory.ram_view()
            == Memory::ram_after_write(self.memory.ram_view(), addr, v, n)
    }

    fn read8(&mut self, addr: u32) -> u8 {
        self.read8_fast(addr)
    }

    fn write8(&mut self, addr: u32, value: u8) {
        proof { lemma_write_one(self.memory.ram_view(), addr, value); }
        self.write8_fast(addr, value)
    }

    fn read16(&mut self, addr: u32) -> u16 {
        self.read16_fast(addr)
    }

    fn write16(&mut self, addr: u32, value: u16) {
        self.write16_fast(addr, value)
    }

    fn read32(&mut self, addr: u32) -> u32 {
        self.read32_fast(addr)
    }

    fn write32(&mut self, addr: u32, value: u32) {
        self.write32_fast(addr, value)
    }

    fn read64(&mut self, addr: u32) -> (r: u64)
        ensures
            (addr >= DRAM_BASE || (0x1000 <= addr < 0x3000)) && (addr.wrapping_add(4) >= DRAM_BASE
                || (0x1000 <= addr.wrapping_add(4) < 0x3000)) ==> r == old(self).memory.spec_read32(addr)
                + old(self).memory.spec_read32(addr.wrapping_add(4)) * 0x1_0000_0000
                && final(self).memory == old(self).memory,
    {
        let lo = self.read32_fast(addr) as u64;
        let hi = self.read32_fast(addr.wrapping_add(4)) as u64;
        lo + hi * 0x1_0000_0000
    }

    fn write64(&mut self, addr: u32, value: u64)
        ensures
            addr >= DRAM_BASE && addr.wrapping_add(4) >= DRAM_BASE ==> final(self).memory.ram_view()
                == Memory::ram_after_write(Memory::ram_after_write(old(self).memory.ram_view(), addr,
                (value as u32) as u64, 4), addr.wrapping_add(4), ((value >> 32u64) as u32) as u64, 4),
    {
        proof { Memory::lemma_write_halves(self.memory.ram_view(), addr, value, 4); }
        self.write32_fast(addr, value as u32);
        self.write32_fast(addr.wrapping_add(4), (value >> 32u64) as u32);
    }
}


/// Timer and interrupt lines are refreshed once per this many cycles.
pub const TIMER_BATCH: u32 = 64;

/// The opcodes the loop executes inline without the CPU's step.
pub open spec fn is_inline_int(op: u32) -> bool {
    op == OP_LUI || op == OP_AUIPC || op == OP_JAL || op == OP_JALR || op == OP_BRANCH
        || op == OP_OP_IMM || op == OP_OP
}

/// The opcodes the loop hands to the CPU's full step.
pub open spec fn is_complex(op: u32) -> bool {
    op == OP_SYSTEM || op == OP_AMO || op == OP_LOAD_FP || op == OP_STORE_FP || op == OP_MADD
        || op == OP_MSUB || op == OP_NMSUB || op == OP_NMADD || op == OP_OP_FP
}

/// The answer the loop gives an SBI call itself, or `None` when the machine must answer it.
pub open spec fn inline_sbi_result(eid: u32, fid: u32, a0: u32) -> Option<(u32, u32)> {
    if eid == 0 || eid == 1 { Some((0, 0)) }
    else if eid == 2 { Some((0xFFFF_FFFF, 0)) }
    else if eid == 0x5449_4D45 { Some((0, 0)) }
    else if eid == 0x10 {
        if fid == 0 { Some((0, 2)) }
        else if fid == 1 || fid == 2 { Some((0, 0)) }
        else if fid == 3 {
            Some((0, if a0 == 0 || a0 == 1 || a0 == 2 || a0 == 0x10 || a0 == 0x5449_4D45 { 1 } else { 0 }))
        }
        else if 4 <= fid <= 6 { Some((0, 0)) }
        else { Some((0xFFFF_FFFE, 0)) }
    }
    else { None }
}

/// One integer instruction (LUI, AUIPC, JAL, JALR, BRANCH, OP-IMM, OP)
/// executed in place on the pc and register file. It agrees with the
/// reference semantics `spec_int_step` of the CPU's own execute: the same
/// next pc and registers, or `false` for the same illegal encodings.
fn inline_int_step(cpu: &mut Cpu, inst: u32) -> (ok: bool)
    requires
        is_inline_int(inst_opcode(inst)),
    ensures
        match spec_int_step(old(cpu).pc, old(cpu).regs@, inst) {
            Some(next) => {
                &&& ok
                &&& final(cpu).pc == next.0
                &&& final(cpu).regs@ == next.1
                &&& same_but_pc_regs(*old(cpu), *final(cpu))
            },
            None => !ok && *final(cpu) == *old(cpu),
        },
{
    proof { crate::bits::lemma_u32_shift_mask(); }
    let opcode = inst & 0x7F;
    let rd = (inst >> 7u32) & 0x1F;
    let rs1_idx = (inst >> 15u32) & 0x1F;
    let rs2_idx = (inst >> 20u32) & 0x1F;
    let funct3 = (inst >> 12u32) & 0x7;
    let funct7 = inst >> 25u32;
    let pc = cpu.pc;
    if opcode == OP_LUI {
        cpu.write_reg(rd, imm_u(inst) as u32);
        cpu.pc = pc.wrapping_add(4);
    } else if opcode == OP_AUIPC {
        cpu.write_reg(rd, pc.wrapping_add(imm_u(inst) as u32));
        cpu.pc = pc.wrapping_add(4);
    } else if opcode == OP_JAL {
        cpu.write_reg(rd, pc.wrapping_add(4));
        cpu.pc = pc.wrapping_add(imm_j(inst) as u32);
    } else if opcode == OP_JALR {
        let target = cpu.read_reg(rs1_idx).wrapping_add(imm_i(inst) as u32) & !1u32;
        cpu.write_reg(rd, pc.wrapping_add(4));
        cpu.pc = target;
    } else if opcode == OP_BRANCH {
        let rs1 = cpu.read_reg(rs1_idx);
        let rs2 = cpu.read_reg(rs2_idx);
        let taken = if funct3 == 0b000 {
            rs1 == rs2
        } else if funct3 == 0b001 {
            rs1 != rs2
        } else if funct3 == 0b100 {
            lt_signed(rs1, rs2)
        } else if funct3 == 0b101 {
            !lt_signed(rs1, rs2)
        } else if funct3 == 0b110 {
            rs1 < rs2
        } else if funct3 == 0b111 {
            rs1 >= rs2
        } else {
            return false;
        };
        if taken {
            cpu.pc = pc.wrapping_add(imm_b(inst) as u32);
        } else {
            cpu.pc = pc.wrapping_add(4);
        }
    } else if opcode == OP_OP_IMM {
        let rs1 = cpu.read_reg(rs1_idx);
        let imm = imm_i(inst) as u32;
        let shamt = imm & 0x1F;
        let result = if funct3 == 0b000 {
            rs1.wrapping_add(imm)
        } else if funct3 == 0b010 {
            if lt_signed(rs1, imm) { 1 } else { 0 }
        } else if funct3 == 0b011 {
            if rs1 < imm { 1 } else { 0 }
        } else if funct3 == 0b100 {
            rs1 ^ imm
        } else if funct3 == 0b110 {
            rs1 | imm
        } else if funct3 == 0b111 {
            rs1 & imm
        } else if funct3 == 0b001 {
            rs1 << shamt
        } else if (imm >> 10u32) & 1 != 0 {
            ((rs1 as i32) >> shamt) as u32
        } else {
            rs1 >> shamt
        };
        cpu.write_reg(rd, result);
        cpu.pc = pc.wrapping_add(4);
    } else {
        let rs1 = cpu.read_reg(rs1_idx);
        let rs2 = cpu.read_reg(rs2_idx);
        let result = if funct7 == 0b0000001 {
            m_ext(funct3, rs1, rs2)
        } else if funct3 == 0b000 && funct7 == 0 {
            rs1.wrapping_add(rs2)
        } else if funct3 == 0b000 && funct7 == 0b0100000 {
            rs1.wrapping_sub(rs2)
        } else if funct3 == 0b001 && funct7 == 0 {
            rs1 << (rs2 & 0x1F)
        } else if funct3 == 0b010 && funct7 == 0 {
            if lt_signed(rs1, rs2) { 1 } else { 0 }
        } else if funct3 == 0b011 && funct7 == 0 {
            if rs1 < rs2 { 1 } else { 0 }
        } else if funct3 == 0b100 && funct7 == 0 {
            rs1 ^ rs2
        } else if funct3 == 0b101 && funct7 == 0 {
            rs1 >> (rs2 & 0x1F)
        } else if funct3 == 0b101 && funct7 == 0b0100000 {
            ((rs1 as i32) >> (rs2 & 0x1F)) as u32
        } else if funct3 == 0b110 && funct7 == 0 {
            rs1 | rs2
        } else if funct3 == 0b111 && funct7 == 0 {
            rs1 & rs2
        } else {
            return false;
        };
        cpu.write_reg(rd, result);
        cpu.pc = pc.wrapping_add(4);
    }
    true
}

/// Refreshes the timer and the interrupt lines (a batch of 64 ticks), and
/// takes a pending interrupt.
fn refresh_devices(cpu: &mut Cpu, bus: &mut FastBus)
    requires
        old(cpu).wf(),
        old(bus).inv(),
    ensures
        final(cpu).wf(),
        final(bus).inv(),
        final(bus).memory == old(bus).memory,
        final(bus).uart == old(bus).uart,
        final(bus).virtio9p == old(bus).virtio9p,
        final(cpu).instruction_count == old(cpu).instruction_count,
        final(bus).clint@ == timer_checked(ClintState { mtime: old(bus).clint@.mtime.wrapping_add(64), ..old(bus).clint@ }),
        final(bus).plic@ == lines_updated(with_pending(old(bus).plic@, UART_IRQ, rx_int(old(bus).uart@) || tx_int(old(bus).uart@))),
        final(cpu).regs == old(cpu).regs,
        ({
            let mip = mip_from_lines(old(cpu).csr.mip, final(bus).clint@.timer_interrupt,
                final(bus).clint@.software_interrupt, final(bus).plic@.m_external_interrupt,
                final(bus).plic@.s_external_interrupt);
            spec_pending_interrupt(mip, old(cpu).csr.mie, old(cpu).csr.mideleg, old(cpu).csr.mstatus,
                old(cpu).priv_level) is None ==> {
                &&& final(cpu).csr.mip == mip
                &&& final(cpu).csr.time == final(bus).clint@.mtime
                &&& final(cpu).pc == old(cpu).pc
                &&& final(cpu).priv_level == old(cpu).priv_level
                &&& *final(cpu) == (Cpu { csr: Csr { mip: mip, time: final(bus).clint@.mtime, ..old(cpu).csr }, ..*old(cpu) })
            }
        }),
{
    bus.clint.tick(TIMER_BATCH as u64);
    cpu.csr.time = bus.clint.get_mtime();
    if bus.uart.has_interrupt() {
        bus.plic.raise_interrupt(UART_IRQ);
    } else {
        bus.plic.clear_interrupt(UART_IRQ);
    }
    if bus.clint.timer_pending() {
        cpu.csr.mip = (cpu.csr.mip | MIP_MTIP) | MIP_STIP;
    } else {
        cpu.csr.mip = (cpu.csr.mip & !MIP_MTIP) & !MIP_STIP;
    }
    if bus.clint.software_pending() {
        cpu.csr.mip = cpu.csr.mip | MIP_MSIP;
    } else {
        cpu.csr.mip = cpu.csr.mip & !MIP_MSIP;
    }
    if bus.plic.m_external_pending() {
        cpu.csr.mip = cpu.csr.mip | MIP_MEIP;
    } else {
        cpu.csr.mip = cpu.csr.mip & !MIP_MEIP;
    }
    if bus.plic.s_external_pending() {
        cpu.csr.mip = cpu.csr.mip | MIP_SEIP;
    } else {
        cpu.csr.mip = cpu.csr.mip & !MIP_SEIP;
    }
    match cpu.check_interrupts() {
        Some(t) => cpu.handle_trap(t),
        None => {},
    }
}

/// The value a load with this funct3 reads from RAM or ROM at `a`, extended to 32 bits.
pub open spec fn mem_load_value(f3: u32, m: Memory, a: u32) -> u32 {
    if f3 == 0 {
        let b = m.spec_read8(a) as u32;
        if b >= 0x80 { (b + 0xFFFF_FF00) as u32 } else { b }
    } else if f3 == 1 {
        let h = m.spec_read16(a) as u32;
        if h >= 0x8000 { (h + 0xFFFF_0000) as u32 } else { h }
    } else if f3 == 2 {
        m.spec_read32(a)
    } else if f3 == 4 {
        m.spec_read8(a) as u32
    } else {
        m.spec_read16(a) as u32
    }
}

/// RAM after a store with this funct3 of `v` at `a`.
pub open spec fn mem_store_ram(f3: u32, ram: Seq<u8>, a: u32, v: u32) -> Seq<u8> {
    if f3 == 0 {
        Memory::ram_after_write8(ram, a, (v % 0x100) as u8)
    } else if f3 == 1 {
        Memory::ram_after_write(ram, a, (v % 0x1_0000) as u64, 2)
    } else {
        Memory::ram_after_write(ram, a, v as u64, 4)
    }
}

/// LB, LH, LW, LBU, LHU against the bus; `false` when a trap was taken instead.
fn inline_load(cpu: &mut Cpu, bus: &mut FastBus, inst: u32, translate: bool) -> (done: bool)
    requires
        old(cpu).wf(),
        old(bus).inv(),
    ensures
        final(cpu).wf(),
        final(bus).inv(),
        final(cpu).instruction_count == old(cpu).instruction_count,
        done ==> final(cpu).pc == old(cpu).pc.wrapping_add(4)
            && exists|v: u32| #[trigger] regs_after(old(cpu).regs@, inst_rd(inst), v) == final(cpu).regs@,
        done ==> is_load_funct3(inst_funct3(inst)),
        !translate ==> (done <==> is_load_funct3(inst_funct3(inst))),
        ({
            let vaddr = reg_value(old(cpu).regs@, inst_rs1(inst)).wrapping_add(spec_imm_i(inst) as u32);
            !translate && done && vaddr >= DRAM_BASE ==> final(cpu).regs@ == regs_after(old(cpu).regs@,
                inst_rd(inst), mem_load_value(inst_funct3(inst), old(bus).memory, vaddr))
                && final(bus).memory == old(bus).memory
        }),
{
    proof { crate::bits::lemma_u32_shift_mask(); }
    let rd = (inst >> 7u32) & 0x1F;
    let rs1_idx = (inst >> 15u32) & 0x1F;
    let funct3 = (inst >> 12u32) & 0x7;
    let vaddr = cpu.read_reg(rs1_idx).wrapping_add(imm_i(inst) as u32);
    let paddr = if !translate {
        vaddr
    } else {
        let satp = cpu.csr.satp;
        let mstatus = cpu.csr.mstatus;
        let p = cpu.priv_level;
        match cpu.mmu.translate(vaddr, AccessType::Load, p, bus, satp, mstatus) {
            Ok(pa) => pa,
            Err(cause) => {
                cpu.handle_trap(Trap::from_cause(cause, vaddr));
                return false;
            },
        }
    };
    let value: u32 = if funct3 == 0b000 {
        let b = bus.read8_fast(paddr) as u32;
        if b >= 0x80 { b + 0xFFFF_FF00 } else { b }
    } else if funct3 == 0b001 {
        let h = bus.read16_fast(paddr) as u32;
        if h >= 0x8000 { h + 0xFFFF_0000 } else { h }
    } else if funct3 == 0b010 {
        bus.read32_fast(paddr)
    } else if funct3 == 0b100 {
        bus.read8_fast(paddr) as u32
    } else if funct3 == 0b101 {
        bus.read16_fast(paddr) as u32
    } else {
        cpu.handle_trap(Trap::IllegalInstruction(inst));
        return false;
    };
    let ghost before = cpu.regs@;
    cpu.write_reg(rd, value);
    assert(regs_after(before, inst_rd(inst), value) == cpu.regs@);
    cpu.pc = cpu.pc.wrapping_add(4);
    true
}

/// SB, SH, SW against the bus; `false` when a trap was taken instead.
fn inline_store(cpu: &mut Cpu, bus: &mut FastBus, inst: u32, translate: bool) -> (done: bool)
    requires
        old(cpu).wf(),
        old(bus).inv(),
    ensures
        final(cpu).wf(),
        final(bus).inv(),
        final(cpu).instruction_count == old(cpu).instruction_count,
        done ==> final(cpu).pc == old(cpu).pc.wrapping_add(4) && final(cpu).regs == old(cpu).regs,
        done ==> inst_funct3(inst) < 3,
        !translate ==> (done <==> inst_funct3(inst) < 3),
        ({
            let vaddr = reg_value(old(cpu).regs@, inst_rs1(inst)).wrapping_add(spec_imm_s(inst) as u32);
            !translate && done && vaddr >= DRAM_BASE ==> final(bus).memory.ram_view() == mem_store_ram(
                inst_funct3(inst), old(bus).memory.ram_view(), vaddr, reg_value(old(cpu).regs@, inst_rs2(inst)))
        }),
{
    proof { crate::bits::lemma_u32_shift_mask(); }
    let rs1_idx = (inst >> 15u32) & 0x1F;
    let rs2_idx = (inst >> 20u32) & 0x1F;
    let funct3 = (inst >> 12u32) & 0x7;
    let vaddr = cpu.read_reg(rs1_idx).wrapping_add(imm_s(inst) as u32);
    let value = cpu.read_reg(rs2_idx);
    let paddr = if !translate {
        vaddr
    } else {
        let satp = cpu.csr.satp;
        let mstatus = cpu.csr.mstatus;
        let p = cpu.priv_level;
        match cpu.mmu.translate(vaddr, AccessType::Store, p, bus, satp, mstatus) {
            Ok(pa) => pa,
            Err(cause) => {
                cpu.handle_trap(Trap::from_cause(cause, vaddr));
                return false;
            },
        }
    };
    if funct3 == 0b000 {
        bus.write8_fast(paddr, (value % 0x100) as u8);
    } else if funct3 == 0b001 {
        bus.write16_fast(paddr, (value % 0x1_0000) as u16);
    } else if funct3 == 0b010 {
        bus.write32_fast(paddr, value);
    } else {
        cpu.handle_trap(Trap::IllegalInstruction(inst));
        return false;
    }
    cpu.pc = cpu.pc.wrapping_add(4);
    true
}

/// Answers an SBI call inline when the loop knows the extension: the timer,
/// the console, and the base extension's queries. The results go to a0 and
/// a1 and the pc moves past the ECALL. `false`, with nothing changed, for
/// any other extension.
fn inline_sbi(cpu: &mut Cpu, bus: &mut FastBus) -> (handled: bool)
    requires
        old(cpu).wf(),
        old(bus).inv(),
    ensures
        final(cpu).wf(),
        final(bus).inv(),
        final(bus).memory == old(bus).memory,
        final(cpu).instruction_count == old(cpu).instruction_count,
        ({
            let o = old(cpu).regs@;
            match inline_sbi_result(reg_value(o, 17), reg_value(o, 16), reg_value(o, 10)) {
                Some(res) => {
                    &&& handled
                    &&& final(cpu).regs@ == regs_after(regs_after(o, 10, res.0), 11, res.1)
                    &&& final(cpu).pc == old(cpu).pc.wrapping_add(4)
                },
                None => !handled && *final(cpu) == *old(cpu) && *final(bus) == *old(bus),
            }
        }),
{
    let eid = cpu.read_reg(17);
    let fid = cpu.read_reg(16);
    let a0 = cpu.read_reg(10);
    let a1 = cpu.read_reg(11);
    let (error, value): (u32, u32) = if eid == 0 || eid == 0x5449_4D45 {
        bus.clint.write32(0x4000, a0);
        bus.clint.write32(0x4004, a1);
        cpu.csr.mip = cpu.csr.mip & !MIP_STIP;
        (0, 0)
    } else if eid == 1 {
        bus.uart.write8(0, (a0 % 0x100) as u8);
        (0, 0)
    } else if eid == 2 {
        (0xFFFF_FFFF, 0)
    } else if eid == 0x10 {
        if fid == 0 {
            (0, 2)
        } else if fid == 1 || fid == 2 {
            (0, 0)
        } else if fid == 3 {
            let available: u32 = if a0 == 0 || a0 == 1 || a0 == 2 || a0 == 0x10 || a0 == 0x5449_4D45 { 1 } else { 0 };
            (0, available)
        } else if 4 <= fid && fid <= 6 {
            (0, 0)
        } else {
            (0xFFFF_FFFE, 0)
        }
    } else {
        return false;
    };
    cpu.write_reg(10, error);
    cpu.write_reg(11, value);
    cpu.pc = cpu.pc.wrapping_add(4);
    true
}

/// What the loop does with the fetched word `inst` from `c0` on `b0`, with
/// untranslated data accesses, ending with `c1` on `b1`: integer
/// instructions run as `spec_int_step` says (an illegal one traps); loads
/// and stores of RAM read and write it as `mem_load_value` and
/// `mem_store_ram` say; FENCE and FENCE.I move on; SYSTEM, AMO and the
/// floating-point opcodes go to the CPU's full step as `complex_post` says;
/// any other opcode traps as illegal. A completed instruction is counted.
pub open spec fn step_rel(c0: Cpu, b0: FastBus, c1: Cpu, b1: FastBus, inst: u32, stop: bool) -> bool {
    let op = inst_opcode(inst);
    let f3 = inst_funct3(inst);
    let lv = reg_value(c0.regs@, inst_rs1(inst)).wrapping_add(spec_imm_i(inst) as u32);
    let sv = reg_value(c0.regs@, inst_rs1(inst)).wrapping_add(spec_imm_s(inst) as u32);
    if is_inline_int(op) {
        !stop && match spec_int_step(c0.pc, c0.regs@, inst) {
            Some(next) => c1.pc == next.0 && c1.regs@ == next.1
                && c1.instruction_count == c0.instruction_count.wrapping_add(1),
            None => trap_taken(c0, c1, Trap::IllegalInstruction(inst)),
        }
    } else if op == OP_LOAD {
        &&& !stop
        &&& is_load_funct3(f3) ==> c1.pc == c0.pc.wrapping_add(4)
            && c1.instruction_count == c0.instruction_count.wrapping_add(1)
        &&& !is_load_funct3(f3) ==> c1.instruction_count == c0.instruction_count
        &&& is_load_funct3(f3) && lv >= DRAM_BASE ==> c1.regs@ == regs_after(c0.regs@, inst_rd(inst),
            mem_load_value(f3, b0.memory, lv)) && b1.memory == b0.memory
    } else if op == OP_STORE {
        &&& !stop
        &&& f3 < 3 ==> c1.pc == c0.pc.wrapping_add(4) && c1.regs == c0.regs
            && c1.instruction_count == c0.instruction_count.wrapping_add(1)
        &&& f3 >= 3 ==> c1.instruction_count == c0.instruction_count
        &&& f3 < 3 && sv >= DRAM_BASE ==> b1.memory.ram_view() == mem_store_ram(f3, b0.memory.ram_view(), sv,
            reg_value(c0.regs@, inst_rs2(inst)))
    } else if op == OP_MISC_MEM {
        &&& !stop
        &&& c1.pc == c0.pc.wrapping_add(4) && c1.regs == c0.regs
        &&& c1.instruction_count == c0.instruction_count.wrapping_add(1)
        &&& b1 == b0
    } else if is_complex(op) {
        complex_post(c0, b0, c1, b1, stop)
    } else {
        &&& !stop
        &&& c1.instruction_count == c0.instruction_count.wrapping_add(1)
        &&& c1.csr.cycle == c0.csr.cycle.wrapping_add(1)
        &&& trap_taken(c0, Cpu { instruction_count: c0.instruction_count,
            csr: Csr { cycle: c0.csr.cycle, ..c1.csr }, ..c1 }, Trap::IllegalInstruction(inst))
        &&& b1 == b0
    }
}

/// Runs the fetched word `inst` (see `step_rel`); `true` when an SBI call
/// must be left to the machine.
fn inline_dispatch<F: FloatArith>(cpu: &mut Cpu, bus: &mut FastBus, inst: u32, translate: bool, fpa: &F) -> (stop: bool)
    requires
        old(cpu).wf(),
        old(bus).inv(),
    ensures
        final(cpu).wf(),
        final(bus).inv(),
        stop ==> final(cpu).pending_sbi_call,
        !translate ==> step_rel(*old(cpu), *old(bus), *final(cpu), *final(bus), inst, stop),
{
    proof { crate::bits::lemma_u32_shift_mask(); }
    let opcode = inst & 0x7F;
    let funct3 = (inst >> 12u32) & 0x7;
    assert(opcode == inst_opcode(inst) && funct3 == inst_funct3(inst));
    if opcode == OP_LUI || opcode == OP_AUIPC || opcode == OP_JAL || opcode == OP_JALR || opcode == OP_BRANCH
        || opcode == OP_OP_IMM || opcode == OP_OP {
        if !inline_int_step(cpu, inst) {
            cpu.handle_trap(Trap::IllegalInstruction(inst));
            return false;
        }
    } else if opcode == OP_LOAD {
        if !inline_load(cpu, bus, inst, translate) {
            return false;
        }
    } else if opcode == OP_STORE {
        if !inline_store(cpu, bus, inst, translate) {
            return false;
        }
    } else if opcode == OP_MISC_MEM {
        if funct3 == 1 {
            cpu.icache.invalidate_all();
            cpu.cache_invalidation_pending = true;
        }
        cpu.pc = cpu.pc.wrapping_add(4);
    } else if opcode == OP_SYSTEM || opcode == OP_AMO || opcode == OP_LOAD_FP || opcode == OP_STORE_FP
        || opcode == OP_MADD || opcode == OP_MSUB || opcode == OP_NMSUB || opcode == OP_NMADD || opcode == OP_OP_FP {
        return inline_complex(cpu, bus, fpa);
    } else {
        cpu.handle_trap(Trap::IllegalInstruction(inst));
    }
    cpu.instruction_count = cpu.instruction_count.wrapping_add(1);
    cpu.csr.cycle = cpu.csr.cycle.wrapping_add(1);
    false
}

/// The interrupt-pending word after a timer and interrupt-line refresh of `c` on `b`.
pub open spec fn refreshed_mip(c: Cpu, b: FastBus) -> u32 {
    let clint = timer_checked(ClintState { mtime: b.clint@.mtime.wrapping_add(64), ..b.clint@ });
    let plic = lines_updated(with_pending(b.plic@, UART_IRQ, rx_int(b.uart@) || tx_int(b.uart@)));
    mip_from_lines(c.csr.mip, clint.timer_interrupt, clint.software_interrupt, plic.m_external_interrupt,
        plic.s_external_interrupt)
}

/// Cycle `cycles` takes no interrupt: no refresh is due, or the refresh finds none to take.
pub open spec fn no_interrupt_taken(c: Cpu, b: FastBus, cycles: u32) -> bool {
    cycles % TIMER_BATCH != 0 || spec_pending_interrupt(refreshed_mip(c, b), c.csr.mie, c.csr.mideleg,
        c.csr.mstatus, c.priv_level) is None
}

/// One cycle of the loop from `c0` on `b0` to `c1` on `b1`, `stop` telling
/// whether it stopped for an SBI call: a stop leaves the call pending; a
/// waiting hart with nothing pending and no refresh due changes nothing; an
/// instruction fetched untranslated from RAM, when no interrupt is taken,
/// runs as `step_rel` says from the refreshed state.
pub open spec fn cycle_post(c0: Cpu, b0: FastBus, c1: Cpu, b1: FastBus, cycles: u32, stop: bool) -> bool {
    let inst = b0.memory.spec_read32(c0.pc);
    &&& stop ==> c1.pending_sbi_call
    &&& cycles % TIMER_BATCH != 0 && c0.wfi && c0.csr.mip & c0.csr.mie == 0 ==> !stop && c1 == c0 && b1 == b0
    &&& no_interrupt_taken(c0, b0, cycles) && !c0.wfi && c0.pc >= DRAM_BASE
        && (c0.priv_level == PrivilegeLevel::Machine || c0.csr.satp >> 31u32 == 0)
        ==> exists|cp: Cpu, bp: FastBus| #[trigger] pre_state(c0, b0, cp, bp) && step_rel(cp, bp, c1, b1, inst, stop)
}

/// The state `cp` on `bp` that the fetched instruction starts from, after a
/// refresh that took no interrupt: only mip and the time CSR, the timer and
/// the PLIC may differ from `c0` on `b0`.
pub open spec fn pre_state(c0: Cpu, b0: FastBus, cp: Cpu, bp: FastBus) -> bool {
    &&& cp == (Cpu { csr: Csr { mip: cp.csr.mip, time: cp.csr.time, ..c0.csr }, ..c0 })
    &&& bp == (FastBus { clint: bp.clint, plic: bp.plic, ..b0 })
}

/// `c` with one more instruction and one more cycle counted.
pub open spec fn counted(c: Cpu) -> Cpu {
    Cpu {
        instruction_count: c.instruction_count.wrapping_add(1),
        csr: Csr { cycle: c.csr.cycle.wrapping_add(1), ..c.csr },
        ..c
    }
}

/// What the loop does after the CPU's full step left `c2` on `b2` with
/// result `r`, ending with `c1` on `b1`: a completed step is counted once
/// more; an SBI call from S-mode is answered inline when the loop knows it
/// (results in a0 and a1, resuming after the ECALL) or else left pending
/// with a stop; any other trap is taken as `trap_taken` says. Each of these
/// counts the instruction and the cycle.
pub open spec fn after_step(c2: Cpu, b2: FastBus, r: Result<(), Trap>, c1: Cpu, b1: FastBus, stop: bool) -> bool {
    match r {
        Ok(_) => !stop && c1 == counted(c2) && b1 == b2,
        Err(t) => if t == Trap::EnvironmentCallFromS {
            let o = c2.regs@;
            match inline_sbi_result(reg_value(o, 17), reg_value(o, 16), reg_value(o, 10)) {
                Some(res) => {
                    &&& !stop
                    &&& c1.regs@ == regs_after(regs_after(o, 10, res.0), 11, res.1)
                    &&& c1.pc == c2.pc.wrapping_add(4)
                    &&& c1.instruction_count == c2.instruction_count.wrapping_add(1)
                    &&& b1.memory == b2.memory
                },
                None => stop && c1 == counted(Cpu { pending_sbi_call: true, ..c2 }) && b1 == b2,
            }
        } else {
            &&& !stop
            &&& c1.instruction_count == c2.instruction_count.wrapping_add(1)
            &&& c1.csr.cycle == c2.csr.cycle.wrapping_add(1)
            &&& trap_taken(c2, Cpu { instruction_count: c2.instruction_count,
                csr: Csr { cycle: c2.csr.cycle, ..c1.csr }, ..c1 }, t)
            &&& b1 == b2
        },
    }
}

/// An instruction handed to the CPU's full step, from `c0` on `b0` to `c1`
/// on `b1`: the time CSR is brought up to the timer first, then the step
/// runs as `step_post` says and the loop finishes as `after_step` says.
pub open spec fn complex_post(c0: Cpu, b0: FastBus, c1: Cpu, b1: FastBus, stop: bool) -> bool {
    exists|bt: FastBus, c2: Cpu, b2: FastBus, r: Result<(), Trap>|
        #[trigger] step_post(Cpu { csr: Csr { time: bt.clint@.mtime, ..c0.csr }, ..c0 }, bt, c2, b2, r)
        && bt == (FastBus { clint: bt.clint, ..b0 }) && bt.clint@ == timer_checked(b0.clint@)
        && after_step(c2, b2, r, c1, b1, stop)
}

/// An instruction the loop hands to the CPU's full step (SYSTEM, AMO and
/// the floating-point opcodes); `true` when an SBI call must be left to the
/// machine.
fn inline_complex<F: FloatArith>(cpu: &mut Cpu, bus: &mut FastBus, fpa: &F) -> (stop: bool)
    requires
        old(cpu).wf(),
        old(bus).inv(),
    ensures
        final(cpu).wf(),
        final(bus).inv(),
        complex_post(*old(cpu), *old(bus), *final(cpu), *final(bus), stop),
{
    bus.clint.tick(0);
    cpu.csr.time = bus.clint.get_mtime();
    let ghost ct = *cpu;
    let ghost bt = *bus;
    assert(bt.clint@ == timer_checked(old(bus).clint@)) by {
        assert(old(bus).clint@.mtime.wrapping_add(0) == old(bus).clint@.mtime);
        assert(ClintState { mtime: old(bus).clint@.mtime, ..old(bus).clint@ } == old(bus).clint@);
    }
    let result = cpu.step(bus, fpa);
    let ghost c2 = *cpu;
    let ghost b2 = *bus;
    match result {
        Ok(()) => {},
        Err(trap) => {
            if trap == Trap::EnvironmentCallFromS {
                if !inline_sbi(cpu, bus) {
                    cpu.pending_sbi_call = true;
                    cpu.instruction_count = cpu.instruction_count.wrapping_add(1);
                    cpu.csr.cycle = cpu.csr.cycle.wrapping_add(1);
                    assert(after_step(c2, b2, result, *cpu, *bus, true));
                    assert(step_post(Cpu { csr: Csr { time: bt.clint@.mtime, ..old(cpu).csr }, ..*old(cpu) }, bt, c2, b2, result));
                    return true;
                }
            } else {
                cpu.handle_trap(trap);
            }
        },
    }
    cpu.instruction_count = cpu.instruction_count.wrapping_add(1);
    cpu.csr.cycle = cpu.csr.cycle.wrapping_add(1);
    assert(after_step(c2, b2, result, *cpu, *bus, false));
    assert(ct == Cpu { csr: Csr { time: bt.clint@.mtime, ..old(cpu).csr }, ..*old(cpu) });
    assert(step_post(Cpu { csr: Csr { time: bt.clint@.mtime, ..old(cpu).csr }, ..*old(cpu) }, bt, c2, b2, result));
    false
}

/// One cycle of the loop; `true` when it must stop for an SBI call the
/// machine has to answer (the call is then left pending).
#[verifier::rlimit(40)]
fn inline_cycle<F: FloatArith>(cpu: &mut Cpu, bus: &mut FastBus, cycles: u32, fpa: &F) -> (stop: bool)
    requires
        old(cpu).wf(),
        old(bus).inv(),
    ensures
        final(cpu).wf(),
        final(bus).inv(),
        cycle_post(*old(cpu), *old(bus), *final(cpu), *final(bus), cycles, stop),
{
    if cycles % TIMER_BATCH == 0 {
        refresh_devices(cpu, bus);
    }
    let ghost quiet = no_interrupt_taken(*old(cpu), *old(bus), cycles);
    proof {
        if quiet {
            assert(cpu.pc == old(cpu).pc && cpu.regs == old(cpu).regs && cpu.priv_level == old(cpu).priv_level
                && cpu.csr.satp == old(cpu).csr.satp && cpu.wfi == old(cpu).wfi
                && cpu.instruction_count == old(cpu).instruction_count && bus.memory == old(bus).memory);
        }
    }
    if cpu.wfi {
        let pending = cpu.csr.mip & cpu.csr.mie;
        if pending != 0 {
            cpu.wfi = false;
        } else {
            return false;
        }
    }
    let satp = cpu.csr.satp;
    let mstatus = cpu.csr.mstatus;
    let priv_level = cpu.priv_level;
    let translate = !(priv_level == PrivilegeLevel::Machine || (satp >> 31u32) == 0);
    let pc = cpu.pc;
    let paddr = if !translate {
        pc
    } else {
        match cpu.mmu.translate(pc, AccessType::Instruction, priv_level, bus, satp, mstatus) {
            Ok(pa) => pa,
            Err(cause) => {
                cpu.handle_trap(Trap::from_cause(cause, pc));
                return false;
            },
        }
    };
    let inst = bus.read32_fast(paddr);
    let ghost cp = *cpu;
    let ghost bp = *bus;
    let stop = inline_dispatch(cpu, bus, inst, translate, fpa);
    proof {
        if quiet && !old(cpu).wfi && old(cpu).pc >= DRAM_BASE && !translate {
            assert(inst == old(bus).memory.spec_read32(old(cpu).pc));
            assert(pre_state(*old(cpu), *old(bus), cp, bp));
        }
    }
    stop
}

/// Cycle `i` of the states `cs` on buses `bs`, stopping as `ss` says.
pub open spec fn cycle_at(cs: Seq<Cpu>, bs: Seq<FastBus>, ss: Seq<bool>, i: int) -> bool {
    cycle_post(cs[i], bs[i], cs[i + 1], bs[i + 1], i as u32, ss[i])
}

/// `cs` and `bs` are the CPU and bus before and after each of `n` cycles of
/// the loop, and `ss` whether each stopped: only the last may stop.
pub open spec fn cycles_trace(cs: Seq<Cpu>, bs: Seq<FastBus>, ss: Seq<bool>, n: nat) -> bool {
    &&& cs.len() == n + 1 && bs.len() == n + 1 && ss.len() == n
    &&& forall|i: int| 0 <= i < n ==> #[trigger] cycle_at(cs, bs, ss, i)
    &&& forall|i: int| 0 <= i < n - 1 ==> !#[trigger] ss[i]
}

/// Runs up to `max_cycles` cycles with the inline loop, then serves the
/// 9P device's queues. Returns the number of cycles run: all of them, unless
/// an SBI call the loop cannot answer stopped it early, in which case the
/// CPU has the call pending (at its ECALL) for the machine to finish.
pub fn run_inline_switch<F: FloatArith>(cpu: &mut Cpu, bus: &mut FastBus, max_cycles: u32, fpa: &F) -> (r: u32)
    requires
        old(cpu).wf(),
        old(bus).inv(),
    ensures
        final(cpu).wf(),
        final(bus).inv(),
        r <= max_cycles,
        r < max_cycles ==> final(cpu).pending_sbi_call,
        final(bus).virtio9p.virtio.queue_notify_pending@.len() == 0,
        exists|cs: Seq<Cpu>, bs: Seq<FastBus>, ss: Seq<bool>| {
            &&& cycles_trace(cs, bs, ss, r as nat)
            &&& cs[0] == *old(cpu) && bs[0] == *old(bus)
            &&& *final(cpu) == cs[r as int]
            &&& r < max_cycles ==> r > 0 && ss[r - 1]
            &&& *final(bus) == (FastBus { memory: final(bus).memory, virtio9p: final(bus).virtio9p, ..bs[r as int] })
        },
{
    let mut cycles: u32 = 0;
    let ghost mut cs: Seq<Cpu> = seq![*cpu];
    let ghost mut bs: Seq<FastBus> = seq![*bus];
    let ghost mut ss: Seq<bool> = Seq::empty();
    while cycles < max_cycles
        invariant_except_break
            forall|i: int| 0 <= i < cycles ==> !#[trigger] ss[i],
        invariant
            cpu.wf(),
            bus.inv(),
            cycles <= max_cycles,
            cycles_trace(cs, bs, ss, cycles as nat),
            cs[0] == *old(cpu) && bs[0] == *old(bus),
            cs[cycles as int] == *cpu && bs[cycles as int] == *bus,
        ensures
            cpu.wf(),
            bus.inv(),
            cycles <= max_cycles,
            cycles < max_cycles ==> cpu.pending_sbi_call,
            cycles_trace(cs, bs, ss, cycles as nat),
            cs[0] == *old(cpu) && bs[0] == *old(bus),
            cs[cycles as int] == *cpu && bs[cycles as int] == *bus,
            cycles < max_cycles ==> cycles > 0 && ss[cycles - 1],
        decreases max_cycles - cycles,
    {
        let ghost c0 = *cpu;
        let ghost b0 = *bus;
        let stop = inline_cycle(cpu, bus, cycles, fpa);
        proof {
            let ocs = cs;
            let obs = bs;
            let oss = ss;
            cs = cs.push(*cpu);
            bs = bs.push(*bus);
            ss = ss.push(stop);
            assert forall|i: int| 0 <= i < cycles + 1 implies #[trigger] cycle_at(cs, bs, ss, i) by {
                if i < cycles {
                    assert(cycle_at(ocs, obs, oss, i));
                }
            }
        }
        cycles = cycles + 1;
        if stop {
            break;
        }
    }
    bus.virtio9p.process_queues(&mut bus.memory);
    cycles
}

} // verus!
