//! The 64-bit machine: an RV64 hart with the same memory map and devices as
//! the 32-bit one.

use vstd::prelude::*;
use crate::cpu::PrivilegeLevel;
use crate::cpu::rv64::{Cpu64, reg_value64, regs_after64, step_post64};
use crate::cpu::rv64::csr::Csr64;
use crate::cpu::rv64::trap::{spec_pending_interrupt64, trap_taken64};
use crate::cpu::rv64::csr::{MIP_STIP, MIP_MTIP, MIP_MSIP, MIP_MEIP, MIP_SEIP};
use crate::cpu::rv64::trap::Trap64;
use crate::memory::{Memory, Bus, DRAM_BASE};
use crate::devices::{Uart, Clint, Plic, Virtio9p};
use crate::devices::clint::{clint_write32, timer_checked, ClintState};
use crate::devices::uart::uart_after_write;
use crate::devices::dtb::generate_fdt;
use crate::cpu::rv32::run_inline_switch::{FastBus, UART_IRQ};
use crate::system::{invalid_ram_message, no_room_for_initrd_message, lemma_loaded_dtb_magic, boot_fits, initrd_len};

verus! {

/// SBI return codes, as 64-bit register values.
pub const SBI64_SUCCESS: u64 = 0;
pub const SBI64_ERR_FAILED: u64 = 0xFFFF_FFFF_FFFF_FFFF;
pub const SBI64_ERR_NOT_SUPPORTED: u64 = 0xFFFF_FFFF_FFFF_FFFE;

/// SBI extension IDs.
pub const SBI64_EXT_LEGACY_SET_TIMER: u64 = 0;
pub const SBI64_EXT_LEGACY_CONSOLE_PUTCHAR: u64 = 1;
pub const SBI64_EXT_LEGACY_CONSOLE_GETCHAR: u64 = 2;
pub const SBI64_EXT_BASE: u64 = 0x10;
pub const SBI64_EXT_TIME: u64 = 0x54494D45;
pub const SBI64_EXT_IPI: u64 = 0x735049;
pub const SBI64_EXT_RFENCE: u64 = 0x52464E43;
pub const SBI64_EXT_HSM: u64 = 0x48534D;
pub const SBI64_EXT_SRST: u64 = 0x53525354;

/// Cycles between timer updates and interrupt checks.
pub const TIMER_BATCH64: u32 = 64;

/// Does extension `eid` answer probes as available?
pub open spec fn sbi_probe64(eid: u64) -> u64 {
    if eid == SBI64_EXT_LEGACY_SET_TIMER || eid == SBI64_EXT_LEGACY_CONSOLE_PUTCHAR
        || eid == SBI64_EXT_LEGACY_CONSOLE_GETCHAR || eid == SBI64_EXT_BASE || eid == SBI64_EXT_TIME { 1 } else { 0 }
}

/// The (error, value) pair an SBI call returns in a0/a1.
pub open spec fn sbi_result64(eid: u64, fid: u64, a0: u64) -> (u64, u64) {
    if eid == SBI64_EXT_LEGACY_SET_TIMER || eid == SBI64_EXT_LEGACY_CONSOLE_PUTCHAR { (SBI64_SUCCESS, 0) }
    else if eid == SBI64_EXT_LEGACY_CONSOLE_GETCHAR { (SBI64_ERR_FAILED, 0) }
    else if eid == SBI64_EXT_BASE {
        if fid == 0 { (SBI64_SUCCESS, 2) }
        else if fid == 1 || fid == 2 { (SBI64_SUCCESS, 0) }
        else if fid == 3 { (SBI64_SUCCESS, sbi_probe64(a0)) }
        else if 4 <= fid <= 6 { (SBI64_SUCCESS, 0) }
        else { (SBI64_ERR_NOT_SUPPORTED, 0) }
    }
    else if eid == SBI64_EXT_TIME { if fid == 0 { (SBI64_SUCCESS, 0) } else { (SBI64_ERR_NOT_SUPPORTED, 0) } }
    else if eid == SBI64_EXT_IPI || eid == SBI64_EXT_RFENCE || eid == SBI64_EXT_HSM { (SBI64_SUCCESS, 0) }
    else if eid == SBI64_EXT_SRST { if fid == 0 { (SBI64_SUCCESS, 0) } else { (SBI64_ERR_NOT_SUPPORTED, 0) } }
    else { (SBI64_ERR_NOT_SUPPORTED, 0) }
}

/// Does the call program the timer (legacy set_timer, or TIME set_timer)?
pub open spec fn sbi_sets_timer64(eid: u64, fid: u64) -> bool {
    eid == SBI64_EXT_LEGACY_SET_TIMER || (eid == SBI64_EXT_TIME && fid == 0)
}

/// The SBI answer for a call: the values for a0 and a1.
pub fn sbi_call_result64(eid: u64, fid: u64, a0: u64) -> (r: (u64, u64))
    ensures
        r == sbi_result64(eid, fid, a0),
{
    if eid == SBI64_EXT_LEGACY_SET_TIMER || eid == SBI64_EXT_LEGACY_CONSOLE_PUTCHAR {
        (SBI64_SUCCESS, 0)
    } else if eid == SBI64_EXT_LEGACY_CONSOLE_GETCHAR {
        (SBI64_ERR_FAILED, 0)
    } else if eid == SBI64_EXT_BASE {
        if fid == 0 {
            (SBI64_SUCCESS, 2)
        } else if fid == 1 || fid == 2 {
            (SBI64_SUCCESS, 0)
        } else if fid == 3 {
            let available: u64 = if a0 == SBI64_EXT_LEGACY_SET_TIMER || a0 == SBI64_EXT_LEGACY_CONSOLE_PUTCHAR
                || a0 == SBI64_EXT_LEGACY_CONSOLE_GETCHAR || a0 == SBI64_EXT_BASE || a0 == SBI64_EXT_TIME { 1 } else { 0 };
            (SBI64_SUCCESS, available)
        } else if 4 <= fid && fid <= 6 {
            (SBI64_SUCCESS, 0)
        } else {
            (SBI64_ERR_NOT_SUPPORTED, 0)
        }
    } else if eid == SBI64_EXT_TIME {
        if fid == 0 { (SBI64_SUCCESS, 0) } else { (SBI64_ERR_NOT_SUPPORTED, 0) }
    } else if eid == SBI64_EXT_IPI || eid == SBI64_EXT_RFENCE || eid == SBI64_EXT_HSM {
        (SBI64_SUCCESS, 0)
    } else if eid == SBI64_EXT_SRST {
        if fid == 0 { (SBI64_SUCCESS, 0) } else { (SBI64_ERR_NOT_SUPPORTED, 0) }
    } else {
        (SBI64_ERR_NOT_SUPPORTED, 0)
    }
}

/// mip after the device lines are copied in: timer to MTIP and STIP, software to
/// MSIP, the PLIC's machine and supervisor lines to MEIP and SEIP.
pub open spec fn mip_from_lines64(mip: u64, timer: bool, soft: bool, meip: bool, seip: bool) -> u64 {
    let m1 = if timer { (mip | MIP_MTIP) | MIP_STIP } else { (mip & !MIP_MTIP) & !MIP_STIP };
    let m2 = if soft { m1 | MIP_MSIP } else { m1 & !MIP_MSIP };
    let m3 = if meip { m2 | MIP_MEIP } else { m2 & !MIP_MEIP };
    if seip { m3 | MIP_SEIP } else { m3 & !MIP_SEIP }
}

/// The 64-bit machine.
pub struct System64 {
    pub cpu: Cpu64,
    pub bus: FastBus,
}

/// The state `setup_linux_boot_with_initrd` leaves: at the boot ROM in
/// M-mode, a0 = 0, a1 = a page-aligned address in RAM whose first word holds
/// the device tree magic.
pub open spec fn boot_state64(s: System64) -> bool {
    let a1 = reg_value64(s.cpu.regs@, 11);
    &&& s.cpu.pc == 0x1000
    &&& s.cpu.priv_level == PrivilegeLevel::Machine
    &&& reg_value64(s.cpu.regs@, 10) == 0
    &&& a1 % 0x1000 == 0
    &&& DRAM_BASE <= a1 <= u32::MAX
    &&& s.mem().spec_read32(a1 as u32) == 0xEDFE_0DD0
}

/// A step's result without its instruction count.
pub open spec fn unit_result64(r: Result<u32, Trap64>) -> Result<(), Trap64> {
    match r {
        Ok(_) => Ok(()),
        Err(t) => Err(t),
    }
}

/// The registers after an SBI call answered from `o`: a0 and a1 get the result.
pub open spec fn sbi_regs64(o: Seq<u64>) -> Seq<u64> {
    let res = sbi_result64(reg_value64(o, 17), reg_value64(o, 16), reg_value64(o, 10));
    regs_after64(regs_after64(o, 10, res.0), 11, res.1)
}

/// Ticks until the timer interrupt of `c` is due: none once it is.
pub open spec fn ticks_left(c: ClintState) -> u64 {
    if c.mtime >= c.mtime_compare { 0 } else { (c.mtime_compare - c.mtime) as u64 }
}

/// The batch refresh, from `s0` to `q`: the timer advances 64 ticks, the
/// time CSR follows it, and mip takes the timer, software and external lines
/// (the UART's line reaching the PLIC); nothing else changes.
pub open spec fn refreshed64(s0: System64, q: System64) -> bool {
    let clint = timer_checked(ClintState { mtime: s0.bus.clint@.mtime.wrapping_add(64), ..s0.bus.clint@ });
    &&& q.bus == (FastBus { clint: q.bus.clint, plic: q.bus.plic, ..s0.bus })
    &&& q.bus.clint@ == clint
    &&& q.cpu == (Cpu64 { csr: Csr64 { time: clint.mtime, mip: q.cpu.csr.mip, ..s0.cpu.csr }, ..s0.cpu })
    &&& q.cpu.csr.mip == mip_from_lines64(s0.cpu.csr.mip, clint.timer_interrupt, clint.software_interrupt,
        q.bus.plic@.m_external_interrupt, q.bus.plic@.s_external_interrupt)
}

/// From `q` to `p`: with no interrupt to take nothing changes; a taken one
/// is taken as `trap_taken64` says, the bus left alone.
pub open spec fn interrupt_checked64(q: System64, p: System64) -> bool {
    match spec_pending_interrupt64(q.cpu.csr.mip, q.cpu.csr.mie, q.cpu.csr.mideleg, q.cpu.csr.mstatus,
        q.cpu.priv_level) {
        None => p == q,
        Some(t) => p.bus == q.bus && trap_taken64(q.cpu, p.cpu, t),
    }
}

/// A waiting hart with nothing pending, from `p` at cycle `c0` to `s1` at
/// `c1`: when the timer is due more than one cycle ahead (within the budget)
/// the clock jumps there, else one cycle passes with nothing changed.
pub open spec fn waited64(p: System64, s1: System64, c0: u32, c1: u32, max: u32) -> bool {
    let ticks = ticks_left(p.bus.clint@);
    let skip = if ticks < max - c0 { ticks as int } else { max - c0 };
    &&& p.cpu.wfi && p.cpu.csr.mip & p.cpu.csr.mie == 0
    &&& if ticks > 0 && skip > 1 {
        &&& c1 == c0 + skip
        &&& s1.bus == (FastBus { clint: s1.bus.clint, ..p.bus })
        &&& s1.bus.clint@ == timer_checked(ClintState { mtime: p.bus.clint@.mtime.wrapping_add(skip as u64),
            ..p.bus.clint@ })
        &&& s1.cpu == (Cpu64 { csr: Csr64 { time: s1.bus.clint@.mtime, ..p.cpu.csr }, ..p.cpu })
    } else {
        c1 == c0 + 1 && s1 == p
    }
}

/// After a step that left `c2` on `b2` with result `r`, the machine `s1`: a
/// completed instruction counts one cycle, the VirtIO queues having been
/// served; a trap leaves the count, an SBI call from S-mode is answered and
/// resumes after the ecall, and any other trap is taken as `trap_taken64`
/// says before the cycle is counted.
pub open spec fn instruction_done64(c2: Cpu64, b2: FastBus, r: Result<(), Trap64>, s1: System64) -> bool {
    match r {
        Ok(_) => s1.cpu == (Cpu64 { csr: Csr64 { cycle: c2.csr.cycle.wrapping_add(1), ..c2.csr }, ..c2 })
            && s1.bus == (FastBus { memory: s1.bus.memory, virtio9p: s1.bus.virtio9p, ..b2 }),
        Err(t) => s1.cpu.instruction_count == c2.instruction_count
            && (t == Trap64::EnvironmentCallFromS ==> s1.cpu.pc == c2.pc.wrapping_add(4)
                && s1.cpu.regs@ == sbi_regs64(c2.regs@))
            && (t != Trap64::EnvironmentCallFromS ==> s1.cpu.csr.cycle == c2.csr.cycle.wrapping_add(1)
                && trap_taken64(c2, Cpu64 { csr: Csr64 { cycle: c2.csr.cycle, ..s1.cpu.csr }, ..s1.cpu }, t)
                && s1.bus == (FastBus { memory: s1.bus.memory, virtio9p: s1.bus.virtio9p, ..b2 })),
    }
}

/// From `p` at cycle `c0` to `s1` at `c1`: a waiting hart with nothing
/// pending waits; otherwise it stops waiting and steps once, in one cycle.
pub open spec fn after_prelude64(p: System64, s1: System64, c0: u32, c1: u32, max: u32) -> bool {
    if p.cpu.wfi && p.cpu.csr.mip & p.cpu.csr.mie == 0 {
        waited64(p, s1, c0, c1, max)
    } else {
        &&& c1 == c0 + 1
        &&& exists|c2: Cpu64, b2: FastBus, r: Result<(), Trap64>|
            #[trigger] step_post64(Cpu64 { wfi: false, ..p.cpu }, p.bus, c2, b2, r) && instruction_done64(c2, b2, r, s1)
    }
}

/// One pass of the run loop from `s0` at cycle `c0` to `s1` at `c1`, of a
/// budget of `max` cycles: at a multiple of 64 cycles the batch refresh and
/// interrupt check come first.
pub open spec fn iteration64(s0: System64, s1: System64, c0: u32, c1: u32, max: u32) -> bool {
    &&& c0 < c1 <= max
    &&& if c0 % TIMER_BATCH64 == 0 {
        exists|q: System64, p: System64| #[trigger] refreshed64(s0, q) && #[trigger] interrupt_checked64(q, p)
            && after_prelude64(p, s1, c0, c1, max)
    } else {
        after_prelude64(s0, s1, c0, c1, max)
    }
}

/// Pass `i` of the states `ss` at the cycle counts `cs`.
pub open spec fn pass_of64(ss: Seq<System64>, cs: Seq<u32>, i: int, max: u32) -> bool {
    iteration64(ss[i], ss[i + 1], cs[i], cs[i + 1], max)
}

/// `ss` are the machine's states and `cs` the cycle counts before and after
/// each pass of the run loop, from cycle 0.
pub open spec fn run_trace64(ss: Seq<System64>, cs: Seq<u32>, max: u32) -> bool {
    &&& ss.len() == cs.len() && ss.len() >= 1
    &&& cs[0] == 0
    &&& forall|i: int| 0 <= i < ss.len() - 1 ==> #[trigger] pass_of64(ss, cs, i, max)
}

impl System64 {
    /// Memory and devices are in working order.
    pub open spec fn wf(&self) -> bool {
        &&& self.cpu.wf()
        &&& self.bus.inv()
    }

    /// The RAM and ROM.
    pub open spec fn mem(&self) -> Memory {
        self.bus.memory
    }

    /// The CLINT.
    pub open spec fn clint_state(&self) -> Clint {
        self.bus.clint
    }

    /// The UART.
    pub open spec fn uart_state(&self) -> Uart {
        self.bus.uart
    }

    /// A machine with `ram_size_mb` MiB of RAM (1 to 2048), the boot ROM installed,
    /// and the devices reset. The host filesystem path is not used by this library.
    pub fn new(ram_size_mb: u32, fs_path: Option<&str>) -> (r: Result<System64, String>)
        ensures
            r is Ok <==> 1 <= ram_size_mb <= 2048,
            r matches Ok(s) ==> s.wf() && s.cpu.pc == 0x1000 && s.mem().ram_view().len() == ram_size_mb * 0x10_0000,
    {
        if ram_size_mb == 0 || ram_size_mb > 2048 {
            return Err(invalid_ram_message(ram_size_mb));
        }
        let mut memory = Memory::new(ram_size_mb);
        memory.init_boot_rom();
        let s = System64 {
            cpu: Cpu64::new(),
            bus: FastBus {
                memory,
                uart: Uart::new(UART_IRQ),
                clint: Clint::new(),
                plic: Plic::new(),
                virtio9p: Virtio9p::new("rootfs"),
            },
        };
        Ok(s)
    }

    /// Load a binary into RAM at `addr`.
    pub fn load_binary(&mut self, data: &[u8], addr: u32) -> (r: Result<(), String>)
        requires
            old(self).wf(),
        ensures
            final(self).wf(),
            final(self).cpu == old(self).cpu,
            r.is_ok() <==> (addr >= DRAM_BASE && (addr - DRAM_BASE) + data@.len() <= old(self).mem().ram_view().len()),
            r.is_ok() ==> final(self).mem().ram_view() == old(self).mem().ram_view().subrange(0, addr - DRAM_BASE)
                + data@ + old(self).mem().ram_view().subrange((addr - DRAM_BASE) + data@.len(),
                    old(self).mem().ram_view().len() as int),
            r.is_err() ==> final(self).mem().ram_view() == old(self).mem().ram_view(),
            final(self).mem().rom_view() == old(self).mem().rom_view(),
    {
        self.bus.memory.load_binary(data, addr)
    }

    /// Load a kernel at DRAM_BASE, an optional initrd page-aligned below the
    /// last 64 KiB of RAM (at least 1 MiB above the kernel's end) and a device
    /// tree at the end of RAM, then reset the hart to the boot ROM with
    /// a0 = hart id 0 and a1 = the device tree.
    pub fn setup_linux_boot_with_initrd(&mut self, kernel: &[u8], initrd: Option<&[u8]>, cmdline: &str) -> (r: Result<(), String>)
        requires
            old(self).wf(),
        ensures
            final(self).wf(),
            r is Ok ==> boot_state64(*final(self)),
            r is Ok <==> boot_fits(old(self).mem().ram_view().len(), kernel@.len(), initrd_len(initrd), cmdline),
    {
        proof { crate::bits::lemma_u32_shift_mask(); }
        self.load_binary(kernel, DRAM_BASE)?;
        let ram_size = self.bus.memory.ram_size();
        let ram_size_mb = (ram_size / 1024 / 1024) as u32;
        let ram_end = DRAM_BASE.wrapping_add(ram_size as u32);
        let initrd_info: Option<(u32, u32)> = match initrd {
            Some(initrd_data) => {
                let initrd_end = ram_end.wrapping_sub(64 * 1024) / 0x1000 * 0x1000;
                let below = initrd_end.wrapping_sub(initrd_data.len() as u32);
                let initrd_start = below / 0x1000 * 0x1000;
                let kernel_end = DRAM_BASE.wrapping_add(kernel.len() as u32);
                if initrd_start < kernel_end.wrapping_add(0x10_0000) {
                    return Err(no_room_for_initrd_message(kernel.len(), initrd_data.len()));
                }
                self.load_binary(initrd_data, initrd_start)?;
                Some((initrd_start, initrd_start.wrapping_add(initrd_data.len() as u32)))
            },
            None => None,
        };
        let dtb = generate_fdt(ram_size_mb, cmdline, initrd_info);
        let below = ram_end.wrapping_sub(dtb.len() as u32);
        let dtb_addr = below - below % 0x1000;
        let ghost before = self.mem().ram_view();
        self.load_binary(dtb.as_slice(), dtb_addr)?;
        proof {
            lemma_loaded_dtb_magic(before, self.mem(), dtb_addr, dtb@);
        }
        self.cpu.reset();
        self.cpu.write_reg(10, 0);
        self.cpu.write_reg(11, dtb_addr as u64);
        Ok(())
    }

    /// Answer an SBI call from S-mode: a7 is the extension, a6 the function,
    /// the results go to a0/a1 and execution resumes after the ecall. A timer
    /// request writes a0 to mtimecmp, low word then high word.
    fn handle_sbi_call(&mut self)
        requires
            old(self).wf(),
        ensures
            final(self).wf(),
            ({
                let o = old(self).cpu.regs@;
                let eid = reg_value64(o, 17);
                let fid = reg_value64(o, 16);
                let a0 = reg_value64(o, 10);
                let res = sbi_result64(eid, fid, a0);
                &&& final(self).cpu.regs@ == regs_after64(regs_after64(o, 10, res.0), 11, res.1)
                &&& final(self).cpu.pc == old(self).cpu.pc.wrapping_add(4)
                &&& sbi_sets_timer64(eid, fid) ==> final(self).clint_state()@
                        == clint_write32(clint_write32(old(self).clint_state()@, 0x4000, (a0 % 0x1_0000_0000) as u32),
                            0x4004, (a0 / 0x1_0000_0000) as u32)
                &&& !sbi_sets_timer64(eid, fid) ==> final(self).clint_state()@ == old(self).clint_state()@
                &&& eid == SBI64_EXT_LEGACY_CONSOLE_PUTCHAR ==>
                        final(self).uart_state()@ == uart_after_write(old(self).uart_state()@, 0, (a0 % 0x100) as u8)
                &&& eid != SBI64_EXT_LEGACY_CONSOLE_PUTCHAR ==> final(self).uart_state()@ == old(self).uart_state()@
                &&& final(self).cpu.wfi == (old(self).cpu.wfi || (eid == SBI64_EXT_SRST && fid == 0))
                &&& final(self).cpu.csr == old(self).cpu.csr
            }),
            final(self).cpu.instruction_count == old(self).cpu.instruction_count,
    {
        let eid = self.cpu.read_reg(17);
        let fid = self.cpu.read_reg(16);
        let a0 = self.cpu.read_reg(10);
        let (error, value) = sbi_call_result64(eid, fid, a0);
        if eid == SBI64_EXT_LEGACY_SET_TIMER || (eid == SBI64_EXT_TIME && fid == 0) {
            self.bus.clint.write32(0x4000, (a0 % 0x1_0000_0000) as u32);
            self.bus.clint.write32(0x4004, (a0 / 0x1_0000_0000) as u32);
        } else if eid == SBI64_EXT_LEGACY_CONSOLE_PUTCHAR {
            self.bus.uart.write8(0, (a0 % 0x100) as u8);
        } else if eid == SBI64_EXT_SRST && fid == 0 {
            self.cpu.wfi = true;
        }
        self.cpu.write_reg(10, error);
        self.cpu.write_reg(11, value);
        self.cpu.pc = self.cpu.pc.wrapping_add(4);
    }

    /// Copy the device interrupt lines into mip (the UART's line goes through the PLIC).
    fn update_interrupts(&mut self)
        requires
            old(self).wf(),
        ensures
            final(self).wf(),
            final(self).cpu.csr.mip == mip_from_lines64(old(self).cpu.csr.mip, old(self).clint_state()@.timer_interrupt,
                old(self).clint_state()@.software_interrupt, final(self).bus.plic@.m_external_interrupt,
                final(self).bus.plic@.s_external_interrupt),
            final(self).cpu == (Cpu64 { csr: Csr64 { mip: final(self).cpu.csr.mip, ..old(self).cpu.csr }, ..old(self).cpu }),
            final(self).bus == (FastBus { plic: final(self).bus.plic, ..old(self).bus }),
    {
        if self.bus.clint.timer_pending() {
            self.cpu.csr.mip = (self.cpu.csr.mip | MIP_MTIP) | MIP_STIP;
        } else {
            self.cpu.csr.mip = (self.cpu.csr.mip & !MIP_MTIP) & !MIP_STIP;
        }
        if self.bus.clint.software_pending() {
            self.cpu.csr.mip = self.cpu.csr.mip | MIP_MSIP;
        } else {
            self.cpu.csr.mip = self.cpu.csr.mip & !MIP_MSIP;
        }
        if self.bus.uart.has_interrupt() {
            self.bus.plic.raise_interrupt(UART_IRQ);
        } else {
            self.bus.plic.clear_interrupt(UART_IRQ);
        }
        if self.bus.plic.m_external_pending() {
            self.cpu.csr.mip = self.cpu.csr.mip | MIP_MEIP;
        } else {
            self.cpu.csr.mip = self.cpu.csr.mip & !MIP_MEIP;
        }
        if self.bus.plic.s_external_pending() {
            self.cpu.csr.mip = self.cpu.csr.mip | MIP_SEIP;
        } else {
            self.cpu.csr.mip = self.cpu.csr.mip & !MIP_SEIP;
        }
    }

    /// Execute one instruction against the bus, then serve the VirtIO queues;
    /// returns the number of instructions run.
    fn step(&mut self) -> (r: Result<u32, Trap64>)
        requires
            old(self).wf(),
        ensures
            final(self).wf(),
            r matches Ok(n) ==> n == 1,
            exists|b: FastBus| #[trigger] step_post64(old(self).cpu, old(self).bus, final(self).cpu, b, unit_result64(r))
                && final(self).bus == (FastBus { memory: final(self).bus.memory, virtio9p: final(self).bus.virtio9p, ..b }),
    {
        let res = self.cpu.step(&mut self.bus);
        let ghost b = self.bus;
        let ghost c1 = self.cpu;
        assert(step_post64(old(self).cpu, old(self).bus, c1, b, res));
        match res {
            Err(t) => {
                assert(step_post64(old(self).cpu, old(self).bus, self.cpu, b, Err(t)));
                return Err(t);
            },
            Ok(()) => {},
        }
        self.bus.virtio9p.process_queues(&mut self.bus.memory);
        assert(res is Ok);
        assert(self.cpu == c1);
        let ghost u: () = res->Ok_0;
        assert(u == ());
        assert(res == Ok::<(), Trap64>(u));
        assert(unit_result64(Ok(1)) == res);
        Ok(1)
    }

    /// One pass of the run loop at cycle `cycles` of `max_cycles`; returns
    /// the cycle count after it.
    fn run_iteration(&mut self, cycles: u32, max_cycles: u32) -> (next: u32)
        requires
            old(self).wf(),
            cycles < max_cycles,
        ensures
            final(self).wf(),
            iteration64(*old(self), *final(self), cycles, next, max_cycles),
    {
        let ghost q: System64;
        if cycles % TIMER_BATCH64 == 0 {
            self.bus.clint.tick(TIMER_BATCH64 as u64);
            self.cpu.csr.time = self.bus.clint.get_mtime();
            self.update_interrupts();
            proof { q = *self; }
            assert(refreshed64(*old(self), q));
            match self.cpu.check_interrupts() {
                Some(t) => self.cpu.handle_trap(t),
                None => {},
            }
        } else {
            proof { q = *self; }
        }
        let ghost p = *self;
        assert(cycles % TIMER_BATCH64 == 0 ==> interrupt_checked64(q, p));
        if self.cpu.wfi {
            let pending = self.cpu.csr.mip & self.cpu.csr.mie;
            if pending != 0 {
                self.cpu.wfi = false;
            } else {
                let ticks_to_timer = self.bus.clint.ticks_until_interrupt();
                if ticks_to_timer > 0 {
                    let room = (max_cycles - cycles) as u64;
                    let skip = (if ticks_to_timer < room { ticks_to_timer } else { room }) as u32;
                    if skip > 1 {
                        self.bus.clint.tick(skip as u64);
                        self.cpu.csr.time = self.bus.clint.get_mtime();
                        assert(waited64(p, *self, cycles, (cycles + skip) as u32, max_cycles));
                        assert(after_prelude64(p, *self, cycles, (cycles + skip) as u32, max_cycles));
                        return cycles + skip;
                    }
                }
                assert(waited64(p, *self, cycles, (cycles + 1) as u32, max_cycles));
                assert(after_prelude64(p, *self, cycles, (cycles + 1) as u32, max_cycles));
                return cycles + 1;
            }
        }
        let ghost c = self.cpu;
        assert(c == (Cpu64 { wfi: false, ..p.cpu }));
        let res = self.step();
        let ghost c2 = self.cpu;
        let ghost s2 = *self;
        let ghost r: Result<(), Trap64> = unit_result64(res);
        let next = match res {
            Ok(inst_count) => {
                self.cpu.csr.cycle = self.cpu.csr.cycle.wrapping_add(inst_count as u64);
                cycles + inst_count
            },
            Err(trap) => {
                if trap == Trap64::EnvironmentCallFromS {
                    self.handle_sbi_call();
                } else {
                    self.cpu.handle_trap(trap);
                }
                self.cpu.csr.cycle = self.cpu.csr.cycle.wrapping_add(1);
                cycles + 1
            },
        };
        proof {
            let b = choose|b: FastBus| #[trigger] step_post64(c, p.bus, c2, b, r)
                && s2.bus == (FastBus { memory: s2.bus.memory, virtio9p: s2.bus.virtio9p, ..b });
            assert(instruction_done64(c2, b, r, *self));
            assert(after_prelude64(p, *self, cycles, next, max_cycles));
        }
        next
    }

    /// Run for `max_cycles` cycles: every 64 cycles the timer advances 64
    /// ticks and interrupts are checked; a hart waiting for an interrupt with
    /// none pending skips ahead to the timer interrupt (within the budget).
    /// Returns the number of cycles run; the passes of the loop are as
    /// `iteration64` says, from the first cycle to the last.
    pub fn run(&mut self, max_cycles: u32) -> (r: u32)
        requires
            old(self).wf(),
        ensures
            final(self).wf(),
            r == max_cycles,
            exists|ss: Seq<System64>, cs: Seq<u32>| run_trace64(ss, cs, max_cycles) && ss[0] == *old(self)
                && ss.last() == *final(self) && cs.last() == r,
    {
        let mut cycles: u32 = 0;
        let ghost mut ss: Seq<System64> = seq![*self];
        let ghost mut cs: Seq<u32> = seq![0u32];
        while cycles < max_cycles
            invariant
                self.wf(),
                cycles <= max_cycles,
                run_trace64(ss, cs, max_cycles),
                ss[0] == *old(self),
                ss.last() == *self,
                cs.last() == cycles,
            decreases max_cycles - cycles,
        {
            let ghost (ss0, cs0) = (ss, cs);
            let next = self.run_iteration(cycles, max_cycles);
            proof {
                ss = ss0.push(*self);
                cs = cs0.push(next);
                assert forall|i: int| 0 <= i < ss.len() - 1 implies #[trigger] pass_of64(ss, cs, i, max_cycles) by {
                    if i < ss0.len() - 1 {
                        assert(pass_of64(ss0, cs0, i, max_cycles));
                    }
                }
            }
            cycles = next;
        }
        cycles
    }

    /// Is the hart waiting for an interrupt?
    pub fn is_halted(&self) -> (r: bool)
        ensures
            r == self.cpu.wfi,
    {
        self.cpu.wfi
    }

    /// A character from the host keyboard.
    pub fn uart_receive(&mut self, c: u8)
        ensures
            final(self).uart_state()@ == crate::devices::uart::uart_after_receive(old(self).uart_state()@, c),
            final(self).cpu == old(self).cpu,
            final(self).mem() == old(self).mem(),
            old(self).wf() ==> final(self).wf(),
    {
        self.bus.uart.receive_char(c);
    }

    /// The UART output produced since the last call.
    pub fn uart_get_output(&mut self) -> (r: Vec<u8>)
        ensures
            r@ == old(self).uart_state()@.tx,
            final(self).uart_state()@.tx.len() == 0,
            final(self).cpu == old(self).cpu,
            final(self).mem() == old(self).mem(),
            old(self).wf() ==> final(self).wf(),
    {
        self.bus.uart.get_output()
    }

    pub fn get_pc(&self) -> (r: u64)
        ensures
            r == self.cpu.pc,
    {
        self.cpu.pc
    }

    pub fn get_instruction_count(&self) -> (r: u64)
        ensures
            r == self.cpu.instruction_count,
    {
        self.cpu.instruction_count
    }

    /// TLB hits and misses.
    pub fn get_tlb_stats(&self) -> (r: (u64, u64))
        ensures
            r == self.cpu.mmu.stats(),
    {
        self.cpu.mmu.tlb_stats()
    }

    /// `size` bytes from `addr` without side effects; bytes below RAM read as 0.
    pub fn read_memory(&self, addr: u32, size: u32) -> (r: Vec<u8>)
        requires
            self.wf(),
            addr as int + size as int <= u32::MAX + 1,
        ensures
            r@.len() == size,
            forall|i: int| 0 <= i < size ==> #[trigger] r@[i]
                == if addr + i >= DRAM_BASE { self.mem().spec_read8((addr + i) as u32) } else { 0 },
    {
        let mut data: Vec<u8> = Vec::new();
        let mut i: u32 = 0;
        while i < size
            invariant
                i <= size,
                addr as int + size as int <= u32::MAX + 1,
                self.wf(),
                data@.len() == i,
                forall|j: int| 0 <= j < i ==> #[trigger] data@[j]
                    == if addr + j >= DRAM_BASE { self.mem().spec_read8((addr + j) as u32) } else { 0 },
            decreases size - i,
        {
            let read_addr = addr + i;
            if read_addr >= DRAM_BASE {
                data.push(self.bus.memory.read8(read_addr));
            } else {
                data.push(0);
            }
            i = i + 1;
        }
        data
    }

    /// Reset CPU, RAM and devices (the boot ROM stays).
    pub fn reset(&mut self)
        requires
            old(self).wf(),
        ensures
            final(self).wf(),
            final(self).cpu.pc == 0x1000,
            final(self).mem().ram_view() == Seq::new(old(self).mem().ram_view().len(), |i: int| 0u8),
            final(self).mem().rom_view() == old(self).mem().rom_view(),
    {
        self.cpu.reset();
        self.bus.memory.reset();
        self.bus.uart.reset();
        self.bus.clint.reset();
        self.bus.plic.reset();
        self.bus.virtio9p.reset();
    }
}

} // verus!
