//! The machine: a 32-bit CPU with RAM, boot ROM and devices on one bus,
//! the SBI services the emulator answers itself, and Linux boot setup.

use vstd::prelude::*;
use crate::cpu::{PrivilegeLevel};
use crate::cpu::fpu::FloatArith;
use crate::cpu::rv32::{Cpu, reg_value, regs_after, step_post};
use crate::cpu::trap::{spec_pending_interrupt, trap_taken};
use crate::cpu::rv32::csr::{Csr, MIP_STIP, MIP_MTIP, MIP_MSIP, MIP_MEIP, MIP_SEIP};
use crate::cpu::trap::Trap;
use crate::memory::{Memory, Bus, DRAM_BASE};
use crate::devices::{Uart, Clint, Plic, Virtio9p};
use crate::devices::virtio_9p::p9_inv;
use crate::devices::clint::{clint_write32, timer_checked, ClintState};
use crate::devices::uart::uart_after_write;
use crate::devices::dtb::{generate_fdt, fdt_image};
use crate::cpu::rv32::run_inline_switch::{FastBus, UART_IRQ};
pub use crate::cpu::rv32::run_inline_switch::{CLINT_BASE, CLINT_SIZE, UART_BASE, UART_SIZE, PLIC_BASE, PLIC_SIZE,
    VIRTIO_BASE, VIRTIO_SIZE};

verus! {

/// SBI return codes.
pub const SBI_SUCCESS: u32 = 0;
pub const SBI_ERR_FAILED: u32 = 0xFFFF_FFFF;
pub const SBI_ERR_NOT_SUPPORTED: u32 = 0xFFFF_FFFE;

/// SBI extension IDs.
pub const SBI_EXT_LEGACY_SET_TIMER: u32 = 0;
pub const SBI_EXT_LEGACY_CONSOLE_PUTCHAR: u32 = 1;
pub const SBI_EXT_LEGACY_CONSOLE_GETCHAR: u32 = 2;
pub const SBI_EXT_BASE: u32 = 0x10;
pub const SBI_EXT_TIME: u32 = 0x54494D45;
pub const SBI_EXT_IPI: u32 = 0x735049;
pub const SBI_EXT_RFENCE: u32 = 0x52464E43;
pub const SBI_EXT_HSM: u32 = 0x48534D;
pub const SBI_EXT_SRST: u32 = 0x53525354;

/// Does extension `eid` answer probes as available?
pub open spec fn sbi_probe(eid: u32) -> u32 {
    if eid == SBI_EXT_LEGACY_SET_TIMER || eid == SBI_EXT_LEGACY_CONSOLE_PUTCHAR
        || eid == SBI_EXT_LEGACY_CONSOLE_GETCHAR || eid == SBI_EXT_BASE || eid == SBI_EXT_TIME { 1 } else { 0 }
}

/// The (error, value) pair an SBI call returns in a0/a1.
pub open spec fn sbi_result(eid: u32, fid: u32, a0: u32) -> (u32, u32) {
    if eid == SBI_EXT_LEGACY_SET_TIMER || eid == SBI_EXT_LEGACY_CONSOLE_PUTCHAR { (SBI_SUCCESS, 0) }
    else if eid == SBI_EXT_LEGACY_CONSOLE_GETCHAR { (SBI_ERR_FAILED, 0) }
    else if eid == SBI_EXT_BASE {
        if fid == 0 { (SBI_SUCCESS, 2) }
        else if fid == 1 || fid == 2 { (SBI_SUCCESS, 0) }
        else if fid == 3 { (SBI_SUCCESS, sbi_probe(a0)) }
        else if 4 <= fid <= 6 { (SBI_SUCCESS, 0) }
        else { (SBI_ERR_NOT_SUPPORTED, 0) }
    }
    else if eid == SBI_EXT_TIME { if fid == 0 { (SBI_SUCCESS, 0) } else { (SBI_ERR_NOT_SUPPORTED, 0) } }
    else if eid == SBI_EXT_IPI || eid == SBI_EXT_RFENCE || eid == SBI_EXT_HSM { (SBI_SUCCESS, 0) }
    else if eid == SBI_EXT_SRST { if fid == 0 { (SBI_SUCCESS, 0) } else { (SBI_ERR_NOT_SUPPORTED, 0) } }
    else { (SBI_ERR_NOT_SUPPORTED, 0) }
}

/// Does the call program the timer (legacy set_timer, or TIME set_timer)?
pub open spec fn sbi_sets_timer(eid: u32, fid: u32) -> bool {
    eid == SBI_EXT_LEGACY_SET_TIMER || (eid == SBI_EXT_TIME && fid == 0)
}

/// The SBI answer for a call: the values for a0 and a1.
pub fn sbi_call_result(eid: u32, fid: u32, a0: u32) -> (r: (u32, u32))
    ensures
        r == sbi_result(eid, fid, a0),
{
    if eid == SBI_EXT_LEGACY_SET_TIMER || eid == SBI_EXT_LEGACY_CONSOLE_PUTCHAR {
        (SBI_SUCCESS, 0)
    } else if eid == SBI_EXT_LEGACY_CONSOLE_GETCHAR {
        (SBI_ERR_FAILED, 0)
    } else if eid == SBI_EXT_BASE {
        if fid == 0 {
            (SBI_SUCCESS, 2)
        } else if fid == 1 || fid == 2 {
            (SBI_SUCCESS, 0)
        } else if fid == 3 {
            let available: u32 = if a0 == SBI_EXT_LEGACY_SET_TIMER || a0 == SBI_EXT_LEGACY_CONSOLE_PUTCHAR
                || a0 == SBI_EXT_LEGACY_CONSOLE_GETCHAR || a0 == SBI_EXT_BASE || a0 == SBI_EXT_TIME { 1 } else { 0 };
            (SBI_SUCCESS, available)
        } else if 4 <= fid && fid <= 6 {
            (SBI_SUCCESS, 0)
        } else {
            (SBI_ERR_NOT_SUPPORTED, 0)
        }
    } else if eid == SBI_EXT_TIME {
        if fid == 0 { (SBI_SUCCESS, 0) } else { (SBI_ERR_NOT_SUPPORTED, 0) }
    } else if eid == SBI_EXT_IPI || eid == SBI_EXT_RFENCE || eid == SBI_EXT_HSM {
        (SBI_SUCCESS, 0)
    } else if eid == SBI_EXT_SRST {
        if fid == 0 { (SBI_SUCCESS, 0) } else { (SBI_ERR_NOT_SUPPORTED, 0) }
    } else {
        (SBI_ERR_NOT_SUPPORTED, 0)
    }
}

/// mip after the device lines are copied in: timer to MTIP and STIP, software to
/// MSIP, the PLIC's machine and supervisor lines to MEIP and SEIP.
pub open spec fn mip_from_lines(mip: u32, timer: bool, soft: bool, meip: bool, seip: bool) -> u32 {
    let m1 = if timer { (mip | MIP_MTIP) | MIP_STIP } else { (mip & !MIP_MTIP) & !MIP_STIP };
    let m2 = if soft { m1 | MIP_MSIP } else { m1 & !MIP_MSIP };
    let m3 = if meip { m2 | MIP_MEIP } else { m2 & !MIP_MEIP };
    if seip { m3 | MIP_SEIP } else { m3 & !MIP_SEIP }
}

/// Where a device tree of `len` bytes goes: page-aligned, ending at most at `ram_end`.
pub open spec fn dtb_addr_for(ram_end: u32, len: nat) -> u32 {
    let below = ram_end.wrapping_sub(len as u32);
    (below - below % 0x1000) as u32
}

/// `len` bytes at `a` lie inside `ram_len` bytes of RAM.
pub open spec fn fits_in_ram(a: u32, len: nat, ram_len: nat) -> bool {
    a >= DRAM_BASE && (a - DRAM_BASE) + len <= ram_len
}

/// Where an initrd of `len` bytes goes: page-aligned, ending page-aligned
/// below the last 64 KiB of RAM.
pub open spec fn initrd_start_for(ram_end: u32, len: nat) -> u32 {
    let end = ram_end.wrapping_sub(0x1_0000u32) & 0xFFFF_F000u32;
    end.wrapping_sub(len as u32) & 0xFFFF_F000u32
}

/// The initrd range placed for an initrd of `len` bytes.
pub open spec fn initrd_range_for(ram_end: u32, len: nat) -> (u32, u32) {
    let st = initrd_start_for(ram_end, len);
    (st, st.wrapping_add(len as u32))
}

/// Does a Linux boot with this kernel, initrd and command line fit in `ram_len`
/// bytes of RAM: the kernel at `DRAM_BASE`, the initrd at least 1 MiB above
/// the kernel's end, and the device tree at the end of RAM?
pub open spec fn boot_fits(ram_len: nat, kernel_len: nat, initrd_len: Option<nat>, cmdline: &str) -> bool {
    let ram_end = DRAM_BASE.wrapping_add(ram_len as u32);
    let mb = (ram_len / 0x10_0000) as u32;
    &&& kernel_len <= ram_len
    &&& match initrd_len {
        None => {
            let img = fdt_image(mb, cmdline, None);
            fits_in_ram(dtb_addr_for(ram_end, img.len()), img.len(), ram_len)
        },
        Some(n) => {
            let st = initrd_start_for(ram_end, n);
            let img = fdt_image(mb, cmdline, Some(initrd_range_for(ram_end, n)));
            &&& st >= DRAM_BASE.wrapping_add(kernel_len as u32).wrapping_add(0x10_0000)
            &&& fits_in_ram(st, n, ram_len)
            &&& fits_in_ram(dtb_addr_for(ram_end, img.len()), img.len(), ram_len)
        },
    }
}

/// The length of an optional initrd.
/// Where the device tree goes at boot: page-aligned, ending at the end of
/// RAM, for RAM of `ram_len` bytes, an initrd of `initrd_len` bytes if any
/// and the command line `cmdline`.
pub open spec fn boot_dtb_addr(ram_len: nat, initrd_len: Option<nat>, cmdline: &str) -> u32 {
    let ram_end = DRAM_BASE.wrapping_add(ram_len as u32);
    let mb = (ram_len / 0x10_0000) as u32;
    let img = match initrd_len {
        None => fdt_image(mb, cmdline, None),
        Some(n) => fdt_image(mb, cmdline, Some(initrd_range_for(ram_end, n))),
    };
    dtb_addr_for(ram_end, img.len())
}

/// The RAM offsets below which the kernel image stays intact at boot: below
/// the device tree, and below the initrd if there is one.
pub open spec fn kernel_kept_below(ram_len: nat, initrd_len: Option<nat>, cmdline: &str) -> int {
    let d = boot_dtb_addr(ram_len, initrd_len, cmdline) - DRAM_BASE;
    match initrd_len {
        None => d,
        Some(n) => {
            let st = initrd_start_for(DRAM_BASE.wrapping_add(ram_len as u32), n) - DRAM_BASE;
            if st < d { st } else { d }
        },
    }
}

/// Loading `data` at offset `a` of RAM keeps the kernel image below `a`.
proof fn lemma_load_keeps_kernel(before: Seq<u8>, after: Seq<u8>, a: int, data: Seq<u8>, kernel: Seq<u8>, limit: int)
    requires
        0 <= a,
        a + data.len() <= before.len(),
        after == before.subrange(0, a) + data + before.subrange(a + data.len(), before.len() as int),
        kernel_loaded(before, kernel, limit),
    ensures
        kernel_loaded(after, kernel, if a < limit { a } else { limit }),
{
    assert forall|k: int| 0 <= k < kernel.len() && k < (if a < limit { a } else { limit }) implies #[trigger] after[k] == kernel[k] by {
        assert(after[k] == before[k]);
    }
}

/// RAM `ram` holds the kernel image from its start, up to offset `limit`.
pub open spec fn kernel_loaded(ram: Seq<u8>, kernel: Seq<u8>, limit: int) -> bool {
    forall|k: int| 0 <= k < kernel.len() && k < limit ==> #[trigger] ram[k] == kernel[k]
}

pub open spec fn initrd_len(initrd: Option<&[u8]>) -> Option<nat> {
    match initrd {
        Some(d) => Some(d@.len()),
        None => None,
    }
}

/// The whole machine.
pub struct System {
    pub cpu: Cpu,
    pub bus: FastBus,
}

/// The error text for an unsupported RAM size.
#[verifier::external_body]
pub(crate) fn invalid_ram_message(ram_size_mb: u32) -> String {
    format!("Invalid RAM size: {}MB", ram_size_mb)
}

/// The error text for a kernel and initrd that do not fit in RAM.
#[verifier::external_body]
pub(crate) fn no_room_for_initrd_message(kernel_len: usize, initrd_len: usize) -> String {
    format!("Not enough RAM for kernel ({} bytes) and initrd ({} bytes)", kernel_len, initrd_len)
}

/// The CSR state the boot ROM leaves when it enters the kernel in S-mode:
/// exceptions 0-8 and 12-15 and the supervisor interrupts delegated, the SBI
/// handler as trap vector, counters readable, and mret's effect on mstatus.
pub open spec fn boot_csr(c: Csr) -> Csr {
    Csr { medeleg: 0xB1FF, mideleg: 0x222, mstatus: 0x88, mepc: DRAM_BASE, mtvec: 0x1080, mcounteren: 7, ..c }
}

/// The registers after an SBI call answered from `o`: a0 and a1 get the result.
pub open spec fn sbi_regs(o: Seq<u32>) -> Seq<u32> {
    let res = sbi_result(reg_value(o, 17), reg_value(o, 16), reg_value(o, 10));
    regs_after(regs_after(o, 10, res.0), 11, res.1)
}

/// The start of a cycle, from `s0` to `q`: the timer advances one tick, the
/// time CSR follows it, and mip takes the timer, software and external lines
/// (the UART's line reaching the PLIC); nothing else changes.
pub open spec fn refreshed(s0: System, q: System) -> bool {
    let clint = timer_checked(ClintState { mtime: s0.bus.clint@.mtime.wrapping_add(1), ..s0.bus.clint@ });
    &&& q.bus == (FastBus { clint: q.bus.clint, plic: q.bus.plic, ..s0.bus })
    &&& q.bus.clint@ == clint
    &&& q.cpu == (Cpu { csr: Csr { time: clint.mtime, mip: q.cpu.csr.mip, ..s0.cpu.csr }, ..s0.cpu })
    &&& q.cpu.csr.mip == mip_from_lines(s0.cpu.csr.mip, clint.timer_interrupt, clint.software_interrupt,
        q.bus.plic@.m_external_interrupt, q.bus.plic@.s_external_interrupt)
}

/// From `q` to `p`: with no interrupt to take nothing changes; a taken one
/// is taken as `trap_taken` says, the bus left alone.
pub open spec fn interrupt_checked(q: System, p: System) -> bool {
    match spec_pending_interrupt(q.cpu.csr.mip, q.cpu.csr.mie, q.cpu.csr.mideleg, q.cpu.csr.mstatus, q.cpu.priv_level) {
        None => p == q,
        Some(t) => p.bus == q.bus && trap_taken(q.cpu, p.cpu, t),
    }
}

/// After a step that left `c2` on `b2` with result `r`, the machine `s1`: a
/// completed instruction counts one cycle, the VirtIO queues having been
/// served; a trap leaves the count, an SBI call from S-mode is answered and
/// resumes after the ecall, and any other trap is taken as `trap_taken` says
/// before the cycle is counted.
pub open spec fn instruction_done(c2: Cpu, b2: FastBus, r: Result<(), Trap>, s1: System) -> bool {
    match r {
        Ok(_) => s1.cpu == (Cpu { csr: Csr { cycle: c2.csr.cycle.wrapping_add(1), ..c2.csr }, ..c2 })
            && s1.bus == (FastBus { memory: s1.bus.memory, virtio9p: s1.bus.virtio9p, ..b2 }),
        Err(t) => s1.cpu.instruction_count == c2.instruction_count
            && (t == Trap::EnvironmentCallFromS ==> s1.cpu.pc == c2.pc.wrapping_add(4)
                && s1.cpu.regs@ == sbi_regs(c2.regs@))
            && (t != Trap::EnvironmentCallFromS ==> s1.cpu.csr.cycle == c2.csr.cycle.wrapping_add(1)
                && trap_taken(c2, Cpu { csr: Csr { cycle: c2.csr.cycle, ..s1.cpu.csr }, ..s1.cpu }, t)
                && s1.bus == (FastBus { memory: s1.bus.memory, virtio9p: s1.bus.virtio9p, ..b2 })),
    }
}

/// From `p` to `s1`: a hart waiting with no enabled interrupt pending stays
/// as it is; otherwise it stops waiting and steps once.
pub open spec fn executed(p: System, s1: System) -> bool {
    if p.cpu.wfi && p.cpu.csr.mip & p.cpu.csr.mie == 0 {
        s1 == p
    } else {
        exists|c2: Cpu, b2: FastBus, r: Result<(), Trap>|
            #[trigger] step_post(Cpu { wfi: false, ..p.cpu }, p.bus, c2, b2, r) && instruction_done(c2, b2, r, s1)
    }
}

/// One cycle of the machine from `s0` to `s1`.
pub open spec fn system_cycle(s0: System, s1: System) -> bool {
    exists|q: System, p: System| #[trigger] refreshed(s0, q) && #[trigger] interrupt_checked(q, p) && executed(p, s1)
}

/// Cycle `i` of the states `ss`.
pub open spec fn cycle_of(ss: Seq<System>, i: int) -> bool {
    system_cycle(ss[i], ss[i + 1])
}

/// `ss` are the machine's states before and after each of `n` cycles.
pub open spec fn system_trace(ss: Seq<System>, n: nat) -> bool {
    &&& ss.len() == n + 1
    &&& forall|i: int| 0 <= i < n ==> #[trigger] cycle_of(ss, i)
}

impl System {
    /// Memory and devices are in working order.
    pub open spec fn wf(&self) -> bool {
        &&& self.cpu.wf()
        &&& self.bus.inv()
    }

    /// The RAM and ROM.
    pub open spec fn mem(&self) -> Memory {
        self.bus.memory
    }

    /// The CLINT.
    pub open spec fn clint_state(&self) -> Clint {
        self.bus.clint
    }

    /// The UART.
    pub open spec fn uart_state(&self) -> Uart {
        self.bus.uart
    }

    /// A machine with `ram_size_mb` MiB of RAM (1 to 2048), the boot ROM installed,
    /// and the devices reset. The host filesystem path is not used by this library.
    pub fn new(ram_size_mb: u32, fs_path: Option<&str>) -> (r: Result<System, String>)
        ensures
            r is Ok <==> 1 <= ram_size_mb <= 2048,
            r matches Ok(s) ==> s.wf() && s.cpu.pc == 0x1000 && s.mem().ram_view().len() == ram_size_mb * 0x10_0000,
    {
        if ram_size_mb == 0 || ram_size_mb > 2048 {
            return Err(invalid_ram_message(ram_size_mb));
        }
        let mut memory = Memory::new(ram_size_mb);
        memory.init_boot_rom();
        let s = System {
            cpu: Cpu::new(),
            bus: FastBus {
                memory,
                uart: Uart::new(UART_IRQ),
                clint: Clint::new(),
                plic: Plic::new(),
                virtio9p: Virtio9p::new("rootfs"),
            },
        };
        proof { assert(s.bus.memory.ram_view().len() == ram_size_mb * 0x10_0000); }
        Ok(s)
    }

    /// The RAM and ROM.
    pub fn memory(&self) -> (m: &Memory)
        ensures
            *m == self.mem(),
    {
        &self.bus.memory
    }

    /// Load a binary into RAM at `addr`.
    pub fn load_binary(&mut self, data: &[u8], addr: u32) -> (r: Result<(), String>)
        requires
            old(self).wf(),
        ensures
            final(self).wf(),
            final(self).cpu == old(self).cpu,
            r.is_ok() <==> (addr >= DRAM_BASE && (addr - DRAM_BASE) + data@.len() <= old(self).mem().ram_view().len()),
            r.is_ok() ==> final(self).mem().ram_view() == old(self).mem().ram_view().subrange(0, addr - DRAM_BASE)
                + data@ + old(self).mem().ram_view().subrange((addr - DRAM_BASE) + data@.len(),
                    old(self).mem().ram_view().len() as int),
            r.is_err() ==> final(self).mem().ram_view() == old(self).mem().ram_view(),
            final(self).mem().rom_view() == old(self).mem().rom_view(),
    {
        self.bus.memory.load_binary(data, addr)
    }

    /// Load a kernel at DRAM_BASE and a device tree at the end of RAM, and
    /// enter the kernel in S-mode with a0 = hart id 0 and a1 = the device tree.
    pub fn setup_linux_boot(&mut self, kernel: &[u8], cmdline: &str) -> (r: Result<(), String>)
        requires
            old(self).wf(),
        ensures
            final(self).wf(),
            r is Ok ==> boot_state(*final(self)),
            r is Ok <==> boot_fits(old(self).mem().ram_view().len(), kernel@.len(), None, cmdline),
            r is Ok ==> reg_value(final(self).cpu.regs@, 11) == boot_dtb_addr(old(self).mem().ram_view().len(), None, cmdline),
            r is Ok ==> kernel_loaded(final(self).mem().ram_view(), kernel@,
                kernel_kept_below(old(self).mem().ram_view().len(), None, cmdline)),
    {
        self.setup_linux_boot_with_initrd(kernel, None, cmdline)
    }

    /// As `setup_linux_boot`, with an optional initrd placed page-aligned below
    /// the last 64 KiB of RAM (at least 1 MiB above the kernel's end).
    #[verifier::rlimit(40)]
    pub fn setup_linux_boot_with_initrd(&mut self, kernel: &[u8], initrd: Option<&[u8]>, cmdline: &str) -> (r: Result<(), String>)
        requires
            old(self).wf(),
        ensures
            final(self).wf(),
            r is Ok ==> boot_state(*final(self)),
            r is Ok <==> boot_fits(old(self).mem().ram_view().len(), kernel@.len(), initrd_len(initrd), cmdline),
            r is Ok ==> reg_value(final(self).cpu.regs@, 11)
                == boot_dtb_addr(old(self).mem().ram_view().len(), initrd_len(initrd), cmdline),
            r is Ok ==> kernel_loaded(final(self).mem().ram_view(), kernel@,
                kernel_kept_below(old(self).mem().ram_view().len(), initrd_len(initrd), cmdline)),
    {
        proof { crate::bits::lemma_u32_shift_mask(); }
        let ghost ram0 = self.mem().ram_view();
        self.load_binary(kernel, DRAM_BASE)?;
        proof {
            assert forall|k: int| 0 <= k < kernel@.len() && k < ram0.len() implies #[trigger] self.mem().ram_view()[k] == kernel@[k] by {
                assert(self.mem().ram_view() == ram0.subrange(0, 0) + kernel@ + ram0.subrange(kernel@.len() as int, ram0.len() as int));
            }
        }
        let ghost mut lim: int = ram0.len() as int;
        let ram_size = self.bus.memory.ram_size();
        let ram_size_mb = (ram_size / 1024 / 1024) as u32;
        let ram_end = DRAM_BASE.wrapping_add(ram_size as u32);
        let initrd_info: Option<(u32, u32)> = match initrd {
            Some(initrd_data) => {
                let initrd_end = ram_end.wrapping_sub(64 * 1024) & 0xFFFF_F000;
                let initrd_start = initrd_end.wrapping_sub(initrd_data.len() as u32) & 0xFFFF_F000;
                let kernel_end = DRAM_BASE.wrapping_add(kernel.len() as u32);
                if initrd_start < kernel_end.wrapping_add(0x10_0000) {
                    return Err(no_room_for_initrd_message(kernel.len(), initrd_data.len()));
                }
                let ghost before = self.mem().ram_view();
                self.load_binary(initrd_data, initrd_start)?;
                proof {
                    lemma_load_keeps_kernel(before, self.mem().ram_view(), initrd_start - DRAM_BASE, initrd_data@, kernel@, lim);
                    lim = if initrd_start - DRAM_BASE < lim { initrd_start - DRAM_BASE } else { lim };
                }
                Some((initrd_start, initrd_start.wrapping_add(initrd_data.len() as u32)))
            },
            None => None,
        };
        let ghost before_dtb = self.mem().ram_view();
        let dtb_addr = self.place_dtb(ram_size_mb, ram_end, cmdline, initrd_info)?;
        proof {
            let img = fdt_image(ram_size_mb, cmdline, initrd_info);
            lemma_load_keeps_kernel(before_dtb, self.mem().ram_view(), dtb_addr - DRAM_BASE, img, kernel@, lim);
        }
        self.cpu.reset();
        self.cpu.write_reg(10, 0);
        self.cpu.write_reg(11, dtb_addr);
        self.enter_kernel();
        Ok(())
    }

    /// Writes the device tree page-aligned at the end of RAM; returns its address.
    fn place_dtb(&mut self, ram_size_mb: u32, ram_end: u32, cmdline: &str, initrd_info: Option<(u32, u32)>) -> (r: Result<u32, String>)
        requires
            old(self).wf(),
        ensures
            final(self).wf(),
            final(self).cpu == old(self).cpu,
            final(self).mem().ram_view().len() == old(self).mem().ram_view().len(),
            r matches Ok(a) ==> a % 0x1000 == 0 && a >= DRAM_BASE && final(self).mem().spec_read32(a) == 0xEDFE_0DD0,
            ({
                let img = fdt_image(ram_size_mb, cmdline, initrd_info);
                let a = dtb_addr_for(ram_end, img.len());
                &&& r is Ok <==> fits_in_ram(a, img.len(), old(self).mem().ram_view().len())
                &&& r matches Ok(x) ==> x == a && final(self).mem().ram_view() == old(self).mem().ram_view().subrange(0,
                    a - DRAM_BASE) + img + old(self).mem().ram_view().subrange((a - DRAM_BASE) + img.len(),
                    old(self).mem().ram_view().len() as int)
            }),
    {
        let dtb = generate_fdt(ram_size_mb, cmdline, initrd_info);
        let below = ram_end.wrapping_sub(dtb.len() as u32);
        let dtb_addr = below - below % 0x1000;
        let ghost before = self.mem().ram_view();
        self.load_binary(dtb.as_slice(), dtb_addr)?;
        proof {
            lemma_loaded_dtb_magic(before, self.mem(), dtb_addr, dtb@);
        }
        Ok(dtb_addr)
    }

    /// The boot ROM's work done directly: delegation, trap vector, counters,
    /// and the mret into S-mode at DRAM_BASE.
    fn enter_kernel(&mut self)
        requires
            old(self).wf(),
        ensures
            final(self).wf(),
            final(self).cpu.csr == boot_csr(old(self).cpu.csr),
            final(self).cpu.priv_level == PrivilegeLevel::Supervisor,
            final(self).cpu.pc == DRAM_BASE,
            final(self).cpu.regs == old(self).cpu.regs,
            final(self).mem() == old(self).mem(),
    {
        self.cpu.csr.medeleg = 0xB1FF;
        self.cpu.csr.mideleg = 0x222;
        self.cpu.csr.mstatus = 0x88;
        self.cpu.csr.mepc = DRAM_BASE;
        self.cpu.csr.mtvec = 0x1080;
        self.cpu.csr.mcounteren = 7;
        self.cpu.priv_level = PrivilegeLevel::Supervisor;
        self.cpu.pc = DRAM_BASE;
    }

    /// Answer an SBI call from S-mode: a7 is the extension, a6 the function,
    /// the results go to a0/a1 and execution resumes after the ecall.
    fn handle_sbi_call(&mut self)
        requires
            old(self).wf(),
        ensures
            final(self).wf(),
            ({
                let o = old(self).cpu.regs@;
                let eid = reg_value(o, 17);
                let fid = reg_value(o, 16);
                let a0 = reg_value(o, 10);
                let a1 = reg_value(o, 11);
                let res = sbi_result(eid, fid, a0);
                &&& final(self).cpu.regs@ == regs_after(regs_after(o, 10, res.0), 11, res.1)
                &&& final(self).cpu.pc == old(self).cpu.pc.wrapping_add(4)
                &&& sbi_sets_timer(eid, fid) ==> final(self).clint_state()@
                        == clint_write32(clint_write32(old(self).clint_state()@, 0x4000, a0), 0x4004, a1)
                        && final(self).cpu.csr.mip == old(self).cpu.csr.mip & !MIP_STIP
                &&& !sbi_sets_timer(eid, fid) ==> final(self).clint_state()@ == old(self).clint_state()@
                        && final(self).cpu.csr == old(self).cpu.csr
                &&& eid == SBI_EXT_LEGACY_CONSOLE_PUTCHAR ==>
                        final(self).uart_state()@ == uart_after_write(old(self).uart_state()@, 0, (a0 % 0x100) as u8)
                &&& eid != SBI_EXT_LEGACY_CONSOLE_PUTCHAR ==> final(self).uart_state()@ == old(self).uart_state()@
                &&& final(self).cpu.wfi == (old(self).cpu.wfi || (eid == SBI_EXT_SRST && fid == 0))
            }),
            final(self).cpu.instruction_count == old(self).cpu.instruction_count,
    {
        let eid = self.cpu.read_reg(17);
        let fid = self.cpu.read_reg(16);
        let a0 = self.cpu.read_reg(10);
        let a1 = self.cpu.read_reg(11);
        let (error, value) = sbi_call_result(eid, fid, a0);
        if eid == SBI_EXT_LEGACY_SET_TIMER || (eid == SBI_EXT_TIME && fid == 0) {
            self.bus.clint.write32(0x4000, a0);
            self.bus.clint.write32(0x4004, a1);
            self.cpu.csr.clear_interrupt_pending(MIP_STIP);
        } else if eid == SBI_EXT_LEGACY_CONSOLE_PUTCHAR {
            self.bus.uart.write8(0, (a0 % 0x100) as u8);
        } else if eid == SBI_EXT_SRST && fid == 0 {
            self.cpu.wfi = true;
        }
        self.cpu.write_reg(10, error);
        self.cpu.write_reg(11, value);
        self.cpu.pc = self.cpu.pc.wrapping_add(4);
    }

    /// Copy the device interrupt lines into mip (the UART's line goes through the PLIC).
    fn update_interrupts(&mut self)
        requires
            old(self).wf(),
        ensures
            final(self).wf(),
            final(self).cpu.csr.mip == mip_from_lines(old(self).cpu.csr.mip, old(self).clint_state()@.timer_interrupt,
                old(self).clint_state()@.software_interrupt, final(self).bus.plic@.m_external_interrupt,
                final(self).bus.plic@.s_external_interrupt),
            final(self).cpu == (Cpu { csr: Csr { mip: final(self).cpu.csr.mip, ..old(self).cpu.csr }, ..old(self).cpu }),
            final(self).bus == (FastBus { plic: final(self).bus.plic, ..old(self).bus }),
    {
        if self.bus.clint.timer_pending() {
            self.cpu.csr.set_interrupt_pending(MIP_MTIP);
            self.cpu.csr.set_interrupt_pending(MIP_STIP);
        } else {
            self.cpu.csr.clear_interrupt_pending(MIP_MTIP);
            self.cpu.csr.clear_interrupt_pending(MIP_STIP);
        }
        if self.bus.clint.software_pending() {
            self.cpu.csr.set_interrupt_pending(MIP_MSIP);
        } else {
            self.cpu.csr.clear_interrupt_pending(MIP_MSIP);
        }
        if self.bus.uart.has_interrupt() {
            self.bus.plic.raise_interrupt(UART_IRQ);
        } else {
            self.bus.plic.clear_interrupt(UART_IRQ);
        }
        if self.bus.plic.m_external_pending() {
            self.cpu.csr.set_interrupt_pending(MIP_MEIP);
        } else {
            self.cpu.csr.clear_interrupt_pending(MIP_MEIP);
        }
        if self.bus.plic.s_external_pending() {
            self.cpu.csr.set_interrupt_pending(MIP_SEIP);
        } else {
            self.cpu.csr.clear_interrupt_pending(MIP_SEIP);
        }
    }

    /// Execute one instruction against the bus, then serve the VirtIO queues.
    fn step_with_devices<F: FloatArith>(&mut self, fpa: &F) -> (r: Result<(), Trap>)
        requires
            old(self).wf(),
        ensures
            final(self).wf(),
            exists|b: FastBus| #[trigger] step_post(old(self).cpu, old(self).bus, final(self).cpu, b, r)
                && final(self).bus == (FastBus { memory: final(self).bus.memory, virtio9p: final(self).bus.virtio9p, ..b }),
    {
        let result = self.cpu.step(&mut self.bus, fpa);
        let ghost b = self.bus;
        self.bus.virtio9p.process_queues(&mut self.bus.memory);
        assert(step_post(old(self).cpu, old(self).bus, self.cpu, b, result));
        result
    }

    /// One cycle: tick the timer, refresh the interrupt lines and take a
    /// pending interrupt; then, unless the hart waits with nothing pending,
    /// execute one instruction and answer its trap or SBI call.
    fn run_cycle<F: FloatArith>(&mut self, fpa: &F)
        requires
            old(self).wf(),
        ensures
            final(self).wf(),
            system_cycle(*old(self), *final(self)),
    {
        self.bus.clint.tick(1);
        self.cpu.csr.time = self.bus.clint.get_mtime();
        self.update_interrupts();
        let ghost q = *self;
        assert(refreshed(*old(self), q));
        match self.cpu.check_interrupts() {
            Some(t) => self.cpu.handle_trap(t),
            None => {},
        }
        let ghost p = *self;
        assert(interrupt_checked(q, p));
        if self.cpu.wfi {
            let pending = self.cpu.csr.mip & self.cpu.csr.mie;
            if pending != 0 {
                self.cpu.wfi = false;
            } else {
                assert(executed(p, *self));
                return;
            }
        }
        let ghost c = self.cpu;
        assert(c == (Cpu { wfi: false, ..p.cpu }));
        let result = self.step_with_devices(fpa);
        let ghost c2 = self.cpu;
        let ghost s2 = *self;
        match result {
            Ok(()) => {},
            Err(t) => {
                if t == Trap::EnvironmentCallFromS {
                    self.handle_sbi_call();
                } else {
                    self.cpu.handle_trap(t);
                }
            },
        }
        self.cpu.csr.cycle = self.cpu.csr.cycle.wrapping_add(1);
        proof {
            let b = choose|b: FastBus| #[trigger] step_post(c, p.bus, c2, b, result)
                && s2.bus == (FastBus { memory: s2.bus.memory, virtio9p: s2.bus.virtio9p, ..b });
            assert(instruction_done(c2, b, result, *self));
            assert(executed(p, *self));
        }
    }

    /// Run for `max_cycles` cycles (a cycle in which the hart waits for an
    /// interrupt counts too); returns the number of cycles run. The machine
    /// goes through `max_cycles` cycles, each as `system_cycle` says.
    pub fn run<F: FloatArith>(&mut self, max_cycles: u32, fpa: &F) -> (r: u32)
        requires
            old(self).wf(),
        ensures
            final(self).wf(),
            r == max_cycles,
            exists|ss: Seq<System>| system_trace(ss, r as nat) && ss[0] == *old(self) && ss[r as int] == *final(self),
    {
        let mut cycles: u32 = 0;
        let ghost mut ss: Seq<System> = seq![*self];
        while cycles < max_cycles
            invariant
                self.wf(),
                cycles <= max_cycles,
                system_trace(ss, cycles as nat),
                ss[0] == *old(self),
                ss[cycles as int] == *self,
            decreases max_cycles - cycles,
        {
            let ghost before = ss;
            self.run_cycle(fpa);
            proof {
                ss = before.push(*self);
                assert forall|i: int| 0 <= i < cycles + 1 implies #[trigger] cycle_of(ss, i) by {
                    if i < cycles {
                        assert(cycle_of(before, i));
                    }
                }
            }
            cycles = cycles + 1;
        }
        cycles
    }

    /// Is the hart waiting for an interrupt?
    pub fn is_halted(&self) -> (r: bool)
        ensures
            r == self.cpu.wfi,
    {
        self.cpu.wfi
    }

    /// A character from the host keyboard.
    pub fn uart_receive(&mut self, c: u8)
        ensures
            final(self).uart_state()@ == crate::devices::uart::uart_after_receive(old(self).uart_state()@, c),
            final(self).cpu == old(self).cpu,
            final(self).mem() == old(self).mem(),
            final(self).wf() == old(self).wf(),
    {
        self.bus.uart.receive_char(c);
    }

    /// The UART output produced since the last call.
    pub fn uart_get_output(&mut self) -> (r: Vec<u8>)
        ensures
            r@ == old(self).uart_state()@.tx,
            final(self).uart_state()@.tx.len() == 0,
            final(self).cpu == old(self).cpu,
            final(self).mem() == old(self).mem(),
            final(self).wf() == old(self).wf(),
    {
        self.bus.uart.get_output()
    }

    pub fn get_pc(&self) -> (r: u32)
        ensures
            r == self.cpu.pc,
    {
        self.cpu.pc
    }

    pub fn get_instruction_count(&self) -> (r: u64)
        ensures
            r == self.cpu.instruction_count,
    {
        self.cpu.instruction_count
    }

    /// x0-x31.
    pub fn get_registers(&self) -> (r: Vec<u32>)
        ensures
            r@ == self.cpu.regs@,
    {
        let mut v: Vec<u32> = Vec::new();
        let mut i: usize = 0;
        while i < 32
            invariant
                i <= 32,
                v@ == self.cpu.regs@.take(i as int),
            decreases 32 - i,
        {
            v.push(self.cpu.regs[i]);
            i = i + 1;
            assert(v@ =~= self.cpu.regs@.take(i as int));
        }
        assert(self.cpu.regs@.take(32) =~= self.cpu.regs@);
        v
    }

    /// `size` bytes from `addr` without side effects; bytes below RAM read as 0.
    pub fn read_memory(&self, addr: u32, size: u32) -> (r: Vec<u8>)
        requires
            self.wf(),
            addr as int + size as int <= u32::MAX + 1,
        ensures
            r@.len() == size,
            forall|i: int| 0 <= i < size ==> #[trigger] r@[i]
                == if addr + i >= DRAM_BASE { self.mem().spec_read8((addr + i) as u32) } else { 0 },
    {
        let mut data: Vec<u8> = Vec::new();
        let mut i: u32 = 0;
        while i < size
            invariant
                i <= size,
                addr as int + size as int <= u32::MAX + 1,
                self.wf(),
                data@.len() == i,
                forall|j: int| 0 <= j < i ==> #[trigger] data@[j]
                    == if addr + j >= DRAM_BASE { self.mem().spec_read8((addr + j) as u32) } else { 0 },
            decreases size - i,
        {
            let read_addr = addr + i;
            if read_addr >= DRAM_BASE {
                data.push(self.bus.memory.read8(read_addr));
            } else {
                data.push(0);
            }
            i = i + 1;
        }
        data
    }

    /// Reset CPU, RAM and devices (the boot ROM stays).
    pub fn reset(&mut self)
        requires
            old(self).wf(),
        ensures
            final(self).wf(),
            final(self).cpu.pc == 0x1000,
            final(self).mem().ram_view() == Seq::new(old(self).mem().ram_view().len(), |i: int| 0u8),
            final(self).mem().rom_view() == old(self).mem().rom_view(),
    {
        self.cpu.reset();
        self.bus.memory.reset();
        self.bus.uart.reset();
        self.bus.clint.reset();
        self.bus.plic.reset();
        self.bus.virtio9p.reset();
    }

    /// Hashes of file contents the guest is waiting for.
    pub fn get_missing_blobs(&self) -> (r: Vec<String>)
        ensures
            crate::devices::virtio_9p::string_views(r@) == self.bus.virtio9p.missing_blobs.names_view(),
    {
        self.bus.virtio9p.get_missing_blobs()
    }

    /// Supply a file content by hash; waiting requests are retried.
    pub fn provide_blob(&mut self, hash: String, data: Vec<u8>)
        requires
            old(self).wf(),
        ensures
            final(self).wf(),
            final(self).bus.virtio9p.blob_cache.lookup(hash@) == Some(data@),
    {
        self.bus.virtio9p.provide_blob(hash, data, &mut self.bus.memory);
    }
}

/// The state `setup_linux_boot` leaves: in S-mode at the kernel entry, a0 = 0,
/// a1 = a page-aligned address in RAM whose first word holds the device tree magic.
pub open spec fn boot_state(s: System) -> bool {
    let a1 = reg_value(s.cpu.regs@, 11);
    &&& s.cpu.pc == DRAM_BASE
    &&& s.cpu.priv_level == PrivilegeLevel::Supervisor
    &&& reg_value(s.cpu.regs@, 10) == 0
    &&& a1 % 0x1000 == 0
    &&& a1 >= DRAM_BASE
    &&& s.mem().spec_read32(a1) == 0xEDFE_0DD0
}

/// A device tree loaded at `a` in RAM reads back, as a little-endian word, as the byte-swapped magic.
/// After a load of `dtb` at `a`, RAM starts with the device-tree magic there.
pub(crate) proof fn lemma_loaded_dtb_magic(before: Seq<u8>, m: Memory, a: u32, dtb: Seq<u8>)
    requires
        a >= DRAM_BASE,
        a % 0x1000 == 0,
        dtb.len() >= 4,
        dtb.subrange(0, 4) == crate::devices::dtb::be32_seq(crate::devices::dtb::FDT_MAGIC),
        (a - DRAM_BASE) + dtb.len() <= before.len(),
        m.ram_view() == before.subrange(0, a - DRAM_BASE) + dtb
            + before.subrange((a - DRAM_BASE) + dtb.len(), before.len() as int),
    ensures
        m.spec_read32(a) == 0xEDFE_0DD0,
{
    let off = a - DRAM_BASE;
    assert forall|k: int| 0 <= k < dtb.len() implies #[trigger] m.ram_view()[off + k] == dtb[k] by {
        assert(m.ram_view()[off + k] == (before.subrange(0, off) + dtb)[off + k]);
    }
    lemma_magic_read(m, a, dtb);
}

proof fn lemma_magic_read(m: Memory, a: u32, dtb: Seq<u8>)
    requires
        a >= DRAM_BASE,
        a <= 0xFFFF_F000,
        a - DRAM_BASE + dtb.len() <= m.ram_view().len(),
        dtb.len() >= 4,
        dtb.subrange(0, 4) == crate::devices::dtb::be32_seq(crate::devices::dtb::FDT_MAGIC),
        forall|k: int| 0 <= k < dtb.len() ==> #[trigger] m.ram_view()[a - DRAM_BASE + k] == dtb[k],
    ensures
        m.spec_read32(a) == 0xEDFE_0DD0,
{
    let off = a - DRAM_BASE;
    assert(dtb[0] == dtb.subrange(0, 4)[0]);
    assert(dtb[1] == dtb.subrange(0, 4)[1]);
    assert(dtb[2] == dtb.subrange(0, 4)[2]);
    assert(dtb[3] == dtb.subrange(0, 4)[3]);
    assert(dtb[0] == 0xd0 && dtb[1] == 0x0d && dtb[2] == 0xfe && dtb[3] == 0xed);
    assert(m.ram_view()[off + 0] == dtb[0]);
    assert(m.ram_view()[off + 1] == dtb[1]);
    assert(m.ram_view()[off + 2] == dtb[2]);
    assert(m.ram_view()[off + 3] == dtb[3]);
    assert(a.wrapping_add(1) == a + 1);
    assert(a.wrapping_add(2) == a + 2);
    assert(a.wrapping_add(3) == a + 3);
    assert(m.spec_read8(a) == 0xd0);
    assert(m.spec_read8((a + 1) as u32) == 0x0d);
    assert(m.spec_read8((a + 2) as u32) == 0xfe);
    assert(m.spec_read8((a + 3) as u32) == 0xed);
    assert(crate::memory::le32(0xd0u8, 0x0du8, 0xfeu8, 0xedu8) == 0xEDFE_0DD0u32) by (bit_vector);
}

} // verus!
