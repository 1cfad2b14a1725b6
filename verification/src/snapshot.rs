//! Lightweight snapshots: the CPU, the devices and the RAM pages written
//! since boot, without the kernel and initrd (which are loaded again before
//! a restore). The bytes of a snapshot are its serialized form compressed
//! with zstd at level 3 (see `compress::compress_state`).

use vstd::prelude::*;
use std::collections::HashMap;
use crate::cpu::PrivilegeLevel;
use crate::cpu::fpu::Fpu;
use crate::cpu::rv32::csr::Csr;

verus! {

/// Page size for dirty tracking (4 KiB).
pub const PAGE_SIZE: u32 = 4096;

/// The snapshot format version.
pub const VERSION: u32 = 1;

/// The zstd level snapshots are compressed at.
pub const SNAPSHOT_ZSTD_LEVEL: i32 = 3;

/// A snapshot of the changed state.
pub struct LightweightSnapshot {
    /// Version for compatibility checking.
    pub version: u32,
    /// Kernel size (checked on restore).
    pub kernel_size: u32,
    /// Initrd size (checked on restore).
    pub initrd_size: Option<u32>,
    /// CPU state.
    pub cpu: CpuSnapshot,
    /// UART state.
    pub uart: UartSnapshot,
    /// CLINT state.
    pub clint: ClintSnapshot,
    /// PLIC state.
    pub plic: PlicSnapshot,
    /// RAM pages written after boot, by page address.
    pub dirty_pages: HashMap<u32, Vec<u8>>,
}

/// CPU state.
pub struct CpuSnapshot {
    pub pc: u32,
    pub regs: [u32; 32],
    pub fpu: Fpu,
    pub csr: Csr,
    pub priv_level: PrivilegeLevel,
    pub wfi: bool,
    pub reservation: Option<u32>,
    pub instruction_count: u64,
}

/// UART registers and buffers.
pub struct UartSnapshot {
    pub ier: u8,
    pub fcr: u8,
    pub lcr: u8,
    pub mcr: u8,
    pub lsr: u8,
    pub msr: u8,
    pub scr: u8,
    pub dll: u8,
    pub dlm: u8,
    pub rx_fifo: Vec<u8>,
    pub tx_output: Vec<u8>,
}

/// CLINT registers.
pub struct ClintSnapshot {
    pub mtime: u64,
    pub mtimecmp: u64,
    pub msip: bool,
}

/// PLIC registers.
pub struct PlicSnapshot {
    /// Priorities of sources 1-31.
    pub priority: [u8; 32],
    pub pending: u32,
    pub enable_m: u32,
    pub enable_s: u32,
    pub threshold_m: u8,
    pub threshold_s: u8,
    pub claim_m: u32,
    pub claim_s: u32,
}

impl LightweightSnapshot {
    /// An empty snapshot for a kernel (and initrd) of the given sizes: the
    /// current version, a zeroed CPU in M-mode at pc 0, the UART with its
    /// transmitter empty (LSR 0x60), the other devices zeroed, no pages.
    pub fn new(kernel_size: u32, initrd_size: Option<u32>) -> (s: LightweightSnapshot)
        ensures
            s.version == VERSION,
            s.kernel_size == kernel_size,
            s.initrd_size == initrd_size,
            s.cpu.pc == 0,
            forall|i: int| 0 <= i < 32 ==> #[trigger] s.cpu.regs@[i] == 0,
            s.cpu.priv_level == PrivilegeLevel::Machine,
            !s.cpu.wfi,
            s.cpu.reservation is None,
            s.cpu.instruction_count == 0,
            s.uart.lsr == 0x60,
            s.uart.ier == 0 && s.uart.fcr == 0 && s.uart.lcr == 0 && s.uart.mcr == 0,
            s.uart.msr == 0 && s.uart.scr == 0 && s.uart.dll == 0 && s.uart.dlm == 0,
            s.uart.rx_fifo@.len() == 0 && s.uart.tx_output@.len() == 0,
            s.clint == (ClintSnapshot { mtime: 0, mtimecmp: 0, msip: false }),
            forall|i: int| 0 <= i < 32 ==> #[trigger] s.plic.priority@[i] == 0,
            s.plic.pending == 0 && s.plic.enable_m == 0 && s.plic.enable_s == 0,
            s.plic.threshold_m == 0 && s.plic.threshold_s == 0 && s.plic.claim_m == 0 && s.plic.claim_s == 0,
            s.dirty_pages@ == Map::<u32, Vec<u8>>::empty(),
    {
        LightweightSnapshot {
            version: VERSION,
            kernel_size,
            initrd_size,
            cpu: CpuSnapshot {
                pc: 0,
                regs: [0u32; 32],
                fpu: Fpu::new(),
                csr: Csr::new(),
                priv_level: PrivilegeLevel::Machine,
                wfi: false,
                reservation: None,
                instruction_count: 0,
            },
            uart: UartSnapshot {
                ier: 0,
                fcr: 0,
                lcr: 0,
                mcr: 0,
                lsr: 0x60,
                msr: 0,
                scr: 0,
                dll: 0,
                dlm: 0,
                rx_fifo: Vec::new(),
                tx_output: Vec::new(),
            },
            clint: ClintSnapshot { mtime: 0, mtimecmp: 0, msip: false },
            plic: PlicSnapshot {
                priority: [0u8; 32],
                pending: 0,
                enable_m: 0,
                enable_s: 0,
                threshold_m: 0,
                threshold_s: 0,
                claim_m: 0,
                claim_s: 0,
            },
            dirty_pages: HashMap::new(),
        }
    }
}

} // verus!
