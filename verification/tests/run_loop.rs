use otoriscv::cpu::fpu::{FFlags, FloatArith, FpBinOp, FpCompare, RoundingMode};
use otoriscv::cpu::rv32::run_inline_switch::{run_inline_switch, FastBus};
use otoriscv::cpu::rv32::Cpu;
use otoriscv::devices::clint::Clint;
use otoriscv::devices::plic::Plic;
use otoriscv::devices::uart::Uart;
use otoriscv::devices::virtio_9p::Virtio9p;
use otoriscv::memory::Memory;
use otoriscv::System;

/// The programs below hold no floating-point instruction.
struct NoFloat;

impl FloatArith for NoFloat {
    fn f32_binop(&self, _op: FpBinOp, _a: u32, _b: u32, _rm: RoundingMode) -> (u32, FFlags) {
        unreachable!("no float instruction runs here")
    }
    fn f32_sqrt(&self, _a: u32, _rm: RoundingMode) -> (u32, FFlags) {
        unreachable!("no float instruction runs here")
    }
    fn f32_compare(&self, _op: FpCompare, _a: u32, _b: u32) -> (bool, FFlags) {
        unreachable!("no float instruction runs here")
    }
    fn f32_to_int(&self, _a: u32, _signed: bool, _rm: RoundingMode) -> (u32, FFlags) {
        unreachable!("no float instruction runs here")
    }
    fn int_to_f32(&self, _a: u32, _signed: bool, _rm: RoundingMode) -> (u32, FFlags) {
        unreachable!("no float instruction runs here")
    }
    fn f32_fmadd(&self, _a: u32, _b: u32, _c: u32, _rm: RoundingMode) -> (u32, FFlags) {
        unreachable!("no float instruction runs here")
    }
    fn f64_binop(&self, _op: FpBinOp, _a: u64, _b: u64, _rm: RoundingMode) -> (u64, FFlags) {
        unreachable!("no float instruction runs here")
    }
    fn f64_sqrt(&self, _a: u64, _rm: RoundingMode) -> (u64, FFlags) {
        unreachable!("no float instruction runs here")
    }
    fn f64_compare(&self, _op: FpCompare, _a: u64, _b: u64) -> (bool, FFlags) {
        unreachable!("no float instruction runs here")
    }
    fn f64_to_int(&self, _a: u64, _signed: bool, _rm: RoundingMode) -> (u32, FFlags) {
        unreachable!("no float instruction runs here")
    }
    fn int_to_f64(&self, _a: u32, _signed: bool) -> u64 {
        unreachable!("no float instruction runs here")
    }
    fn f64_fmadd(&self, _a: u64, _b: u64, _c: u64, _rm: RoundingMode) -> (u64, FFlags) {
        unreachable!("no float instruction runs here")
    }
    fn f64_to_f32(&self, _a: u64, _rm: RoundingMode) -> (u32, FFlags) {
        unreachable!("no float instruction runs here")
    }
    fn f32_to_f64(&self, _a: u32) -> (u64, FFlags) {
        unreachable!("no float instruction runs here")
    }
}

fn bus_with(words: &[u32]) -> FastBus {
    let mut memory = Memory::new(1);
    let mut addr: u32 = 0x8000_0000;
    for w in words {
        memory.write32(addr, *w);
        addr += 4;
    }
    FastBus {
        memory,
        uart: Uart::new(10),
        clint: Clint::new(),
        plic: Plic::new(),
        virtio9p: Virtio9p::new("rootfs"),
    }
}

#[test]
fn test_run_inline_switch_one_addi_x0() {
    let mut cpu = Cpu::new();
    cpu.pc = 0x8000_0000;
    // addi x0, x0, 5
    let mut bus = bus_with(&[0x0050_0013]);
    let r = run_inline_switch(&mut cpu, &mut bus, 1, &NoFloat);
    assert_eq!(r, 1);
    assert_eq!(cpu.read_reg(0), 0);
    assert_eq!(cpu.pc, 0x8000_0004);
    assert_eq!(cpu.instruction_count, 1);
}

#[test]
fn test_run_inline_switch_counts_cycles() {
    let mut cpu = Cpu::new();
    cpu.pc = 0x8000_0000;
    // addi x1, x0, 7 ; addi x2, x1, 3
    let mut bus = bus_with(&[0x0070_0093, 0x0030_8113]);
    let r = run_inline_switch(&mut cpu, &mut bus, 2, &NoFloat);
    assert_eq!(r, 2);
    assert_eq!(cpu.read_reg(1), 7);
    assert_eq!(cpu.read_reg(2), 10);
    assert_eq!(cpu.pc, 0x8000_0008);
    assert_eq!(cpu.instruction_count, 2);
}

#[test]
fn test_run_inline_switch_store_then_load() {
    let mut cpu = Cpu::new();
    cpu.pc = 0x8000_0000;
    // lui x5, 0x80000 ; addi x6, x0, 0x55 ; sw x6, 0x100(x5) ; lw x7, 0x100(x5)
    let mut bus = bus_with(&[0x8000_02b7, 0x0550_0313, 0x1062_a023, 0x1002_a383]);
    let r = run_inline_switch(&mut cpu, &mut bus, 4, &NoFloat);
    assert_eq!(r, 4);
    assert_eq!(cpu.read_reg(7), 0x55);
    assert_eq!(bus.memory.read32(0x8000_0100), 0x55);
    assert_eq!(cpu.pc, 0x8000_0010);
}

#[test]
fn test_system_run_executes_one_instruction_per_cycle() {
    let mut sys = System::new(1, None).expect("system");
    let mut program: Vec<u8> = Vec::new();
    for w in [0x0070_0093u32, 0x0030_8113u32] {
        program.extend_from_slice(&w.to_le_bytes());
    }
    sys.load_binary(&program, 0x8000_0000).expect("load");
    sys.cpu.pc = 0x8000_0000;
    let count = sys.cpu.instruction_count;
    assert_eq!(sys.run(2, &NoFloat), 2);
    assert_eq!(sys.cpu.read_reg(1), 7);
    assert_eq!(sys.cpu.read_reg(2), 10);
    assert_eq!(sys.cpu.pc, 0x8000_0008);
    assert_eq!(sys.cpu.instruction_count, count + 2);
}
