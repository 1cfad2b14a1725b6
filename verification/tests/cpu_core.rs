use otoriscv::cpu::decode::{OP_AUIPC, OP_BRANCH, OP_JAL, OP_JALR, OP_LOAD, OP_LUI, OP_OP, OP_OP_IMM, OP_STORE, OP_SYSTEM};
use otoriscv::cpu::rv32::jit::v1::is_block_terminator;
use otoriscv::cpu::rv32::Cpu;
use otoriscv::cpu::PrivilegeLevel;

#[test]
fn test_cpu_creation() {
    let cpu = Cpu::new();
    assert_eq!(cpu.pc, 0x1000);
    assert_eq!(cpu.read_reg(0), 0);
    assert_eq!(cpu.priv_level, PrivilegeLevel::Machine);
}

#[test]
fn test_x0_always_zero() {
    let mut cpu = Cpu::new();
    cpu.write_reg(0, 0xDEADBEEF);
    assert_eq!(cpu.read_reg(0), 0);
    cpu.write_reg(1, 0x12345678);
    assert_eq!(cpu.read_reg(1), 0x12345678);
}

#[test]
fn test_is_block_terminator() {
    assert!(is_block_terminator(OP_BRANCH as u8));
    assert!(is_block_terminator(OP_JAL as u8));
    assert!(is_block_terminator(OP_JALR as u8));
    assert!(is_block_terminator(OP_SYSTEM as u8));
    assert!(!is_block_terminator(OP_LUI as u8));
    assert!(!is_block_terminator(OP_AUIPC as u8));
    assert!(!is_block_terminator(OP_LOAD as u8));
    assert!(!is_block_terminator(OP_STORE as u8));
    assert!(!is_block_terminator(OP_OP_IMM as u8));
    assert!(!is_block_terminator(OP_OP as u8));
}
