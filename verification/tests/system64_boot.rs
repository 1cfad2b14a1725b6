use otoriscv::memory::DRAM_BASE;
use otoriscv::System64;

#[test]
fn system64_rejects_bad_ram_sizes() {
    assert!(System64::new(0, None).is_err());
    assert!(System64::new(4096, None).is_err());
    assert!(System64::new(16, None).is_ok());
}

#[test]
fn system64_boot_setup_points_a1_at_device_tree() {
    let mut sys = System64::new(16, None).unwrap();
    let kernel = vec![0x13, 0x00, 0x00, 0x00];
    sys.setup_linux_boot_with_initrd(&kernel, None, "console=ttyS0").unwrap();
    assert_eq!(sys.get_pc(), 0x1000);
    assert_eq!(sys.cpu.read_reg(10), 0);
    let a1 = sys.cpu.read_reg(11) as u32;
    assert_eq!(a1 & 0xFFF, 0);
    assert!(a1 > DRAM_BASE);
    let magic = sys.read_memory(a1, 4);
    assert_eq!(magic, vec![0xd0, 0x0d, 0xfe, 0xed]);
}

#[test]
fn system64_initrd_must_fit() {
    let mut sys = System64::new(2, None).unwrap();
    let kernel = vec![0u8; 1024 * 1024];
    let initrd = vec![0u8; 512 * 1024];
    assert!(sys.setup_linux_boot_with_initrd(&kernel, Some(&initrd), "").is_err());
}

#[test]
fn system64_runs_requested_cycles() {
    let mut sys = System64::new(16, None).unwrap();
    assert_eq!(sys.run(100), 100);
}
