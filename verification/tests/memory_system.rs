use otoriscv::memory::{Device, Memory, DRAM_BASE};
use otoriscv::System;

#[test]
fn test_ram_read_write() {
    let mut mem = Memory::new(1);
    mem.write32(DRAM_BASE, 0xDEADBEEF);
    assert_eq!(mem.read32(DRAM_BASE), 0xDEADBEEF);
    mem.write8(DRAM_BASE + 4, 0x42);
    assert_eq!(mem.read8(DRAM_BASE + 4), 0x42);
}

#[test]
fn test_load_binary() {
    let mut mem = Memory::new(1);
    let data = [0x13, 0x00, 0x00, 0x00];
    mem.load_binary(&data, DRAM_BASE).unwrap();
    assert_eq!(mem.read32(DRAM_BASE), 0x00000013);
}

#[test]
fn test_setup_linux_boot() {
    let mut sys = System::new(16, None).unwrap();
    let dummy_kernel = vec![0x13, 0x00, 0x00, 0x00];
    sys.setup_linux_boot(&dummy_kernel, "console=ttyS0").unwrap();
    assert_eq!(sys.cpu.pc, DRAM_BASE);
    assert_eq!(sys.cpu.read_reg(10), 0);
    let dtb_addr = sys.cpu.read_reg(11);
    assert!(dtb_addr > DRAM_BASE);
    assert!(dtb_addr < DRAM_BASE + 16 * 1024 * 1024);
    assert_eq!(dtb_addr & 0xFFF, 0);
    let magic_val = sys.memory().read32(dtb_addr);
    assert_eq!(magic_val.to_be(), 0xd00dfeed);
}

#[test]
fn unchecked_accessors_are_little_endian_views_of_ram() {
    let mut mem = Memory::new(1);
    mem.ram_write32_unchecked(8, 0x1122_3344);
    assert_eq!(mem.ram_read8_unchecked(8), 0x44);
    assert_eq!(mem.ram_read8_unchecked(11), 0x11);
    assert_eq!(mem.ram_read16_unchecked(9), 0x2233);
    assert_eq!(mem.read32(DRAM_BASE + 8), 0x1122_3344);
    mem.ram_write64_unchecked(16, 0x0102_0304_0506_0708);
    assert_eq!(mem.ram_read64_unchecked(16), 0x0102_0304_0506_0708);
    assert_eq!(mem.ram_read32_unchecked(20), 0x0102_0304);
    mem.ram_write16_unchecked(0, 0xBEEF);
    mem.ram_write8_unchecked(2, 0x7F);
    assert_eq!(mem.ram_read32_unchecked(0), 0x007F_BEEF);
}

struct Scratchpad {
    bytes: [u8; 16],
    resets: u32,
}

impl Device for Scratchpad {
    fn read8(&self, offset: u32) -> u8 {
        self.bytes[(offset % 16) as usize]
    }

    fn write8(&mut self, offset: u32, value: u8) {
        self.bytes[(offset % 16) as usize] = value;
    }

    fn reset(&mut self) {
        self.bytes = [0; 16];
        self.resets += 1;
    }
}

#[test]
fn device_windows_serve_reads_and_writes() {
    let mut mem = Memory::new(1);
    mem.add_device(Box::new(Scratchpad { bytes: [0; 16], resets: 0 }), 0x1000_0000, 16);
    assert!(mem.get_device_mut(0).is_some());
    assert!(mem.get_device_mut(1).is_none());
    mem.write32(0x1000_0004, 0xCAFE_F00D);
    assert_eq!(mem.read32(0x1000_0004), 0xCAFE_F00D);
    assert_eq!(mem.read8(0x1000_0005), 0xF0);
    assert_eq!(mem.read16(0x1000_0006), 0xCAFE);
    // Outside every window and RAM, reads give 0 and writes vanish.
    mem.write8(0x1000_0010, 0x55);
    assert_eq!(mem.read8(0x1000_0010), 0);
    // RAM still comes first.
    mem.write32(DRAM_BASE, 7);
    assert_eq!(mem.read32(DRAM_BASE), 7);
    mem.reset();
    assert_eq!(mem.read32(0x1000_0004), 0);
    assert_eq!(mem.read32(DRAM_BASE), 0);
}

#[test]
fn boot_setup_refuses_a_kernel_larger_than_ram() {
    let mut sys = System::new(1, None).unwrap();
    let kernel = vec![0u8; 2 * 1024 * 1024];
    assert!(sys.setup_linux_boot(&kernel, "console=ttyS0").is_err());
    let small = vec![0x13, 0, 0, 0];
    assert!(sys.setup_linux_boot_with_initrd(&small, Some(&[1, 2, 3, 4]), "x").is_err());
}

#[test]
fn device_tree_carries_the_command_line() {
    let blob = otoriscv::devices::dtb::generate_fdt(16, "console=ttyS0", Some((0x8100_0000, 0x8100_1000)));
    assert_eq!(&blob[0..4], &[0xd0, 0x0d, 0xfe, 0xed]);
    let text = String::from_utf8_lossy(&blob).to_string();
    assert!(text.contains("console=ttyS0"));
    assert!(text.contains("linux,initrd-start"));
    assert!(text.contains("riscv,sv32"));
}
