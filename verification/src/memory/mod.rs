//! Physical memory: boot ROM and RAM, little-endian accessors, and the
//! `Bus` interface through which the CPUs reach memory and devices.
//!
//! Memory layout:
//! 0x00001000 - 0x00002FFF: Boot ROM
//! 0x02000000 - 0x0200FFFF: CLINT (timer)
//! 0x03000000 - 0x03000FFF: UART
//! 0x04000000 - 0x07FFFFFF: PLIC (interrupt controller)
//! 0x20000000 - 0x20000FFF: VirtIO device (9p)
//! 0x80000000 - ...:        RAM (DRAM_BASE)

use vstd::prelude::*;

verus! {

/// Memory addresses
pub const DRAM_BASE: u32 = 0x8000_0000;
pub const ROM_BASE: u32 = 0x0000_1000;
pub const ROM_SIZE: u32 = 0x0000_2000;

/// Largest RAM that fits between `DRAM_BASE` and the end of the 32-bit space.
pub const MAX_RAM_BYTES: usize = 0x8000_0000;

/// Bus interface for CPU memory access. Accesses keep the bus in working
/// order; where reading has no side effect the bus says which byte a read
/// sees (`peek8`), and every write says how it changed the bus (`wrote`).
pub trait Bus: Sized {
    /// The bus is in working order.
    spec fn inv(&self) -> bool;

    /// The byte a read of `addr` returns, when reading there changes nothing.
    spec fn peek8(&self, addr: u32) -> Option<u8>;

    /// `after` is this bus once the `n` low bytes of `v` are written at `addr`, `addr+1`, ...
    spec fn wrote(&self, addr: u32, v: u64, n: nat, after: Self) -> bool;

    fn read8(&mut self, addr: u32) -> (r: u8)
        requires
            old(self).inv(),
        ensures
            final(self).inv(),
            old(self).peek8(addr) matches Some(v) ==> r == v && *final(self) == *old(self),
    ;

    fn write8(&mut self, addr: u32, value: u8)
        requires
            old(self).inv(),
        ensures
            final(self).inv(),
            old(self).wrote(addr, value as u64, 1, *final(self)),
    ;

    fn read16(&mut self, addr: u32) -> (r: u16)
        requires
            old(self).inv(),
        ensures
            final(self).inv(),
            old(self).peek8(addr) is Some && old(self).peek8(addr.wrapping_add(1)) is Some
                ==> r == old(self).peek8(addr).unwrap() + old(self).peek8(addr.wrapping_add(1)).unwrap() * 0x100
                && *final(self) == *old(self),
    ;

    fn write16(&mut self, addr: u32, value: u16)
        requires
            old(self).inv(),
        ensures
            final(self).inv(),
            old(self).wrote(addr, value as u64, 2, *final(self)),
    ;

    fn read32(&mut self, addr: u32) -> (r: u32)
        requires
            old(self).inv(),
        ensures
            final(self).inv(),
            old(self).peek8(addr) is Some && old(self).peek8(addr.wrapping_add(1)) is Some && old(self).peek8(addr.wrapping_add(2)) is Some && old(self).peek8(addr.wrapping_add(3)) is Some
                ==> r == old(self).peek8(addr).unwrap() + old(self).peek8(addr.wrapping_add(1)).unwrap() * 0x100 + old(self).peek8(addr.wrapping_add(2)).unwrap() * 0x10000 + old(self).peek8(addr.wrapping_add(3)).unwrap() * 0x1000000
                && *final(self) == *old(self),
    ;

    fn write32(&mut self, addr: u32, value: u32)
        requires
            old(self).inv(),
        ensures
            final(self).inv(),
            old(self).wrote(addr, value as u64, 4, *final(self)),
    ;

    fn read64(&mut self, addr: u32) -> (r: u64)
        requires
            old(self).inv(),
        ensures
            final(self).inv(),
            old(self).peek8(addr) is Some && old(self).peek8(addr.wrapping_add(1)) is Some && old(self).peek8(addr.wrapping_add(2)) is Some && old(self).peek8(addr.wrapping_add(3)) is Some && old(self).peek8(addr.wrapping_add(4)) is Some && old(self).peek8(addr.wrapping_add(5)) is Some && old(self).peek8(addr.wrapping_add(6)) is Some && old(self).peek8(addr.wrapping_add(7)) is Some
                ==> r == old(self).peek8(addr).unwrap() + old(self).peek8(addr.wrapping_add(1)).unwrap() * 0x100 + old(self).peek8(addr.wrapping_add(2)).unwrap() * 0x10000 + old(self).peek8(addr.wrapping_add(3)).unwrap() * 0x1000000 + old(self).peek8(addr.wrapping_add(4)).unwrap() * 0x100000000 + old(self).peek8(addr.wrapping_add(5)).unwrap() * 0x10000000000 + old(self).peek8(addr.wrapping_add(6)).unwrap() * 0x1000000000000 + old(self).peek8(addr.wrapping_add(7)).unwrap() * 0x100000000000000
                && *final(self) == *old(self),
    ;

    fn write64(&mut self, addr: u32, value: u64)
        requires
            old(self).inv(),
        ensures
            final(self).inv(),
            old(self).wrote(addr, value, 8, *final(self)),
    ;
}

/// Little-endian 16-bit value of two bytes.
pub open spec fn le16(b0: u8, b1: u8) -> u16 {
    ((b0 as u16) | ((b1 as u16) << 8u16)) as u16
}

/// Little-endian 32-bit value of four bytes.
pub open spec fn le32(b0: u8, b1: u8, b2: u8, b3: u8) -> u32 {
    ((b0 as u32) | ((b1 as u32) << 8u32) | ((b2 as u32) << 16u32) | ((b3 as u32) << 24u32)) as u32
}

/// Little-endian 64-bit value of two 32-bit halves.
pub open spec fn join64(lo: u32, hi: u32) -> u64 {
    ((lo as u64) | ((hi as u64) << 32u64)) as u64
}

/// Byte `k` (0 = least significant) of `v`.
pub open spec fn byte_of(v: u64, k: u64) -> u8 {
    ((v >> (8 * k)) & 0xff) as u8
}

/// A memory-mapped device. Offsets are relative to the start of the device's
/// window; the wider accessors default to little-endian byte accesses.
pub trait Device: Send + Sync {
    fn read8(&self, offset: u32) -> u8;

    fn write8(&mut self, offset: u32, value: u8);

    fn read16(&self, offset: u32) -> u16 {
        let lo = self.read8(offset) as u16;
        let hi = self.read8(offset.wrapping_add(1)) as u16;
        lo | (hi << 8u16)
    }

    fn write16(&mut self, offset: u32, value: u16) {
        self.write8(offset, value as u8);
        self.write8(offset.wrapping_add(1), (value >> 8u16) as u8);
    }

    fn read32(&self, offset: u32) -> u32 {
        let lo = self.read16(offset) as u32;
        let hi = self.read16(offset.wrapping_add(2)) as u32;
        lo | (hi << 16u32)
    }

    fn write32(&mut self, offset: u32, value: u32) {
        self.write16(offset, value as u16);
        self.write16(offset.wrapping_add(2), (value >> 16u32) as u16);
    }

    fn reset(&mut self);
}

/// A window of `size` bytes from `base` served by device `device_idx`.
struct DeviceMapping {
    base: u32,
    size: u32,
    device_idx: usize,
}

/// Memory subsystem: boot ROM, RAM, and device windows searched in the order
/// they were added.
pub struct Memory {
    /// Main RAM (starts at DRAM_BASE)
    ram: Vec<u8>,
    ram_base: u32,
    /// Boot ROM
    rom: Vec<u8>,
    /// Device windows
    mappings: Vec<DeviceMapping>,
    /// The devices the windows refer to
    devices: Vec<Box<dyn Device>>,
}

/// Does `addr` fall in the boot ROM?
pub open spec fn in_rom(addr: u32) -> bool {
    ROM_BASE <= addr < ROM_BASE + ROM_SIZE
}

/// Does the window of `size` bytes from `base` hold `addr`?
pub open spec fn window_holds(base: u32, size: u32, addr: u32) -> bool {
    base <= addr && addr - base < size
}

impl Memory {
    /// RAM contents.
    pub closed spec fn ram_view(&self) -> Seq<u8> {
        self.ram@
    }

    /// Boot ROM contents.
    pub closed spec fn rom_view(&self) -> Seq<u8> {
        self.rom@
    }

    /// The device windows in the order they were added: base, size and device index.
    pub closed spec fn windows(&self) -> Seq<(u32, u32, usize)> {
        self.mappings@.map_values(|m: DeviceMapping| (m.base, m.size, m.device_idx))
    }

    /// Number of devices added.
    pub closed spec fn device_count(&self) -> nat {
        self.devices@.len()
    }

    /// Well-formedness: RAM begins at `DRAM_BASE` and ends within the 32-bit space,
    /// and the ROM has its fixed size.
    pub closed spec fn wf(&self) -> bool {
        &&& self.ram_base == DRAM_BASE
        &&& self.ram@.len() <= MAX_RAM_BYTES
        &&& self.rom@.len() == ROM_SIZE as nat
    }

    /// Does some device window hold `addr`?
    pub open spec fn mapped(&self, addr: u32) -> bool {
        exists|i: int| 0 <= i < self.windows().len()
            && #[trigger] window_holds(self.windows()[i].0, self.windows()[i].1, addr)
    }

    /// No device window holds any of the `n` bytes from `addr` (addresses wrap).
    pub open spec fn device_free(&self, addr: u32, n: nat) -> bool {
        forall|k: u32| k < n ==> !#[trigger] self.mapped(addr.wrapping_add(k))
    }

    /// No device window has been added.
    pub open spec fn no_devices(&self) -> bool {
        self.windows().len() == 0
    }

    /// The windows and the number of devices are those of `other`.
    pub open spec fn same_devices(&self, other: Memory) -> bool {
        self.windows() == other.windows() && self.device_count() == other.device_count()
    }

    /// Does `addr` fall in RAM?
    pub open spec fn in_ram(&self, addr: u32) -> bool {
        DRAM_BASE <= addr && (addr - DRAM_BASE) < self.ram_view().len()
    }

    /// The byte that a read of `addr` returns outside the device windows:
    /// ROM, then RAM, else 0.
    pub open spec fn spec_read8(&self, addr: u32) -> u8 {
        if in_rom(addr) {
            self.rom_view()[addr - ROM_BASE]
        } else if self.in_ram(addr) {
            self.ram_view()[addr - DRAM_BASE]
        } else {
            0
        }
    }

    /// RAM after a byte write to `addr` (writes outside RAM leave it).
    pub open spec fn ram_after_write8(ram: Seq<u8>, addr: u32, v: u8) -> Seq<u8> {
        if DRAM_BASE <= addr && (addr - DRAM_BASE) < ram.len() {
            ram.update(addr - DRAM_BASE, v)
        } else {
            ram
        }
    }

    /// The 16-bit little-endian value at `addr` (addresses wrap).
    pub open spec fn spec_read16(&self, addr: u32) -> u16 {
        le16(self.spec_read8(addr), self.spec_read8(addr.wrapping_add(1)))
    }

    /// The 32-bit little-endian value at `addr` (addresses wrap).
    pub open spec fn spec_read32(&self, addr: u32) -> u32 {
        le32(
            self.spec_read8(addr),
            self.spec_read8(addr.wrapping_add(1)),
            self.spec_read8(addr.wrapping_add(2)),
            self.spec_read8(addr.wrapping_add(3)),
        )
    }

    /// The 64-bit little-endian value at `addr` (addresses wrap).
    pub open spec fn spec_read64(&self, addr: u32) -> u64 {
        join64(self.spec_read32(addr), self.spec_read32(addr.wrapping_add(4)))
    }

    /// RAM after writing the `n` low bytes of `v` at `addr`, `addr+1`, ... (addresses wrap).
    pub open spec fn ram_after_write(ram: Seq<u8>, addr: u32, v: u64, n: nat) -> Seq<u8>
        decreases n,
    {
        if n == 0 {
            ram
        } else {
            Self::ram_after_write8(
                Self::ram_after_write(ram, addr, v, (n - 1) as nat),
                addr.wrapping_add((n - 1) as u32),
                byte_of(v, (n - 1) as u64),
            )
        }
    }

    /// RAM after the `n` low bytes of `v` are stored at RAM offsets `off`, `off+1`, ...
    pub open spec fn ram_put(ram: Seq<u8>, off: int, v: u64, n: int) -> Seq<u8> {
        Seq::new(ram.len(), |j: int| if off <= j < off + n { byte_of(v, (j - off) as u64) } else { ram[j] })
    }

    /// With no device window, every span of bytes is free of devices.
    pub proof fn lemma_no_devices_free(&self, addr: u32, n: nat)
        requires
            self.no_devices(),
        ensures
            self.device_free(addr, n),
    {
    }

    /// The bytes of a span inside RAM are RAM bytes, and their addresses do not wrap.
    proof fn lemma_ram_span(&self, addr: u32, n: nat)
        requires
            self.wf(),
            addr >= DRAM_BASE,
            (addr - DRAM_BASE) + n <= self.ram@.len(),
        ensures
            n > 0 ==> self.spec_read8(addr) == self.ram@[addr - DRAM_BASE],
            forall|k: u32| k < n ==> #[trigger] addr.wrapping_add(k) == addr + k,
            forall|k: u32| k < n ==> #[trigger] self.spec_read8(addr.wrapping_add(k))
                == self.ram@[addr - DRAM_BASE + k],
    {
        assert forall|k: u32| k < n implies #[trigger] self.spec_read8(addr.wrapping_add(k))
            == self.ram@[addr - DRAM_BASE + k] by {
            assert(addr.wrapping_add(k) == addr + k);
        }
    }

    /// A write that stays inside RAM stores its bytes at the matching RAM offsets.
    proof fn lemma_write_in_ram(ram: Seq<u8>, addr: u32, v: u64, n: nat)
        requires
            addr >= DRAM_BASE,
            (addr - DRAM_BASE) + n <= ram.len(),
            ram.len() <= MAX_RAM_BYTES,
        ensures
            Self::ram_after_write(ram, addr, v, n) == Self::ram_put(ram, addr - DRAM_BASE, v, n as int),
        decreases n,
    {
        if n > 0 {
            Self::lemma_write_in_ram(ram, addr, v, (n - 1) as nat);
            assert(addr.wrapping_add((n - 1) as u32) == addr + n - 1);
            assert(Self::ram_after_write(ram, addr, v, n) =~= Self::ram_put(ram, addr - DRAM_BASE, v, n as int));
        }
    }

    /// Writing the low and then the high word of `v` writes the bytes of `v`.
    pub(crate) proof fn lemma_write_halves(ram: Seq<u8>, addr: u32, v: u64, m: nat)
        requires
            m <= 4,
        ensures
            Self::ram_after_write(
                Self::ram_after_write(ram, addr, (v as u32) as u64, 4),
                addr.wrapping_add(4),
                ((v >> 32u64) as u32) as u64,
                m,
            ) == Self::ram_after_write(ram, addr, v, 4 + m),
        decreases m,
    {
        let lo = (v as u32) as u64;
        let hi = ((v >> 32u64) as u32) as u64;
        assert(byte_of(lo, 0) == byte_of(v, 0) && byte_of(lo, 1) == byte_of(v, 1)
            && byte_of(lo, 2) == byte_of(v, 2) && byte_of(lo, 3) == byte_of(v, 3)
            && byte_of(hi, 0) == byte_of(v, 4) && byte_of(hi, 1) == byte_of(v, 5)
            && byte_of(hi, 2) == byte_of(v, 6) && byte_of(hi, 3) == byte_of(v, 7)) by (bit_vector)
            requires
                lo == (v as u32) as u64,
                hi == ((v >> 32u64) as u32) as u64,
        ;
        if m == 0 {
            reveal_with_fuel(Memory::ram_after_write, 5);
        } else {
            Self::lemma_write_halves(ram, addr, v, (m - 1) as nat);
            assert(addr.wrapping_add(4).wrapping_add((m - 1) as u32) == addr.wrapping_add((4 + m - 1) as u32));
        }
    }

    pub fn new(ram_size_mb: u32) -> (m: Memory)
        requires
            ram_size_mb <= 2048,
        ensures
            m.wf(),
            m.no_devices(),
            m.device_count() == 0,
            m.ram_view() == Seq::new(ram_size_mb as nat * 1024 * 1024, |i: int| 0u8),
            m.rom_view() == Seq::new(ROM_SIZE as nat, |i: int| 0u8),
    {
        let ram_size = (ram_size_mb as usize) * 1024 * 1024;
        let ram = vec![0u8; ram_size];
        let rom = vec![0u8; ROM_SIZE as usize];
        let m = Memory { ram, ram_base: DRAM_BASE, rom, mappings: Vec::new(), devices: Vec::new() };
        assert(m.ram@ =~= Seq::new(ram_size_mb as nat * 1024 * 1024, |i: int| 0u8));
        assert(m.rom@ =~= Seq::new(ROM_SIZE as nat, |i: int| 0u8));
        assert(m.windows() =~= Seq::<(u32, u32, usize)>::empty());
        m
    }

    /// RAM size in bytes.
    pub fn ram_size(&self) -> (r: usize)
        ensures
            r == self.ram_view().len(),
    {
        self.ram.len()
    }

    /// Write access to the whole RAM: what is written through the slice is
    /// the RAM afterwards; the ROM and the devices stay.
    pub fn ram_slice_mut(&mut self) -> (r: &mut [u8])
        ensures
            r@ == old(self).ram_view(),
            final(self).ram_view() == final(r)@,
            final(self).rom_view() == old(self).rom_view(),
            final(self).same_devices(*old(self)),
            old(self).wf() && final(r)@.len() == r@.len() ==> final(self).wf(),
    {
        self.ram.as_mut_slice()
    }

    /// Read access to the whole RAM.
    pub fn ram_slice(&self) -> (r: &[u8])
        ensures
            r@ == self.ram_view(),
    {
        self.ram.as_slice()
    }

    /// Adds a device serving the `size` bytes from `base`; windows added
    /// earlier are searched first.
    pub fn add_device(&mut self, device: Box<dyn Device>, base: u32, size: u32)
        requires
            old(self).wf(),
        ensures
            final(self).wf(),
            final(self).ram_view() == old(self).ram_view(),
            final(self).rom_view() == old(self).rom_view(),
            final(self).windows() == old(self).windows().push((base, size, old(self).device_count() as usize)),
    {
        let device_idx = self.devices.len();
        self.devices.push(device);
        self.mappings.push(DeviceMapping { base, size, device_idx });
        assert(self.windows() =~= old(self).windows().push((base, size, old(self).device_count() as usize)));
    }

    /// The device added as number `idx`, if there is one.
    pub fn get_device_mut(&mut self, idx: usize) -> (r: Option<&mut Box<dyn Device>>)
        requires
            old(self).wf(),
        ensures
            r is Some <==> idx < old(self).device_count(),
            final(self).wf(),
            final(self).ram_view() == old(self).ram_view(),
            final(self).rom_view() == old(self).rom_view(),
            final(self).same_devices(*old(self)),
    {
        if idx < self.devices.len() {
            Some(&mut self.devices[idx])
        } else {
            None
        }
    }

    /// The first device window that holds `addr`: its device and the offset in it.
    fn find_device(&self, addr: u32) -> (r: Option<(usize, u32)>)
        requires
            self.wf(),
        ensures
            r is None <==> !self.mapped(addr),
            r matches Some((idx, off)) ==> exists|i: int|
                #![trigger self.windows()[i]]
                0 <= i < self.windows().len() && window_holds(self.windows()[i].0, self.windows()[i].1, addr)
                    && self.windows()[i].2 == idx && off == addr - self.windows()[i].0
                    && forall|j: int| 0 <= j < i ==> !window_holds(self.windows()[j].0, self.windows()[j].1, addr),
    {
        let mut i: usize = 0;
        while i < self.mappings.len()
            invariant
                i <= self.mappings@.len(),
                self.wf(),
                forall|j: int| 0 <= j < i ==> !window_holds(self.windows()[j].0, self.windows()[j].1, addr),
            decreases self.mappings.len() - i,
        {
            let m = &self.mappings[i];
            assert(self.windows()[i as int] == (m.base, m.size, m.device_idx));
            if addr >= m.base && addr - m.base < m.size {
                assert(window_holds(self.windows()[i as int].0, self.windows()[i as int].1, addr));
                return Some((m.device_idx, addr - m.base));
            }
            i = i + 1;
        }
        assert(!self.mapped(addr));
        None
    }

    /// Read 8 bits: ROM, then RAM, then the device windows, else 0.
    pub fn read8(&self, addr: u32) -> (r: u8)
        requires
            self.wf(),
        ensures
            in_rom(addr) || self.in_ram(addr) || !self.mapped(addr) ==> r == self.spec_read8(addr),
    {
        if addr >= ROM_BASE && addr < ROM_BASE + ROM_SIZE {
            return self.rom[(addr - ROM_BASE) as usize];
        }
        if addr >= self.ram_base && ((addr - self.ram_base) as usize) < self.ram.len() {
            return self.ram[(addr - self.ram_base) as usize];
        }
        match self.find_device(addr) {
            Some((idx, offset)) => if idx < self.devices.len() {
                self.devices[idx].read8(offset)
            } else {
                0
            },
            None => 0,
        }
    }

    /// Write 8 bits: RAM, then the device windows; elsewhere the write is ignored.
    pub fn write8(&mut self, addr: u32, value: u8)
        requires
            old(self).wf(),
        ensures
            final(self).wf(),
            final(self).rom_view() == old(self).rom_view(),
            final(self).same_devices(*old(self)),
            final(self).ram_view() == Self::ram_after_write8(old(self).ram_view(), addr, value),
    {
        if addr >= self.ram_base && ((addr - self.ram_base) as usize) < self.ram.len() {
            let off = (addr - self.ram_base) as usize;
            self.ram.set(off, value);
            return;
        }
        match self.find_device(addr) {
            Some((idx, offset)) => {
                if idx < self.devices.len() {
                    self.devices[idx].write8(offset, value);
                }
            },
            None => {},
        }
    }

    /// Read 16 bits (little endian).
    pub fn read16(&self, addr: u32) -> (r: u16)
        requires
            self.wf(),
        ensures
            self.device_free(addr, 2) ==> r == self.spec_read16(addr),
    {
        if addr >= self.ram_base && ((addr - self.ram_base) as usize) + 1 < self.ram.len() {
            let o = (addr - self.ram_base) as usize;
            proof {
                self.lemma_ram_span(addr, 2);
            }
            return (self.ram[o] as u16) | ((self.ram[o + 1] as u16) << 8u16);
        }
        if let Some((idx, offset)) = self.find_device(addr) {
            proof {
                assert(addr.wrapping_add(0u32) == addr);
            }
            if idx < self.devices.len() {
                return self.devices[idx].read16(offset);
            }
            return 0;
        }
        proof {
            if self.device_free(addr, 2) {
                assert(addr.wrapping_add(0u32) == addr);
                assert(!self.mapped(addr.wrapping_add(0u32)));
                assert(!self.mapped(addr.wrapping_add(1u32)));
            }
        }
        let lo = self.read8(addr) as u16;
        let hi = self.read8(addr.wrapping_add(1)) as u16;
        lo | (hi << 8u16)
    }

    /// Read 32 bits (little endian).
    pub fn read32(&self, addr: u32) -> (r: u32)
        requires
            self.wf(),
        ensures
            self.device_free(addr, 4) ==> r == self.spec_read32(addr),
    {
        if addr >= ROM_BASE && addr - ROM_BASE + 3 < ROM_SIZE {
            let o = (addr - ROM_BASE) as usize;
            proof {
                Self::lemma_rom_word(*self, addr, o as int);
            }
            return (self.rom[o] as u32) | ((self.rom[o + 1] as u32) << 8u32) | ((self.rom[o + 2] as u32)
                << 16u32) | ((self.rom[o + 3] as u32) << 24u32);
        }
        if addr >= self.ram_base && ((addr - self.ram_base) as usize) + 3 < self.ram.len() {
            let o = (addr - self.ram_base) as usize;
            proof {
                self.lemma_ram_span(addr, 4);
            }
            return (self.ram[o] as u32) | ((self.ram[o + 1] as u32) << 8u32) | ((self.ram[o + 2] as u32)
                << 16u32) | ((self.ram[o + 3] as u32) << 24u32);
        }
        if let Some((idx, offset)) = self.find_device(addr) {
            proof {
                assert(addr.wrapping_add(0u32) == addr);
            }
            if idx < self.devices.len() {
                return self.devices[idx].read32(offset);
            }
            return 0;
        }
        proof {
            if self.device_free(addr, 4) {
                assert(addr.wrapping_add(0u32) == addr);
                assert(!self.mapped(addr.wrapping_add(0u32)));
                assert(!self.mapped(addr.wrapping_add(1u32)));
                assert(!self.mapped(addr.wrapping_add(2u32)));
                assert(!self.mapped(addr.wrapping_add(3u32)));
            }
        }
        let b0 = self.read8(addr) as u32;
        let b1 = self.read8(addr.wrapping_add(1)) as u32;
        let b2 = self.read8(addr.wrapping_add(2)) as u32;
        let b3 = self.read8(addr.wrapping_add(3)) as u32;
        b0 | (b1 << 8u32) | (b2 << 16u32) | (b3 << 24u32)
    }

    /// Read 64 bits (little endian).
    pub fn read64(&self, addr: u32) -> (r: u64)
        requires
            self.wf(),
        ensures
            self.device_free(addr, 8) ==> r == self.spec_read64(addr),
    {
        if addr >= self.ram_base && ((addr - self.ram_base) as usize) + 7 < self.ram.len() {
            let o = (addr - self.ram_base) as usize;
            proof {
                self.lemma_ram_span(addr, 8);
                self.lemma_ram_span((addr + 4) as u32, 4);
                assert(addr.wrapping_add(4) == (addr + 4) as u32);
            }
            let lo = (self.ram[o] as u32) | ((self.ram[o + 1] as u32) << 8u32) | ((self.ram[o + 2] as u32)
                << 16u32) | ((self.ram[o + 3] as u32) << 24u32);
            let hi = (self.ram[o + 4] as u32) | ((self.ram[o + 5] as u32) << 8u32) | ((self.ram[o + 6] as u32)
                << 16u32) | ((self.ram[o + 7] as u32) << 24u32);
            return (lo as u64) | ((hi as u64) << 32u64);
        }
        proof {
            if self.device_free(addr, 8) {
                assert forall|k: u32| k < 4 implies !#[trigger] self.mapped(addr.wrapping_add(4).wrapping_add(k)) by {
                    assert(addr.wrapping_add(4).wrapping_add(k) == addr.wrapping_add((4 + k) as u32));
                    assert(!self.mapped(addr.wrapping_add((4 + k) as u32)));
                }
            }
        }
        let lo = self.read32(addr) as u64;
        let hi = self.read32(addr.wrapping_add(4)) as u64;
        lo | (hi << 32u64)
    }

    /// Writes the `n` low bytes of `value` at `addr`, `addr+1`, ... one byte at a time.
    fn write_le(&mut self, addr: u32, value: u64, n: u32)
        requires
            old(self).wf(),
            n <= 8,
        ensures
            final(self).wf(),
            final(self).rom_view() == old(self).rom_view(),
            final(self).same_devices(*old(self)),
            final(self).ram_view() == Self::ram_after_write(old(self).ram_view(), addr, value, n as nat),
    {
        let ghost r0 = self.ram_view();
        let mut k: u32 = 0;
        while k < n
            invariant
                k <= n <= 8,
                self.wf(),
                self.rom_view() == old(self).rom_view(),
                self.same_devices(*old(self)),
                self.ram_view() == Self::ram_after_write(r0, addr, value, k as nat),
                r0 == old(self).ram_view(),
            decreases n - k,
        {
            let b = ((value >> (8 * k as u64)) & 0xff) as u8;
            self.write8(addr.wrapping_add(k), b);
            k = k + 1;
        }
    }

    /// Write 16 bits (little endian).
    pub fn write16(&mut self, addr: u32, value: u16)
        requires
            old(self).wf(),
        ensures
            final(self).wf(),
            final(self).rom_view() == old(self).rom_view(),
            final(self).same_devices(*old(self)),
            old(self).device_free(addr, 2) ==> final(self).ram_view() == Self::ram_after_write(
                old(self).ram_view(),
                addr,
                value as u64,
                2,
            ),
    {
        if addr >= self.ram_base && ((addr - self.ram_base) as usize) + 1 < self.ram.len() {
            let o = (addr - self.ram_base) as usize;
            proof {
                Self::lemma_write_in_ram(self.ram@, addr, value as u64, 2);
            }
            self.ram_put_le(o, value as u64, 2);
            return;
        }
        if let Some((idx, offset)) = self.find_device(addr) {
            proof {
                assert(addr.wrapping_add(0u32) == addr);
            }
            if idx < self.devices.len() {
                self.devices[idx].write16(offset, value);
            }
            return;
        }
        self.write_le(addr, value as u64, 2);
    }

    /// Write 32 bits (little endian).
    pub fn write32(&mut self, addr: u32, value: u32)
        requires
            old(self).wf(),
        ensures
            final(self).wf(),
            final(self).rom_view() == old(self).rom_view(),
            final(self).same_devices(*old(self)),
            old(self).device_free(addr, 4) ==> final(self).ram_view() == Self::ram_after_write(
                old(self).ram_view(),
                addr,
                value as u64,
                4,
            ),
    {
        if addr >= self.ram_base && ((addr - self.ram_base) as usize) + 3 < self.ram.len() {
            let o = (addr - self.ram_base) as usize;
            proof {
                Self::lemma_write_in_ram(self.ram@, addr, value as u64, 4);
            }
            self.ram_put_le(o, value as u64, 4);
            return;
        }
        if let Some((idx, offset)) = self.find_device(addr) {
            proof {
                assert(addr.wrapping_add(0u32) == addr);
            }
            if idx < self.devices.len() {
                self.devices[idx].write32(offset, value);
            }
            return;
        }
        self.write_le(addr, value as u64, 4);
    }

    /// Write 64 bits (little endian): in RAM at once, elsewhere as two 32-bit writes.
    pub fn write64(&mut self, addr: u32, value: u64)
        requires
            old(self).wf(),
        ensures
            final(self).wf(),
            final(self).rom_view() == old(self).rom_view(),
            final(self).same_devices(*old(self)),
            old(self).device_free(addr, 8) ==> final(self).ram_view() == Self::ram_after_write(
                old(self).ram_view(),
                addr,
                value,
                8,
            ),
    {
        if addr >= self.ram_base && ((addr - self.ram_base) as usize) + 7 < self.ram.len() {
            let o = (addr - self.ram_base) as usize;
            proof {
                Self::lemma_write_in_ram(self.ram@, addr, value, 8);
            }
            self.ram_put_le(o, value, 8);
            return;
        }
        let ghost m0 = *self;
        proof {
            if m0.device_free(addr, 8) {
                assert forall|k: u32| k < 4 implies !#[trigger] m0.mapped(addr.wrapping_add(4).wrapping_add(k)) by {
                    assert(addr.wrapping_add(4).wrapping_add(k) == addr.wrapping_add((4 + k) as u32));
                    assert(!m0.mapped(addr.wrapping_add((4 + k) as u32)));
                }
                Self::lemma_write_halves(m0.ram_view(), addr, value, 4);
            }
        }
        self.write32(addr, value as u32);
        proof {
            if m0.device_free(addr, 8) {
                assert forall|k: u32| k < 4 implies !#[trigger] self.mapped(addr.wrapping_add(4).wrapping_add(k)) by {
                    assert(!m0.mapped(addr.wrapping_add(4).wrapping_add(k)));
                }
            }
        }
        self.write32(addr.wrapping_add(4), (value >> 32u64) as u32);
    }

    /// Load binary data into RAM at `addr`.
    pub fn load_binary(&mut self, data: &[u8], addr: u32) -> (r: Result<(), String>)
        requires
            old(self).wf(),
        ensures
            final(self).wf(),
            final(self).same_devices(*old(self)),
            final(self).rom_view() == old(self).rom_view(),
            r.is_ok() <==> (addr >= DRAM_BASE && (addr - DRAM_BASE) + data@.len()
                <= old(self).ram_view().len()),
            r.is_ok() ==> final(self).ram_view() == old(self).ram_view().subrange(0, addr - DRAM_BASE)
                + data@ + old(self).ram_view().subrange(
                (addr - DRAM_BASE) + data@.len(),
                old(self).ram_view().len() as int,
            ),
            r.is_err() ==> final(self).ram_view() == old(self).ram_view(),
    {
        if addr < self.ram_base {
            return Err(load_below_ram_message(addr));
        }
        let offset = (addr - self.ram_base) as usize;
        if data.len() > self.ram.len() || offset > self.ram.len() - data.len() {
            return Err("Binary too large for RAM".to_owned());
        }
        let ghost r0 = self.ram@;
        let mut i: usize = 0;
        while i < data.len()
            invariant
                self.same_devices(*old(self)),
                i <= data@.len(),
                offset + data@.len() <= r0.len(),
                self.wf(),
                self.rom_view() == old(self).rom_view(),
                self.ram@.len() == r0.len(),
                forall|j: int| 0 <= j < r0.len() ==> #[trigger] self.ram@[j] == if offset <= j < offset + i {
                    data@[j - offset]
                } else {
                    r0[j]
                },
            decreases data.len() - i,
        {
            self.ram.set(offset + i, data[i]);
            i = i + 1;
        }
        assert(self.ram@ =~= r0.subrange(0, offset as int) + data@ + r0.subrange(
            offset + data@.len(),
            r0.len() as int,
        ));
        Ok(())
    }

    /// Direct 8-bit RAM read at a RAM offset; the caller keeps the offset in bounds.
    pub fn ram_read8_unchecked(&self, offset: usize) -> (r: u8)
        requires
            self.wf(),
            offset < self.ram_view().len(),
        ensures
            r == self.ram_view()[offset as int],
    {
        self.ram[offset]
    }

    /// Direct 16-bit little-endian RAM read at a RAM offset.
    pub fn ram_read16_unchecked(&self, offset: usize) -> (r: u16)
        requires
            self.wf(),
            offset + 1 < self.ram_view().len(),
        ensures
            r == le16(self.ram_view()[offset as int], self.ram_view()[offset + 1]),
    {
        (self.ram[offset] as u16) | ((self.ram[offset + 1] as u16) << 8u16)
    }

    /// Direct 32-bit little-endian RAM read at a RAM offset.
    pub fn ram_read32_unchecked(&self, offset: usize) -> (r: u32)
        requires
            self.wf(),
            offset + 3 < self.ram_view().len(),
        ensures
            r == le32(
                self.ram_view()[offset as int],
                self.ram_view()[offset + 1],
                self.ram_view()[offset + 2],
                self.ram_view()[offset + 3],
            ),
    {
        (self.ram[offset] as u32) | ((self.ram[offset + 1] as u32) << 8u32) | ((self.ram[offset + 2] as u32)
            << 16u32) | ((self.ram[offset + 3] as u32) << 24u32)
    }

    /// Direct 64-bit little-endian RAM read at a RAM offset.
    pub fn ram_read64_unchecked(&self, offset: usize) -> (r: u64)
        requires
            self.wf(),
            offset + 7 < self.ram_view().len(),
        ensures
            r == join64(
                le32(
                    self.ram_view()[offset as int],
                    self.ram_view()[offset + 1],
                    self.ram_view()[offset + 2],
                    self.ram_view()[offset + 3],
                ),
                le32(
                    self.ram_view()[offset + 4],
                    self.ram_view()[offset + 5],
                    self.ram_view()[offset + 6],
                    self.ram_view()[offset + 7],
                ),
            ),
    {
        let lo = self.ram_read32_unchecked(offset) as u64;
        let hi = self.ram_read32_unchecked(offset + 4) as u64;
        lo | (hi << 32u64)
    }

    /// Stores the `n` low bytes of `value` at RAM offsets `offset`, `offset+1`, ...
    fn ram_put_le(&mut self, offset: usize, value: u64, n: usize)
        requires
            old(self).wf(),
            n <= 8,
            offset + n <= old(self).ram_view().len(),
        ensures
            final(self).wf(),
            final(self).same_devices(*old(self)),
            final(self).rom_view() == old(self).rom_view(),
            final(self).ram_view() == Self::ram_put(old(self).ram_view(), offset as int, value, n as int),
    {
        let ghost r0 = self.ram@;
        let mut k: usize = 0;
        while k < n
            invariant
                self.same_devices(*old(self)),
                k <= n <= 8,
                offset + n <= r0.len(),
                self.wf(),
                self.rom_view() == old(self).rom_view(),
                r0 == old(self).ram_view(),
                self.ram@ == Self::ram_put(r0, offset as int, value, k as int),
            decreases n - k,
        {
            let b = ((value >> (8 * k as u64)) & 0xff) as u8;
            self.ram.set(offset + k, b);
            k = k + 1;
            assert(self.ram@ =~= Self::ram_put(r0, offset as int, value, k as int));
        }
    }

    /// Direct 8-bit RAM write at a RAM offset; the caller keeps the offset in bounds.
    pub fn ram_write8_unchecked(&mut self, offset: usize, value: u8)
        requires
            old(self).wf(),
            offset < old(self).ram_view().len(),
        ensures
            final(self).wf(),
            final(self).same_devices(*old(self)),
            final(self).rom_view() == old(self).rom_view(),
            final(self).ram_view() == old(self).ram_view().update(offset as int, value),
    {
        self.ram.set(offset, value);
    }

    /// Direct 16-bit little-endian RAM write at a RAM offset.
    pub fn ram_write16_unchecked(&mut self, offset: usize, value: u16)
        requires
            old(self).wf(),
            offset + 1 < old(self).ram_view().len(),
        ensures
            final(self).wf(),
            final(self).same_devices(*old(self)),
            final(self).rom_view() == old(self).rom_view(),
            final(self).ram_view() == Self::ram_put(old(self).ram_view(), offset as int, value as u64, 2),
    {
        self.ram_put_le(offset, value as u64, 2);
    }

    /// Direct 32-bit little-endian RAM write at a RAM offset.
    pub fn ram_write32_unchecked(&mut self, offset: usize, value: u32)
        requires
            old(self).wf(),
            offset + 3 < old(self).ram_view().len(),
        ensures
            final(self).wf(),
            final(self).same_devices(*old(self)),
            final(self).rom_view() == old(self).rom_view(),
            final(self).ram_view() == Self::ram_put(old(self).ram_view(), offset as int, value as u64, 4),
    {
        self.ram_put_le(offset, value as u64, 4);
    }

    /// Direct 64-bit little-endian RAM write at a RAM offset.
    pub fn ram_write64_unchecked(&mut self, offset: usize, value: u64)
        requires
            old(self).wf(),
            offset + 7 < old(self).ram_view().len(),
        ensures
            final(self).wf(),
            final(self).same_devices(*old(self)),
            final(self).rom_view() == old(self).rom_view(),
            final(self).ram_view() == Self::ram_put(old(self).ram_view(), offset as int, value, 8),
    {
        self.ram_put_le(offset, value, 8);
    }

    /// Clears RAM to zero.
    pub fn reset(&mut self)
        requires
            old(self).wf(),
        ensures
            final(self).wf(),
            final(self).rom_view() == old(self).rom_view(),
            final(self).same_devices(*old(self)),
            final(self).ram_view() == Seq::new(old(self).ram_view().len(), |i: int| 0u8),
    {
        let n = self.ram.len();
        let mut i: usize = 0;
        while i < n
            invariant
                i <= n,
                n == self.ram@.len(),
                self.wf(),
                self.rom_view() == old(self).rom_view(),
                self.same_devices(*old(self)),
                old(self).ram_view().len() == n,
                forall|j: int| 0 <= j < i ==> #[trigger] self.ram@[j] == 0u8,
            decreases n - i,
        {
            self.ram.set(i, 0);
            i = i + 1;
        }
        let ghost zeroed = self.ram@;
        let d = self.devices.len();
        let mut j: usize = 0;
        while j < d
            invariant
                j <= d,
                d == self.devices@.len(),
                self.wf(),
                self.rom_view() == old(self).rom_view(),
                self.same_devices(*old(self)),
                self.ram@ == zeroed,
            decreases d - j,
        {
            self.devices[j].reset();
            j = j + 1;
        }
        assert(self.ram@ =~= Seq::new(old(self).ram_view().len(), |i: int| 0u8));
    }

    /// Writes `words` little-endian into the ROM starting at byte offset `start`.
    fn write_rom_words(&mut self, words: &[u32], start: usize)
        requires
            old(self).wf(),
            start + 4 * words@.len() <= ROM_SIZE,
        ensures
            final(self).wf(),
            final(self).same_devices(*old(self)),
            final(self).ram_view() == old(self).ram_view(),
            forall|j: int| 0 <= j < ROM_SIZE && !(start <= j < start + 4 * words@.len())
                ==> #[trigger] final(self).rom_view()[j] == old(self).rom_view()[j],
            forall|i: int, k: int| 0 <= i < words@.len() && 0 <= k < 4
                ==> #[trigger] final(self).rom_view()[start + 4 * i + k] == byte_of(words@[i] as u64, k as u64),
    {
        let mut i: usize = 0;
        while i < words.len()
            invariant
                self.same_devices(*old(self)),
                i <= words@.len(),
                start + 4 * words@.len() <= ROM_SIZE,
                self.wf(),
                self.ram_view() == old(self).ram_view(),
                forall|j: int| 0 <= j < ROM_SIZE && !(start <= j < start + 4 * i)
                    ==> #[trigger] self.rom@[j] == old(self).rom@[j],
                forall|i2: int, k: int| 0 <= i2 < i && 0 <= k < 4
                    ==> #[trigger] self.rom@[start + 4 * i2 + k] == byte_of(words@[i2] as u64, k as u64),
            decreases words.len() - i,
        {
            let w = words[i];
            let off = start + 4 * i;
            let wv = w as u64;
            assert(byte_of(wv, 0) == w as u8 && byte_of(wv, 1) == (w >> 8u32) as u8
                && byte_of(wv, 2) == (w >> 16u32) as u8 && byte_of(wv, 3) == (w >> 24u32) as u8)
                by (bit_vector)
                requires wv == w as u64;
            self.rom.set(off, w as u8);
            self.rom.set(off + 1, (w >> 8u32) as u8);
            self.rom.set(off + 2, (w >> 16u32) as u8);
            self.rom.set(off + 3, (w >> 24u32) as u8);
            assert forall|i2: int, k: int| 0 <= i2 < i + 1 && 0 <= k < 4
                implies #[trigger] self.rom@[start + 4 * i2 + k] == byte_of(words@[i2] as u64, k as u64) by {
                if i2 < i {
                } else {
                    assert(start + 4 * i2 + k == off + k);
                }
            }
            i = i + 1;
        }
    }

    /// Initialize the boot ROM with a minimal SBI-like firmware: delegate
    /// exceptions and supervisor interrupts to S-mode, set MPP to Supervisor,
    /// point mepc at the kernel entry (`DRAM_BASE`) and mtvec at the SBI stub,
    /// then `mret`; the stub at offset 0x80 loops forever.
    pub fn init_boot_rom(&mut self)
        requires
            old(self).wf(),
        ensures
            final(self).wf(),
            final(self).same_devices(*old(self)),
            final(self).ram_view() == old(self).ram_view(),
            forall|i: int| 0 <= i < 29 ==> #[trigger] final(self).spec_read32((ROM_BASE + 4 * i) as u32)
                == boot_rom_program()[i],
            forall|i: int| 0 <= i < 4 ==> #[trigger] final(self).spec_read32((ROM_BASE + 0x80 + 4 * i) as u32)
                == sbi_stub_program()[i],
    {
        let instructions: [u32; 29] = [
            0x0000b2b7, 0x1ff28293, 0x30229073,
            0x00000293, 0x22228293, 0x30329073,
            0x00000297, 0x00001337, 0x88030313, 0x30031073,
            0x800002b7, 0x34129073,
            0x000012b7, 0x08028293, 0x30529073,
            0x00700293, 0x30629073,
            0x30200073,
            0x00000013, 0x00000013, 0x00000013, 0x00000013, 0x00000013, 0x00000013,
            0x00000013, 0x00000013, 0x00000013, 0x00000013, 0x00000013,
        ];
        assert(instructions@ == boot_rom_program());
        self.write_rom_words(&instructions, 0);
        let ghost mid = self.rom@;
        self.init_sbi_handler();
        assert forall|i: int| 0 <= i < 29 implies #[trigger] self.spec_read32((ROM_BASE + 4 * i) as u32)
            == boot_rom_program()[i] by {
            let a = (ROM_BASE + 4 * i) as u32;
            Self::lemma_rom_word(*self, a, 4 * i);
            let w = boot_rom_program()[i];
            assert(mid[0 + 4 * i + 0] == byte_of(w as u64, 0));
            assert(mid[0 + 4 * i + 1] == byte_of(w as u64, 1));
            assert(mid[0 + 4 * i + 2] == byte_of(w as u64, 2));
            assert(mid[0 + 4 * i + 3] == byte_of(w as u64, 3));
            assert(self.rom@[4 * i + 0] == mid[4 * i + 0]);
            assert(self.rom@[4 * i + 1] == mid[4 * i + 1]);
            assert(self.rom@[4 * i + 2] == mid[4 * i + 2]);
            assert(self.rom@[4 * i + 3] == mid[4 * i + 3]);
            lemma_le32_of_bytes(boot_rom_program()[i]);
        }
        assert forall|i: int| 0 <= i < 4 implies #[trigger] self.spec_read32((ROM_BASE + 0x80 + 4 * i) as u32)
            == sbi_stub_program()[i] by {
            let a = (ROM_BASE + 0x80 + 4 * i) as u32;
            Self::lemma_rom_word(*self, a, 0x80 + 4 * i);
            let w = sbi_stub_program()[i];
            assert(self.rom@[0x80 + 4 * i + 0] == byte_of(w as u64, 0));
            assert(self.rom@[0x80 + 4 * i + 1] == byte_of(w as u64, 1));
            assert(self.rom@[0x80 + 4 * i + 2] == byte_of(w as u64, 2));
            assert(self.rom@[0x80 + 4 * i + 3] == byte_of(w as u64, 3));
            lemma_le32_of_bytes(sbi_stub_program()[i]);
        }
    }

    /// Initialize the SBI ecall handler stub at ROM offset 0x80: a `j 0` loop
    /// followed by three `nop`s.
    fn init_sbi_handler(&mut self)
        requires
            old(self).wf(),
        ensures
            final(self).wf(),
            final(self).same_devices(*old(self)),
            final(self).ram_view() == old(self).ram_view(),
            forall|j: int| 0 <= j < ROM_SIZE && !(0x80 <= j < 0x90)
                ==> #[trigger] final(self).rom_view()[j] == old(self).rom_view()[j],
            forall|i: int, k: int| 0 <= i < 4 && 0 <= k < 4
                ==> #[trigger] final(self).rom_view()[0x80 + 4 * i + k] == byte_of(sbi_stub_program()[i] as u64, k as u64),
    {
        let sbi_handler: [u32; 4] = [0x0000006f, 0x00000013, 0x00000013, 0x00000013];
        assert(sbi_handler@ == sbi_stub_program());
        self.write_rom_words(&sbi_handler, 0x80);
    }

    /// A 32-bit read inside the ROM is the little-endian word of the four ROM bytes.
    proof fn lemma_rom_word(m: Memory, a: u32, off: int)
        requires
            m.wf(),
            a == ROM_BASE + off,
            0 <= off,
            off + 4 <= ROM_SIZE,
        ensures
            m.spec_read32(a) == le32(m.rom@[off], m.rom@[off + 1], m.rom@[off + 2], m.rom@[off + 3]),
    {
        assert(a.wrapping_add(1) == a + 1);
        assert(a.wrapping_add(2) == a + 2);
        assert(a.wrapping_add(3) == a + 3);
    }
}

/// The boot ROM program placed at `ROM_BASE`.
pub open spec fn boot_rom_program() -> Seq<u32> {
    seq![
        0x0000b2b7u32, 0x1ff28293, 0x30229073,
        0x00000293, 0x22228293, 0x30329073,
        0x00000297, 0x00001337, 0x88030313, 0x30031073,
        0x800002b7, 0x34129073,
        0x000012b7, 0x08028293, 0x30529073,
        0x00700293, 0x30629073,
        0x30200073,
        0x00000013, 0x00000013, 0x00000013, 0x00000013, 0x00000013, 0x00000013,
        0x00000013, 0x00000013, 0x00000013, 0x00000013, 0x00000013
    ]
}

/// The SBI trap stub placed at `ROM_BASE + 0x80`.
pub open spec fn sbi_stub_program() -> Seq<u32> {
    seq![0x0000006fu32, 0x00000013, 0x00000013, 0x00000013]
}

/// Reassembling the little-endian bytes of a word gives the word.
pub proof fn lemma_le32_of_bytes(w: u32)
    ensures
        le32(byte_of(w as u64, 0), byte_of(w as u64, 1), byte_of(w as u64, 2), byte_of(w as u64, 3)) == w,
{
    let v = w as u64;
    assert(le32(byte_of(v, 0), byte_of(v, 1), byte_of(v, 2), byte_of(v, 3)) == w) by (bit_vector)
        requires v == w as u64;
}

/// The error text for a load below RAM.
#[verifier::external_body]
fn load_below_ram_message(addr: u32) -> String {
    format!("Load address 0x{:08x} below RAM base", addr)
}

/// The little-endian combinations of bytes and words, as sums.
pub proof fn lemma_le_sums(b0: u8, b1: u8, b2: u8, b3: u8, lo: u32, hi: u32)
    ensures
        le16(b0, b1) == b0 + b1 * 0x100,
        le32(b0, b1, b2, b3) == (b0 + b1 * 0x100) + (b2 + b3 * 0x100) * 0x1_0000,
        join64(lo, hi) == lo + hi * 0x1_0000_0000,
        byte_of(b0 as u64, 0) == b0,
{
    assert(le16(b0, b1) == b0 + b1 * 0x100 && le32(b0, b1, b2, b3) == (b0 + b1 * 0x100) + (b2 + b3 * 0x100) * 0x1_0000
        && join64(lo, hi) == lo + hi * 0x1_0000_0000 && byte_of(b0 as u64, 0) == b0) by (bit_vector);
}

/// A one-byte write is a byte write of the value.
pub proof fn lemma_write_one(ram: Seq<u8>, addr: u32, v: u8)
    ensures
        Memory::ram_after_write(ram, addr, v as u64, 1) == Memory::ram_after_write8(ram, addr, v),
{
    lemma_le_sums(v, 0, 0, 0, 0, 0);
    assert(addr.wrapping_add(0) == addr);
    reveal_with_fuel(Memory::ram_after_write, 2);
}

impl Bus for Memory {
    open spec fn inv(&self) -> bool {
        self.wf()
    }

    /// Outside the device windows reads change nothing.
    open spec fn peek8(&self, addr: u32) -> Option<u8> {
        if !self.mapped(addr) { Some(self.spec_read8(addr)) } else { None }
    }

    /// Outside the device windows a write stores its bytes in RAM.
    open spec fn wrote(&self, addr: u32, v: u64, n: nat, after: Memory) -> bool {
        &&& after.wf()
        &&& self.device_free(addr, n) ==> after.ram_view() == Memory::ram_after_write(self.ram_view(), addr, v, n)
    }

    fn read8(&mut self, addr: u32) -> u8 {
        Memory::read8(self, addr)
    }

    fn write8(&mut self, addr: u32, value: u8) {
        proof { lemma_write_one(self.ram_view(), addr, value); }
        Memory::write8(self, addr, value)
    }

    fn read16(&mut self, addr: u32) -> u16 {
        proof {
            assert(addr.wrapping_add(0) == addr);
            lemma_le_sums(self.spec_read8(addr), self.spec_read8(addr.wrapping_add(1)), 0, 0, 0, 0);
        }
        Memory::read16(self, addr)
    }

    fn write16(&mut self, addr: u32, value: u16) {
        Memory::write16(self, addr, value)
    }

    fn read32(&mut self, addr: u32) -> u32 {
        proof {
            assert(addr.wrapping_add(0) == addr);
            assert(addr.wrapping_add(2).wrapping_add(1) == addr.wrapping_add(3));
            lemma_le_sums(self.spec_read8(addr), self.spec_read8(addr.wrapping_add(1)),
                self.spec_read8(addr.wrapping_add(2)), self.spec_read8(addr.wrapping_add(3)), 0, 0);
            lemma_le_sums(self.spec_read8(addr), self.spec_read8(addr.wrapping_add(1)), 0, 0, 0, 0);
            lemma_le_sums(self.spec_read8(addr.wrapping_add(2)), self.spec_read8(addr.wrapping_add(3)), 0, 0, 0, 0);
        }
        Memory::read32(self, addr)
    }

    fn write32(&mut self, addr: u32, value: u32) {
        Memory::write32(self, addr, value)
    }

    fn read64(&mut self, addr: u32) -> u64 {
        proof {
            let a4 = addr.wrapping_add(4);
            assert(addr.wrapping_add(0) == addr);
            assert(addr.wrapping_add(2).wrapping_add(1) == addr.wrapping_add(3));
            assert(a4.wrapping_add(2).wrapping_add(1) == a4.wrapping_add(3));
            assert(a4 == addr.wrapping_add(4));
            assert(a4.wrapping_add(1) == addr.wrapping_add(5));
            assert(a4.wrapping_add(2) == addr.wrapping_add(6));
            assert(a4.wrapping_add(3) == addr.wrapping_add(7));
            lemma_le_sums(self.spec_read8(addr), self.spec_read8(addr.wrapping_add(1)),
                self.spec_read8(addr.wrapping_add(2)), self.spec_read8(addr.wrapping_add(3)),
                self.spec_read32(addr), self.spec_read32(a4));
            lemma_le_sums(self.spec_read8(a4), self.spec_read8(a4.wrapping_add(1)),
                self.spec_read8(a4.wrapping_add(2)), self.spec_read8(a4.wrapping_add(3)), 0, 0);
            lemma_le_sums(self.spec_read8(addr), self.spec_read8(addr.wrapping_add(1)), 0, 0, 0, 0);
            lemma_le_sums(self.spec_read8(addr.wrapping_add(2)), self.spec_read8(addr.wrapping_add(3)), 0, 0, 0, 0);
            lemma_le_sums(self.spec_read8(a4), self.spec_read8(a4.wrapping_add(1)), 0, 0, 0, 0);
            lemma_le_sums(self.spec_read8(a4.wrapping_add(2)), self.spec_read8(a4.wrapping_add(3)), 0, 0, 0, 0);
        }
        Memory::read64(self, addr)
    }

    fn write64(&mut self, addr: u32, value: u64) {
        Memory::write64(self, addr, value)
    }
}

} // verus!
