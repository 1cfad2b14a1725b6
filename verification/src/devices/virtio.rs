//! VirtIO MMIO transport (VirtIO 1.0 register layout).

use vstd::prelude::*;
use std::collections::VecDeque;
use super::clint::{get_byte, word_byte};
use crate::memory::Memory;

verus! {

// VirtIO MMIO register offsets
pub const VIRTIO_MMIO_MAGIC_VALUE: u32 = 0x000;
pub const VIRTIO_MMIO_VERSION: u32 = 0x004;
pub const VIRTIO_MMIO_DEVICE_ID: u32 = 0x008;
pub const VIRTIO_MMIO_VENDOR_ID: u32 = 0x00c;
pub const VIRTIO_MMIO_DEVICE_FEATURES: u32 = 0x010;
pub const VIRTIO_MMIO_DEVICE_FEATURES_SEL: u32 = 0x014;
pub const VIRTIO_MMIO_DRIVER_FEATURES: u32 = 0x020;
pub const VIRTIO_MMIO_DRIVER_FEATURES_SEL: u32 = 0x024;
pub const VIRTIO_MMIO_QUEUE_SEL: u32 = 0x030;
pub const VIRTIO_MMIO_QUEUE_NUM_MAX: u32 = 0x034;
pub const VIRTIO_MMIO_QUEUE_NUM: u32 = 0x038;
pub const VIRTIO_MMIO_QUEUE_READY: u32 = 0x044;
pub const VIRTIO_MMIO_QUEUE_NOTIFY: u32 = 0x050;
pub const VIRTIO_MMIO_INTERRUPT_STATUS: u32 = 0x060;
pub const VIRTIO_MMIO_INTERRUPT_ACK: u32 = 0x064;
pub const VIRTIO_MMIO_STATUS: u32 = 0x070;
pub const VIRTIO_MMIO_QUEUE_DESC_LOW: u32 = 0x080;
pub const VIRTIO_MMIO_QUEUE_DESC_HIGH: u32 = 0x084;
pub const VIRTIO_MMIO_QUEUE_AVAIL_LOW: u32 = 0x090;
pub const VIRTIO_MMIO_QUEUE_AVAIL_HIGH: u32 = 0x094;
pub const VIRTIO_MMIO_QUEUE_USED_LOW: u32 = 0x0a0;
pub const VIRTIO_MMIO_QUEUE_USED_HIGH: u32 = 0x0a4;
pub const VIRTIO_MMIO_CONFIG_GENERATION: u32 = 0x0fc;
pub const VIRTIO_MMIO_CONFIG: u32 = 0x100;

/// The magic value "virt".
pub const VIRTIO_MAGIC: u32 = 0x74726976;
/// The vendor id "QEMU".
pub const VIRTIO_VENDOR_QEMU: u32 = 0x554D4551;

/// VirtIO device IDs.
pub const VIRTIO_DEV_NET: u32 = 1;
pub const VIRTIO_DEV_BLK: u32 = 2;
pub const VIRTIO_DEV_9P: u32 = 9;

/// A single virtqueue.
#[derive(Clone, Copy, PartialEq, Eq, Structural, Debug)]
pub struct Virtqueue {
    /// Maximum queue size
    pub num_max: u32,
    /// Current queue size
    pub num: u32,
    /// Queue is ready
    pub ready: bool,
    /// Descriptor table address
    pub desc_addr: u64,
    /// Available ring address
    pub avail_addr: u64,
    /// Used ring address
    pub used_addr: u64,
    /// Last available index processed
    pub last_avail_idx: u16,
}

/// A queue after reset: only its maximum size is kept.
pub open spec fn queue_reset(q: Virtqueue) -> Virtqueue {
    Virtqueue { num_max: q.num_max, num: 0, ready: false, desc_addr: 0, avail_addr: 0, used_addr: 0, last_avail_idx: 0 }
}

impl Virtqueue {
    pub fn new(num_max: u32) -> (q: Virtqueue)
        ensures
            q == queue_reset(Virtqueue { num_max, num: 0, ready: false, desc_addr: 0, avail_addr: 0, used_addr: 0, last_avail_idx: 0 }),
    {
        Virtqueue { num_max, num: 0, ready: false, desc_addr: 0, avail_addr: 0, used_addr: 0, last_avail_idx: 0 }
    }

    pub fn reset(&mut self)
        ensures
            *final(self) == queue_reset(*old(self)),
    {
        self.num = 0;
        self.ready = false;
        self.desc_addr = 0;
        self.avail_addr = 0;
        self.used_addr = 0;
        self.last_avail_idx = 0;
    }
}

/// VirtIO MMIO device state.
pub struct VirtioMmio {
    /// Device type ID
    pub device_id: u32,
    /// Vendor ID
    pub vendor_id: u32,
    /// Device features
    pub device_features: u64,
    /// Driver-selected features
    pub driver_features: u64,
    /// Device feature selection (0 or 1 for low/high 32 bits)
    pub device_features_sel: u32,
    /// Driver feature selection
    pub driver_features_sel: u32,
    /// Current queue selection
    pub queue_sel: u32,
    /// Queues
    pub queues: Vec<Virtqueue>,
    /// Interrupt status
    pub interrupt_status: u32,
    /// Device status
    pub status: u32,
    /// Configuration data
    pub config: Vec<u8>,
    /// Configuration generation counter
    pub config_generation: u32,
    /// Interrupt pending
    pub interrupt_pending: bool,
    /// Queue indices written to QUEUE_NOTIFY and not yet processed
    pub queue_notify_pending: VecDeque<u32>,
}

/// Little-endian word of four bytes.
pub open spec fn le_word(b0: u8, b1: u8, b2: u8, b3: u8) -> u32 {
    (b0 + b1 * 0x100 + b2 * 0x1_0000 + b3 * 0x100_0000) as u32
}

/// `x` with its low 32 bits replaced by `v`.
pub open spec fn set_low(x: u64, v: u32) -> u64 {
    (x - x % 0x1_0000_0000 + v) as u64
}

/// `x` with its high 32 bits replaced by `v`.
pub open spec fn set_high(x: u64, v: u32) -> u64 {
    (x % 0x1_0000_0000 + v * 0x1_0000_0000) as u64
}

/// The selected queue, if it exists.
pub open spec fn selected(d: VirtioMmio) -> Option<Virtqueue> {
    if d.queue_sel < d.queues@.len() { Some(d.queues@[d.queue_sel as int]) } else { None }
}

/// What a 32-bit register read returns.
pub open spec fn mmio_read32(d: VirtioMmio, offset: u32) -> u32 {
    if offset == VIRTIO_MMIO_MAGIC_VALUE { VIRTIO_MAGIC }
    else if offset == VIRTIO_MMIO_VERSION { 2 }
    else if offset == VIRTIO_MMIO_DEVICE_ID { d.device_id }
    else if offset == VIRTIO_MMIO_VENDOR_ID { d.vendor_id }
    else if offset == VIRTIO_MMIO_DEVICE_FEATURES {
        if d.device_features_sel == 0 { (d.device_features % 0x1_0000_0000) as u32 }
        else { (d.device_features / 0x1_0000_0000) as u32 }
    }
    else if offset == VIRTIO_MMIO_QUEUE_NUM_MAX { match selected(d) { Some(q) => q.num_max, None => 0 } }
    else if offset == VIRTIO_MMIO_QUEUE_READY {
        match selected(d) { Some(q) => if q.ready { 1 } else { 0 }, None => 0 }
    }
    else if offset == VIRTIO_MMIO_INTERRUPT_STATUS { d.interrupt_status }
    else if offset == VIRTIO_MMIO_STATUS { d.status }
    else if offset == VIRTIO_MMIO_CONFIG_GENERATION { d.config_generation }
    else if offset >= VIRTIO_MMIO_CONFIG {
        let c = (offset - VIRTIO_MMIO_CONFIG) as int;
        if c + 4 <= d.config@.len() {
            le_word(d.config@[c], d.config@[c + 1], d.config@[c + 2], d.config@[c + 3])
        } else { 0 }
    }
    else { 0 }
}

/// What a byte read returns: a configuration byte, or a byte of the 32-bit register around it.
pub open spec fn mmio_read8(d: VirtioMmio, offset: u32) -> u8 {
    let c = offset as int - VIRTIO_MMIO_CONFIG;
    if 0 <= c < d.config@.len() { d.config@[c] }
    else { word_byte(mmio_read32(d, (offset - offset % 4) as u32), offset % 4) }
}

/// The registers other than the queues and the interrupt status are those of `o`.
pub open spec fn same_regs(o: VirtioMmio, n: VirtioMmio) -> bool {
    &&& n.device_id == o.device_id
    &&& n.vendor_id == o.vendor_id
    &&& n.device_features == o.device_features
    &&& n.config@ == o.config@
    &&& n.config_generation == o.config_generation
    &&& n.queue_notify_pending@ == o.queue_notify_pending@
}

/// The device after a reset: negotiation, selection, interrupts and status cleared, queues reset.
pub open spec fn mmio_reset(o: VirtioMmio, n: VirtioMmio) -> bool {
    &&& same_regs(o, n)
    &&& n.driver_features == 0
    &&& n.device_features_sel == 0
    &&& n.driver_features_sel == 0
    &&& n.queue_sel == 0
    &&& n.interrupt_status == 0
    &&& n.status == 0
    &&& n.interrupt_pending == false
    &&& n.queues@.len() == o.queues@.len()
    &&& forall|i: int| 0 <= i < o.queues@.len() ==> #[trigger] n.queues@[i] == queue_reset(o.queues@[i])
}

/// The selected queue, if any, is replaced by `f(q)`; nothing else changes.
pub open spec fn queue_written(o: VirtioMmio, n: VirtioMmio, q2: Option<Virtqueue>) -> bool {
    &&& same_regs(o, n)
    &&& n.driver_features == o.driver_features
    &&& n.device_features_sel == o.device_features_sel
    &&& n.driver_features_sel == o.driver_features_sel
    &&& n.queue_sel == o.queue_sel
    &&& n.interrupt_status == o.interrupt_status
    &&& n.status == o.status
    &&& n.interrupt_pending == o.interrupt_pending
    &&& n.queues@ == match q2 { Some(q) => o.queues@.update(o.queue_sel as int, q), None => o.queues@ }
}

/// What a 32-bit register write does.
pub open spec fn mmio_write32(o: VirtioMmio, n: VirtioMmio, offset: u32, value: u32) -> bool {
    let sel = selected(o);
    let unchanged = queue_written(o, n, None);
    if offset == VIRTIO_MMIO_DEVICE_FEATURES_SEL {
        queue_written(o, VirtioMmio { device_features_sel: o.device_features_sel, ..n }, None)
            && n.device_features_sel == value
    } else if offset == VIRTIO_MMIO_DRIVER_FEATURES {
        queue_written(o, VirtioMmio { driver_features: o.driver_features, ..n }, None)
            && n.driver_features == if o.driver_features_sel == 0 { set_low(o.driver_features, value) }
                else { set_high(o.driver_features, value) }
    } else if offset == VIRTIO_MMIO_DRIVER_FEATURES_SEL {
        queue_written(o, VirtioMmio { driver_features_sel: o.driver_features_sel, ..n }, None)
            && n.driver_features_sel == value
    } else if offset == VIRTIO_MMIO_QUEUE_SEL {
        queue_written(o, VirtioMmio { queue_sel: o.queue_sel, ..n }, None) && n.queue_sel == value
    } else if offset == VIRTIO_MMIO_QUEUE_NUM {
        queue_written(o, n, match sel { Some(q) => Some(Virtqueue { num: value, ..q }), None => None })
    } else if offset == VIRTIO_MMIO_QUEUE_READY {
        queue_written(o, n, match sel { Some(q) => Some(Virtqueue { ready: value != 0, ..q }), None => None })
    } else if offset == VIRTIO_MMIO_QUEUE_DESC_LOW {
        queue_written(o, n, match sel { Some(q) => Some(Virtqueue { desc_addr: set_low(q.desc_addr, value), ..q }), None => None })
    } else if offset == VIRTIO_MMIO_QUEUE_DESC_HIGH {
        queue_written(o, n, match sel { Some(q) => Some(Virtqueue { desc_addr: set_high(q.desc_addr, value), ..q }), None => None })
    } else if offset == VIRTIO_MMIO_QUEUE_AVAIL_LOW {
        queue_written(o, n, match sel { Some(q) => Some(Virtqueue { avail_addr: set_low(q.avail_addr, value), ..q }), None => None })
    } else if offset == VIRTIO_MMIO_QUEUE_AVAIL_HIGH {
        queue_written(o, n, match sel { Some(q) => Some(Virtqueue { avail_addr: set_high(q.avail_addr, value), ..q }), None => None })
    } else if offset == VIRTIO_MMIO_QUEUE_USED_LOW {
        queue_written(o, n, match sel { Some(q) => Some(Virtqueue { used_addr: set_low(q.used_addr, value), ..q }), None => None })
    } else if offset == VIRTIO_MMIO_QUEUE_USED_HIGH {
        queue_written(o, n, match sel { Some(q) => Some(Virtqueue { used_addr: set_high(q.used_addr, value), ..q }), None => None })
    } else if offset == VIRTIO_MMIO_INTERRUPT_ACK {
        let st = o.interrupt_status & !value;
        queue_written(o, VirtioMmio { interrupt_status: o.interrupt_status, interrupt_pending: o.interrupt_pending, ..n }, None)
            && n.interrupt_status == st
            && n.interrupt_pending == (if st == 0 { false } else { o.interrupt_pending })
    } else if offset == VIRTIO_MMIO_STATUS {
        if value == 0 { mmio_reset(o, n) }
        else { queue_written(o, VirtioMmio { status: o.status, ..n }, None) && n.status == value }
    } else if offset == VIRTIO_MMIO_QUEUE_NOTIFY {
        queue_written(o, VirtioMmio { queue_notify_pending: o.queue_notify_pending, ..n }, None)
            && n.queue_notify_pending@ == o.queue_notify_pending@.push(value)
    } else {
        unchanged
    }
}

impl VirtioMmio {
    pub fn new(device_id: u32, num_queues: usize, config: Vec<u8>) -> (d: VirtioMmio)
        ensures
            d.device_id == device_id,
            d.vendor_id == VIRTIO_VENDOR_QEMU,
            d.device_features == 0,
            d.driver_features == 0,
            d.device_features_sel == 0,
            d.driver_features_sel == 0,
            d.queue_sel == 0,
            d.queues@.len() == num_queues,
            forall|i: int| 0 <= i < num_queues ==> #[trigger] d.queues@[i] == Virtqueue::new_spec(256),
            d.interrupt_status == 0,
            d.status == 0,
            d.config@ == config@,
            d.config_generation == 0,
            !d.interrupt_pending,
            d.queue_notify_pending@.len() == 0,
    {
        let mut queues: Vec<Virtqueue> = Vec::new();
        let mut i: usize = 0;
        while i < num_queues
            invariant
                i <= num_queues,
                queues@.len() == i,
                forall|j: int| 0 <= j < i ==> #[trigger] queues@[j] == Virtqueue::new_spec(256),
            decreases num_queues - i,
        {
            queues.push(Virtqueue::new(256));
            i = i + 1;
        }
        VirtioMmio {
            device_id,
            vendor_id: VIRTIO_VENDOR_QEMU,
            device_features: 0,
            driver_features: 0,
            device_features_sel: 0,
            driver_features_sel: 0,
            queue_sel: 0,
            queues,
            interrupt_status: 0,
            status: 0,
            config,
            config_generation: 0,
            interrupt_pending: false,
            queue_notify_pending: VecDeque::new(),
        }
    }

    pub fn read32(&self, offset: u32) -> (r: u32)
        ensures
            r == mmio_read32(*self, offset),
    {
        if offset == VIRTIO_MMIO_MAGIC_VALUE {
            VIRTIO_MAGIC
        } else if offset == VIRTIO_MMIO_VERSION {
            2
        } else if offset == VIRTIO_MMIO_DEVICE_ID {
            self.device_id
        } else if offset == VIRTIO_MMIO_VENDOR_ID {
            self.vendor_id
        } else if offset == VIRTIO_MMIO_DEVICE_FEATURES {
            if self.device_features_sel == 0 {
                (self.device_features % 0x1_0000_0000) as u32
            } else {
                (self.device_features / 0x1_0000_0000) as u32
            }
        } else if offset == VIRTIO_MMIO_QUEUE_NUM_MAX {
            if (self.queue_sel as usize) < self.queues.len() {
                self.queues[self.queue_sel as usize].num_max
            } else {
                0
            }
        } else if offset == VIRTIO_MMIO_QUEUE_READY {
            if (self.queue_sel as usize) < self.queues.len() {
                if self.queues[self.queue_sel as usize].ready { 1 } else { 0 }
            } else {
                0
            }
        } else if offset == VIRTIO_MMIO_INTERRUPT_STATUS {
            self.interrupt_status
        } else if offset == VIRTIO_MMIO_STATUS {
            self.status
        } else if offset == VIRTIO_MMIO_CONFIG_GENERATION {
            self.config_generation
        } else if offset >= VIRTIO_MMIO_CONFIG {
            let c = (offset - VIRTIO_MMIO_CONFIG) as usize;
            if self.config.len() >= 4 && c <= self.config.len() - 4 {
                let b0 = self.config[c] as u32;
                let b1 = self.config[c + 1] as u32;
                let b2 = self.config[c + 2] as u32;
                let b3 = self.config[c + 3] as u32;
                b0 + b1 * 0x100 + b2 * 0x1_0000 + b3 * 0x100_0000
            } else {
                0
            }
        } else {
            0
        }
    }

    /// Replaces the selected queue, if it exists.
    fn update_selected(&mut self, q: Virtqueue)
        requires
            old(self).queue_sel < old(self).queues@.len(),
        ensures
            queue_written(*old(self), *final(self), Some(q)),
    {
        let i = self.queue_sel as usize;
        self.queues.set(i, q);
    }

    pub fn write32(&mut self, offset: u32, value: u32)
        ensures
            mmio_write32(*old(self), *final(self), offset, value),
    {
        let has_q = (self.queue_sel as usize) < self.queues.len();
        if offset == VIRTIO_MMIO_DEVICE_FEATURES_SEL {
            self.device_features_sel = value;
        } else if offset == VIRTIO_MMIO_DRIVER_FEATURES {
            if self.driver_features_sel == 0 {
                self.driver_features = self.driver_features - self.driver_features % 0x1_0000_0000 + value as u64;
            } else {
                self.driver_features = self.driver_features % 0x1_0000_0000 + (value as u64) * 0x1_0000_0000;
            }
        } else if offset == VIRTIO_MMIO_DRIVER_FEATURES_SEL {
            self.driver_features_sel = value;
        } else if offset == VIRTIO_MMIO_QUEUE_SEL {
            self.queue_sel = value;
        } else if offset == VIRTIO_MMIO_QUEUE_NUM {
            if has_q {
                let q = self.queues[self.queue_sel as usize];
                self.update_selected(Virtqueue { num: value, ..q });
            }
        } else if offset == VIRTIO_MMIO_QUEUE_READY {
            if has_q {
                let q = self.queues[self.queue_sel as usize];
                self.update_selected(Virtqueue { ready: value != 0, ..q });
            }
        } else if offset == VIRTIO_MMIO_QUEUE_DESC_LOW {
            if has_q {
                let q = self.queues[self.queue_sel as usize];
                let a = q.desc_addr - q.desc_addr % 0x1_0000_0000 + value as u64;
                self.update_selected(Virtqueue { desc_addr: a, ..q });
            }
        } else if offset == VIRTIO_MMIO_QUEUE_DESC_HIGH {
            if has_q {
                let q = self.queues[self.queue_sel as usize];
                let a = q.desc_addr % 0x1_0000_0000 + (value as u64) * 0x1_0000_0000;
                self.update_selected(Virtqueue { desc_addr: a, ..q });
            }
        } else if offset == VIRTIO_MMIO_QUEUE_AVAIL_LOW {
            if has_q {
                let q = self.queues[self.queue_sel as usize];
                let a = q.avail_addr - q.avail_addr % 0x1_0000_0000 + value as u64;
                self.update_selected(Virtqueue { avail_addr: a, ..q });
            }
        } else if offset == VIRTIO_MMIO_QUEUE_AVAIL_HIGH {
            if has_q {
                let q = self.queues[self.queue_sel as usize];
                let a = q.avail_addr % 0x1_0000_0000 + (value as u64) * 0x1_0000_0000;
                self.update_selected(Virtqueue { avail_addr: a, ..q });
            }
        } else if offset == VIRTIO_MMIO_QUEUE_USED_LOW {
            if has_q {
                let q = self.queues[self.queue_sel as usize];
                let a = q.used_addr - q.used_addr % 0x1_0000_0000 + value as u64;
                self.update_selected(Virtqueue { used_addr: a, ..q });
            }
        } else if offset == VIRTIO_MMIO_QUEUE_USED_HIGH {
            if has_q {
                let q = self.queues[self.queue_sel as usize];
                let a = q.used_addr % 0x1_0000_0000 + (value as u64) * 0x1_0000_0000;
                self.update_selected(Virtqueue { used_addr: a, ..q });
            }
        } else if offset == VIRTIO_MMIO_INTERRUPT_ACK {
            self.interrupt_status = self.interrupt_status & !value;
            if self.interrupt_status == 0 {
                self.interrupt_pending = false;
            }
        } else if offset == VIRTIO_MMIO_STATUS {
            if value == 0 {
                self.reset();
            } else {
                self.status = value;
            }
        } else if offset == VIRTIO_MMIO_QUEUE_NOTIFY {
            self.queue_notify_pending.push_back(value);
        }
    }

    pub fn read8(&self, offset: u32) -> (r: u8)
        ensures
            r == mmio_read8(*self, offset),
    {
        if offset >= VIRTIO_MMIO_CONFIG {
            let c = (offset - VIRTIO_MMIO_CONFIG) as usize;
            if c < self.config.len() {
                return self.config[c];
            }
        }
        let word = self.read32(offset - offset % 4);
        get_byte(word, offset % 4)
    }

    /// Byte writes reach the configuration space only; each bumps the generation counter.
    pub fn write8(&mut self, offset: u32, value: u8)
        ensures
            ({
                let c = offset as int - VIRTIO_MMIO_CONFIG;
                if 0 <= c < old(self).config@.len() {
                    &&& final(self).config@ == old(self).config@.update(c, value)
                    &&& final(self).config_generation == old(self).config_generation.wrapping_add(1)
                    &&& queue_written(*old(self), VirtioMmio {
                            config: old(self).config, config_generation: old(self).config_generation, ..*final(self)
                        }, None)
                } else {
                    queue_written(*old(self), *final(self), None)
                }
            }),
    {
        if offset >= VIRTIO_MMIO_CONFIG {
            let c = (offset - VIRTIO_MMIO_CONFIG) as usize;
            if c < self.config.len() {
                self.config.set(c, value);
                self.config_generation = self.config_generation.wrapping_add(1);
            }
        }
    }

    pub fn reset(&mut self)
        ensures
            mmio_reset(*old(self), *final(self)),
    {
        self.driver_features = 0;
        self.device_features_sel = 0;
        self.driver_features_sel = 0;
        self.queue_sel = 0;
        self.interrupt_status = 0;
        self.status = 0;
        let n = self.queues.len();
        let mut i: usize = 0;
        while i < n
            invariant
                i <= n,
                n == old(self).queues@.len(),
                self.queues@.len() == n,
                forall|j: int| 0 <= j < i ==> #[trigger] self.queues@[j] == queue_reset(old(self).queues@[j]),
                forall|j: int| i <= j < n ==> #[trigger] self.queues@[j] == old(self).queues@[j],
                self.device_id == old(self).device_id,
                self.vendor_id == old(self).vendor_id,
                self.device_features == old(self).device_features,
                self.config@ == old(self).config@,
                self.config_generation == old(self).config_generation,
                self.queue_notify_pending@ == old(self).queue_notify_pending@,
                self.driver_features == 0,
                self.device_features_sel == 0,
                self.driver_features_sel == 0,
                self.queue_sel == 0,
                self.interrupt_status == 0,
                self.status == 0,
            decreases n - i,
        {
            let mut q = self.queues[i];
            q.reset();
            self.queues.set(i, q);
            i = i + 1;
        }
        self.interrupt_pending = false;
    }

    /// Raise an interrupt: a used-buffer notification (bit 0) or a configuration change (bit 1).
    pub fn raise_interrupt(&mut self, ring_update: bool)
        ensures
            final(self).interrupt_status == old(self).interrupt_status | (if ring_update { 1u32 } else { 2u32 }),
            final(self).interrupt_pending,
            queue_written(*old(self), VirtioMmio {
                interrupt_status: old(self).interrupt_status, interrupt_pending: old(self).interrupt_pending, ..*final(self)
            }, None),
    {
        if ring_update {
            self.interrupt_status = self.interrupt_status | 1;
        } else {
            self.interrupt_status = self.interrupt_status | 2;
        }
        self.interrupt_pending = true;
    }
}

impl Virtqueue {
    /// A queue as created by `new`.
    pub open spec fn new_spec(num_max: u32) -> Virtqueue {
        Virtqueue { num_max, num: 0, ready: false, desc_addr: 0, avail_addr: 0, used_addr: 0, last_avail_idx: 0 }
    }
}

/// Descriptor flag: the chain continues at `next`.
pub const VRING_DESC_F_NEXT: u16 = 1;
/// Descriptor flag: the buffer is device-writable.
pub const VRING_DESC_F_WRITE: u16 = 2;
/// Descriptor flag: the buffer holds an indirect table.
pub const VRING_DESC_F_INDIRECT: u16 = 4;

/// A descriptor of a split virtqueue.
#[derive(Clone, Copy, PartialEq, Eq, Structural, Debug)]
pub struct Descriptor {
    pub addr: u64,
    pub len: u32,
    pub flags: u16,
    pub next: u16,
}

/// The guest address of a ring field: `base + off`, in the 32-bit physical address space.
pub open spec fn ring_addr(base: u64, off: u32) -> u32 {
    ((base % 0x1_0000_0000) as u32).wrapping_add(off)
}

/// The offset of slot `idx` of a ring with `size` entries of `width` bytes after a 4-byte header.
pub open spec fn slot_offset(idx: u16, size: u32, width: u32) -> u32 {
    4u32.wrapping_add(((idx as u32) % size).wrapping_mul(width))
}

impl Virtqueue {
    /// The queue size used to wrap ring indices (a queue of size 0 counts as 1).
    pub open spec fn ring_size(&self) -> u32 {
        if self.num == 0 { 1 } else { self.num }
    }

    /// The driver's index into the available ring.
    pub fn avail_idx(&self, mem: &Memory) -> (r: u16)
        requires
            mem.wf(),
        ensures
            mem.no_devices() ==> r == mem.spec_read16(ring_addr(self.avail_addr, 2)),
    {
        mem.read16(((self.avail_addr % 0x1_0000_0000) as u32).wrapping_add(2))
    }

    /// The head descriptor index at position `idx` of the available ring.
    pub fn get_avail_head(&self, mem: &Memory, idx: u16) -> (r: u16)
        requires
            mem.wf(),
        ensures
            mem.no_devices() ==> r == mem.spec_read16(ring_addr(self.avail_addr, slot_offset(idx, self.ring_size(), 2))),
    {
        let size: u32 = if self.num == 0 { 1 } else { self.num };
        let off = 4u32.wrapping_add(((idx as u32) % size).wrapping_mul(2));
        mem.read16(((self.avail_addr % 0x1_0000_0000) as u32).wrapping_add(off))
    }

    /// Descriptor `idx` of the descriptor table.
    pub fn read_desc(&self, mem: &Memory, idx: u16) -> (d: Descriptor)
        requires
            mem.wf(),
        ensures
            mem.no_devices() ==> d.addr == mem.spec_read64(ring_addr(self.desc_addr, (idx as u32 * 16) as u32)),
            mem.no_devices() ==> d.len == mem.spec_read32(ring_addr(self.desc_addr, (idx as u32 * 16) as u32).wrapping_add(8)),
            mem.no_devices() ==> d.flags == mem.spec_read16(ring_addr(self.desc_addr, (idx as u32 * 16) as u32).wrapping_add(12)),
            mem.no_devices() ==> d.next == mem.spec_read16(ring_addr(self.desc_addr, (idx as u32 * 16) as u32).wrapping_add(14)),
    {
        let base = ((self.desc_addr % 0x1_0000_0000) as u32).wrapping_add((idx as u32) * 16);
        Descriptor {
            addr: mem.read64(base),
            len: mem.read32(base.wrapping_add(8)),
            flags: mem.read16(base.wrapping_add(12)),
            next: mem.read16(base.wrapping_add(14)),
        }
    }

    /// Appends (id, len) to the used ring and advances its index.
    pub fn push_used(&self, mem: &mut Memory, id: u32, len: u32)
        requires
            old(mem).wf(),
        ensures
            final(mem).wf(),
            final(mem).rom_view() == old(mem).rom_view(),
            final(mem).same_devices(*old(mem)),
            old(mem).no_devices() ==> ({
                let base = ring_addr(self.used_addr, 0);
                let idx = old(mem).spec_read16(base.wrapping_add(2));
                let elem = base.wrapping_add(4).wrapping_add(((idx as u32) % self.ring_size()).wrapping_mul(8));
                final(mem).ram_view() == Memory::ram_after_write(
                    Memory::ram_after_write(
                        Memory::ram_after_write(old(mem).ram_view(), elem, id as u64, 4),
                        elem.wrapping_add(4),
                        len as u64,
                        4,
                    ),
                    base.wrapping_add(2),
                    idx.wrapping_add(1) as u64,
                    2,
                )
            }),
    {
        let base = (self.used_addr % 0x1_0000_0000) as u32;
        proof {
            assert(base.wrapping_add(0) == base);
            if mem.no_devices() {
                mem.lemma_no_devices_free(base.wrapping_add(2), 2);
            }
        }
        let used_idx = mem.read16(base.wrapping_add(2));
        let size: u32 = if self.num == 0 { 1 } else { self.num };
        let slot = (used_idx as u32) % size;
        let elem = base.wrapping_add(4).wrapping_add(slot.wrapping_mul(8));
        proof {
            if mem.no_devices() {
                mem.lemma_no_devices_free(elem, 4);
            }
        }
        mem.write32(elem, id);
        proof {
            if old(mem).no_devices() {
                mem.lemma_no_devices_free(elem.wrapping_add(4), 4);
            }
        }
        mem.write32(elem.wrapping_add(4), len);
        proof {
            if old(mem).no_devices() {
                mem.lemma_no_devices_free(base.wrapping_add(2), 2);
            }
        }
        mem.write16(base.wrapping_add(2), used_idx.wrapping_add(1));
    }
}

} // verus!
