//! CLINT - Core Local Interruptor: the machine timer and software interrupt.

use vstd::prelude::*;

verus! {

/// Machine Software Interrupt Pending register offset.
pub const MSIP_BASE: u32 = 0x0000;
/// Machine Timer Compare register offset.
pub const MTIME_COMPARE_BASE: u32 = 0x4000;
/// Machine Timer register offset.
pub const MTIME_BASE: u32 = 0xBFF8;

/// The registers of a CLINT.
pub struct ClintState {
    pub msip: u32,
    pub mtime_compare: u64,
    pub mtime: u64,
    pub timer_interrupt: bool,
    pub software_interrupt: bool,
}

/// CLINT device.
pub struct Clint {
    /// Machine Software Interrupt Pending (one hart)
    msip: u32,
    /// Timer compare value
    mtime_compare: u64,
    /// Current timer value
    mtime: u64,
    /// Timer interrupt pending
    pub timer_interrupt: bool,
    /// Software interrupt pending
    pub software_interrupt: bool,
}

impl View for Clint {
    type V = ClintState;

    closed spec fn view(&self) -> ClintState {
        ClintState {
            msip: self.msip,
            mtime_compare: self.mtime_compare,
            mtime: self.mtime,
            timer_interrupt: self.timer_interrupt,
            software_interrupt: self.software_interrupt,
        }
    }
}

/// `x` with its low 32 bits replaced by `v`.
pub open spec fn with_low(x: u64, v: u32) -> u64 {
    (x - x % 0x1_0000_0000 + v) as u64
}

/// `x` with its high 32 bits replaced by `v`.
pub open spec fn with_high(x: u64, v: u32) -> u64 {
    (x % 0x1_0000_0000 + v * 0x1_0000_0000) as u64
}

/// The timer interrupt is pending exactly when mtime has reached mtime_compare.
pub open spec fn timer_consistent(s: ClintState) -> bool {
    s.timer_interrupt == (s.mtime >= s.mtime_compare)
}

/// `s` with the timer line recomputed.
pub open spec fn timer_checked(s: ClintState) -> ClintState {
    ClintState { timer_interrupt: s.mtime >= s.mtime_compare, ..s }
}

/// What a 32-bit read at `offset` returns.
pub open spec fn clint_read32(s: ClintState, offset: u32) -> u32 {
    if offset < MSIP_BASE + 4 { s.msip }
    else if MTIME_COMPARE_BASE <= offset < MTIME_COMPARE_BASE + 4 { (s.mtime_compare % 0x1_0000_0000) as u32 }
    else if MTIME_COMPARE_BASE + 4 <= offset < MTIME_COMPARE_BASE + 8 { (s.mtime_compare / 0x1_0000_0000) as u32 }
    else if MTIME_BASE <= offset < MTIME_BASE + 4 { (s.mtime % 0x1_0000_0000) as u32 }
    else if MTIME_BASE + 4 <= offset < MTIME_BASE + 8 { (s.mtime / 0x1_0000_0000) as u32 }
    else { 0 }
}

/// The state after a 32-bit write of `value` at `offset`.
pub open spec fn clint_write32(s: ClintState, offset: u32, value: u32) -> ClintState {
    if offset < MSIP_BASE + 4 {
        ClintState { msip: value % 2, software_interrupt: value % 2 != 0, ..s }
    } else if MTIME_COMPARE_BASE <= offset < MTIME_COMPARE_BASE + 4 {
        timer_checked(ClintState { mtime_compare: with_low(s.mtime_compare, value), ..s })
    } else if MTIME_COMPARE_BASE + 4 <= offset < MTIME_COMPARE_BASE + 8 {
        timer_checked(ClintState { mtime_compare: with_high(s.mtime_compare, value), ..s })
    } else if MTIME_BASE <= offset < MTIME_BASE + 4 {
        timer_checked(ClintState { mtime: with_low(s.mtime, value), ..s })
    } else if MTIME_BASE + 4 <= offset < MTIME_BASE + 8 {
        timer_checked(ClintState { mtime: with_high(s.mtime, value), ..s })
    } else {
        s
    }
}

/// Byte `k` (0 = least significant) of a 32-bit word.
pub open spec fn word_byte(w: u32, k: u32) -> u8 {
    ((w as int / pow256(k)) % 256) as u8
}

/// 256^k for k < 4.
pub open spec fn pow256(k: u32) -> int {
    if k == 0 { 1 } else if k == 1 { 0x100 } else if k == 2 { 0x1_0000 } else { 0x100_0000 }
}

/// A word with byte `k` replaced by `b`.
pub open spec fn with_byte(w: u32, k: u32, b: u8) -> u32 {
    (w - word_byte(w, k) * pow256(k) + b * pow256(k)) as u32
}

/// Byte `k` of `w`, computed.
pub fn get_byte(w: u32, k: u32) -> (r: u8)
    requires
        k < 4,
    ensures
        r == word_byte(w, k),
{
    let p: u32 = if k == 0 { 1 } else if k == 1 { 0x100 } else if k == 2 { 0x1_0000 } else { 0x100_0000 };
    ((w / p) % 256) as u8
}

/// `w` with byte `k` replaced by `b`, computed.
pub fn put_byte(w: u32, k: u32, b: u8) -> (r: u32)
    requires
        k < 4,
    ensures
        r == with_byte(w, k, b),
{
    let p: u32 = if k == 0 { 1 } else if k == 1 { 0x100 } else if k == 2 { 0x1_0000 } else { 0x100_0000 };
    let old = ((w / p) % 256) as u32;
    assert(old * p <= w) by (nonlinear_arith)
        requires old == (w / p) % 256, p >= 1;
    assert(w - old * p + b * p < 0x1_0000_0000) by (nonlinear_arith)
        requires old == (w / p) % 256, p >= 1, b < 256, w < 0x1_0000_0000,
            p == 1 || p == 0x100 || p == 0x1_0000 || p == 0x100_0000;
    w - old * p + (b as u32) * p
}

impl Clint {
    pub fn new() -> (c: Clint)
        ensures
            c@ == (ClintState { msip: 0, mtime_compare: u64::MAX, mtime: 0, timer_interrupt: false, software_interrupt: false }),
    {
        Clint { msip: 0, mtime_compare: u64::MAX, mtime: 0, timer_interrupt: false, software_interrupt: false }
    }

    /// Advance the timer by `ticks` (wrapping).
    pub fn tick(&mut self, ticks: u64)
        ensures
            final(self)@ == timer_checked(ClintState { mtime: old(self)@.mtime.wrapping_add(ticks), ..old(self)@ }),
    {
        self.mtime = self.mtime.wrapping_add(ticks);
        self.check_timer();
    }

    /// Set mtime directly (for time sync).
    pub fn set_mtime(&mut self, value: u64)
        ensures
            final(self)@ == timer_checked(ClintState { mtime: value, ..old(self)@ }),
    {
        self.mtime = value;
        self.check_timer();
    }

    /// Is the timer interrupt pending?
    pub fn timer_pending(&self) -> (r: bool)
        ensures
            r == self@.timer_interrupt,
    {
        self.timer_interrupt
    }

    /// Is the software interrupt pending?
    pub fn software_pending(&self) -> (r: bool)
        ensures
            r == self@.software_interrupt,
    {
        self.software_interrupt
    }

    /// Current mtime.
    pub fn get_mtime(&self) -> (r: u64)
        ensures
            r == self@.mtime,
    {
        self.mtime
    }

    /// Recompute the timer interrupt line.
    fn check_timer(&mut self)
        ensures
            final(self)@ == timer_checked(old(self)@),
    {
        self.timer_interrupt = self.mtime >= self.mtime_compare;
    }

    pub fn read8(&self, offset: u32) -> (r: u8)
        ensures
            r == word_byte(clint_read32(self@, (offset - offset % 4) as u32), offset % 4),
    {
        let word = self.read32(offset - offset % 4);
        get_byte(word, offset % 4)
    }

    pub fn write8(&mut self, offset: u32, value: u8)
        ensures
            ({
                let wo = (offset - offset % 4) as u32;
                final(self)@ == clint_write32(old(self)@, wo,
                    with_byte(clint_read32(old(self)@, wo), offset % 4, value))
            }),
    {
        let wo = offset - offset % 4;
        let word = self.read32(wo);
        let w = put_byte(word, offset % 4, value);
        self.write32(wo, w);
    }

    pub fn read32(&self, offset: u32) -> (r: u32)
        ensures
            r == clint_read32(self@, offset),
    {
        if offset < MSIP_BASE + 4 {
            self.msip
        } else if MTIME_COMPARE_BASE <= offset && offset < MTIME_COMPARE_BASE + 4 {
            (self.mtime_compare % 0x1_0000_0000) as u32
        } else if MTIME_COMPARE_BASE + 4 <= offset && offset < MTIME_COMPARE_BASE + 8 {
            (self.mtime_compare / 0x1_0000_0000) as u32
        } else if MTIME_BASE <= offset && offset < MTIME_BASE + 4 {
            (self.mtime % 0x1_0000_0000) as u32
        } else if MTIME_BASE + 4 <= offset && offset < MTIME_BASE + 8 {
            (self.mtime / 0x1_0000_0000) as u32
        } else {
            0
        }
    }

    pub fn write32(&mut self, offset: u32, value: u32)
        ensures
            final(self)@ == clint_write32(old(self)@, offset, value),
    {
        if offset < MSIP_BASE + 4 {
            self.msip = value % 2;
            self.software_interrupt = self.msip != 0;
        } else if MTIME_COMPARE_BASE <= offset && offset < MTIME_COMPARE_BASE + 4 {
            self.mtime_compare = self.mtime_compare - self.mtime_compare % 0x1_0000_0000 + value as u64;
            self.check_timer();
        } else if MTIME_COMPARE_BASE + 4 <= offset && offset < MTIME_COMPARE_BASE + 8 {
            self.mtime_compare = self.mtime_compare % 0x1_0000_0000 + (value as u64) * 0x1_0000_0000;
            self.check_timer();
        } else if MTIME_BASE <= offset && offset < MTIME_BASE + 4 {
            self.mtime = self.mtime - self.mtime % 0x1_0000_0000 + value as u64;
            self.check_timer();
        } else if MTIME_BASE + 4 <= offset && offset < MTIME_BASE + 8 {
            self.mtime = self.mtime % 0x1_0000_0000 + (value as u64) * 0x1_0000_0000;
            self.check_timer();
        }
    }

    /// Timer ticks until the timer interrupt fires (zero once it is due).
    pub fn ticks_until_interrupt(&self) -> (r: u64)
        ensures
            r == (if self@.mtime >= self@.mtime_compare { 0 } else { (self@.mtime_compare - self@.mtime) as u64 }),
    {
        if self.mtime >= self.mtime_compare {
            0
        } else {
            self.mtime_compare - self.mtime
        }
    }

    pub fn reset(&mut self)
        ensures
            final(self)@ == (ClintState { msip: 0, mtime_compare: u64::MAX, mtime: 0, timer_interrupt: false, software_interrupt: false }),
    {
        self.msip = 0;
        self.mtime_compare = u64::MAX;
        self.mtime = 0;
        self.timer_interrupt = false;
        self.software_interrupt = false;
    }
}

/// A 32-bit write to a timer register followed by a read of it gives the written value back.
pub proof fn lemma_clint_write_read(s: ClintState, offset: u32, value: u32)
    requires
        MTIME_COMPARE_BASE <= offset < MTIME_COMPARE_BASE + 8 || MTIME_BASE <= offset < MTIME_BASE + 8,
    ensures
        clint_read32(clint_write32(s, offset, value), offset) == value,
{
}

/// Every write keeps the timer line equal to `mtime >= mtime_compare` once it held before.
pub proof fn lemma_clint_write_keeps_timer(s: ClintState, offset: u32, value: u32)
    requires
        timer_consistent(s),
    ensures
        timer_consistent(clint_write32(s, offset, value)),
{
}

} // verus!
