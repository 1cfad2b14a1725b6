//! PLIC - Platform-Level Interrupt Controller: routes external interrupts
//! to the M-mode (context 0) and S-mode (context 1) external interrupt lines.

use vstd::prelude::*;
use super::clint::{get_byte, put_byte, word_byte, with_byte};

verus! {

/// Interrupt pending bits offset.
pub const PENDING_BASE: u32 = 0x001000;
/// Per-context enable bits offset.
pub const ENABLE_BASE: u32 = 0x002000;
/// Per-context threshold (and claim/complete) offset.
pub const THRESHOLD_BASE: u32 = 0x200000;
/// Number of interrupt sources (source 0 does not exist).
pub const MAX_INTERRUPTS: u32 = 128;
/// Contexts: M-mode and S-mode of hart 0.
pub const MAX_CONTEXTS: u32 = 2;

/// The registers of a PLIC.
pub struct PlicState {
    pub priorities: Seq<u8>,
    pub pending: Seq<u32>,
    pub enable: Seq<Seq<u32>>,
    pub threshold: Seq<u8>,
    pub claimed: Seq<u32>,
    pub s_external_interrupt: bool,
    pub m_external_interrupt: bool,
}

/// PLIC device.
pub struct Plic {
    /// Interrupt priorities (0 = disabled, 1-7 = priority)
    priorities: [u8; 128],
    /// Pending interrupt bits
    pending: [u32; 4],
    /// Enabled interrupts per context
    enable: [[u32; 4]; 2],
    /// Priority threshold per context
    threshold: [u8; 2],
    /// Current claimed interrupt per context
    claimed: [u32; 2],
    /// External interrupt pending for S-mode
    pub s_external_interrupt: bool,
    /// External interrupt pending for M-mode
    pub m_external_interrupt: bool,
}

impl View for Plic {
    type V = PlicState;

    closed spec fn view(&self) -> PlicState {
        PlicState {
            priorities: self.priorities@,
            pending: self.pending@,
            enable: seq![self.enable[0]@, self.enable[1]@],
            threshold: self.threshold@,
            claimed: self.claimed@,
            s_external_interrupt: self.s_external_interrupt,
            m_external_interrupt: self.m_external_interrupt,
        }
    }
}

/// Register file sizes.
pub open spec fn plic_wf(s: PlicState) -> bool {
    &&& s.priorities.len() == 128
    &&& s.pending.len() == 4
    &&& s.enable.len() == 2
    &&& s.enable[0].len() == 4
    &&& s.enable[1].len() == 4
    &&& s.threshold.len() == 2
    &&& s.claimed.len() == 2
}

/// Is the bit of source `irq` set in word `w` (the word that holds it)?
pub open spec fn irq_bit(w: u32, irq: u32) -> bool {
    w & (1u32 << (irq % 32)) != 0
}

/// Source `irq` is pending, enabled for `ctx` and above its threshold.
pub open spec fn eligible(s: PlicState, ctx: int, irq: u32) -> bool {
    &&& 1 <= irq < MAX_INTERRUPTS
    &&& irq_bit(s.pending[(irq / 32) as int], irq)
    &&& irq_bit(s.enable[ctx][(irq / 32) as int], irq)
    &&& s.priorities[irq as int] > s.threshold[ctx]
}

/// `irq` is the eligible source of highest priority for `ctx`, the lowest-numbered among equals.
pub open spec fn is_best(s: PlicState, ctx: int, irq: u32) -> bool {
    &&& eligible(s, ctx, irq)
    &&& forall|j: u32| #[trigger] eligible(s, ctx, j) ==> s.priorities[j as int] <= s.priorities[irq as int]
        && (s.priorities[j as int] == s.priorities[irq as int] ==> irq <= j)
}

/// Some source is eligible for `ctx`.
pub open spec fn has_pending(s: PlicState, ctx: int) -> bool {
    exists|irq: u32| #[trigger] eligible(s, ctx, irq)
}

/// `s` with both external interrupt lines recomputed.
pub open spec fn lines_updated(s: PlicState) -> PlicState {
    PlicState { m_external_interrupt: has_pending(s, 0), s_external_interrupt: has_pending(s, 1), ..s }
}

/// `s` with the pending bit of `irq` set (`on`) or cleared.
pub open spec fn with_pending(s: PlicState, irq: u32, on: bool) -> PlicState {
    let idx = (irq / 32) as int;
    let bit = 1u32 << (irq % 32);
    PlicState {
        pending: s.pending.update(idx, if on { s.pending[idx] | bit } else { s.pending[idx] & !bit }),
        ..s
    }
}

/// The state after a completion of `irq` by `ctx`.
pub open spec fn completed(s: PlicState, ctx: int, irq: u32) -> PlicState {
    lines_updated(if s.claimed[ctx] == irq { PlicState { claimed: s.claimed.update(ctx, 0), ..s } } else { s })
}

/// What the register at `offset` holds (the claim/complete register holds
/// the context's claimed source).
pub open spec fn plic_register(s: PlicState, o: u32) -> u32 {
    if o < 0x1000 {
        let irq = o / 4;
        if irq < MAX_INTERRUPTS { s.priorities[irq as int] as u32 } else { 0 }
    } else if PENDING_BASE <= o < PENDING_BASE + 0x80 {
        let idx = (o - PENDING_BASE) / 4;
        if idx < 4 { s.pending[idx as int] } else { 0 }
    } else if ENABLE_BASE <= o < ENABLE_BASE + 0x100 {
        let rel = o - ENABLE_BASE;
        let ctx = rel / 0x80;
        let idx = (rel % 0x80) / 4;
        if ctx < MAX_CONTEXTS && idx < 4 { s.enable[ctx as int][idx as int] } else { 0 }
    } else if o >= THRESHOLD_BASE {
        let rel = o - THRESHOLD_BASE;
        let ctx = rel / 0x1000;
        let reg = rel % 0x1000;
        if ctx >= MAX_CONTEXTS { 0 }
        else if reg == 0 { s.threshold[ctx as int] as u32 }
        else if reg == 4 { s.claimed[ctx as int] }
        else { 0 }
    } else {
        0
    }
}

/// Is `o` the claim/complete register of a context?
pub open spec fn is_claim_reg(o: u32) -> bool {
    o >= THRESHOLD_BASE && (o - THRESHOLD_BASE) / 0x1000 < MAX_CONTEXTS && (o - THRESHOLD_BASE) % 0x1000 == 4
}

/// The context whose claim/complete register is at `o`.
pub open spec fn claim_ctx(o: u32) -> int {
    ((o - THRESHOLD_BASE) / 0x1000) as int
}

/// The source a claim by `ctx` takes: the best eligible one, or 0 when none is.
pub open spec fn claim_of(s: PlicState, ctx: int) -> u32 {
    if has_pending(s, ctx) { choose|irq: u32| is_best(s, ctx, irq) } else { 0 }
}

/// The state after `ctx` claims: the claimed source's pending bit is cleared
/// and it becomes the context's claimed source (nothing changes when none is eligible).
pub open spec fn claimed_by(s: PlicState, ctx: int) -> PlicState {
    if has_pending(s, ctx) {
        let irq = claim_of(s, ctx);
        lines_updated(PlicState { claimed: s.claimed.update(ctx, irq), ..with_pending(s, irq, false) })
    } else {
        s
    }
}

/// What a 32-bit read at `offset` returns: a read of a claim/complete
/// register claims, the others give the register.
pub open spec fn plic_read32(s: PlicState, o: u32) -> u32 {
    if is_claim_reg(o) { claim_of(s, claim_ctx(o)) } else { plic_register(s, o) }
}

/// The state after a 32-bit read at `offset`.
pub open spec fn plic_after_read32(s: PlicState, o: u32) -> PlicState {
    if is_claim_reg(o) { claimed_by(s, claim_ctx(o)) } else { s }
}

/// At most one source is the best for a context.
pub proof fn lemma_best_unique(s: PlicState, ctx: int, a: u32, b: u32)
    requires
        is_best(s, ctx, a),
        is_best(s, ctx, b),
    ensures
        a == b,
{
}

/// The state after a 32-bit write of `value` at `offset`.
pub open spec fn plic_write32(s: PlicState, o: u32, value: u32) -> PlicState {
    if o < 0x1000 {
        let irq = o / 4;
        if 0 < irq < MAX_INTERRUPTS {
            lines_updated(PlicState { priorities: s.priorities.update(irq as int, (value % 8) as u8), ..s })
        } else {
            s
        }
    } else if PENDING_BASE <= o < PENDING_BASE + 0x80 {
        s
    } else if ENABLE_BASE <= o < ENABLE_BASE + 0x100 {
        let rel = o - ENABLE_BASE;
        let ctx = (rel / 0x80) as int;
        let idx = ((rel % 0x80) / 4) as int;
        if ctx < 2 && idx < 4 {
            lines_updated(PlicState { enable: s.enable.update(ctx, s.enable[ctx].update(idx, value)), ..s })
        } else {
            s
        }
    } else if o >= THRESHOLD_BASE {
        let rel = o - THRESHOLD_BASE;
        let ctx = (rel / 0x1000) as int;
        let reg = rel % 0x1000;
        if ctx >= 2 { s }
        else if reg == 0 { lines_updated(PlicState { threshold: s.threshold.update(ctx, (value % 8) as u8), ..s }) }
        else if reg == 4 { completed(s, ctx, value) }
        else { s }
    } else {
        s
    }
}

/// A PLIC with every register zero and both lines low.
pub open spec fn plic_zero() -> PlicState {
    PlicState {
        priorities: Seq::new(128, |i: int| 0u8),
        pending: seq![0u32, 0, 0, 0],
        enable: seq![seq![0u32, 0, 0, 0], seq![0u32, 0, 0, 0]],
        threshold: seq![0u8, 0],
        claimed: seq![0u32, 0],
        s_external_interrupt: false,
        m_external_interrupt: false,
    }
}

impl Plic {
    pub fn new() -> (p: Plic)
        ensures
            p@ == plic_zero(),
    {
        let p = Plic {
            priorities: [0u8; 128],
            pending: [0u32; 4],
            enable: [[0u32; 4]; 2],
            threshold: [0u8; 2],
            claimed: [0u32; 2],
            s_external_interrupt: false,
            m_external_interrupt: false,
        };
        assert(p@.priorities =~= plic_zero().priorities);
        assert(p@.pending =~= plic_zero().pending);
        assert(p@.enable[0] =~= seq![0u32, 0, 0, 0]);
        assert(p@.enable[1] =~= seq![0u32, 0, 0, 0]);
        assert(p@.enable =~= plic_zero().enable);
        assert(p@.threshold =~= plic_zero().threshold);
        assert(p@.claimed =~= plic_zero().claimed);
        p
    }

    /// Is the M-mode external interrupt line raised?
    pub fn m_external_pending(&self) -> (r: bool)
        ensures
            r == self@.m_external_interrupt,
    {
        self.m_external_interrupt
    }

    /// Is the S-mode external interrupt line raised?
    pub fn s_external_pending(&self) -> (r: bool)
        ensures
            r == self@.s_external_interrupt,
    {
        self.s_external_interrupt
    }

    /// Raise external interrupt `irq` (0 and out-of-range sources are ignored).
    pub fn raise_interrupt(&mut self, irq: u32)
        ensures
            final(self)@ == if irq == 0 || irq >= MAX_INTERRUPTS { old(self)@ }
                else { lines_updated(with_pending(old(self)@, irq, true)) },
    {
        if irq == 0 || irq >= MAX_INTERRUPTS {
            return;
        }
        let idx = (irq / 32) as usize;
        let bit = 1u32 << (irq % 32);
        self.pending[idx] = self.pending[idx] | bit;
        assert(self@.pending =~= with_pending(old(self)@, irq, true).pending);
        self.update_external_interrupts();
    }

    /// Clear interrupt `irq` (0 and out-of-range sources are ignored).
    pub fn clear_interrupt(&mut self, irq: u32)
        ensures
            final(self)@ == if irq == 0 || irq >= MAX_INTERRUPTS { old(self)@ }
                else { lines_updated(with_pending(old(self)@, irq, false)) },
    {
        if irq == 0 || irq >= MAX_INTERRUPTS {
            return;
        }
        let idx = (irq / 32) as usize;
        let bit = 1u32 << (irq % 32);
        self.pending[idx] = self.pending[idx] & !bit;
        assert(self@.pending =~= with_pending(old(self)@, irq, false).pending);
        self.update_external_interrupts();
    }

    /// The highest-priority eligible source for `context`.
    fn find_pending(&self, context: usize) -> (r: Option<u32>)
        requires
            context < 2,
        ensures
            r is None <==> !has_pending(self@, context as int),
            r matches Some(irq) ==> is_best(self@, context as int, irq),
    {
        let mut best_irq: Option<u32> = None;
        let mut best_priority: u8 = 0;
        let mut irq: u32 = 1;
        while irq < MAX_INTERRUPTS
            invariant
                1 <= irq <= MAX_INTERRUPTS,
                context < 2,
                best_irq is None ==> best_priority == 0
                    && forall|j: u32| 1 <= j < irq ==> !#[trigger] eligible(self@, context as int, j),
                best_irq matches Some(b) ==> {
                    &&& 1 <= b < irq
                    &&& eligible(self@, context as int, b)
                    &&& self@.priorities[b as int] == best_priority
                    &&& forall|j: u32| 1 <= j < irq && #[trigger] eligible(self@, context as int, j)
                        ==> self@.priorities[j as int] <= best_priority
                            && (self@.priorities[j as int] == best_priority ==> b <= j)
                },
            decreases MAX_INTERRUPTS - irq,
        {
            let idx = (irq / 32) as usize;
            let bit = 1u32 << (irq % 32);
            if (self.pending[idx] & bit) != 0 && (self.enable[context][idx] & bit) != 0 {
                let priority = self.priorities[irq as usize];
                if priority > self.threshold[context] && priority > best_priority {
                    best_priority = priority;
                    best_irq = Some(irq);
                }
            }
            irq = irq + 1;
        }
        proof {
            match best_irq {
                Some(b) => {
                    assert forall|j: u32| #[trigger] eligible(self@, context as int, j) implies
                        self@.priorities[j as int] <= self@.priorities[b as int]
                        && (self@.priorities[j as int] == self@.priorities[b as int] ==> b <= j) by {
                        assert(1 <= j < irq);
                    }
                    assert(has_pending(self@, context as int));
                },
                None => {
                    assert forall|j: u32| !#[trigger] eligible(self@, context as int, j) by {
                        if eligible(self@, context as int, j) {
                            assert(1 <= j < irq);
                        }
                    }
                },
            }
        }
        best_irq
    }

    /// Recompute both external interrupt lines.
    fn update_external_interrupts(&mut self)
        ensures
            final(self)@ == lines_updated(old(self)@),
    {
        let m = self.find_pending(0).is_some();
        let s = self.find_pending(1).is_some();
        self.m_external_interrupt = m;
        self.s_external_interrupt = s;
    }

    /// Claim the best pending source of `context`: its pending bit is cleared
    /// and it becomes the context's claimed source. Returns 0 when none is pending.
    fn claim(&mut self, context: usize) -> (r: u32)
        requires
            context < 2,
        ensures
            !has_pending(old(self)@, context as int) ==> r == 0 && final(self)@ == old(self)@,
            has_pending(old(self)@, context as int) ==> {
                &&& is_best(old(self)@, context as int, r)
                &&& final(self)@ == lines_updated(PlicState {
                        claimed: old(self)@.claimed.update(context as int, r),
                        ..with_pending(old(self)@, r, false)
                    })
            },
    {
        match self.find_pending(context) {
            Some(irq) => {
                let idx = (irq / 32) as usize;
                let bit = 1u32 << (irq % 32);
                self.pending[idx] = self.pending[idx] & !bit;
                self.claimed[context] = irq;
                assert(self@.pending =~= with_pending(old(self)@, irq, false).pending);
                assert(self@.claimed =~= old(self)@.claimed.update(context as int, irq));
                self.update_external_interrupts();
                irq
            },
            None => 0,
        }
    }

    /// Complete the handling of `irq` in `context`.
    fn complete(&mut self, context: usize, irq: u32)
        requires
            context < 2,
        ensures
            final(self)@ == completed(old(self)@, context as int, irq),
    {
        if self.claimed[context] == irq {
            self.claimed[context] = 0;
            assert(self@.claimed =~= old(self)@.claimed.update(context as int, 0));
        }
        self.update_external_interrupts();
    }

    pub fn read8(&mut self, offset: u32) -> (r: u8)
        ensures
            r == word_byte(plic_read32(old(self)@, (offset - offset % 4) as u32), offset % 4),
            final(self)@ == plic_after_read32(old(self)@, (offset - offset % 4) as u32),
    {
        let word = self.read32(offset - offset % 4);
        get_byte(word, offset % 4)
    }

    pub fn write8(&mut self, offset: u32, value: u8)
        ensures
            ({
                let wo = (offset - offset % 4) as u32;
                final(self)@ == plic_write32(old(self)@, wo, with_byte(plic_register(old(self)@, wo), offset % 4, value))
            }),
    {
        let wo = offset - offset % 4;
        let word = self.register(wo);
        let w = put_byte(word, offset % 4, value);
        self.write32(wo, w);
    }

    /// A 32-bit read: reading a context's claim/complete register claims its
    /// best eligible source (0 when there is none); other reads change nothing.
    pub fn read32(&mut self, offset: u32) -> (r: u32)
        ensures
            r == plic_read32(old(self)@, offset),
            final(self)@ == plic_after_read32(old(self)@, offset),
    {
        if offset >= THRESHOLD_BASE {
            let rel = offset - THRESHOLD_BASE;
            let context = rel / 0x1000;
            if context < MAX_CONTEXTS && rel % 0x1000 == 4 {
                let r = self.claim(context as usize);
                proof {
                    if has_pending(old(self)@, context as int) {
                        let c = choose|irq: u32| is_best(old(self)@, context as int, irq);
                        lemma_best_unique(old(self)@, context as int, r, c);
                    }
                }
                return r;
            }
        }
        self.register(offset)
    }

    /// What the register at `offset` holds.
    fn register(&self, offset: u32) -> (r: u32)
        ensures
            r == plic_register(self@, offset),
    {
        let o = offset;
        if o < 0x1000 {
            let irq = o / 4;
            if irq < MAX_INTERRUPTS { self.priorities[irq as usize] as u32 } else { 0 }
        } else if PENDING_BASE <= o && o < PENDING_BASE + 0x80 {
            let idx = (o - PENDING_BASE) / 4;
            if idx < 4 { self.pending[idx as usize] } else { 0 }
        } else if ENABLE_BASE <= o && o < ENABLE_BASE + 0x100 {
            let rel = o - ENABLE_BASE;
            let context = rel / 0x80;
            let idx = (rel % 0x80) / 4;
            if context < MAX_CONTEXTS && idx < 4 {
                self.enable[context as usize][idx as usize]
            } else {
                0
            }
        } else if o >= THRESHOLD_BASE {
            let rel = o - THRESHOLD_BASE;
            let context = rel / 0x1000;
            let reg = rel % 0x1000;
            if context >= MAX_CONTEXTS {
                0
            } else if reg == 0 {
                self.threshold[context as usize] as u32
            } else if reg == 4 {
                self.claimed[context as usize]
            } else {
                0
            }
        } else {
            0
        }
    }

    pub fn write32(&mut self, offset: u32, value: u32)
        ensures
            final(self)@ == plic_write32(old(self)@, offset, value),
    {
        let o = offset;
        if o < 0x1000 {
            let irq = o / 4;
            if irq > 0 && irq < MAX_INTERRUPTS {
                self.priorities[irq as usize] = (value % 8) as u8;
                assert(self@.priorities =~= old(self)@.priorities.update(irq as int, (value % 8) as u8));
                self.update_external_interrupts();
            }
        } else if PENDING_BASE <= o && o < PENDING_BASE + 0x80 {
            // Pending bits are read-only.
        } else if ENABLE_BASE <= o && o < ENABLE_BASE + 0x100 {
            let rel = o - ENABLE_BASE;
            let context = (rel / 0x80) as usize;
            let idx = ((rel % 0x80) / 4) as usize;
            if context < 2 && idx < 4 {
                self.enable[context][idx] = value;
                assert(self@.enable =~= old(self)@.enable.update(context as int,
                    old(self)@.enable[context as int].update(idx as int, value)));
                self.update_external_interrupts();
            }
        } else if o >= THRESHOLD_BASE {
            let rel = o - THRESHOLD_BASE;
            let context = (rel / 0x1000) as usize;
            let reg = rel % 0x1000;
            if context >= 2 {
                return;
            }
            if reg == 0 {
                self.threshold[context] = (value % 8) as u8;
                assert(self@.threshold =~= old(self)@.threshold.update(context as int, (value % 8) as u8));
                self.update_external_interrupts();
            } else if reg == 4 {
                self.complete(context, value);
            }
        }
    }

    pub fn reset(&mut self)
        ensures
            final(self)@ == plic_zero(),
    {
        *self = Plic::new();
    }
}

/// A raised source that is enabled for a context above its threshold drives that context's line.
pub proof fn lemma_raise_drives_line(s: PlicState, irq: u32, ctx: int)
    requires
        plic_wf(s),
        0 <= ctx < 2,
        1 <= irq < MAX_INTERRUPTS,
        irq_bit(s.enable[ctx][(irq / 32) as int], irq),
        s.priorities[irq as int] > s.threshold[ctx],
    ensures
        ctx == 0 ==> lines_updated(with_pending(s, irq, true)).m_external_interrupt,
        ctx == 1 ==> lines_updated(with_pending(s, irq, true)).s_external_interrupt,
{
    crate::bits::lemma_u32_single_bit();
    let t = with_pending(s, irq, true);
    assert(irq % 32 < 32);
    assert(irq_bit(t.pending[(irq / 32) as int], irq));
    assert(eligible(t, ctx, irq));
}

/// A cleared source is no longer eligible for any context.
pub proof fn lemma_clear_not_eligible(s: PlicState, irq: u32, ctx: int)
    requires
        plic_wf(s),
        0 <= ctx < 2,
        1 <= irq < MAX_INTERRUPTS,
    ensures
        !eligible(with_pending(s, irq, false), ctx, irq),
{
    crate::bits::lemma_u32_single_bit();
    assert(irq % 32 < 32);
}

} // verus!
