//! Sv32 MMU: translation of 32-bit virtual addresses through a two-level
//! page table, with one cached translation per access type.

use vstd::prelude::*;
use crate::cpu::PrivilegeLevel;
use crate::memory::Bus;

verus! {

/// Access type for translation.
#[derive(Debug, Clone, Copy, PartialEq, Eq, Structural)]
pub enum AccessType {
    Instruction,
    Load,
    Store,
}

/// The page-fault cause for an access type: 12 fetch, 13 load, 15 store.
pub open spec fn fault_cause(access: AccessType) -> u32 {
    match access {
        AccessType::Instruction => 12,
        AccessType::Load => 13,
        AccessType::Store => 15,
    }
}

/// Permission check of a leaf PTE (R bit 1, W bit 2, X bit 3, U bit 4) for an
/// access at `priv_level`, honouring mstatus.SUM (bit 18) and MXR (bit 19).
pub open spec fn spec_check_permissions(pte: u32, access: AccessType, priv_level: PrivilegeLevel, mstatus: u32) -> Result<(), u32> {
    let r = (pte >> 1u32) & 1;
    let w = (pte >> 2u32) & 1;
    let x = (pte >> 3u32) & 1;
    let u = (pte >> 4u32) & 1;
    let sum = (mstatus >> 18u32) & 1;
    let mxr = (mstatus >> 19u32) & 1;
    if priv_level == PrivilegeLevel::Supervisor && u == 1 && sum == 0 {
        Err(fault_cause(access))
    } else if priv_level == PrivilegeLevel::User && u == 0 {
        Err(fault_cause(access))
    } else {
        match access {
            AccessType::Instruction => if x == 0 { Err(12) } else { Ok(()) },
            AccessType::Load => if r == 1 || (x == 1 && mxr == 1) { Ok(()) } else { Err(13) },
            AccessType::Store => if w == 0 { Err(15) } else { Ok(()) },
        }
    }
}

/// What a leaf PTE allows: an access is refused with its page-fault cause
/// (12 fetch, 13 load, 15 store) unless the PTE grants it: X (bit 3) for a
/// fetch, W (bit 2) for a store, R (bit 1) or, with mstatus.MXR (bit 19), X
/// for a load; a user access needs U (bit 4); a supervisor access to a user
/// page needs mstatus.SUM (bit 18). A PTE that grants the access is accepted.
pub proof fn lemma_permissions(pte: u32, access: AccessType, priv_level: PrivilegeLevel, mstatus: u32)
    ensures
        spec_check_permissions(pte, access, priv_level, mstatus) matches Err(c) ==> c == match access {
            AccessType::Instruction => 12u32,
            AccessType::Load => 13u32,
            AccessType::Store => 15u32,
        },
        spec_check_permissions(pte, access, priv_level, mstatus) is Ok ==> match access {
            AccessType::Instruction => (pte >> 3u32) & 1 != 0,
            AccessType::Load => (pte >> 1u32) & 1 != 0 || ((pte >> 3u32) & 1 != 0 && (mstatus >> 19u32) & 1 != 0),
            AccessType::Store => (pte >> 2u32) & 1 != 0,
        },
        spec_check_permissions(pte, access, priv_level, mstatus) is Ok && priv_level == PrivilegeLevel::User
            ==> (pte >> 4u32) & 1 != 0,
        spec_check_permissions(pte, access, priv_level, mstatus) is Ok && priv_level == PrivilegeLevel::Supervisor
            && (pte >> 4u32) & 1 == 1 ==> (mstatus >> 18u32) & 1 != 0,
        match access {
            AccessType::Instruction => (pte >> 3u32) & 1 == 1,
            AccessType::Load => (pte >> 1u32) & 1 == 1 || ((pte >> 3u32) & 1 == 1 && (mstatus >> 19u32) & 1 == 1),
            AccessType::Store => (pte >> 2u32) & 1 == 1,
        } && (priv_level == PrivilegeLevel::User ==> (pte >> 4u32) & 1 == 1)
            && (priv_level == PrivilegeLevel::Supervisor ==> (pte >> 4u32) & 1 == 0 || (mstatus >> 18u32) & 1 == 1)
            ==> spec_check_permissions(pte, access, priv_level, mstatus) is Ok,
{
}

/// Is the PTE a leaf (R or X set)?
pub open spec fn is_leaf(pte: u32) -> bool {
    (pte >> 1u32) & 1 == 1 || (pte >> 3u32) & 1 == 1
}

/// Sv32 translation of `vaddr` given the level-1 PTE `pte1` and, when `pte1`
/// points to a table, the level-0 PTE `pte0`.
pub open spec fn sv32_walk(vaddr: u32, access: AccessType, priv_level: PrivilegeLevel, mstatus: u32, pte1: u32, pte0: u32) -> Result<u32, u32> {
    let vpn0 = (vaddr >> 12u32) & 0x3FF;
    let offset = vaddr & 0xFFF;
    if pte1 & 1 == 0 {
        Err(fault_cause(access))
    } else if is_leaf(pte1) {
        match spec_check_permissions(pte1, access, priv_level, mstatus) {
            Err(c) => Err(c),
            Ok(_) => if (pte1 >> 10u32) & 0x3FF != 0 {
                Err(fault_cause(access))
            } else {
                Ok(((((pte1 >> 20u32) & 0xFFF) << 22u32) | (vpn0 << 12u32) | offset) as u32)
            },
        }
    } else if pte0 & 1 == 0 {
        Err(fault_cause(access))
    } else if !is_leaf(pte0) {
        Err(fault_cause(access))
    } else {
        match spec_check_permissions(pte0, access, priv_level, mstatus) {
            Err(c) => Err(c),
            Ok(_) => Ok(((((pte0 >> 10u32) & 0x3FFFFF) << 12u32) | offset) as u32),
        }
    }
}

/// Address of the level-1 PTE for `vaddr` under `satp`.
pub open spec fn pte1_addr(satp: u32, vaddr: u32) -> u32 {
    (((satp & 0x3FFFFF) << 12u32) + ((vaddr >> 22u32) & 0x3FF) * 4) as u32
}

/// Address of the level-0 PTE for `vaddr` when the level-1 PTE is `pte1`.
pub open spec fn pte0_addr(pte1: u32, vaddr: u32) -> u32 {
    ((((pte1 >> 10u32) & 0x3FFFFF) << 12u32) + ((vaddr >> 12u32) & 0x3FF) * 4) as u32
}

/// When the page-table words the walk reads are plain memory on `b`, the
/// translation `r` is the Sv32 walk over them.
pub open spec fn walk_reads<B: Bus>(b: B, satp: u32, vaddr: u32, access: AccessType, priv_level: PrivilegeLevel,
    mstatus: u32, r: Result<u32, u32>) -> bool
{
    match crate::cpu::rv32::execute::peek_word(b, pte1_addr(satp, vaddr)) {
        Some(p1) => if p1 & 1 == 1 && !is_leaf(p1) {
            match crate::cpu::rv32::execute::peek_word(b, pte0_addr(p1, vaddr)) {
                Some(p0) => r == sv32_walk(vaddr, access, priv_level, mstatus, p1, p0),
                None => true,
            }
        } else {
            r == sv32_walk(vaddr, access, priv_level, mstatus, p1, 0)
        },
        None => true,
    }
}

/// A PTE with the accessed bit (6) set, and the dirty bit (7) too for stores.
pub open spec fn spec_pte_with_ad(pte: u32, access: AccessType) -> u32 {
    let a = pte | 0x40;
    if access == AccessType::Store { a | 0x80 } else { a }
}

/// What a cached translation was filled from: the satp, privilege level
/// and mstatus of the walk, and the page-table entries it read (the
/// level-0 entry is 0 for a superpage).
#[derive(Clone, Copy)]
pub struct TlbFill {
    pub satp: u32,
    pub priv_level: PrivilegeLevel,
    pub mstatus: u32,
    pub pte1: u32,
    pub pte0: u32,
}

/// Superpage translations keep the page offset of every address in the page.
proof fn lemma_superpage_bits(x: u32, v: u32)
    by (bit_vector)
    ensures
        ((x << 22u32) | (((v >> 12u32) & 0x3FF) << 12u32) | (v & 0xFFF)) == ((x << 22u32) | (v & 0x3F_FFFF)),
{
}

/// The walk `f` a translation was filled from still holds for `vaddr` on
/// `b`: the same satp, privilege level and mstatus, and the page-table words
/// at the walk's addresses still read as the entries it read.
pub open spec fn still_mapped<B: Bus>(f: TlbFill, b: B, satp: u32, vaddr: u32, priv_level: PrivilegeLevel, mstatus: u32) -> bool {
    &&& f.satp == satp && f.priv_level == priv_level && f.mstatus == mstatus
    &&& crate::cpu::rv32::execute::peek_word(b, pte1_addr(satp, vaddr)) == Some(f.pte1)
    &&& f.pte1 & 1 == 1 && !is_leaf(f.pte1)
        ==> crate::cpu::rv32::execute::peek_word(b, pte0_addr(f.pte1, vaddr)) == Some(f.pte0)
    &&& !(f.pte1 & 1 == 1 && !is_leaf(f.pte1)) ==> f.pte0 == 0
}

/// A superpage leaf that grants an access grants it, with the same page,
/// to every address of its 4 MiB page.
proof fn lemma_superpage_walk(pte1: u32, access: AccessType, priv_level: PrivilegeLevel, mstatus: u32)
    requires
        pte1 & 1 == 1,
        is_leaf(pte1),
        spec_check_permissions(pte1, access, priv_level, mstatus) is Ok,
        (pte1 >> 10u32) & 0x3FF == 0,
    ensures
        forall|v: u32| #[trigger] sv32_walk(v, access, priv_level, mstatus, pte1, 0)
            == Ok::<u32, u32>((((pte1 >> 20u32) & 0xFFF) << 22u32) | (v & 0x3F_FFFF)),
{
    assert forall|v: u32| #[trigger] sv32_walk(v, access, priv_level, mstatus, pte1, 0)
        == Ok::<u32, u32>((((pte1 >> 20u32) & 0xFFF) << 22u32) | (v & 0x3F_FFFF)) by {
        lemma_superpage_bits((pte1 >> 20u32) & 0xFFF, v);
    }
}

/// A page leaf under a table entry that grants an access grants it, with
/// the same page, to every address of its 4 KiB page.
proof fn lemma_page_walk(pte1: u32, pte0: u32, access: AccessType, priv_level: PrivilegeLevel, mstatus: u32)
    requires
        pte1 & 1 == 1,
        !is_leaf(pte1),
        pte0 & 1 == 1,
        is_leaf(pte0),
        spec_check_permissions(pte0, access, priv_level, mstatus) is Ok,
    ensures
        forall|v: u32| #[trigger] sv32_walk(v, access, priv_level, mstatus, pte1, pte0)
            == Ok::<u32, u32>((((pte0 >> 10u32) & 0x3FFFFF) << 12u32) | (v & 0xFFF)),
{
}

/// Single cached translation.
#[derive(Clone, Copy)]
struct SimpleTlbEntry {
    /// Virtual page base (vaddr with the offset bits cleared)
    vpn: u32,
    /// Physical page base
    pa_base: u32,
    /// Offset mask (0xFFF for 4KB, 0x3FFFFF for 4MB)
    offset_mask: u32,
    /// Valid flag
    valid: bool,
    /// The walk the entry was filled from
    fill: Ghost<TlbFill>,
}

impl SimpleTlbEntry {
    /// The translation this entry gives for `vaddr`, when it covers it.
    spec fn answer(self, vaddr: u32) -> Option<u32> {
        if self.valid && vaddr & !self.offset_mask == self.vpn {
            Some(self.pa_base | (vaddr & self.offset_mask))
        } else {
            None
        }
    }

    spec fn wf(self) -> bool {
        &&& (self.offset_mask == 0xFFF || self.offset_mask == 0x3F_FFFF)
        &&& self.pa_base & self.offset_mask == 0
    }

    /// A valid entry gives, for every address of its page, what the walk it
    /// was filled from gives for an `access`.
    spec fn faithful(self, access: AccessType) -> bool {
        let f = self.fill@;
        self.valid ==> forall|v: u32| v & !self.offset_mask == self.vpn
            ==> #[trigger] sv32_walk(v, access, f.priv_level, f.mstatus, f.pte1, f.pte0)
                == Ok::<u32, u32>(self.pa_base | (v & self.offset_mask))
    }

    fn empty() -> (e: SimpleTlbEntry)
        ensures
            e.wf(),
            !e.valid,
    {
        assert(0u32 & 0xFFF == 0) by (bit_vector);
        SimpleTlbEntry {
            vpn: 0,
            pa_base: 0,
            offset_mask: 0xFFF,
            valid: false,
            fill: Ghost(TlbFill { satp: 0, priv_level: PrivilegeLevel::Machine, mstatus: 0, pte1: 0, pte0: 0 }),
        }
    }
}

/// MMU state: one cached translation per access type, invalidated lazily by generation.
pub struct Mmu {
    itlb: SimpleTlbEntry,
    dtlb_read: SimpleTlbEntry,
    dtlb_write: SimpleTlbEntry,
    generation: u32,
    itlb_gen: u32,
    dtlb_read_gen: u32,
    dtlb_write_gen: u32,
    tlb_hits: u64,
    tlb_misses: u64,
}

impl Mmu {
    /// Cached entries are well formed.
    pub closed spec fn wf(&self) -> bool {
        &&& self.itlb.wf() && self.dtlb_read.wf() && self.dtlb_write.wf()
        &&& self.itlb.faithful(AccessType::Instruction)
        &&& self.dtlb_read.faithful(AccessType::Load)
        &&& self.dtlb_write.faithful(AccessType::Store)
    }

    /// The walk the cached translation for `access` was filled from.
    pub closed spec fn cached_fill(&self, access: AccessType) -> TlbFill {
        match access {
            AccessType::Instruction => self.itlb.fill@,
            AccessType::Load => self.dtlb_read.fill@,
            AccessType::Store => self.dtlb_write.fill@,
        }
    }

    /// Number of lookups answered from the cache, and of full walks.
    pub closed spec fn stats(&self) -> (u64, u64) {
        (self.tlb_hits, self.tlb_misses)
    }

    /// Does the cached translation for `access` match `vaddr` in the current generation?
    pub closed spec fn cached_for(&self, access: AccessType, vaddr: u32) -> Option<u32> {
        let (e, g) = match access {
            AccessType::Instruction => (self.itlb, self.itlb_gen),
            AccessType::Load => (self.dtlb_read, self.dtlb_read_gen),
            AccessType::Store => (self.dtlb_write, self.dtlb_write_gen),
        };
        if g == self.generation && e.valid && vaddr & !e.offset_mask == e.vpn {
            Some(e.pa_base | (vaddr & e.offset_mask))
        } else {
            None
        }
    }

    pub fn new() -> (m: Mmu)
        ensures
            m.wf(),
            m.stats() == (0u64, 0u64),
            forall|a: AccessType, v: u32| #[trigger] m.cached_for(a, v).is_none(),
    {
        Mmu {
            itlb: SimpleTlbEntry::empty(),
            dtlb_read: SimpleTlbEntry::empty(),
            dtlb_write: SimpleTlbEntry::empty(),
            generation: 1,
            itlb_gen: 0,
            dtlb_read_gen: 0,
            dtlb_write_gen: 0,
            tlb_hits: 0,
            tlb_misses: 0,
        }
    }

    pub fn reset(&mut self)
        ensures
            final(self).wf(),
            final(self).stats() == (0u64, 0u64),
            forall|a: AccessType, v: u32| #[trigger] final(self).cached_for(a, v).is_none(),
    {
        *self = Mmu::new();
    }

    /// Drops every cached translation.
    pub fn invalidate(&mut self)
        requires
            old(self).wf(),
        ensures
            final(self).wf(),
            final(self).stats() == old(self).stats(),
            forall|a: AccessType, v: u32| #[trigger] final(self).cached_for(a, v).is_none(),
    {
        self.generation = self.generation.wrapping_add(1);
        if self.generation == self.itlb_gen || self.generation == self.dtlb_read_gen
            || self.generation == self.dtlb_write_gen {
            self.itlb.valid = false;
            self.dtlb_read.valid = false;
            self.dtlb_write.valid = false;
        }
    }

    pub fn tlb_stats(&self) -> (r: (u64, u64))
        ensures
            r == self.stats(),
    {
        (self.tlb_hits, self.tlb_misses)
    }

    /// Translate a virtual address. `Err` carries the page-fault cause.
    ///
    /// In Machine mode or with paging off (satp bit 31 clear) the address is
    /// its own translation. Otherwise the cached translation for the access
    /// type is used when it covers `vaddr`; else the two-level table is walked
    /// through `bus`, the accessed/dirty bits of the leaf are written back, and
    /// the result is cached together with the walk it came from. A cached
    /// answer is the walk it was filled from; while the satp, privilege level,
    /// mstatus and page-table words of that walk are unchanged, it is what a
    /// fresh walk would give.
    pub fn translate<B: Bus>(&mut self, vaddr: u32, access_type: AccessType, priv_level: PrivilegeLevel, bus: &mut B, satp: u32, mstatus: u32) -> (r: Result<u32, u32>)
        requires
            old(bus).inv(),
            old(self).wf(),
        ensures
            final(bus).inv(),
            final(self).wf(),
            (priv_level == PrivilegeLevel::Machine || satp >> 31u32 == 0) ==> r == Ok::<u32, u32>(vaddr)
                && *final(bus) == *old(bus) && *final(self) == *old(self),
            !(priv_level == PrivilegeLevel::Machine || satp >> 31u32 == 0) ==> {
                ||| (old(self).cached_for(access_type, vaddr) is Some
                    && r == Ok::<u32, u32>(old(self).cached_for(access_type, vaddr)->Some_0))
                ||| (old(self).cached_for(access_type, vaddr) is None
                    && exists|pte1: u32, pte0: u32| r == #[trigger] sv32_walk(vaddr, access_type, priv_level, mstatus, pte1, pte0)
                    && walk_reads(*old(bus), satp, vaddr, access_type, priv_level, mstatus, r))
            },
            r is Ok ==> r->Ok_0 & 0xFFF == vaddr & 0xFFF,
            r is Err ==> r->Err_0 == fault_cause(access_type),
            !(priv_level == PrivilegeLevel::Machine || satp >> 31u32 == 0)
                && old(self).cached_for(access_type, vaddr) is Some ==> ({
                let f = old(self).cached_fill(access_type);
                &&& r == sv32_walk(vaddr, access_type, f.priv_level, f.mstatus, f.pte1, f.pte0)
                &&& still_mapped(f, *old(bus), satp, vaddr, priv_level, mstatus)
                    ==> walk_reads(*old(bus), satp, vaddr, access_type, priv_level, mstatus, r)
            }),
            !(priv_level == PrivilegeLevel::Machine || satp >> 31u32 == 0)
                && old(self).cached_for(access_type, vaddr) is None && r is Ok ==> ({
                let f = final(self).cached_fill(access_type);
                &&& f.satp == satp && f.priv_level == priv_level && f.mstatus == mstatus
                &&& (crate::cpu::rv32::execute::peek_word(*old(bus), pte1_addr(satp, vaddr)) is Some
                    ==> crate::cpu::rv32::execute::peek_word(*old(bus), pte1_addr(satp, vaddr)) == Some(f.pte1))
            }),
    {
        let mode = satp >> 31u32;
        if priv_level == PrivilegeLevel::Machine || mode == 0 {
            return Ok(vaddr);
        }
        let (e, g) = match access_type {
            AccessType::Instruction => (self.itlb, self.itlb_gen),
            AccessType::Load => (self.dtlb_read, self.dtlb_read_gen),
            AccessType::Store => (self.dtlb_write, self.dtlb_write_gen),
        };
        if g == self.generation && e.valid {
            let vpn = vaddr & !e.offset_mask;
            if vpn == e.vpn {
                self.tlb_hits = self.tlb_hits.wrapping_add(1);
                let pa = e.pa_base | (vaddr & e.offset_mask);
                proof {
                    assert(e.faithful(access_type));
                    assert(e.fill@ == self.cached_fill(access_type));
                    assert(sv32_walk(vaddr, access_type, e.fill@.priv_level, e.fill@.mstatus, e.fill@.pte1, e.fill@.pte0)
                        == Ok::<u32, u32>(pa));
                    let f = e.fill@;
                    if still_mapped(f, *bus, satp, vaddr, priv_level, mstatus) {
                        assert(walk_reads(*bus, satp, vaddr, access_type, priv_level, mstatus, Ok::<u32, u32>(pa)));
                    }
                }
                let (pb, m) = (e.pa_base, e.offset_mask);
                assert(pa & 0xFFF == vaddr & 0xFFF) by (bit_vector)
                    requires
                        pa == pb | (vaddr & m),
                        pb & m == 0,
                        m == 0xFFF || m == 0x3F_FFFF,
                ;
                return Ok(pa);
            }
        }
        self.tlb_misses = self.tlb_misses.wrapping_add(1);
        self.translate_slow(vaddr, access_type, priv_level, bus, satp, mstatus)
    }

    /// Full page table walk.
    #[verifier::spinoff_prover]
    #[verifier::rlimit(40)]
    fn translate_slow<B: Bus>(&mut self, vaddr: u32, access_type: AccessType, priv_level: PrivilegeLevel, bus: &mut B, satp: u32, mstatus: u32) -> (r: Result<u32, u32>)
        requires
            old(bus).inv(),
            old(self).wf(),
        ensures
            final(bus).inv(),
            final(self).wf(),
            final(self).stats() == old(self).stats(),
            exists|pte1: u32, pte0: u32| r == #[trigger] sv32_walk(vaddr, access_type, priv_level, mstatus, pte1, pte0),
            walk_reads(*old(bus), satp, vaddr, access_type, priv_level, mstatus, r),
            r is Ok ==> r->Ok_0 & 0xFFF == vaddr & 0xFFF,
            r is Err ==> r->Err_0 == fault_cause(access_type),
            r is Ok ==> ({
                let f = final(self).cached_fill(access_type);
                &&& f.satp == satp && f.priv_level == priv_level && f.mstatus == mstatus
                &&& (crate::cpu::rv32::execute::peek_word(*old(bus), pte1_addr(satp, vaddr)) is Some
                    ==> crate::cpu::rv32::execute::peek_word(*old(bus), pte1_addr(satp, vaddr)) == Some(f.pte1))
            }),
    {
        let ppn = satp & 0x3FFFFF;
        let root_page_table = ppn << 12u32;
        let vpn1 = (vaddr >> 22u32) & 0x3FF;
        let vpn0 = (vaddr >> 12u32) & 0x3FF;
        let page_offset = vaddr & 0xFFF;
        assert(root_page_table & 0xFFF == 0 && vpn1 < 1024 && vpn0 < 1024) by (bit_vector)
            requires
                root_page_table == (satp & 0x3FFFFF) << 12u32,
                vpn1 == (vaddr >> 22u32) & 0x3FF,
                vpn0 == (vaddr >> 12u32) & 0x3FF,
        ;
        assert(root_page_table <= 0xFFFF_F000) by (bit_vector)
            requires root_page_table & 0xFFF == 0;
        let pte1_addr = root_page_table + vpn1 * 4;
        proof { crate::bits::lemma_u32_shift_mask(); }
        assert(pte1_addr == self::pte1_addr(satp, vaddr));
        let pte1 = bus.read32(pte1_addr);
        if (pte1 & 1) == 0 {
            assert(sv32_walk(vaddr, access_type, priv_level, mstatus, pte1, 0) == Err::<u32, u32>(fault_cause(access_type)));
            return Err(Self::page_fault_cause(access_type));
        }
        let r1 = (pte1 >> 1u32) & 1;
        let x1 = (pte1 >> 3u32) & 1;
        if r1 == 1 || x1 == 1 {
            let chk = Self::check_permissions(pte1, access_type, priv_level, mstatus);
            if let Err(c) = chk {
                assert(sv32_walk(vaddr, access_type, priv_level, mstatus, pte1, 0) == Err::<u32, u32>(c));
                return Err(c);
            }
            if ((pte1 >> 10u32) & 0x3FF) != 0 {
                assert(sv32_walk(vaddr, access_type, priv_level, mstatus, pte1, 0) == Err::<u32, u32>(fault_cause(access_type)));
                return Err(Self::page_fault_cause(access_type));
            }
            let phys_ppn1 = (pte1 >> 20u32) & 0xFFF;
            let pa_base = phys_ppn1 << 22u32;
            let paddr = pa_base | (vpn0 << 12u32) | page_offset;
            Self::update_ad_bits(bus, pte1_addr, pte1, access_type);
            assert(pa_base & 0x3F_FFFF == 0 && paddr & 0xFFF == vaddr & 0xFFF) by (bit_vector)
                requires
                    pa_base == ((pte1 >> 20u32) & 0xFFF) << 22u32,
                    paddr == pa_base | (vpn0 << 12u32) | page_offset,
                    vpn0 == (vaddr >> 12u32) & 0x3FF,
                    page_offset == vaddr & 0xFFF,
            ;
            let entry = SimpleTlbEntry {
                vpn: vaddr & 0xFFC0_0000,
                pa_base,
                offset_mask: 0x003F_FFFF,
                valid: true,
                fill: Ghost(TlbFill { satp, priv_level, mstatus, pte1, pte0: 0 }),
            };
            proof {
                lemma_superpage_walk(pte1, access_type, priv_level, mstatus);
                assert(entry.faithful(access_type));
            }
            self.fill_tlb(access_type, entry);
            assert(sv32_walk(vaddr, access_type, priv_level, mstatus, pte1, 0) == Ok::<u32, u32>(paddr));
            return Ok(paddr);
        }
        let next_table_ppn = (pte1 >> 10u32) & 0x3FFFFF;
        let table = next_table_ppn << 12u32;
        assert(table <= 0xFFFF_F000) by (bit_vector)
            requires table == ((pte1 >> 10u32) & 0x3FFFFF) << 12u32;
        let pte0_addr = table + vpn0 * 4;
        assert(pte0_addr == self::pte0_addr(pte1, vaddr));
        let ghost b1 = *bus;
        let pte0 = bus.read32(pte0_addr);
        if (pte0 & 1) == 0 {
            assert(sv32_walk(vaddr, access_type, priv_level, mstatus, pte1, pte0) == Err::<u32, u32>(fault_cause(access_type)));
            return Err(Self::page_fault_cause(access_type));
        }
        let r0 = (pte0 >> 1u32) & 1;
        let x0 = (pte0 >> 3u32) & 1;
        assert(r0 <= 1 && x0 <= 1) by (bit_vector)
            requires
                r0 == (pte0 >> 1u32) & 1,
                x0 == (pte0 >> 3u32) & 1,
        ;
        if r0 == 0 && x0 == 0 {
            assert(sv32_walk(vaddr, access_type, priv_level, mstatus, pte1, pte0) == Err::<u32, u32>(fault_cause(access_type)));
            return Err(Self::page_fault_cause(access_type));
        }
        let chk = Self::check_permissions(pte0, access_type, priv_level, mstatus);
        if let Err(c) = chk {
            assert(sv32_walk(vaddr, access_type, priv_level, mstatus, pte1, pte0) == Err::<u32, u32>(c));
            return Err(c);
        }
        let final_ppn = (pte0 >> 10u32) & 0x3FFFFF;
        let pa_base = final_ppn << 12u32;
        let paddr = pa_base | page_offset;
        Self::update_ad_bits(bus, pte0_addr, pte0, access_type);
        assert(pa_base & 0xFFF == 0 && paddr & 0xFFF == vaddr & 0xFFF) by (bit_vector)
            requires
                pa_base == ((pte0 >> 10u32) & 0x3FFFFF) << 12u32,
                paddr == pa_base | page_offset,
                page_offset == vaddr & 0xFFF,
        ;
        let entry = SimpleTlbEntry {
            vpn: vaddr & 0xFFFF_F000,
            pa_base,
            offset_mask: 0x0000_0FFF,
            valid: true,
            fill: Ghost(TlbFill { satp, priv_level, mstatus, pte1, pte0 }),
        };
        proof {
            lemma_page_walk(pte1, pte0, access_type, priv_level, mstatus);
            assert(entry.faithful(access_type));
        }
        self.fill_tlb(access_type, entry);
        assert(sv32_walk(vaddr, access_type, priv_level, mstatus, pte1, pte0) == Ok::<u32, u32>(paddr));
        Ok(paddr)
    }

    fn fill_tlb(&mut self, access_type: AccessType, entry: SimpleTlbEntry)
        requires
            old(self).wf(),
            entry.wf(),
            entry.faithful(access_type),
        ensures
            final(self).wf(),
            final(self).stats() == old(self).stats(),
            final(self).cached_fill(access_type) == entry.fill@,
            forall|v: u32| #[trigger] final(self).cached_for(access_type, v) == entry.answer(v),
            forall|a: AccessType, v: u32| a != access_type
                ==> #[trigger] final(self).cached_for(a, v) == old(self).cached_for(a, v),
    {
        match access_type {
            AccessType::Instruction => {
                self.itlb = entry;
                self.itlb_gen = self.generation;
            },
            AccessType::Load => {
                self.dtlb_read = entry;
                self.dtlb_read_gen = self.generation;
            },
            AccessType::Store => {
                self.dtlb_write = entry;
                self.dtlb_write_gen = self.generation;
            },
        }
    }

    /// Permission check of a leaf PTE.
    pub fn check_permissions(pte: u32, access_type: AccessType, priv_level: PrivilegeLevel, mstatus: u32) -> (r: Result<(), u32>)
        ensures
            r == spec_check_permissions(pte, access_type, priv_level, mstatus),
            r is Err ==> r->Err_0 == fault_cause(access_type),
    {
        let r = (pte >> 1u32) & 1;
        let w = (pte >> 2u32) & 1;
        let x = (pte >> 3u32) & 1;
        let u = (pte >> 4u32) & 1;
        if priv_level == PrivilegeLevel::Supervisor && u == 1 {
            let sum = (mstatus >> 18u32) & 1;
            if sum == 0 {
                return Err(Self::page_fault_cause(access_type));
            }
        }
        if priv_level == PrivilegeLevel::User && u == 0 {
            return Err(Self::page_fault_cause(access_type));
        }
        let mxr = (mstatus >> 19u32) & 1;
        match access_type {
            AccessType::Instruction => {
                if x == 0 {
                    return Err(12);
                }
            },
            AccessType::Load => {
                if r == 1 {
                    return Ok(());
                }
                if x == 1 && mxr == 1 {
                    return Ok(());
                }
                return Err(13);
            },
            AccessType::Store => {
                if w == 0 {
                    return Err(15);
                }
            },
        }
        Ok(())
    }

    /// The PTE with its accessed (and, for stores, dirty) bit set.
    pub fn pte_with_ad(pte: u32, access_type: AccessType) -> (r: u32)
        ensures
            r == spec_pte_with_ad(pte, access_type),
    {
        let mut new_pte = pte | 0x40;
        if access_type == AccessType::Store {
            new_pte = new_pte | 0x80;
        }
        new_pte
    }

    /// Writes back the accessed/dirty bits of a leaf PTE when they change.
    fn update_ad_bits<B: Bus>(bus: &mut B, pte_addr: u32, pte: u32, access_type: AccessType) -> (changed: bool)
        requires
            old(bus).inv(),
        ensures
            final(bus).inv(),
            changed == (spec_pte_with_ad(pte, access_type) != pte),
    {
        let new_pte = Self::pte_with_ad(pte, access_type);
        if new_pte != pte {
            bus.write32(pte_addr, new_pte);
            true
        } else {
            false
        }
    }

    fn page_fault_cause(access_type: AccessType) -> (r: u32)
        ensures
            r == fault_cause(access_type),
    {
        match access_type {
            AccessType::Instruction => 12,
            AccessType::Load => 13,
            AccessType::Store => 15,
        }
    }
}

impl Default for Mmu {
    fn default() -> (m: Mmu)
        ensures
            m.wf(),
    {
        Mmu::new()
    }
}

} // verus!
