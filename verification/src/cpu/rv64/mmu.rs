//! Sv39/Sv48/Sv57 MMU: translation of 64-bit virtual addresses through a
//! three-, four- or five-level page table, with a small direct-mapped TLB.

use vstd::prelude::*;
use crate::cpu::PrivilegeLevel;
use crate::memory::Bus;

verus! {

/// Access type for translation.
#[derive(Debug, Clone, Copy, PartialEq, Eq, Structural)]
pub enum AccessType {
    Instruction,
    Load,
    Store,
}

/// Number of TLB entries (direct-mapped by the low bits of the tag).
pub const TLB_SIZE: usize = 16;

/// Physical page numbers have 44 bits.
pub const PPN_LIMIT: u64 = 0x1000_0000_0000;

/// The page-fault cause for an access type: 12 fetch, 13 load, 15 store.
pub open spec fn fault_cause64(access: AccessType) -> u64 {
    match access {
        AccessType::Instruction => 12,
        AccessType::Load => 13,
        AccessType::Store => 15,
    }
}

/// Number of table levels of a satp mode (8 = Sv39, 9 = Sv48, 10 = Sv57), 0 for others.
pub open spec fn mode_levels(mode: u64) -> nat {
    if mode == 8 { 3 } else if mode == 9 { 4 } else if mode == 10 { 5 } else { 0 }
}

/// The shift of the page offset at `level` (12, 21, 30, 39 or 48 bits).
pub open spec fn level_shift(level: nat) -> u64 {
    (12 + 9 * level) as u64
}

/// The page-offset mask at `level`.
pub open spec fn offset_mask(level: nat) -> u64 {
    if level == 0 { 0xFFF }
    else if level == 1 { 0x1F_FFFF }
    else if level == 2 { 0x3FFF_FFFF }
    else if level == 3 { 0x7F_FFFF_FFFF }
    else { 0xFFFF_FFFF_FFFF }
}

/// The mask of the PPN bits that a superpage at `level` must leave zero.
pub open spec fn superpage_mask(level: nat) -> u64 {
    if level == 0 { 0 }
    else if level == 1 { 0x1FF }
    else if level == 2 { 0x3_FFFF }
    else if level == 3 { 0x7FF_FFFF }
    else { 0xF_FFFF_FFFF }
}

/// Is `vaddr` canonical for a mode with `levels` levels: bits above the
/// virtual-address width all equal its top bit?
pub open spec fn canonical(vaddr: u64, levels: nat) -> bool {
    let va_bits: u64 = (12 + 9 * levels) as u64;
    let sign = (vaddr >> ((va_bits - 1) as u64)) & 1;
    let upper = vaddr >> va_bits;
    if sign == 0 { upper == 0 } else { upper == upper_ones(levels) }
}

/// All ones in the bits above the virtual-address width, shifted down.
pub open spec fn upper_ones(levels: nat) -> u64 {
    if levels == 3 { 0x1FF_FFFF } else if levels == 4 { 0xFFFF } else { 0x7F }
}

/// The virtual page number field of `vaddr` at `level`.
pub open spec fn vpn_at(vaddr: u64, level: nat) -> u64 {
    (vaddr >> level_shift(level)) % 0x200
}

/// The physical page number of a PTE.
pub open spec fn pte_ppn(pte: u64) -> u64 {
    (pte >> 10u64) % PPN_LIMIT
}

/// Is the PTE a leaf (R or X set)?
pub open spec fn is_leaf64(pte: u64) -> bool {
    (pte >> 1u64) & 1 == 1 || (pte >> 3u64) & 1 == 1
}

/// Permission check of a leaf PTE (R bit 1, W bit 2, X bit 3, U bit 4) for an
/// access at `priv_level`, honouring mstatus.SUM (bit 18) and MXR (bit 19).
pub open spec fn spec_check_permissions64(pte: u64, access: AccessType, priv_level: PrivilegeLevel, mstatus: u64) -> Result<(), u64> {
    let r = (pte >> 1u64) & 1;
    let w = (pte >> 2u64) & 1;
    let x = (pte >> 3u64) & 1;
    let u = (pte >> 4u64) & 1;
    let sum = (mstatus >> 18u64) & 1;
    let mxr = (mstatus >> 19u64) & 1;
    if priv_level == PrivilegeLevel::Supervisor && u == 1 && sum == 0 {
        Err(fault_cause64(access))
    } else if priv_level == PrivilegeLevel::User && u == 0 {
        Err(fault_cause64(access))
    } else {
        match access {
            AccessType::Instruction => if x == 0 { Err(12) } else { Ok(()) },
            AccessType::Load => if r == 1 || (x == 1 && mxr == 1) { Ok(()) } else { Err(13) },
            AccessType::Store => if w == 0 { Err(15) } else { Ok(()) },
        }
    }
}

/// What a leaf PTE allows: an access is refused with its page-fault cause
/// (12 fetch, 13 load, 15 store) unless the PTE grants it: X (bit 3) for a
/// fetch, W (bit 2) for a store, R (bit 1) or, with mstatus.MXR (bit 19), X
/// for a load; a user access needs U (bit 4); a supervisor access to a user
/// page needs mstatus.SUM (bit 18). A PTE that grants the access is accepted.
pub proof fn lemma_permissions64(pte: u64, access: AccessType, priv_level: PrivilegeLevel, mstatus: u64)
    ensures
        spec_check_permissions64(pte, access, priv_level, mstatus) matches Err(c) ==> c == match access {
            AccessType::Instruction => 12u64,
            AccessType::Load => 13u64,
            AccessType::Store => 15u64,
        },
        spec_check_permissions64(pte, access, priv_level, mstatus) is Ok ==> match access {
            AccessType::Instruction => (pte >> 3u64) & 1 != 0,
            AccessType::Load => (pte >> 1u64) & 1 != 0 || ((pte >> 3u64) & 1 != 0 && (mstatus >> 19u64) & 1 != 0),
            AccessType::Store => (pte >> 2u64) & 1 != 0,
        },
        spec_check_permissions64(pte, access, priv_level, mstatus) is Ok && priv_level == PrivilegeLevel::User
            ==> (pte >> 4u64) & 1 != 0,
        spec_check_permissions64(pte, access, priv_level, mstatus) is Ok && priv_level == PrivilegeLevel::Supervisor
            && (pte >> 4u64) & 1 == 1 ==> (mstatus >> 18u64) & 1 != 0,
        match access {
            AccessType::Instruction => (pte >> 3u64) & 1 == 1,
            AccessType::Load => (pte >> 1u64) & 1 == 1 || ((pte >> 3u64) & 1 == 1 && (mstatus >> 19u64) & 1 == 1),
            AccessType::Store => (pte >> 2u64) & 1 == 1,
        } && (priv_level == PrivilegeLevel::User ==> (pte >> 4u64) & 1 == 1)
            && (priv_level == PrivilegeLevel::Supervisor ==> (pte >> 4u64) & 1 == 0 || (mstatus >> 18u64) & 1 == 1)
            ==> spec_check_permissions64(pte, access, priv_level, mstatus) is Ok,
{
}

/// The permission check the TLB applies to its compact permission bits
/// (R bit 0, W bit 1, X bit 2, U bit 3).
pub open spec fn spec_perm_fast(perm: u8, access: AccessType, priv_level: PrivilegeLevel, mstatus: u64) -> bool {
    let r = perm & 0x01 != 0;
    let w = perm & 0x02 != 0;
    let x = perm & 0x04 != 0;
    let u = perm & 0x08 != 0;
    let sum = (mstatus >> 18u64) & 1;
    let mxr = (mstatus >> 19u64) & 1;
    if priv_level == PrivilegeLevel::Supervisor && u && sum == 0 {
        false
    } else if priv_level == PrivilegeLevel::User && !u {
        false
    } else {
        match access {
            AccessType::Instruction => x,
            AccessType::Load => r || (x && mxr == 1),
            AccessType::Store => w,
        }
    }
}

/// The page walk from the table at `table` at `level`, where `ptes` are the
/// entries the walk reads, top level first. A PTE address beyond 32 bits is a
/// load fault (13); an invalid PTE, a missing leaf, or a misaligned superpage
/// is a page fault for the access.
pub open spec fn walk64(vaddr: u64, access: AccessType, priv_level: PrivilegeLevel, mstatus: u64, level: nat, table: u64, ptes: Seq<u64>) -> Result<u64, u64>
    decreases level,
{
    let pte_addr = table + vpn_at(vaddr, level) * 8;
    let pte = ptes[0];
    if pte_addr > u32::MAX {
        Err(13)
    } else if pte & 1 == 0 {
        Err(fault_cause64(access))
    } else if is_leaf64(pte) {
        match spec_check_permissions64(pte, access, priv_level, mstatus) {
            Err(c) => Err(c),
            Ok(_) => if pte_ppn(pte) & superpage_mask(level) != 0 {
                Err(fault_cause64(access))
            } else {
                Ok(((pte_ppn(pte) * 0x1000) as u64) | (vaddr & offset_mask(level)))
            },
        }
    } else if level == 0 {
        Err(fault_cause64(access))
    } else {
        walk64(vaddr, access, priv_level, mstatus, (level - 1) as nat, (pte_ppn(pte) * 0x1000) as u64, ptes.drop_first())
    }
}

/// The little-endian value of the eight bytes from `a` that reads of `b`
/// see, when reading them changes nothing.
pub open spec fn peek_dword<B: Bus>(b: B, a: u32) -> Option<u64> {
    if b.peek8(a) is Some && b.peek8(a.wrapping_add(1)) is Some && b.peek8(a.wrapping_add(2)) is Some
        && b.peek8(a.wrapping_add(3)) is Some && b.peek8(a.wrapping_add(4)) is Some
        && b.peek8(a.wrapping_add(5)) is Some && b.peek8(a.wrapping_add(6)) is Some
        && b.peek8(a.wrapping_add(7)) is Some {
        Some((b.peek8(a).unwrap() + b.peek8(a.wrapping_add(1)).unwrap() * 0x100
            + b.peek8(a.wrapping_add(2)).unwrap() * 0x10000 + b.peek8(a.wrapping_add(3)).unwrap() * 0x1000000
            + b.peek8(a.wrapping_add(4)).unwrap() * 0x100000000 + b.peek8(a.wrapping_add(5)).unwrap() * 0x10000000000
            + b.peek8(a.wrapping_add(6)).unwrap() * 0x1000000000000
            + b.peek8(a.wrapping_add(7)).unwrap() * 0x100000000000000) as u64)
    } else {
        None
    }
}

/// The walk's entries are the ones `b` holds: where each entry the walk from
/// `table` at `level` reads is a plain read of `b`, the result `r` is the
/// walk over exactly those entries (a read that is not plain leaves it open).
pub open spec fn walk_reads64<B: Bus>(b: B, vaddr: u64, access: AccessType, priv_level: PrivilegeLevel, mstatus: u64,
    level: nat, table: u64, r: Result<u64, u64>) -> bool
    decreases level,
{
    let pte_addr = table + vpn_at(vaddr, level) * 8;
    if pte_addr > u32::MAX {
        true
    } else {
        match peek_dword(b, pte_addr as u32) {
            Some(pte) => if pte & 1 != 0 && !is_leaf64(pte) && level > 0 {
                walk_reads64(b, vaddr, access, priv_level, mstatus, (level - 1) as nat, (pte_ppn(pte) * 0x1000) as u64, r)
            } else {
                r == walk64(vaddr, access, priv_level, mstatus, level, table, seq![pte])
            },
            None => true,
        }
    }
}

/// A cached translation.
#[derive(Clone, Copy)]
struct TlbEntry64 {
    tag: u64,
    ppn: u64,
    perm: u8,
    valid: bool,
    generation: u32,
    page_shift: u8,
}

/// MMU state: a direct-mapped TLB invalidated lazily by generation.
pub struct Mmu64 {
    tlb: Vec<TlbEntry64>,
    tlb_generation: u32,
    tlb_hits: u64,
    tlb_misses: u64,
    last_satp_mode: u64,
}

impl Mmu64 {
    /// The TLB has its fixed number of entries, and each cached PPN fits 44 bits.
    pub closed spec fn wf(&self) -> bool {
        &&& self.tlb@.len() == TLB_SIZE
        &&& forall|i: int| 0 <= i < TLB_SIZE ==> #[trigger] self.tlb@[i].ppn < PPN_LIMIT
    }

    /// Number of lookups answered from the TLB, and of full walks.
    pub closed spec fn stats(&self) -> (u64, u64) {
        (self.tlb_hits, self.tlb_misses)
    }

    /// The TLB's answer for `vaddr` at `level`, if the slot for that page holds it.
    pub closed spec fn cached_at(&self, vaddr: u64, access: AccessType, priv_level: PrivilegeLevel, mstatus: u64, level: nat) -> Option<u64> {
        let shift = level_shift(level);
        let tag = vaddr >> shift;
        let e = self.tlb@[(tag % 16) as int];
        if e.valid && e.generation == self.tlb_generation && e.tag == tag && e.page_shift as u64 == shift
            && spec_perm_fast(e.perm, access, priv_level, mstatus) {
            Some(((e.ppn * 0x1000) as u64) | (vaddr & offset_mask(level)))
        } else {
            None
        }
    }

    /// The TLB's answer for `vaddr`, trying levels from 0 up to `levels - 1`.
    pub open spec fn cached(&self, vaddr: u64, access: AccessType, priv_level: PrivilegeLevel, mstatus: u64, levels: nat) -> Option<u64>
        decreases levels,
    {
        if levels == 0 {
            None
        } else {
            match self.cached(vaddr, access, priv_level, mstatus, (levels - 1) as nat) {
                Some(pa) => Some(pa),
                None => self.cached_at(vaddr, access, priv_level, mstatus, (levels - 1) as nat),
            }
        }
    }

    /// Nothing is cached in the current generation.
    pub closed spec fn empty_tlb(&self) -> bool {
        forall|i: int| 0 <= i < TLB_SIZE ==> !(#[trigger] self.tlb@[i]).valid || self.tlb@[i].generation != self.tlb_generation
    }

    pub fn new() -> (m: Mmu64)
        ensures
            m.wf(),
            m.stats() == (0u64, 0u64),
            m.empty_tlb(),
    {
        let mut tlb: Vec<TlbEntry64> = Vec::new();
        while tlb.len() < TLB_SIZE
            invariant
                tlb@.len() <= TLB_SIZE,
                forall|i: int| 0 <= i < tlb@.len() ==> !(#[trigger] tlb@[i]).valid && tlb@[i].ppn == 0,
            decreases TLB_SIZE - tlb@.len(),
        {
            tlb.push(TlbEntry64 { tag: 0, ppn: 0, perm: 0, valid: false, generation: 0, page_shift: 12 });
        }
        Mmu64 { tlb, tlb_generation: 1, tlb_hits: 0, tlb_misses: 0, last_satp_mode: 0 }
    }

    pub fn reset(&mut self)
        ensures
            final(self).wf(),
            final(self).stats() == (0u64, 0u64),
            final(self).empty_tlb(),
    {
        *self = Mmu64::new();
    }

    /// Moves to a new generation, so that earlier entries no longer match.
    pub fn invalidate(&mut self)
        requires
            old(self).wf(),
        ensures
            final(self).wf(),
            final(self).stats() == old(self).stats(),
            final(self).tlb_gen() == old(self).tlb_gen().wrapping_add(1),
    {
        self.tlb_generation = self.tlb_generation.wrapping_add(1);
    }

    /// The current generation.
    pub closed spec fn tlb_gen(&self) -> u32 {
        self.tlb_generation
    }

    pub fn tlb_stats(&self) -> (r: (u64, u64))
        ensures
            r == self.stats(),
    {
        (self.tlb_hits, self.tlb_misses)
    }

    /// Translate a virtual address. `Err` carries the fault cause.
    ///
    /// In Machine mode or with bare addressing (satp mode 0) the address is
    /// its own translation. A mode other than Sv39/48/57, or a non-canonical
    /// address, is a page fault. Otherwise the TLB is consulted, smallest page
    /// first; on a miss the table is walked through `bus`, the accessed/dirty
    /// bits of the leaf are written back, and the result is cached.
    pub fn translate<B: Bus>(&mut self, vaddr: u64, access_type: AccessType, priv_level: PrivilegeLevel, bus: &mut B, satp: u64, mstatus: u64) -> (r: Result<u64, u64>)
        requires
            old(bus).inv(),
            old(self).wf(),
        ensures
            final(bus).inv(),
            final(self).wf(),
            ({
                let mode = (satp >> 60u64) & 0xF;
                let levels = mode_levels(mode);
                if priv_level == PrivilegeLevel::Machine || mode == 0 {
                    r == Ok::<u64, u64>(vaddr) && final(self).stats() == old(self).stats()
                        && *final(bus) == *old(bus) && *final(self) == *old(self)
                } else if levels == 0 || !canonical(vaddr, levels) {
                    r == Err::<u64, u64>(fault_cause64(access_type)) && final(self).stats() == old(self).stats()
                } else {
                    match old(self).cached(vaddr, access_type, priv_level, mstatus, levels) {
                        Some(pa) => r == Ok::<u64, u64>(pa)
                            && final(self).stats() == (old(self).stats().0.wrapping_add(1), old(self).stats().1),
                        None => final(self).stats() == (old(self).stats().0, old(self).stats().1.wrapping_add(1))
                            && (exists|ptes: Seq<u64>| r == #[trigger] walk64(vaddr, access_type, priv_level, mstatus,
                                (levels - 1) as nat, ((satp % PPN_LIMIT) * 0x1000) as u64, ptes))
                            && walk_reads64(*old(bus), vaddr, access_type, priv_level, mstatus, (levels - 1) as nat,
                                ((satp % PPN_LIMIT) * 0x1000) as u64, r),
                    }
                }
            }),
            r is Err ==> r->Err_0 == 13 || r->Err_0 == fault_cause64(access_type),
    {
        let mode = (satp >> 60u64) & 0xF;
        if priv_level == PrivilegeLevel::Machine || mode == 0 {
            return Ok(vaddr);
        }
        let levels: usize = if mode == 8 { 3 } else if mode == 9 { 4 } else if mode == 10 { 5 } else {
            return Err(Self::page_fault_cause(access_type));
        };
        if !Self::is_canonical(vaddr, levels) {
            return Err(Self::page_fault_cause(access_type));
        }
        if let Some(paddr) = self.tlb_lookup(vaddr, access_type, priv_level, mstatus, levels) {
            return Ok(paddr);
        }
        self.walk(vaddr, access_type, priv_level, bus, satp, mstatus, levels)
    }

    /// The page walk proper, from the root table named by satp.
    fn walk<B: Bus>(&mut self, vaddr: u64, access_type: AccessType, priv_level: PrivilegeLevel, bus: &mut B, satp: u64, mstatus: u64, levels: usize) -> (r: Result<u64, u64>)
        requires
            old(bus).inv(),
            old(self).wf(),
            3 <= levels <= 5,
        ensures
            final(bus).inv(),
            final(self).wf(),
            final(self).stats() == old(self).stats(),
            exists|ptes: Seq<u64>| r == #[trigger] walk64(vaddr, access_type, priv_level, mstatus,
                (levels - 1) as nat, ((satp % PPN_LIMIT) * 0x1000) as u64, ptes),
            walk_reads64(*old(bus), vaddr, access_type, priv_level, mstatus, (levels - 1) as nat,
                ((satp % PPN_LIMIT) * 0x1000) as u64, r),
            r is Err ==> r->Err_0 == 13 || r->Err_0 == fault_cause64(access_type),
    {
        let root: u64 = (satp % PPN_LIMIT) * 0x1000;
        let ghost top = (levels - 1) as nat;
        let ghost mut seen: Seq<u64> = Seq::empty();
        let ghost ob = *old(bus);
        let ghost mut plain = true;
        let mut level: usize = levels - 1;
        let mut table: u64 = root;
        assert forall|rest: Seq<u64>| #[trigger] walk64(vaddr, access_type, priv_level, mstatus, top, root, seen + rest)
            == walk64(vaddr, access_type, priv_level, mstatus, level as nat, table, rest) by {
            assert(seen + rest =~= rest);
        }
        loop
            invariant
                level <= 4,
                table < 0x1_0000_0000_0000_0000 - 0x1000,
                table <= (PPN_LIMIT - 1) * 0x1000,
                top == (levels - 1) as nat,
                root == ((satp % PPN_LIMIT) * 0x1000) as u64,
                bus.inv(),
                self.wf(),
                self.stats() == old(self).stats(),
                forall|rest: Seq<u64>| #[trigger] walk64(vaddr, access_type, priv_level, mstatus, top, root, seen + rest)
                    == walk64(vaddr, access_type, priv_level, mstatus, level as nat, table, rest),
                ob == *old(bus),
                plain ==> *bus == ob,
                plain ==> forall|rr: Result<u64, u64>| #[trigger] walk_reads64(ob, vaddr, access_type, priv_level, mstatus,
                    top, root, rr) == walk_reads64(ob, vaddr, access_type, priv_level, mstatus, level as nat, table, rr),
                !plain ==> forall|rr: Result<u64, u64>| #[trigger] walk_reads64(ob, vaddr, access_type, priv_level, mstatus,
                    top, root, rr),
            decreases level,
        {
            let shift: u64 = 12 + 9 * (level as u64);
            let vpn = (vaddr >> shift) % 0x200;
            let pte_addr = table + vpn * 8;
            let ghost here = seen;
            proof {
                assert(walk64(vaddr, access_type, priv_level, mstatus, top, root, here + seq![0u64])
                    == walk64(vaddr, access_type, priv_level, mstatus, level as nat, table, seq![0u64]));
            }
            if pte_addr > 0xFFFF_FFFF {
                proof { assert(walk64(vaddr, access_type, priv_level, mstatus, top, root, here + seq![0u64]) == Err::<u64, u64>(13)); }
                return Err(Self::page_fault_cause(AccessType::Load));
            }
            let ghost pre = *bus;
            let pte = bus.read64(pte_addr as u32);
            proof {
                if plain {
                    if peek_dword(ob, pte_addr as u32) is Some {
                        assert(peek_dword(ob, pte_addr as u32) == Some(pte));
                    } else {
                        assert forall|rr: Result<u64, u64>| #[trigger] walk_reads64(ob, vaddr, access_type, priv_level,
                            mstatus, top, root, rr) by {
                            assert(walk_reads64(ob, vaddr, access_type, priv_level, mstatus, level as nat, table, rr));
                        }
                        plain = false;
                    }
                }
            }
            assert(plain ==> peek_dword(ob, pte_addr as u32) == Some(pte));
            let ghost one = seq![pte];
            proof {
                assert(walk64(vaddr, access_type, priv_level, mstatus, top, root, here + one)
                    == walk64(vaddr, access_type, priv_level, mstatus, level as nat, table, one));
                assert(one[0] == pte);
            }
            if (pte & 1) == 0 {
                return Err(Self::page_fault_cause(access_type));
            }
            let rb = (pte >> 1u64) & 1;
            let wb = (pte >> 2u64) & 1;
            let xb = (pte >> 3u64) & 1;
            let ub = (pte >> 4u64) & 1;
            if rb == 1 || xb == 1 {
                match Self::check_permissions(pte, access_type, priv_level, mstatus) {
                    Err(c) => { return Err(c); },
                    Ok(_) => {},
                }
                let ppn_all = (pte >> 10u64) % PPN_LIMIT;
                if ppn_all & Self::superpage_mask_of(level) != 0 {
                    return Err(Self::page_fault_cause(access_type));
                }
                let paddr = (ppn_all * 0x1000) | (vaddr & Self::offset_mask_of(level));
                Self::update_ad_bits(bus, pte_addr, pte, access_type);
                let perm = (rb as u8) | ((wb as u8) << 1u8) | ((xb as u8) << 2u8) | ((ub as u8) << 3u8);
                let tag = vaddr >> shift;
                self.fill_tlb(tag, ppn_all, perm, shift as u8);
                return Ok(paddr);
            }
            if level == 0 {
                return Err(Self::page_fault_cause(access_type));
            }
            let next = ((pte >> 10u64) % PPN_LIMIT) * 0x1000;
            proof {
                assert forall|rest: Seq<u64>| #[trigger] walk64(vaddr, access_type, priv_level, mstatus, top, root, here.push(pte) + rest)
                    == walk64(vaddr, access_type, priv_level, mstatus, (level - 1) as nat, next, rest) by {
                    let tail = seq![pte] + rest;
                    assert(here.push(pte) + rest =~= here + tail);
                    assert(tail[0] == pte);
                    assert(tail.drop_first() =~= rest);
                    assert(walk64(vaddr, access_type, priv_level, mstatus, top, root, here + tail)
                        == walk64(vaddr, access_type, priv_level, mstatus, level as nat, table, tail));
                }
                seen = here.push(pte);
                if plain {
                    assert(pte_addr == table + vpn_at(vaddr, level as nat) * 8);
                    assert(!is_leaf64(pte));
                    assert(next == (pte_ppn(pte) * 0x1000) as u64);
                    assert forall|rr: Result<u64, u64>| #[trigger] walk_reads64(ob, vaddr, access_type, priv_level,
                        mstatus, top, root, rr) == walk_reads64(ob, vaddr, access_type, priv_level, mstatus,
                        (level - 1) as nat, next, rr) by {
                        assert(walk_reads64(ob, vaddr, access_type, priv_level, mstatus, top, root, rr)
                            == walk_reads64(ob, vaddr, access_type, priv_level, mstatus, level as nat, table, rr));
                    }
                }
            }
            level = level - 1;
            table = next;
        }
    }

    /// The TLB's answer for `vaddr`, counting the hit or the miss.
    fn tlb_lookup(&mut self, vaddr: u64, access_type: AccessType, priv_level: PrivilegeLevel, mstatus: u64, levels: usize) -> (r: Option<u64>)
        requires
            old(self).wf(),
            levels <= 5,
        ensures
            final(self).wf(),
            r == old(self).cached(vaddr, access_type, priv_level, mstatus, levels as nat),
            final(self).tlb == old(self).tlb,
            final(self).tlb_generation == old(self).tlb_generation,
            r is Some ==> final(self).stats() == (old(self).stats().0.wrapping_add(1), old(self).stats().1),
            r is None ==> final(self).stats() == (old(self).stats().0, old(self).stats().1.wrapping_add(1)),
    {
        let mut level: usize = 0;
        while level < levels
            invariant
                level <= levels <= 5,
                self.wf(),
                *self == *old(self),
                self.cached(vaddr, access_type, priv_level, mstatus, level as nat) is None,
            decreases levels - level,
        {
            let shift: u64 = 12 + 9 * (level as u64);
            let tag = vaddr >> shift;
            let idx = (tag % 16) as usize;
            let e = self.tlb[idx];
            if e.valid && e.generation == self.tlb_generation && e.tag == tag && e.page_shift as u64 == shift
                && Self::check_perm_fast(e.perm, access_type, priv_level, mstatus) {
                assert(self.tlb@[(tag % 16) as int].ppn < PPN_LIMIT);
                let pa = (e.ppn * 0x1000) | (vaddr & Self::offset_mask_of(level));
                assert(self.cached_at(vaddr, access_type, priv_level, mstatus, level as nat) == Some(pa));
                proof { self.lemma_cached_stays(vaddr, access_type, priv_level, mstatus, (level + 1) as nat, levels as nat); }
                self.tlb_hits = self.tlb_hits.wrapping_add(1);
                return Some(pa);
            }
            assert(self.cached_at(vaddr, access_type, priv_level, mstatus, level as nat) is None);
            level = level + 1;
        }
        self.tlb_misses = self.tlb_misses.wrapping_add(1);
        None
    }

    /// Once some level answers, trying more levels gives the same answer.
    proof fn lemma_cached_stays(&self, vaddr: u64, access: AccessType, priv_level: PrivilegeLevel, mstatus: u64, n: nat, m: nat)
        requires
            n <= m,
            self.cached(vaddr, access, priv_level, mstatus, n) is Some,
        ensures
            self.cached(vaddr, access, priv_level, mstatus, m) == self.cached(vaddr, access, priv_level, mstatus, n),
        decreases m - n,
    {
        if n < m {
            self.lemma_cached_stays(vaddr, access, priv_level, mstatus, n, (m - 1) as nat);
        }
    }

    /// Cache a translation in the slot of its tag.
    fn fill_tlb(&mut self, tag: u64, ppn: u64, perm: u8, page_shift: u8)
        requires
            old(self).wf(),
            ppn < PPN_LIMIT,
        ensures
            final(self).wf(),
            final(self).stats() == old(self).stats(),
            final(self).tlb_generation == old(self).tlb_generation,
            final(self).tlb@ == old(self).tlb@.update(
                (tag % 16) as int,
                TlbEntry64 { tag, ppn, perm, valid: true, generation: old(self).tlb_generation, page_shift },
            ),
    {
        let idx = (tag % 16) as usize;
        let entry = TlbEntry64 { tag, ppn, perm, valid: true, generation: self.tlb_generation, page_shift };
        self.tlb.set(idx, entry);
    }

    /// Is `vaddr` canonical for the given number of levels?
    fn is_canonical(vaddr: u64, levels: usize) -> (r: bool)
        requires
            3 <= levels <= 5,
        ensures
            r == canonical(vaddr, levels as nat),
    {
        let va_bits: u64 = 12 + 9 * (levels as u64);
        let sign = (vaddr >> (va_bits - 1)) & 1;
        let upper = vaddr >> va_bits;
        if sign == 0 {
            upper == 0
        } else {
            let ones: u64 = if levels == 3 { 0x1FF_FFFF } else if levels == 4 { 0xFFFF } else { 0x7F };
            upper == ones
        }
    }

    fn offset_mask_of(level: usize) -> (m: u64)
        requires
            level <= 4,
        ensures
            m == offset_mask(level as nat),
    {
        if level == 0 { 0xFFF }
        else if level == 1 { 0x1F_FFFF }
        else if level == 2 { 0x3FFF_FFFF }
        else if level == 3 { 0x7F_FFFF_FFFF }
        else { 0xFFFF_FFFF_FFFF }
    }

    fn superpage_mask_of(level: usize) -> (m: u64)
        requires
            level <= 4,
        ensures
            m == superpage_mask(level as nat),
    {
        if level == 0 { 0 }
        else if level == 1 { 0x1FF }
        else if level == 2 { 0x3_FFFF }
        else if level == 3 { 0x7FF_FFFF }
        else { 0xF_FFFF_FFFF }
    }

    /// Permission check of a leaf PTE.
    pub fn check_permissions(pte: u64, access_type: AccessType, priv_level: PrivilegeLevel, mstatus: u64) -> (r: Result<(), u64>)
        ensures
            r == spec_check_permissions64(pte, access_type, priv_level, mstatus),
    {
        let r = (pte >> 1u64) & 1;
        let w = (pte >> 2u64) & 1;
        let x = (pte >> 3u64) & 1;
        let u = (pte >> 4u64) & 1;
        if priv_level == PrivilegeLevel::Supervisor && u == 1 {
            let sum = (mstatus >> 18u64) & 1;
            if sum == 0 {
                return Err(Self::page_fault_cause(access_type));
            }
        }
        if priv_level == PrivilegeLevel::User && u == 0 {
            return Err(Self::page_fault_cause(access_type));
        }
        let mxr = (mstatus >> 19u64) & 1;
        match access_type {
            AccessType::Instruction => {
                if x == 0 {
                    return Err(12);
                }
            },
            AccessType::Load => {
                if r == 1 {
                    return Ok(());
                }
                if x == 1 && mxr == 1 {
                    return Ok(());
                }
                return Err(13);
            },
            AccessType::Store => {
                if w == 0 {
                    return Err(15);
                }
            },
        }
        Ok(())
    }

    /// Permission check of the TLB's compact permission bits.
    fn check_perm_fast(perm: u8, access_type: AccessType, priv_level: PrivilegeLevel, mstatus: u64) -> (ok: bool)
        ensures
            ok == spec_perm_fast(perm, access_type, priv_level, mstatus),
    {
        let r = (perm & 0x01) != 0;
        let w = (perm & 0x02) != 0;
        let x = (perm & 0x04) != 0;
        let u = (perm & 0x08) != 0;
        if priv_level == PrivilegeLevel::Supervisor && u {
            let sum = (mstatus >> 18u64) & 1;
            if sum == 0 {
                return false;
            }
        }
        if priv_level == PrivilegeLevel::User && !u {
            return false;
        }
        let mxr = (mstatus >> 19u64) & 1;
        match access_type {
            AccessType::Instruction => x,
            AccessType::Load => r || (x && mxr == 1),
            AccessType::Store => w,
        }
    }

    /// Writes back the accessed bit (and, for stores, the dirty bit) of a leaf PTE when unset.
    fn update_ad_bits<B: Bus>(bus: &mut B, pte_addr: u64, pte: u64, access_type: AccessType) -> (changed: bool)
        requires
            old(bus).inv(),
            pte_addr <= 0xFFFF_FFFF,
        ensures
            final(bus).inv(),
            changed <==> (pte & 0x40 == 0 || (access_type == AccessType::Store && pte & 0x80 == 0)),
    {
        proof {
            assert(((pte >> 6u64) & 1 == 0) == (pte & 0x40 == 0) && ((pte >> 7u64) & 1 == 0) == (pte & 0x80 == 0)
                && (pte & 0x40 == 0 ==> (pte | 0x40) != pte && (pte | 0x40 | 0x80) != pte)
                && (pte & 0x80 == 0 ==> (pte | 0x80) != pte)) by (bit_vector);
        }
        let mut new_pte = pte;
        let a = (pte >> 6u64) & 1;
        let d = (pte >> 7u64) & 1;
        if a == 0 {
            new_pte = new_pte | 0x40;
        }
        if access_type == AccessType::Store && d == 0 {
            new_pte = new_pte | 0x80;
        }
        if new_pte != pte {
            bus.write64(pte_addr as u32, new_pte);
            true
        } else {
            false
        }
    }

    fn page_fault_cause(access_type: AccessType) -> (r: u64)
        ensures
            r == fault_cause64(access_type),
    {
        match access_type {
            AccessType::Instruction => 12,
            AccessType::Load => 13,
            AccessType::Store => 15,
        }
    }
}

} // verus!
