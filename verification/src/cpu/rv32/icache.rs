//! Instruction cache: decoded instructions kept per physical page so that
//! hot code is not decoded again.

use vstd::prelude::*;
use std::collections::HashMap;

verus! {

broadcast use vstd::std_specs::hash::group_hash_axioms;

/// Number of instruction slots per page (4KB / 4 bytes).
pub const INSTS_PER_PAGE: usize = 1024;

/// Cached decoded instruction.
#[derive(Clone, Copy, PartialEq, Eq, Structural, Debug)]
pub struct CachedInst {
    /// Raw instruction
    pub raw: u32,
    /// Opcode (7 bits)
    pub opcode: u8,
    /// Destination register (5 bits)
    pub rd: u8,
    /// Source register 1 (5 bits)
    pub rs1: u8,
    /// Source register 2 (5 bits)
    pub rs2: u8,
    /// rs3 for R4-type (5 bits)
    pub rs3: u8,
    /// funct3 (3 bits)
    pub funct3: u8,
    /// funct7 (7 bits)
    pub funct7: u8,
    /// Valid flag
    pub valid: bool,
}

/// The fields of instruction `raw`.
pub open spec fn spec_cached_decode(raw: u32) -> CachedInst {
    CachedInst {
        raw,
        opcode: (raw & 0x7F) as u8,
        rd: ((raw >> 7u32) & 0x1F) as u8,
        rs1: ((raw >> 15u32) & 0x1F) as u8,
        rs2: ((raw >> 20u32) & 0x1F) as u8,
        rs3: ((raw >> 27u32) & 0x1F) as u8,
        funct3: ((raw >> 12u32) & 0x7) as u8,
        funct7: ((raw >> 25u32) & 0x7F) as u8,
        valid: true,
    }
}

impl CachedInst {
    pub fn decode(raw: u32) -> (c: CachedInst)
        ensures
            c == spec_cached_decode(raw),
    {
        CachedInst {
            raw,
            opcode: (raw & 0x7F) as u8,
            rd: ((raw >> 7u32) & 0x1F) as u8,
            rs1: ((raw >> 15u32) & 0x1F) as u8,
            rs2: ((raw >> 20u32) & 0x1F) as u8,
            rs3: ((raw >> 27u32) & 0x1F) as u8,
            funct3: ((raw >> 12u32) & 0x7) as u8,
            funct7: ((raw >> 25u32) & 0x7F) as u8,
            valid: true,
        }
    }

    /// An empty slot.
    pub fn invalid() -> (c: CachedInst)
        ensures
            !c.valid,
    {
        CachedInst { raw: 0, opcode: 0, rd: 0, rs1: 0, rs2: 0, rs3: 0, funct3: 0, funct7: 0, valid: false }
    }
}

/// A page of cached instructions.
struct CachedPage {
    instructions: Vec<CachedInst>,
    generation: u32,
}

fn empty_page(generation: u32) -> (p: CachedPage)
    ensures
        p.instructions@.len() == INSTS_PER_PAGE,
        forall|i: int| 0 <= i < INSTS_PER_PAGE ==> !(#[trigger] p.instructions@[i]).valid,
        p.generation == generation,
{
    let mut instructions: Vec<CachedInst> = Vec::with_capacity(INSTS_PER_PAGE);
    let mut i: usize = 0;
    while i < INSTS_PER_PAGE
        invariant
            i <= INSTS_PER_PAGE,
            instructions@.len() == i,
            forall|j: int| 0 <= j < i ==> !(#[trigger] instructions@[j]).valid,
        decreases INSTS_PER_PAGE - i,
    {
        instructions.push(CachedInst::invalid());
        i = i + 1;
    }
    CachedPage { instructions, generation }
}

/// Instruction cache.
pub struct ICache {
    /// Map from physical page number (paddr >> 12) to cached page
    pages: HashMap<u32, CachedPage>,
    /// Generation counter for invalidation
    generation: u32,
    /// Stats
    pub hits: u64,
    pub misses: u64,
}

/// Slot of `paddr` within its page.
pub open spec fn slot_of(paddr: u32) -> int {
    ((paddr >> 2u32) & 0x3FF) as int
}

/// Each slot of the page is either invalid or the decoding of its raw word.
spec fn page_ok(p: CachedPage) -> bool {
    &&& p.instructions@.len() == INSTS_PER_PAGE
    &&& forall|i: int| 0 <= i < INSTS_PER_PAGE && #[trigger] p.instructions@[i].valid
        ==> p.instructions@[i] == spec_cached_decode(p.instructions@[i].raw)
}

impl ICache {
    /// Hit and miss counters.
    pub closed spec fn counters(&self) -> (u64, u64) {
        (self.hits, self.misses)
    }

    /// The current generation: pages filled in another generation are stale.
    pub closed spec fn generation(&self) -> u32 {
        self.generation
    }

    /// The decoding cached for `paddr` in the current generation, if any.
    pub closed spec fn cached_at(&self, paddr: u32) -> Option<CachedInst> {
        let k = paddr >> 12u32;
        if self.pages@.contains_key(k) && self.pages@[k].generation == self.generation
            && self.pages@[k].instructions@[slot_of(paddr)].valid {
            Some(self.pages@[k].instructions@[slot_of(paddr)])
        } else {
            None
        }
    }

    /// Every cached page has a slot for each instruction, and every valid
    /// slot of a current page holds the decoding of its raw word.
    pub closed spec fn wf(&self) -> bool {
        forall|k: u32| #[trigger] self.pages@.contains_key(k) ==> page_ok(self.pages@[k])
    }

    pub fn new() -> (c: ICache)
        ensures
            c.wf(),
            c.counters() == (0u64, 0u64),
    {
        ICache { pages: HashMap::new(), generation: 1, hits: 0, misses: 0 }
    }

    /// Lookup or decode the instruction `raw_inst` fetched from `paddr`.
    /// The answer is always the decoding of `raw_inst`: a cached slot is used
    /// only when it holds that same word.
    pub fn get_or_decode(&mut self, paddr: u32, raw_inst: u32) -> (r: CachedInst)
        requires
            old(self).wf(),
        ensures
            final(self).wf(),
            r == spec_cached_decode(raw_inst),
            final(self).generation() == old(self).generation(),
            old(self).cached_at(paddr) == Some(spec_cached_decode(raw_inst)) ==>
                final(self).counters() == (old(self).counters().0.wrapping_add(1), old(self).counters().1)
                && final(self).cached_at(paddr) == old(self).cached_at(paddr),
            old(self).cached_at(paddr) != Some(spec_cached_decode(raw_inst)) ==>
                final(self).counters() == (old(self).counters().0, old(self).counters().1.wrapping_add(1)),
            final(self).cached_at(paddr) == Some(spec_cached_decode(raw_inst)),
    {
        let page_num = paddr >> 12u32;
        let offset = ((paddr >> 2u32) & 0x3FF) as usize;
        proof { crate::bits::lemma_u32_shift_mask(); }
        match self.pages.get(&page_num) {
            Some(page) => {
                assert(page_ok(*page));
                if page.generation == self.generation {
                    let cached = page.instructions[offset];
                    if cached.valid && cached.raw == raw_inst {
                        self.hits = self.hits.wrapping_add(1);
                        return cached;
                    }
                }
            },
            None => {},
        }
        self.misses = self.misses.wrapping_add(1);
        let decoded = CachedInst::decode(raw_inst);
        let mut page = match self.pages.remove(&page_num) {
            Some(p) => p,
            None => empty_page(self.generation),
        };
        if page.generation != self.generation {
            page = empty_page(self.generation);
        }
        assert(page_ok(page));
        page.instructions.set(offset, decoded);
        assert(page_ok(page));
        self.pages.insert(page_num, page);
        assert forall|k: u32| #[trigger] self.pages@.contains_key(k) implies page_ok(self.pages@[k]) by {
            if k != page_num {
                assert(old(self).pages@.contains_key(k));
                assert(page_ok(old(self).pages@[k]));
            }
        }
        decoded
    }

    /// Invalidate the cached slot for `paddr` (for self-modifying code).
    pub fn invalidate_addr(&mut self, paddr: u32)
        requires
            old(self).wf(),
        ensures
            final(self).wf(),
            final(self).counters() == old(self).counters(),
            final(self).cached_at(paddr) is None,
            forall|a: u32| (a >> 12u32 != paddr >> 12u32 || slot_of(a) != slot_of(paddr))
                ==> #[trigger] final(self).cached_at(a) == old(self).cached_at(a),
    {
        let page_num = paddr >> 12u32;
        let offset = ((paddr >> 2u32) & 0x3FF) as usize;
        proof { crate::bits::lemma_u32_shift_mask(); }
        if let Some(mut page) = self.pages.remove(&page_num) {
            assert(page_ok(page));
            if page.generation == self.generation {
                let mut slot = page.instructions[offset];
                slot.valid = false;
                page.instructions.set(offset, slot);
            }
            assert(page_ok(page));
            self.pages.insert(page_num, page);
            assert forall|k: u32| #[trigger] self.pages@.contains_key(k) implies page_ok(self.pages@[k]) by {
                if k != page_num {
                    assert(page_ok(old(self).pages@[k]));
                }
            }
        }
    }

    /// Invalidate the entire cache (e.g., on FENCE.I).
    pub fn invalidate_all(&mut self)
        requires
            old(self).wf(),
        ensures
            final(self).wf(),
            final(self).generation() == old(self).generation().wrapping_add(1),
            final(self).counters() == old(self).counters(),
    {
        self.generation = self.generation.wrapping_add(1);
    }

    /// Reset cache.
    pub fn reset(&mut self)
        ensures
            final(self).wf(),
            final(self).counters() == (0u64, 0u64),
    {
        self.pages.clear();
        self.generation = 1;
        self.hits = 0;
        self.misses = 0;
    }
}

impl Default for ICache {
    fn default() -> (c: ICache)
        ensures
            c.wf(),
    {
        ICache::new()
    }
}

} // verus!
