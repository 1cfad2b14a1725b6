//! JIT state: page hotness, compiled regions and their invalidation.

use vstd::prelude::*;
use std::collections::{HashMap, HashSet};
use super::types::{BasicBlock, CompiledRegion, ControlFlowStructure, Page};
use super::cfg::{build_cfg, find_sccs, structure_sccs};
use super::discovery::{block_ok, discover_basic_blocks, in_page, MAX_BLOCK_SIZE};
use crate::cpu::rv32::icache::CachedInst;
use crate::memory::Bus;

verus! {

broadcast use vstd::std_specs::hash::group_hash_axioms;

/// Compilation threshold.
pub const JIT_THRESHOLD: u32 = 100_000;

/// Heat added per basic block execution.
pub const HEAT_PER_BLOCK: u32 = 100;

/// Per-page execution statistics.
pub struct PageStats {
    /// Accumulated heat.
    pub hotness: u32,
    /// Known entry points (offsets in the page).
    pub entry_points: HashSet<u16>,
}

impl Default for PageStats {
    fn default() -> (s: PageStats)
        ensures
            s.hotness == 0,
            s.entry_points@ == Set::<u16>::empty(),
    {
        PageStats { hotness: 0, entry_points: HashSet::new() }
    }
}

/// JIT compilation state. Pages are keyed by their page number.
pub struct JitState {
    page_stats: HashMap<u32, PageStats>,
    regions: HashMap<u32, CompiledRegion>,
    generation: u32,
    threshold: u32,
    /// Regions compiled.
    pub compiles: u64,
    /// Lookups that found a current region.
    pub region_hits: u64,
    /// Lookups that found none.
    pub region_misses: u64,
}

/// The heat of page `p` (zero for a page never seen).
pub open spec fn hotness_in(m: Map<u32, PageStats>, p: u32) -> u32 {
    if m.contains_key(p) { m[p].hotness } else { 0 }
}

/// The entry offsets recorded for page `p`.
pub open spec fn entries_in(m: Map<u32, PageStats>, p: u32) -> Set<u16> {
    if m.contains_key(p) { m[p].entry_points@ } else { Set::empty() }
}

/// The addresses of the entry offsets `offs` in the page starting at `base`.
pub open spec fn entry_addrs(base: u32, offs: Set<u16>) -> Set<u32> {
    offs.map(|o: u16| (base + o) as u32)
}

impl JitState {
    /// Statistics by page number.
    pub closed spec fn stats(&self) -> Map<u32, PageStats> {
        self.page_stats@
    }

    /// Compiled regions by page number.
    pub closed spec fn regions(&self) -> Map<u32, CompiledRegion> {
        self.regions@
    }

    /// The counters: regions compiled, lookup hits, lookup misses.
    pub closed spec fn counters(&self) -> (u64, u64, u64) {
        (self.compiles, self.region_hits, self.region_misses)
    }

    /// The current generation; regions of another generation are stale.
    pub closed spec fn generation(&self) -> u32 {
        self.generation
    }

    /// The heat at which a page is compiled.
    pub closed spec fn threshold(&self) -> u32 {
        self.threshold
    }

    /// The state is consistent: the generation is never zero, statistics
    /// are kept for page numbers of 32-bit addresses, with offsets inside a page.
    pub closed spec fn wf(&self) -> bool {
        &&& self.generation != 0
        &&& forall|p: u32| #[trigger] self.page_stats@.contains_key(p) ==> p < 0x10_0000
        &&& forall|p: u32, o: u16| #[trigger] self.page_stats@.contains_key(p)
            && #[trigger] self.page_stats@[p].entry_points@.contains(o) ==> o < 0x1000
    }

    /// No region is from a generation after the current one.
    pub closed spec fn fresh(&self) -> bool {
        forall|p: u32| #[trigger] self.regions@.contains_key(p) ==> self.regions@[p].generation <= self.generation
    }

    /// A lookup of page `p` finds a current region.
    pub open spec fn region_live(&self, p: u32) -> bool {
        self.regions().contains_key(p) && self.regions()[p].generation == self.generation()
    }

    pub fn new() -> (s: JitState)
        ensures
            s.wf(),
            s.fresh(),
            s.stats() == Map::<u32, PageStats>::empty(),
            s.regions() == Map::<u32, CompiledRegion>::empty(),
            s.generation() == 1,
            s.threshold() == JIT_THRESHOLD,
            s.counters().0 == 0,
            s.counters().1 == 0,
            s.counters().2 == 0,
    {
        JitState {
            page_stats: HashMap::new(),
            regions: HashMap::new(),
            generation: 1,
            threshold: JIT_THRESHOLD,
            compiles: 0,
            region_hits: 0,
            region_misses: 0,
        }
    }

    /// Set the compilation threshold.
    pub fn set_threshold(&mut self, threshold: u32)
        ensures
            final(self).threshold() == threshold,
            final(self).stats() == old(self).stats(),
            final(self).regions() == old(self).regions(),
            final(self).generation() == old(self).generation(),
            old(self).wf() ==> final(self).wf(),
            old(self).fresh() ==> final(self).fresh(),
            final(self).counters().0 == old(self).counters().0,
            final(self).counters().1 == old(self).counters().1,
            final(self).counters().2 == old(self).counters().2,
    {
        self.threshold = threshold;
    }

    /// Record an execution at `paddr` with `heat`: the offset becomes an
    /// entry point of its page and the page's heat grows (modulo 2^32).
    /// Once the heat reaches the threshold it drops back to zero and the
    /// page is returned for compilation.
    pub fn record_execution(&mut self, paddr: u32, heat: u32) -> (r: Option<Page>)
        requires
            old(self).wf(),
        ensures
            final(self).wf(),
            old(self).fresh() ==> final(self).fresh(),
            ({
                let p = paddr / 0x1000;
                let h = ((hotness_in(old(self).stats(), p) + heat) % 0x1_0000_0000) as u32;
                &&& r == (if h >= old(self).threshold() { Some(Page(p)) } else { None })
                &&& final(self).stats().dom() == old(self).stats().dom().insert(p)
                &&& final(self).stats()[p].hotness == (if h >= old(self).threshold() { 0 } else { h })
                &&& final(self).stats()[p].entry_points@ == entries_in(old(self).stats(), p).insert((paddr % 0x1000) as u16)
                &&& forall|q: u32| q != p && #[trigger] old(self).stats().contains_key(q)
                    ==> final(self).stats()[q] == old(self).stats()[q]
            }),
            final(self).regions() == old(self).regions(),
            final(self).generation() == old(self).generation(),
            final(self).threshold() == old(self).threshold(),
            final(self).counters().0 == old(self).counters().0,
            final(self).counters().1 == old(self).counters().1,
            final(self).counters().2 == old(self).counters().2,
    {
        let page = Page::of(paddr);
        let offset = (paddr % 0x1000) as u16;
        let mut stats = match self.page_stats.remove(&page.0) {
            Some(s) => s,
            None => PageStats::default(),
        };
        stats.entry_points.insert(offset);
        stats.hotness = stats.hotness.wrapping_add(heat);
        let fire = stats.hotness >= self.threshold;
        if fire {
            stats.hotness = 0;
        }
        self.page_stats.insert(page.0, stats);
        if fire {
            Some(page)
        } else {
            None
        }
    }

    /// The current compiled region of `page`, if any; counts the hit or miss.
    pub fn get_region(&mut self, page: Page) -> (r: Option<&CompiledRegion>)
        ensures
            match r {
                Some(reg) => old(self).region_live(page.0) && *reg == old(self).regions()[page.0],
                None => !old(self).region_live(page.0),
            },
            final(self).counters().1 == (if old(self).region_live(page.0) {
                old(self).counters().1.wrapping_add(1) } else { old(self).counters().1 }),
            final(self).counters().2 == (if old(self).region_live(page.0) {
                old(self).counters().2 } else { old(self).counters().2.wrapping_add(1) }),
            final(self).stats() == old(self).stats(),
            final(self).regions() == old(self).regions(),
            final(self).generation() == old(self).generation(),
            final(self).threshold() == old(self).threshold(),
            old(self).wf() ==> final(self).wf(),
            old(self).fresh() ==> final(self).fresh(),
            final(self).counters().0 == old(self).counters().0,
    {
        let live = match self.regions.get(&page.0) {
            Some(region) => region.generation == self.generation,
            None => false,
        };
        if live {
            self.region_hits = self.region_hits.wrapping_add(1);
            self.regions.get(&page.0)
        } else {
            self.region_misses = self.region_misses.wrapping_add(1);
            None
        }
    }

    /// The entry points of `page`: its recorded offsets placed in the page,
    /// or the page's first address when nothing was recorded.
    fn entry_points_of(&self, page: Page) -> (v: Vec<u32>)
        requires
            self.wf(),
        ensures
            self.stats().contains_key(page.0) ==> v@.to_set() == entry_addrs((page.0 * 0x1000) as u32, entries_in(self.stats(), page.0)),
            !self.stats().contains_key(page.0) ==> v@ == seq![page.0 << 12u32],
    {
        match self.page_stats.get(&page.0) {
            Some(stats) => {
                let base = page.base_addr();
                assert(page.0 < 0x10_0000);
                let offs = offsets_vec(&stats.entry_points);
                let mut v: Vec<u32> = Vec::new();
                let mut i: usize = 0;
                while i < offs.len()
                    invariant
                        base == page.0 * 0x1000,
                        page.0 < 0x10_0000,
                        offs@.to_set() == stats.entry_points@,
                        forall|o: u16| #[trigger] stats.entry_points@.contains(o) ==> o < 0x1000,
                        i <= offs@.len(),
                        v@.len() == i,
                        forall|j: int| 0 <= j < i ==> #[trigger] v@[j] == base + offs@[j],
                    decreases offs@.len() - i,
                {
                    let o = offs[i];
                    assert(offs@.to_set().contains(o));
                    v.push(base + o as u32);
                    i = i + 1;
                }
                proof {
                    assert forall|x: u32| v@.to_set().contains(x) <==> entry_addrs(base, stats.entry_points@).contains(x) by {
                        if v@.to_set().contains(x) {
                            let j = choose|j: int| 0 <= j < v@.len() && v@[j] == x;
                            assert(offs@.to_set().contains(offs@[j]));
                            assert((base + offs@[j]) as u32 == x);
                        }
                        if entry_addrs(base, stats.entry_points@).contains(x) {
                            let o = choose|o: u16| stats.entry_points@.contains(o) && (base + o) as u32 == x;
                            assert(offs@.to_set().contains(o));
                            let j = choose|j: int| 0 <= j < offs@.len() && offs@[j] == o;
                            assert(v@[j] == x);
                        }
                    }
                    assert(v@.to_set() =~= entry_addrs(base, stats.entry_points@));
                }
                v
            },
            None => {
                let v = vec![page.base_addr()];
                assert(v@ =~= seq![page.0 << 12u32]);
                v
            },
        }
    }

    /// The entry points a compilation of `page` starts from: its recorded
    /// offsets placed in the page, or the page's first address.
    pub open spec fn compile_entries(&self, page: Page) -> Set<u32> {
        if self.stats().contains_key(page.0) {
            entry_addrs((page.0 * 0x1000) as u32, entries_in(self.stats(), page.0))
        } else {
            set![(page.0 * 0x1000) as u32]
        }
    }

    /// Compile a region for `page`: discover its blocks from its entry
    /// points, analyse the control flow, and store the region under the
    /// current generation. Nothing changes when no block is found.
    /// The top page of the address space is excluded: its end overflows.
    pub fn compile_region<B: Bus>(&mut self, bus: &mut B, page: Page)
        requires
            old(self).wf(),
            old(bus).inv(),
            page.0 < 0xF_FFFF,
        ensures
            final(self).wf(),
            final(bus).inv(),
            old(self).fresh() ==> final(self).fresh(),
            final(self).stats() == old(self).stats(),
            final(self).generation() == old(self).generation(),
            final(self).threshold() == old(self).threshold(),
            final(self).counters().1 == old(self).counters().1,
            final(self).counters().2 == old(self).counters().2,
            final(self).regions() == old(self).regions() && final(self).counters().0 == old(self).counters().0
            || ({
                let reg = final(self).regions()[page.0];
                let base = page.0 * 0x1000;
                &&& final(self).regions().dom() == old(self).regions().dom().insert(page.0)
                &&& forall|q: u32| q != page.0 && #[trigger] old(self).regions().contains_key(q)
                    ==> final(self).regions()[q] == old(self).regions()[q]
                &&& final(self).counters().0 == old(self).counters().0.wrapping_add(1)
                &&& final(self).region_live(page.0)
                &&& reg.blocks@.len() > 0
                &&& (old(self).stats().contains_key(page.0) ==> reg.entry_points@.to_set()
                    == entry_addrs(base as u32, entries_in(old(self).stats(), page.0)))
                &&& (!old(self).stats().contains_key(page.0) ==> reg.entry_points@ == seq![base as u32])
                &&& forall|k: u32| #[trigger] reg.blocks@.contains_key(k) ==> block_ok(page, k, reg.blocks@[k], reg.entry_points@)
                &&& forall|i: int| 0 <= i < reg.entry_points@.len() && in_page(page, #[trigger] reg.entry_points@[i])
                    && reg.entry_points@[i] + 4 * (MAX_BLOCK_SIZE - 1) < base + 0x1000
                    ==> reg.blocks@.contains_key(reg.entry_points@[i])
                &&& (reg.entry_points@.len() > 1 ==> reg.structure@.len() > 0
                    && (reg.structure@[0] matches ControlFlowStructure::Dispatcher(v) && v@ == reg.entry_points@))
            }),
            (exists|e: u32| #[trigger] old(self).compile_entries(page).contains(e) && in_page(page, e)
                && e + 4 * (MAX_BLOCK_SIZE - 1) < page.0 * 0x1000 + 0x1000)
                ==> final(self).regions().contains_key(page.0) && final(self).region_live(page.0),
    {
        let entry_points = self.entry_points_of(page);
        proof {
            crate::bits::lemma_u32_shift_mask();
        }
        let blocks = discover_basic_blocks(bus, page, entry_points.as_slice());
        proof {
            if exists|e: u32| #[trigger] old(self).compile_entries(page).contains(e) && in_page(page, e)
                && e + 4 * (MAX_BLOCK_SIZE - 1) < page.0 * 0x1000 + 0x1000 {
                let e = choose|e: u32| #[trigger] old(self).compile_entries(page).contains(e) && in_page(page, e)
                    && e + 4 * (MAX_BLOCK_SIZE - 1) < page.0 * 0x1000 + 0x1000;
                if !old(self).stats().contains_key(page.0) {
                    assert(entry_points@[0] == e);
                } else {
                    assert(entry_points@.to_set().contains(e));
                }
                let i = choose|i: int| 0 <= i < entry_points@.len() && entry_points@[i] == e;
                assert(blocks@.contains_key(entry_points@[i]));
                assert(blocks@.dom().contains(e));
                assert(blocks@.len() > 0) by {
                    vstd::set_lib::lemma_set_empty_equivalency_len(blocks@.dom());
                }
            }
        }
        if blocks.len() == 0 {
            return;
        }
        let mut blocks_vec: Vec<BasicBlock> = Vec::new();
        for b in it: blocks.values()
            invariant
                blocks_vec@.len() == it.index(),
        {
            blocks_vec.push(copy_block(b));
        }
        let cfg = build_cfg(blocks_vec.as_slice());
        let sccs = find_sccs(&cfg);
        let structure = structure_sccs(&cfg, sccs.as_slice(), entry_points.as_slice());
        let region = CompiledRegion { blocks, structure, entry_points, generation: self.generation };
        self.regions.insert(page.0, region);
        self.compiles = self.compiles.wrapping_add(1);
    }

    /// Invalidate all compiled regions by moving to the next generation
    /// (skipping zero when the counter wraps).
    pub fn invalidate_all(&mut self)
        requires
            old(self).wf(),
        ensures
            final(self).wf(),
            final(self).generation() == (if old(self).generation() == u32::MAX { 1 } else { (old(self).generation() + 1) as u32 }),
            old(self).fresh() && old(self).generation() < u32::MAX ==> final(self).fresh()
                && forall|p: u32| !#[trigger] final(self).region_live(p),
            final(self).stats() == old(self).stats(),
            final(self).regions() == old(self).regions(),
            final(self).threshold() == old(self).threshold(),
            final(self).counters().0 == old(self).counters().0,
            final(self).counters().1 == old(self).counters().1,
            final(self).counters().2 == old(self).counters().2,
    {
        self.generation = self.generation.wrapping_add(1);
        if self.generation == 0 {
            self.generation = 1;
        }
    }

    /// Forget the region and the statistics of `page`.
    pub fn invalidate_page(&mut self, page: Page)
        requires
            old(self).wf(),
        ensures
            final(self).wf(),
            old(self).fresh() ==> final(self).fresh(),
            final(self).regions() == old(self).regions().remove(page.0),
            final(self).stats() == old(self).stats().remove(page.0),
            !final(self).region_live(page.0),
            final(self).generation() == old(self).generation(),
            final(self).threshold() == old(self).threshold(),
            final(self).counters().0 == old(self).counters().0,
            final(self).counters().1 == old(self).counters().1,
            final(self).counters().2 == old(self).counters().2,
    {
        self.regions.remove(&page.0);
        self.page_stats.remove(&page.0);
    }

    /// Reset the JIT state (the threshold is kept).
    pub fn reset(&mut self)
        ensures
            final(self).wf(),
            final(self).fresh(),
            final(self).stats() == Map::<u32, PageStats>::empty(),
            final(self).regions() == Map::<u32, CompiledRegion>::empty(),
            final(self).generation() == 1,
            final(self).threshold() == old(self).threshold(),
            final(self).counters().0 == 0,
            final(self).counters().1 == 0,
            final(self).counters().2 == 0,
    {
        self.page_stats.clear();
        self.regions.clear();
        self.generation = 1;
        self.compiles = 0;
        self.region_hits = 0;
        self.region_misses = 0;
    }
}

impl Default for JitState {
    fn default() -> (s: JitState)
        ensures
            s.wf(),
            s.fresh(),
            s.stats() == Map::<u32, PageStats>::empty(),
            s.regions() == Map::<u32, CompiledRegion>::empty(),
            s.generation() == 1,
            s.threshold() == JIT_THRESHOLD,
    {
        JitState::new()
    }
}

/// The elements of a set of offsets, each once.
fn offsets_vec(s: &HashSet<u16>) -> (v: Vec<u16>)
    ensures
        v@.to_set() == s@,
{
    let mut v: Vec<u16> = Vec::new();
    for x in it: s.iter()
        invariant
            it.seq().unref().to_set() == s@,
            v@ == it.seq().unref().take(it.index() as int),
            it.index() == it.seq().len() ==> v@.to_set() == s@,
    {
        v.push(*x);
        assert(v@ =~= it.seq().unref().take(it.index() + 1));
        assert(it.index() + 1 == it.seq().len() ==> v@ =~= it.seq().unref());
    }
    v
}

/// A field-by-field copy of a block.
fn copy_block(b: &BasicBlock) -> (r: BasicBlock)
    ensures
        r.addr == b.addr,
        r.end_addr == b.end_addr,
        r.instructions@ == b.instructions@,
        r.ty == b.ty,
        r.is_entry_point == b.is_entry_point,
{
    let mut instructions: Vec<CachedInst> = Vec::new();
    let mut i: usize = 0;
    while i < b.instructions.len()
        invariant
            i <= b.instructions@.len(),
            instructions@ == b.instructions@.take(i as int),
        decreases b.instructions@.len() - i,
    {
        instructions.push(b.instructions[i]);
        assert(instructions@ =~= b.instructions@.take(i + 1));
        i = i + 1;
    }
    assert(instructions@ =~= b.instructions@);
    BasicBlock { addr: b.addr, end_addr: b.end_addr, instructions, ty: b.ty, is_entry_point: b.is_entry_point }
}

} // verus!
