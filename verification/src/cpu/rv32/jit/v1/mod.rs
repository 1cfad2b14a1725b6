//! Basic block caching: decoded instruction sequences that run together,
//! looked up by physical address and invalidated by generation.

use vstd::prelude::*;
use std::collections::HashMap;
use crate::cpu::fpu::FloatArith;
use crate::cpu::rv32::Cpu;
use crate::cpu::rv32::icache::{spec_cached_decode, CachedInst};
use crate::cpu::trap::Trap;
use crate::memory::Bus;

pub use super::v2::discovery::is_block_terminator;
use super::v2::discovery::{spec_is_block_terminator, MAX_BLOCK_SIZE};

pub mod codegen;

verus! {

broadcast use vstd::std_specs::hash::group_hash_axioms;

/// Result of executing a compiled block.
pub enum BlockResult {
    /// Continue execution at the given pc.
    Continue(u32),
    /// A trap occurred during execution.
    Trap(Trap),
    /// The block must be run by the interpreter.
    Interpret,
}

/// A compiled basic block.
pub struct CompiledBlock {
    /// Start physical address of the block.
    pub start_paddr: u32,
    /// Number of instructions in the block.
    pub inst_count: u32,
    /// The decoded instructions.
    pub instructions: Vec<CachedInst>,
    /// Generation counter for invalidation.
    pub generation: u32,
}

/// Block cache: compiled blocks by physical address.
pub struct BlockCache {
    blocks: HashMap<u32, CompiledBlock>,
    generation: u32,
    /// Lookups that found a current block.
    pub hits: u64,
    /// Lookups that found none.
    pub misses: u64,
    /// Blocks compiled.
    pub compiles: u64,
}

/// A block scanned from `start`: one to 64 decoded instructions from
/// consecutive words, none but the last ending a block, and the last one
/// ending it unless the size limit was reached.
pub open spec fn scanned_block(b: CompiledBlock, start: u32, generation: u32) -> bool {
    let n = b.instructions@.len();
    &&& b.start_paddr == start
    &&& b.generation == generation
    &&& 1 <= n <= MAX_BLOCK_SIZE
    &&& b.inst_count == n
    &&& forall|i: int| 0 <= i < n ==> #[trigger] b.instructions@[i] == spec_cached_decode(b.instructions@[i].raw)
    &&& forall|i: int| 0 <= i < n - 1 ==> !spec_is_block_terminator(#[trigger] b.instructions@[i].opcode)
    &&& spec_is_block_terminator(b.instructions@[n - 1].opcode) || n == MAX_BLOCK_SIZE
}

impl BlockCache {
    /// Blocks by start address.
    pub closed spec fn blocks(&self) -> Map<u32, CompiledBlock> {
        self.blocks@
    }

    /// The current generation; blocks of another generation are stale.
    pub closed spec fn generation(&self) -> u32 {
        self.generation
    }

    /// The counters: hits, misses, compiles.
    pub closed spec fn counters(&self) -> (u64, u64, u64) {
        (self.hits, self.misses, self.compiles)
    }

    /// A lookup of `paddr` finds a current block.
    pub open spec fn live(&self, paddr: u32) -> bool {
        self.blocks().contains_key(paddr) && self.blocks()[paddr].generation == self.generation()
    }

    pub fn new() -> (c: BlockCache)
        ensures
            c.blocks() == Map::<u32, CompiledBlock>::empty(),
            c.generation() == 1,
            c.counters() == (0u64, 0u64, 0u64),
    {
        BlockCache { blocks: HashMap::with_capacity(4096), generation: 1, hits: 0, misses: 0, compiles: 0 }
    }

    /// The current block at `paddr`, if any; counts the hit or miss.
    pub fn get(&mut self, paddr: u32) -> (r: Option<&CompiledBlock>)
        ensures
            match r {
                Some(b) => old(self).live(paddr) && *b == old(self).blocks()[paddr],
                None => !old(self).live(paddr),
            },
            final(self).counters() == (if old(self).live(paddr) {
                (old(self).counters().0.wrapping_add(1), old(self).counters().1, old(self).counters().2)
            } else {
                (old(self).counters().0, old(self).counters().1.wrapping_add(1), old(self).counters().2)
            }),
            final(self).blocks() == old(self).blocks(),
            final(self).generation() == old(self).generation(),
    {
        let live = match self.blocks.get(&paddr) {
            Some(b) => b.generation == self.generation,
            None => false,
        };
        if live {
            self.hits = self.hits.wrapping_add(1);
            self.blocks.get(&paddr)
        } else {
            self.misses = self.misses.wrapping_add(1);
            None
        }
    }

    /// The current block at `paddr`, if any, without counting.
    pub fn get_block(&self, paddr: u32) -> (r: Option<&CompiledBlock>)
        ensures
            match r {
                Some(b) => self.live(paddr) && *b == self.blocks()[paddr],
                None => !self.live(paddr),
            },
    {
        match self.blocks.get(&paddr) {
            Some(b) => {
                if b.generation == self.generation {
                    Some(b)
                } else {
                    None
                }
            },
            None => None,
        }
    }

    /// Compile the basic block at `start_paddr`: read and decode words until
    /// an instruction ends the block or 64 were read (addresses wrap at
    /// 2^32), and store it under the current generation.
    pub fn compile_block<B: Bus>(&mut self, bus: &mut B, start_paddr: u32) -> (r: &CompiledBlock)
        requires
            old(bus).inv(),
        ensures
            final(bus).inv(),
            scanned_block(*r, start_paddr, old(self).generation()),
            final(self).blocks().dom() == old(self).blocks().dom().insert(start_paddr),
            final(self).blocks()[start_paddr] == *r,
            forall|k: u32| k != start_paddr && #[trigger] old(self).blocks().contains_key(k)
                ==> final(self).blocks()[k] == old(self).blocks()[k],
            final(self).live(start_paddr),
            final(self).generation() == old(self).generation(),
            final(self).counters() == (old(self).counters().0, old(self).counters().1, old(self).counters().2.wrapping_add(1)),
    {
        let mut instructions: Vec<CachedInst> = Vec::new();
        let mut paddr = start_paddr;
        loop
            invariant_except_break
                instructions@.len() < MAX_BLOCK_SIZE,
                forall|i: int| 0 <= i < instructions@.len()
                    ==> !spec_is_block_terminator(#[trigger] instructions@[i].opcode),
            invariant
                bus.inv(),
                forall|i: int| 0 <= i < instructions@.len()
                    ==> #[trigger] instructions@[i] == spec_cached_decode(instructions@[i].raw),
            ensures
                bus.inv(),
                1 <= instructions@.len() <= MAX_BLOCK_SIZE,
                forall|i: int| 0 <= i < instructions@.len()
                    ==> #[trigger] instructions@[i] == spec_cached_decode(instructions@[i].raw),
                forall|i: int| 0 <= i < instructions@.len() - 1
                    ==> !spec_is_block_terminator(#[trigger] instructions@[i].opcode),
                spec_is_block_terminator(instructions@[instructions@.len() - 1].opcode)
                    || instructions@.len() == MAX_BLOCK_SIZE,
            decreases MAX_BLOCK_SIZE - instructions@.len(),
        {
            let inst = bus.read32(paddr);
            let cached = CachedInst::decode(inst);
            instructions.push(cached);
            if is_block_terminator(cached.opcode) {
                break;
            }
            paddr = paddr.wrapping_add(4);
            if instructions.len() >= MAX_BLOCK_SIZE {
                break;
            }
        }
        let n = instructions.len() as u32;
        let block = CompiledBlock { start_paddr, inst_count: n, instructions, generation: self.generation };
        self.blocks.insert(start_paddr, block);
        self.compiles = self.compiles.wrapping_add(1);
        self.blocks.get(&start_paddr).unwrap()
    }

    /// Invalidate all blocks by moving to the next generation (wrapping).
    pub fn invalidate_all(&mut self)
        ensures
            final(self).generation() == old(self).generation().wrapping_add(1),
            final(self).blocks() == old(self).blocks(),
            final(self).counters() == old(self).counters(),
    {
        self.generation = self.generation.wrapping_add(1);
    }

    /// Drop the current blocks that start in the page of `page_addr`.
    pub fn invalidate_page(&mut self, page_addr: u32)
        ensures
            forall|k: u32| #[trigger] final(self).blocks().contains_key(k) <==> old(self).blocks().contains_key(k)
                && !(old(self).live(k) && k / 0x1000 == page_addr / 0x1000),
            forall|k: u32| #[trigger] final(self).blocks().contains_key(k) ==> final(self).blocks()[k] == old(self).blocks()[k],
            final(self).generation() == old(self).generation(),
            final(self).counters() == old(self).counters(),
    {
        let page = page_addr / 0x1000;
        let mut keys: Vec<u32> = Vec::new();
        for k in it: self.blocks.keys()
            invariant
                it.seq().unref().to_set() == self.blocks@.dom(),
                it.seq().unref().no_duplicates(),
                keys@ == it.seq().unref().take(it.index() as int),
                it.index() == it.seq().len() ==> keys@.to_set() == self.blocks@.dom() && keys@.no_duplicates(),
        {
            keys.push(*k);
            assert(keys@ =~= it.seq().unref().take(it.index() + 1));
            assert(it.index() + 1 == it.seq().len() ==> keys@ =~= it.seq().unref());
        }
        let ghost before = self.blocks@;
        let mut i: usize = 0;
        while i < keys.len()
            invariant
                i <= keys@.len(),
                keys@.to_set() == before.dom(),
                keys@.no_duplicates(),
                self.generation == old(self).generation,
                self.hits == old(self).hits,
                self.misses == old(self).misses,
                self.compiles == old(self).compiles,
                before == old(self).blocks@,
                forall|k: u32| #[trigger] self.blocks@.contains_key(k) ==> before.contains_key(k) && self.blocks@[k] == before[k],
                forall|j: int| 0 <= j < i ==> (#[trigger] self.blocks@.contains_key(keys@[j])
                    <==> !(before[keys@[j]].generation == self.generation && keys@[j] / 0x1000 == page)),
                forall|j: int| i <= j < keys@.len() ==> #[trigger] self.blocks@.contains_key(keys@[j]),
            decreases keys@.len() - i,
        {
            let k = keys[i];
            assert(keys@.to_set().contains(k));
            let drop = match self.blocks.get(&k) {
                Some(b) => b.generation == self.generation && k / 0x1000 == page,
                None => false,
            };
            if drop {
                self.blocks.remove(&k);
            }
            assert forall|j: int| 0 <= j < keys@.len() && j != i implies keys@[j] != k by {}
            i = i + 1;
        }
        proof {
            assert forall|k: u32| #[trigger] self.blocks@.contains_key(k) <==> old(self).blocks@.contains_key(k)
                && !(old(self).live(k) && k / 0x1000 == page_addr / 0x1000) by {
                if before.contains_key(k) {
                    assert(keys@.to_set().contains(k));
                    let j = choose|j: int| 0 <= j < keys@.len() && keys@[j] == k;
                    assert(self.blocks@.contains_key(keys@[j]) <==> !(before[keys@[j]].generation == self.generation
                        && keys@[j] / 0x1000 == page));
                }
            }
        }
    }

    /// Reset the cache.
    pub fn reset(&mut self)
        ensures
            final(self).blocks() == Map::<u32, CompiledBlock>::empty(),
            final(self).generation() == 1,
            final(self).counters() == (0u64, 0u64, 0u64),
    {
        self.blocks.clear();
        self.generation = 1;
        self.hits = 0;
        self.misses = 0;
        self.compiles = 0;
    }
}

impl Default for BlockCache {
    fn default() -> (c: BlockCache)
        ensures
            c.blocks() == Map::<u32, CompiledBlock>::empty(),
            c.generation() == 1,
            c.counters() == (0u64, 0u64, 0u64),
    {
        BlockCache::new()
    }
}

/// Execute a compiled block through the interpreter, instruction by
/// instruction; stops at the first trap. It never asks for the interpreter:
/// the result is the trap, or `Continue` with the pc the CPU stopped at.
pub fn execute_block<B: Bus, F: FloatArith>(cpu: &mut Cpu, block: &CompiledBlock, bus: &mut B, fpa: &F) -> (r: BlockResult)
    requires
        old(cpu).wf(),
        old(bus).inv(),
    ensures
        final(cpu).wf(),
        final(bus).inv(),
        !(r is Interpret),
        r matches BlockResult::Continue(pc) ==> pc == final(cpu).pc,
{
    let mut i: usize = 0;
    while i < block.instructions.len()
        invariant
            cpu.wf(),
            bus.inv(),
            i <= block.instructions@.len(),
        decreases block.instructions@.len() - i,
    {
        let cached = block.instructions[i];
        match cpu.execute_cached(cached.raw, &cached, bus, fpa) {
            Ok(()) => {},
            Err(trap) => {
                return BlockResult::Trap(trap);
            },
        }
        i = i + 1;
    }
    BlockResult::Continue(cpu.pc)
}

} // verus!
