//! Basic block caching for the 64-bit core: decoded instruction sequences
//! (compressed or full) that run together, by physical address.

use vstd::prelude::*;
use std::collections::HashMap;
use crate::memory::Bus;
use crate::cpu::decode::{OP_BRANCH, OP_JAL, OP_JALR, OP_SYSTEM, OP_MISC_MEM};
use super::Cpu64;
use super::decode::{decodes64, DecodedInst};
use super::execute_c::{expand_compressed, spec_expand_compressed};
use super::trap::Trap64;

verus! {

broadcast use vstd::std_specs::hash::group_hash_axioms;

/// Maximum instructions per block.
pub const MAX_BLOCK_INSTS: usize = 64;

/// Result of executing a compiled block.
pub enum BlockResult {
    /// Continue execution at the given pc.
    Continue(u64),
    /// A trap occurred during execution.
    Trap(Trap64),
    /// The block must be run by the interpreter.
    Interpret,
}

/// A cached instruction: a compressed halfword, or a full word with its fields.
pub enum CachedInst64 {
    Compressed(u16),
    Full { raw: u32, decoded: DecodedInst },
}

/// A compiled basic block.
pub struct CompiledBlock {
    /// Start physical address of the block.
    pub start_paddr: u64,
    /// Number of instructions in the block.
    pub inst_count: u32,
    /// The cached instructions.
    pub instructions: Vec<CachedInst64>,
    /// Generation counter for invalidation.
    pub generation: u32,
}

/// Block cache: compiled blocks by physical address.
pub struct BlockCache {
    blocks: HashMap<u64, CompiledBlock>,
    generation: u32,
    /// Lookups that found a current block.
    pub hits: u64,
    /// Lookups that found none.
    pub misses: u64,
    /// Blocks compiled.
    pub compiles: u64,
}

/// Does an instruction with these fields end a block: a branch, jump,
/// system instruction or FENCE.I?
pub open spec fn ends_block(opcode: u32, funct3: u32) -> bool {
    opcode == OP_BRANCH || opcode == OP_JAL || opcode == OP_JALR || opcode == OP_SYSTEM
        || (opcode == OP_MISC_MEM && funct3 == 1)
}

/// Does a cached instruction end a block? A compressed one ends it when its
/// expansion does, or when it has none.
pub open spec fn cached_ends_block(c: CachedInst64) -> bool {
    match c {
        CachedInst64::Compressed(h) => match spec_expand_compressed(h) {
            Some(e) => ends_block(e & 0x7f, (e >> 12u32) & 0x7),
            None => true,
        },
        CachedInst64::Full { decoded, .. } => ends_block(decoded.opcode, decoded.funct3),
    }
}

/// A cached instruction is read as it was found: a compressed halfword has
/// low bits other than 0b11, a full word has its fields decoded.
pub open spec fn cached_ok(c: CachedInst64) -> bool {
    match c {
        CachedInst64::Compressed(h) => h & 0b11 != 0b11,
        CachedInst64::Full { raw, decoded } => decodes64(decoded, raw),
    }
}

/// The bytes a cached instruction takes.
pub open spec fn inst_size(c: CachedInst64) -> nat {
    match c {
        CachedInst64::Compressed(_) => 2,
        CachedInst64::Full { .. } => 4,
    }
}

/// The bytes a sequence of cached instructions takes.
pub open spec fn span64(s: Seq<CachedInst64>) -> nat
    decreases s.len(),
{
    if s.len() == 0 { 0 } else { span64(s.drop_last()) + inst_size(s.last()) }
}

/// A block scanned from `start`: at most 64 instructions read in sequence,
/// none but the last ending a block; the scan stopped at an instruction that
/// ends a block, at the size limit, or at the end of the 32-bit bus.
pub open spec fn scanned_block64(b: CompiledBlock, start: u64, generation: u32) -> bool {
    let s = b.instructions@;
    let n = s.len();
    &&& b.start_paddr == start
    &&& b.generation == generation
    &&& n <= MAX_BLOCK_INSTS
    &&& b.inst_count == n
    &&& forall|i: int| 0 <= i < n ==> cached_ok(#[trigger] s[i])
    &&& forall|i: int| 0 <= i < n - 1 ==> !cached_ends_block(#[trigger] s[i])
    &&& (n == 0 ==> start > u32::MAX)
    &&& (n > 0 ==> cached_ends_block(s[n - 1]) || n == MAX_BLOCK_INSTS || start + span64(s) > u32::MAX)
}

impl BlockCache {
    /// Blocks by start address.
    pub closed spec fn blocks(&self) -> Map<u64, CompiledBlock> {
        self.blocks@
    }

    /// The current generation; blocks of another generation are stale.
    pub closed spec fn generation(&self) -> u32 {
        self.generation
    }

    /// The counters: hits, misses, compiles.
    pub closed spec fn counters(&self) -> (u64, u64, u64) {
        (self.hits, self.misses, self.compiles)
    }

    /// A lookup of `paddr` finds a current block.
    pub open spec fn live(&self, paddr: u64) -> bool {
        self.blocks().contains_key(paddr) && self.blocks()[paddr].generation == self.generation()
    }

    pub fn new() -> (c: BlockCache)
        ensures
            c.blocks() == Map::<u64, CompiledBlock>::empty(),
            c.generation() == 1,
            c.counters() == (0u64, 0u64, 0u64),
    {
        BlockCache { blocks: HashMap::with_capacity(4096), generation: 1, hits: 0, misses: 0, compiles: 0 }
    }

    /// The current block at `paddr`, if any; counts the hit or miss.
    pub fn get(&mut self, paddr: u64) -> (r: Option<&CompiledBlock>)
        ensures
            match r {
                Some(b) => old(self).live(paddr) && *b == old(self).blocks()[paddr],
                None => !old(self).live(paddr),
            },
            final(self).counters() == (if old(self).live(paddr) {
                (old(self).counters().0.wrapping_add(1), old(self).counters().1, old(self).counters().2)
            } else {
                (old(self).counters().0, old(self).counters().1.wrapping_add(1), old(self).counters().2)
            }),
            final(self).blocks() == old(self).blocks(),
            final(self).generation() == old(self).generation(),
    {
        let live = match self.blocks.get(&paddr) {
            Some(b) => b.generation == self.generation,
            None => false,
        };
        if live {
            self.hits = self.hits.wrapping_add(1);
            self.blocks.get(&paddr)
        } else {
            self.misses = self.misses.wrapping_add(1);
            None
        }
    }

    /// The current block at `paddr`, if any, without counting.
    pub fn get_block(&self, paddr: u64) -> (r: Option<&CompiledBlock>)
        ensures
            match r {
                Some(b) => self.live(paddr) && *b == self.blocks()[paddr],
                None => !self.live(paddr),
            },
    {
        match self.blocks.get(&paddr) {
            Some(b) => {
                if b.generation == self.generation {
                    Some(b)
                } else {
                    None
                }
            },
            None => None,
        }
    }

    /// Compile the basic block at `start_paddr`: read halfwords and words in
    /// sequence until an instruction ends the block, 64 were read, or the
    /// address leaves the 32-bit bus; store it under the current generation.
    pub fn compile_block<B: Bus>(&mut self, bus: &mut B, start_paddr: u64) -> (r: &CompiledBlock)
        requires
            old(bus).inv(),
        ensures
            final(bus).inv(),
            scanned_block64(*r, start_paddr, old(self).generation()),
            final(self).blocks().dom() == old(self).blocks().dom().insert(start_paddr),
            final(self).blocks()[start_paddr] == *r,
            forall|k: u64| k != start_paddr && #[trigger] old(self).blocks().contains_key(k)
                ==> final(self).blocks()[k] == old(self).blocks()[k],
            final(self).live(start_paddr),
            final(self).generation() == old(self).generation(),
            final(self).counters() == (old(self).counters().0, old(self).counters().1, old(self).counters().2.wrapping_add(1)),
    {
        let mut instructions: Vec<CachedInst64> = Vec::new();
        let mut paddr = start_paddr;
        loop
            invariant_except_break
                instructions@.len() < MAX_BLOCK_INSTS,
                forall|i: int| 0 <= i < instructions@.len() ==> !cached_ends_block(#[trigger] instructions@[i]),
                paddr == start_paddr + span64(instructions@),
                instructions@.len() > 0 ==> paddr <= u32::MAX + 4,
            invariant
                bus.inv(),
                forall|i: int| 0 <= i < instructions@.len() ==> cached_ok(#[trigger] instructions@[i]),
            ensures
                bus.inv(),
                instructions@.len() <= MAX_BLOCK_INSTS,
                forall|i: int| 0 <= i < instructions@.len() ==> cached_ok(#[trigger] instructions@[i]),
                forall|i: int| 0 <= i < instructions@.len() - 1 ==> !cached_ends_block(#[trigger] instructions@[i]),
                instructions@.len() == 0 ==> start_paddr > u32::MAX,
                instructions@.len() > 0 ==> cached_ends_block(instructions@[instructions@.len() - 1])
                    || instructions@.len() == MAX_BLOCK_INSTS || start_paddr + span64(instructions@) > u32::MAX,
            decreases MAX_BLOCK_INSTS - instructions@.len(),
        {
            let addr = match map_paddr(paddr) {
                Some(a) => a,
                None => {
                    break;
                },
            };
            let ghost before = instructions@;
            let inst16 = bus.read16(addr);
            if (inst16 & 0b11) != 0b11 {
                let terminator = match expand_compressed(inst16) {
                    Some(expanded) => {
                        let d = DecodedInst::decode(expanded);
                        is_block_terminator_decoded(&d)
                    },
                    None => true,
                };
                instructions.push(CachedInst64::Compressed(inst16));
                assert(instructions@.drop_last() =~= before);
                paddr = paddr + 2;
                if terminator || instructions.len() >= MAX_BLOCK_INSTS {
                    break;
                }
                continue;
            }
            let inst = bus.read32(addr);
            let decoded = DecodedInst::decode(inst);
            let terminator = is_block_terminator_decoded(&decoded);
            proof {
                crate::bits::lemma_u32_shift_mask();
            }
            instructions.push(CachedInst64::Full { raw: inst, decoded });
            assert(instructions@.drop_last() =~= before);
            paddr = paddr + 4;
            if terminator || instructions.len() >= MAX_BLOCK_INSTS {
                break;
            }
        }
        let n = instructions.len() as u32;
        let block = CompiledBlock { start_paddr, inst_count: n, instructions, generation: self.generation };
        self.blocks.insert(start_paddr, block);
        self.compiles = self.compiles.wrapping_add(1);
        self.blocks.get(&start_paddr).unwrap()
    }

    /// Invalidate all blocks by moving to the next generation (wrapping).
    pub fn invalidate_all(&mut self)
        ensures
            final(self).generation() == old(self).generation().wrapping_add(1),
            final(self).blocks() == old(self).blocks(),
            final(self).counters() == old(self).counters(),
    {
        self.generation = self.generation.wrapping_add(1);
    }

    /// Reset the cache.
    pub fn reset(&mut self)
        ensures
            final(self).blocks() == Map::<u64, CompiledBlock>::empty(),
            final(self).generation() == 1,
            final(self).counters() == (0u64, 0u64, 0u64),
    {
        self.blocks.clear();
        self.generation = 1;
        self.hits = 0;
        self.misses = 0;
        self.compiles = 0;
    }
}

impl Default for BlockCache {
    fn default() -> (c: BlockCache)
        ensures
            c.blocks() == Map::<u64, CompiledBlock>::empty(),
            c.generation() == 1,
            c.counters() == (0u64, 0u64, 0u64),
    {
        BlockCache::new()
    }
}

/// Execute a compiled block instruction by instruction (compressed ones in
/// their compressed form); stops at the first trap. It never asks for the
/// interpreter: the result is the trap, or `Continue` with the pc the CPU
/// stopped at.
pub fn execute_block<B: Bus>(cpu: &mut Cpu64, block: &CompiledBlock, bus: &mut B) -> (r: BlockResult)
    requires
        old(cpu).wf(),
        old(bus).inv(),
    ensures
        final(cpu).wf(),
        final(bus).inv(),
        !(r is Interpret),
        r matches BlockResult::Continue(pc) ==> pc == final(cpu).pc,
{
    let mut i: usize = 0;
    while i < block.instructions.len()
        invariant
            cpu.wf(),
            bus.inv(),
            i <= block.instructions@.len(),
        decreases block.instructions@.len() - i,
    {
        let result = match &block.instructions[i] {
            CachedInst64::Compressed(raw) => cpu.execute_compressed(*raw, bus),
            CachedInst64::Full { raw, .. } => cpu.execute(*raw, bus),
        };
        match result {
            Ok(()) => {},
            Err(trap) => {
                return BlockResult::Trap(trap);
            },
        }
        i = i + 1;
    }
    BlockResult::Continue(cpu.pc)
}

/// A physical address on the 32-bit bus, if it is one.
fn map_paddr(paddr: u64) -> (r: Option<u32>)
    ensures
        r == (if paddr > u32::MAX { None } else { Some(paddr as u32) }),
{
    if paddr > 0xFFFF_FFFF {
        None
    } else {
        Some(paddr as u32)
    }
}

/// Does a decoded instruction end a block?
fn is_block_terminator_decoded(d: &DecodedInst) -> (r: bool)
    ensures
        r == ends_block(d.opcode, d.funct3),
{
    if d.opcode == OP_BRANCH || d.opcode == OP_JAL || d.opcode == OP_JALR || d.opcode == OP_SYSTEM {
        return true;
    }
    d.opcode == OP_MISC_MEM && d.funct3 == 0b001
}

} // verus!
