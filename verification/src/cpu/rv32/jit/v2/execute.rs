//! Region execution: running the blocks of a compiled region along its
//! structured control flow.

use vstd::prelude::*;
use std::collections::HashMap;
use super::types::{blocks_of, BasicBlock, BasicBlockType, CompiledRegion, ControlFlowStructure, Page, RegionResult};
use crate::cpu::fpu::FloatArith;
use crate::cpu::rv32::Cpu;
use crate::cpu::rv32::icache::CachedInst;
use crate::cpu::rv32::execute::{is_int_opcode, inst_opcode, spec_int_step};
use crate::cpu::trap::Trap;
use crate::memory::Bus;

verus! {

broadcast use vstd::std_specs::hash::group_hash_axioms;

/// Maximum loop iterations before forcing an exit (bounds the time spent in a region).
pub const MAX_LOOP_ITERATIONS: u32 = 10000;

/// The branch condition of a block, if any, names existing registers.
pub open spec fn block_conds_wf(b: BasicBlock) -> bool {
    match b.ty {
        BasicBlockType::Branch { condition, .. } => condition.wf(),
        _ => true,
    }
}

/// Every block of `blocks` has a well-formed branch condition.
pub open spec fn blocks_wf(blocks: Map<u32, BasicBlock>) -> bool {
    forall|k: u32| #[trigger] blocks.contains_key(k) ==> block_conds_wf(blocks[k])
}

/// `a` when present, else `pc`.
pub open spec fn or_pc(a: Option<u32>, pc: u32) -> u32 {
    match a {
        Some(x) => x,
        None => pc,
    }
}

/// Where a block with end `ty` continues, given the registers and pc after
/// its instructions ran: its in-region successor, else the pc.
pub open spec fn next_pc_of(ty: BasicBlockType, regs: Seq<u32>, pc: u32) -> u32 {
    match ty {
        BasicBlockType::Fallthrough { next } => or_pc(next, pc),
        BasicBlockType::Jump { target, .. } => or_pc(target, pc),
        BasicBlockType::Branch { taken, not_taken, condition, .. } =>
            if condition.holds(regs) { or_pc(taken, pc) } else { or_pc(not_taken, pc) },
        _ => pc,
    }
}

/// A result that names a pc names the pc the CPU stopped at.
pub open spec fn result_at(r: RegionResult, pc: u32) -> bool {
    match r {
        RegionResult::Continue(x) => x == pc,
        RegionResult::Exit(x) => x == pc,
        RegionResult::Trap(_) => true,
    }
}

/// The pc and registers after running `insts` from `pc` and `regs`, when
/// every one of them is an integer instruction that completes.
pub open spec fn int_run(pc: u32, regs: Seq<u32>, insts: Seq<CachedInst>) -> Option<(u32, Seq<u32>)>
    decreases insts.len(),
{
    if insts.len() == 0 {
        Some((pc, regs))
    } else {
        match int_run(pc, regs, insts.drop_last()) {
            Some(st) => if is_int_opcode(inst_opcode(insts.last().raw)) {
                spec_int_step(st.0, st.1, insts.last().raw)
            } else {
                None
            },
            None => None,
        }
    }
}

/// Execute the instructions of a block and return the next pc. A block of
/// integer instructions that all complete runs exactly as they say.
fn execute_basic_block<B: Bus, F: FloatArith>(cpu: &mut Cpu, bus: &mut B, block: &BasicBlock, fpa: &F) -> (r: Result<u32, Trap>)
    requires
        old(cpu).wf(),
        old(bus).inv(),
        block_conds_wf(*block),
    ensures
        final(cpu).wf(),
        final(bus).inv(),
        r matches Ok(n) ==> n == next_pc_of(block.ty, final(cpu).regs@, final(cpu).pc),
        int_run(old(cpu).pc, old(cpu).regs@, block.instructions@) matches Some(st) ==> r is Ok
            && final(cpu).pc == st.0 && final(cpu).regs@ == st.1,
{
    let mut i: usize = 0;
    while i < block.instructions.len()
        invariant
            cpu.wf(),
            bus.inv(),
            i <= block.instructions@.len(),
            int_run(old(cpu).pc, old(cpu).regs@, block.instructions@.take(i as int)) matches Some(st)
                ==> cpu.pc == st.0 && cpu.regs@ == st.1,
            int_run(old(cpu).pc, old(cpu).regs@, block.instructions@) is Some
                ==> int_run(old(cpu).pc, old(cpu).regs@, block.instructions@.take(i as int)) is Some,
        decreases block.instructions@.len() - i,
    {
        let cached = block.instructions[i];
        proof {
            assert(block.instructions@.take(i + 1).drop_last() =~= block.instructions@.take(i as int));
            assert(block.instructions@.take(i + 1).last() == cached);
            if int_run(old(cpu).pc, old(cpu).regs@, block.instructions@) is Some {
                lemma_int_run_prefix(old(cpu).pc, old(cpu).regs@, block.instructions@, i + 1);
            }
        }
        cpu.execute_cached(cached.raw, &cached, bus, fpa)?;
        i = i + 1;
    }
    proof {
        assert(block.instructions@.take(i as int) =~= block.instructions@);
    }
    let pc = cpu.pc;
    match &block.ty {
        BasicBlockType::Fallthrough { next } => Ok(match next { Some(a) => *a, None => pc }),
        BasicBlockType::Jump { target, .. } => Ok(match target { Some(a) => *a, None => pc }),
        BasicBlockType::Branch { taken, not_taken, condition, .. } => {
            let take_branch = condition.evaluate(&cpu.regs);
            let target = if take_branch { *taken } else { *not_taken };
            Ok(match target { Some(a) => a, None => pc })
        },
        _ => Ok(pc),
    }
}

/// A run that completes completes on every prefix.
proof fn lemma_int_run_prefix(pc: u32, regs: Seq<u32>, insts: Seq<CachedInst>, k: int)
    requires
        0 <= k <= insts.len(),
        int_run(pc, regs, insts) is Some,
    ensures
        int_run(pc, regs, insts.take(k)) is Some,
    decreases insts.len() - k,
{
    if k < insts.len() {
        lemma_int_run_prefix(pc, regs, insts, k + 1);
        assert(insts.take(k + 1).drop_last() =~= insts.take(k));
    } else {
        assert(insts.take(k) =~= insts);
    }
}

/// Does `v` hold `x`?
fn vec_contains(v: &Vec<u32>, x: u32) -> (r: bool)
    ensures
        r == v@.contains(x),
{
    let mut i: usize = 0;
    while i < v.len()
        invariant
            i <= v@.len(),
            forall|j: int| 0 <= j < i ==> v@[j] != x,
        decreases v@.len() - i,
    {
        if v[i] == x {
            return true;
        }
        i = i + 1;
    }
    false
}

/// Does one of the structures in `inner` hold the block at `pc`?
fn in_structures(inner: &[ControlFlowStructure], pc: u32) -> (r: bool)
    ensures
        r == exists|j: int| 0 <= j < inner@.len() && #[trigger] blocks_of(inner@[j]).contains(pc),
{
    let mut j: usize = 0;
    while j < inner.len()
        invariant
            j <= inner@.len(),
            forall|k: int| 0 <= k < j ==> !#[trigger] blocks_of(inner@[k]).contains(pc),
        decreases inner@.len() - j,
    {
        let blocks = inner[j].all_blocks();
        if vec_contains(&blocks, pc) {
            return true;
        }
        j = j + 1;
    }
    false
}

/// Execute structured control flow: blocks in order, loops repeated while
/// the pc stays inside them (at most 10000 times), forward groups once.
/// Leaving the page or reaching an address with no block exits the region.
fn execute_structure<B: Bus, F: FloatArith>(
    cpu: &mut Cpu,
    bus: &mut B,
    structure: &[ControlFlowStructure],
    blocks: &HashMap<u32, BasicBlock>,
    page: Page,
    fpa: &F,
) -> (r: RegionResult)
    requires
        old(cpu).wf(),
        old(bus).inv(),
        blocks_wf(blocks@),
    ensures
        final(cpu).wf(),
        final(bus).inv(),
        result_at(r, final(cpu).pc),
        structure@.len() == 0 ==> r == RegionResult::Continue(old(cpu).pc) && *final(cpu) == *old(cpu),
        structure@.len() > 0 && (structure@[0] matches ControlFlowStructure::Dispatcher(v) && !v@.contains(old(cpu).pc))
            ==> r == RegionResult::Exit(old(cpu).pc) && *final(cpu) == *old(cpu),
        structure@.len() > 0 && (structure@[0] matches ControlFlowStructure::Block(a) && !blocks@.contains_key(a))
            ==> r == RegionResult::Exit(old(cpu).pc) && *final(cpu) == *old(cpu),
    decreases structure@,
{
    let mut i: usize = 0;
    while i < structure.len()
        invariant
            cpu.wf(),
            bus.inv(),
            blocks_wf(blocks@),
            i <= structure@.len(),
            i == 0 ==> *cpu == *old(cpu),
            structure@.len() > 0 && (structure@[0] matches ControlFlowStructure::Dispatcher(v) && !v@.contains(old(cpu).pc))
                ==> i == 0,
            structure@.len() > 0 && (structure@[0] matches ControlFlowStructure::Block(a) && !blocks@.contains_key(a))
                ==> i == 0,
        decreases structure@.len() - i,
    {
        let node = &structure[i];
        match node {
            ControlFlowStructure::Block(addr) => {
                match blocks.get(addr) {
                    Some(block) => {
                        match execute_basic_block(cpu, bus, block, fpa) {
                            Ok(next_pc) => {
                                cpu.pc = next_pc;
                                if !page.contains(next_pc) || !blocks.contains_key(&next_pc) {
                                    return RegionResult::Exit(next_pc);
                                }
                            },
                            Err(trap) => {
                                return RegionResult::Trap(trap);
                            },
                        }
                    },
                    None => {
                        return RegionResult::Exit(cpu.pc);
                    },
                }
            },
            ControlFlowStructure::Dispatcher(entries) => {
                let pc = cpu.pc;
                if !vec_contains(entries, pc) {
                    return RegionResult::Exit(pc);
                }
            },
            ControlFlowStructure::Loop(inner) => {
                let mut iterations: u32 = 0;
                assert(decreases_to!(structure@ => inner@));
                loop
                    invariant
                        decreases_to!(structure@ => inner@),
                        i < structure@.len(),
                        structure@[i as int] is Loop,
                        structure@.len() > 0 && (structure@[0] matches ControlFlowStructure::Dispatcher(v) && !v@.contains(old(cpu).pc))
                            ==> i == 0,
                        structure@.len() > 0 && (structure@[0] matches ControlFlowStructure::Block(a) && !blocks@.contains_key(a))
                            ==> i == 0,
                        cpu.wf(),
                        bus.inv(),
                        blocks_wf(blocks@),
                        iterations < MAX_LOOP_ITERATIONS,
                    decreases MAX_LOOP_ITERATIONS - iterations,
                {
                    match execute_structure(cpu, bus, inner.as_slice(), blocks, page, fpa) {
                        RegionResult::Continue(pc) => {
                            if !page.contains(pc) || !blocks.contains_key(&pc) {
                                return RegionResult::Exit(pc);
                            }
                            let in_loop = in_structures(inner.as_slice(), pc);
                            cpu.pc = pc;
                            if !in_loop {
                                break;
                            }
                        },
                        RegionResult::Trap(t) => {
                            return RegionResult::Trap(t);
                        },
                        RegionResult::Exit(pc) => {
                            return RegionResult::Exit(pc);
                        },
                    }
                    iterations = iterations + 1;
                    if iterations >= MAX_LOOP_ITERATIONS {
                        return RegionResult::Exit(cpu.pc);
                    }
                }
            },
            ControlFlowStructure::Forward(inner) => {
                assert(decreases_to!(structure@ => inner@));
                match execute_structure(cpu, bus, inner.as_slice(), blocks, page, fpa) {
                    RegionResult::Continue(pc) => {
                        cpu.pc = pc;
                    },
                    RegionResult::Trap(t) => {
                        return RegionResult::Trap(t);
                    },
                    RegionResult::Exit(pc) => {
                        return RegionResult::Exit(pc);
                    },
                }
            },
        }
        i = i + 1;
    }
    RegionResult::Continue(cpu.pc)
}

/// Execute a compiled region using its structured control flow. A region
/// without entry points, or a pc at no block of the region, exits at once
/// with the CPU unchanged. A result that names a pc names the pc the CPU
/// stopped at.
pub fn execute_region<B: Bus, F: FloatArith>(cpu: &mut Cpu, bus: &mut B, region: &CompiledRegion, fpa: &F) -> (r: RegionResult)
    requires
        old(cpu).wf(),
        old(bus).inv(),
        blocks_wf(region.blocks@),
    ensures
        final(cpu).wf(),
        final(bus).inv(),
        result_at(r, final(cpu).pc),
        region.entry_points@.len() == 0 || !region.blocks@.contains_key(old(cpu).pc)
            ==> r == RegionResult::Exit(old(cpu).pc) && *final(cpu) == *old(cpu),
{
    if region.entry_points.len() == 0 {
        return RegionResult::Exit(cpu.pc);
    }
    let page = Page::of(region.entry_points[0]);
    let pc = cpu.pc;
    if !region.blocks.contains_key(&pc) {
        return RegionResult::Exit(pc);
    }
    execute_structure(cpu, bus, region.structure.as_slice(), &region.blocks, page, fpa)
}

/// Simple linear execution (the fallback when a region has no structure):
/// run block after block from the pc until the pc reaches no block, a block
/// ends in an indirect jump or a system instruction, or 10000 blocks ran.
/// It never returns `Continue`; an exit names the pc the CPU stopped at.
pub fn execute_region_linear<B: Bus, F: FloatArith>(cpu: &mut Cpu, bus: &mut B, region: &CompiledRegion, fpa: &F) -> (r: RegionResult)
    requires
        old(cpu).wf(),
        old(bus).inv(),
        blocks_wf(region.blocks@),
    ensures
        final(cpu).wf(),
        final(bus).inv(),
        !(r is Continue),
        result_at(r, final(cpu).pc),
        !region.blocks@.contains_key(old(cpu).pc) ==> r == RegionResult::Exit(old(cpu).pc) && *final(cpu) == *old(cpu),
{
    let mut pc = cpu.pc;
    let mut iterations: u32 = 0;
    loop
        invariant
            cpu.wf(),
            bus.inv(),
            blocks_wf(region.blocks@),
            pc == cpu.pc,
            iterations < MAX_LOOP_ITERATIONS,
            iterations == 0 ==> *cpu == *old(cpu) && pc == old(cpu).pc,
            iterations > 0 ==> region.blocks@.contains_key(old(cpu).pc),
        decreases MAX_LOOP_ITERATIONS - iterations,
    {
        let block = match region.blocks.get(&pc) {
            Some(b) => b,
            None => {
                return RegionResult::Exit(pc);
            },
        };
        assert(region.blocks@.contains_key(pc));
        match execute_basic_block(cpu, bus, block, fpa) {
            Ok(next_pc) => {
                pc = next_pc;
                cpu.pc = pc;
            },
            Err(trap) => {
                return RegionResult::Trap(trap);
            },
        }
        match &block.ty {
            BasicBlockType::IndirectJump | BasicBlockType::System => {
                return RegionResult::Exit(cpu.pc);
            },
            _ => {},
        }
        iterations = iterations + 1;
        if iterations >= MAX_LOOP_ITERATIONS {
            return RegionResult::Exit(cpu.pc);
        }
    }
}

} // verus!
