use otoriscv::cpu::rv32::icache::CachedInst;
use otoriscv::cpu::rv32::jit::v1::codegen::emit::emit_instruction;
use otoriscv::cpu::rv32::jit::v1::BlockCache;
use otoriscv::cpu::rv32::jit::v2::discovery::discover_basic_blocks;
use otoriscv::cpu::rv32::jit::v2::state::JitState;
use otoriscv::cpu::rv32::jit::v2::types::{BasicBlockType, Page};
use otoriscv::cpu::rv32::jit::v2::wasm::WasmBuilder;
use otoriscv::memory::{Memory, DRAM_BASE};

const ADDI_X1_X0_1: u32 = 0x0010_0093;
const ADDI_X1_X1_1: u32 = 0x0010_8093;
const JAL_X0_0: u32 = 0x0000_006f;

fn loop_program() -> Memory {
    let mut mem = Memory::new(1);
    mem.write32(DRAM_BASE, ADDI_X1_X0_1);
    mem.write32(DRAM_BASE + 4, ADDI_X1_X1_1);
    mem.write32(DRAM_BASE + 8, JAL_X0_0);
    mem
}

#[test]
fn discovery_follows_a_jump_to_itself() {
    let mut mem = loop_program();
    let blocks = discover_basic_blocks(&mut mem, Page::of(DRAM_BASE), &[DRAM_BASE]);
    let entry = blocks.get(&DRAM_BASE).expect("entry block");
    assert_eq!(entry.instructions.len(), 3);
    assert_eq!(entry.end_addr, DRAM_BASE + 12);
    assert!(entry.is_entry_point);
    assert!(matches!(entry.ty, BasicBlockType::Jump { target: Some(t), offset: 0 } if t == DRAM_BASE + 8));
    let tail = blocks.get(&(DRAM_BASE + 8)).expect("jump target block");
    assert_eq!(tail.instructions.len(), 1);
    assert!(!tail.is_entry_point);
}

#[test]
fn discovery_drops_a_block_running_off_the_page() {
    let mut mem = Memory::new(1);
    let last = DRAM_BASE + 0xFFC;
    mem.write32(last, ADDI_X1_X0_1);
    let blocks = discover_basic_blocks(&mut mem, Page::of(DRAM_BASE), &[last]);
    assert!(blocks.is_empty());
}

#[test]
fn discovery_keeps_a_block_ending_before_the_page_end() {
    let mut mem = Memory::new(1);
    let start = DRAM_BASE + 0xFF0;
    mem.write32(start, ADDI_X1_X0_1);
    mem.write32(start + 4, JAL_X0_0);
    let blocks = discover_basic_blocks(&mut mem, Page::of(DRAM_BASE), &[start]);
    let b = blocks.get(&start).expect("block near the page end");
    assert_eq!(b.instructions.len(), 2);
    assert_eq!(b.end_addr, start + 8);
    assert_eq!(b.instructions[0].raw, ADDI_X1_X0_1);
    assert_eq!(b.instructions[1].raw, JAL_X0_0);
}

#[test]
fn discovery_stops_at_an_earlier_entry_point() {
    let mut mem = Memory::new(1);
    for k in 0..4u32 {
        mem.write32(DRAM_BASE + 0xFF0 + 4 * k, ADDI_X1_X0_1);
    }
    let later = DRAM_BASE + 0xFF8;
    let earlier = DRAM_BASE + 0xFF0;
    let blocks = discover_basic_blocks(&mut mem, Page::of(DRAM_BASE), &[later, earlier]);
    assert!(!blocks.contains_key(&later));
    let b = blocks.get(&earlier).expect("block stopping at the visited start");
    assert_eq!(b.instructions.len(), 2);
    assert!(matches!(b.ty, BasicBlockType::Fallthrough { next: Some(n) } if n == later));
}

#[test]
fn discovery_follows_branch_successors() {
    let mut mem = Memory::new(1);
    // beq x0, x0, +8 ; addi x1, x0, 1 ; jal x0, 0
    mem.write32(DRAM_BASE, 0x0000_0463);
    mem.write32(DRAM_BASE + 4, ADDI_X1_X0_1);
    mem.write32(DRAM_BASE + 8, JAL_X0_0);
    let blocks = discover_basic_blocks(&mut mem, Page::of(DRAM_BASE), &[DRAM_BASE]);
    assert!(blocks.contains_key(&DRAM_BASE));
    assert!(blocks.contains_key(&(DRAM_BASE + 4)));
    assert!(blocks.contains_key(&(DRAM_BASE + 8)));
}

#[test]
fn compiled_region_is_found_until_invalidated() {
    let mut mem = loop_program();
    let mut jit = JitState::new();
    let page = Page::of(DRAM_BASE);
    assert!(jit.record_execution(DRAM_BASE, 100).is_none());
    assert!(jit.get_region(page).is_none());
    jit.compile_region(&mut mem, page);
    let region = jit.get_region(page).expect("compiled region");
    assert_eq!(region.entry_points, vec![DRAM_BASE]);
    assert!(region.blocks.contains_key(&DRAM_BASE));
    jit.invalidate_all();
    assert!(jit.get_region(page).is_none());
    assert_eq!(jit.region_hits, 1);
    assert_eq!(jit.region_misses, 2);
}

#[test]
fn hotness_resets_after_triggering() {
    let mut jit = JitState::new();
    jit.set_threshold(300);
    assert!(jit.record_execution(0x1234, 100).is_none());
    assert!(jit.record_execution(0x1238, 100).is_none());
    assert_eq!(jit.record_execution(0x1230, 100), Some(Page(1)));
    assert!(jit.record_execution(0x1234, 100).is_none());
}

#[test]
fn block_cache_compiles_to_the_terminator() {
    let mut mem = loop_program();
    let mut cache = BlockCache::new();
    assert!(cache.get(DRAM_BASE).is_none());
    let block = cache.compile_block(&mut mem, DRAM_BASE);
    assert_eq!(block.inst_count, 3);
    assert_eq!(block.instructions[2].raw, JAL_X0_0);
    assert!(cache.get(DRAM_BASE).is_some());
    assert_eq!((cache.hits, cache.misses, cache.compiles), (1, 1, 1));
    cache.invalidate_page(DRAM_BASE + 0x10);
    assert!(cache.get_block(DRAM_BASE).is_none());
}

#[test]
fn block_cache_generation_hides_old_blocks() {
    let mut mem = loop_program();
    let mut cache = BlockCache::new();
    cache.compile_block(&mut mem, DRAM_BASE + 8);
    assert!(cache.get_block(DRAM_BASE + 8).is_some());
    cache.invalidate_all();
    assert!(cache.get_block(DRAM_BASE + 8).is_none());
}

#[test]
fn emit_addi_register_immediate() {
    let mut b = WasmBuilder::new();
    let inst = CachedInst::decode(0x0050_0093);
    assert!(emit_instruction(&mut b, &inst, 0));
    assert_eq!(b.get_code(), &[0x20, 0x00, 0x41, 0x05, 0x6a, 0x21, 0x01]);
}

#[test]
fn emit_sub_register_register() {
    let mut b = WasmBuilder::new();
    let inst = CachedInst::decode(0x4020_81b3);
    assert!(emit_instruction(&mut b, &inst, 0));
    assert_eq!(b.get_code(), &[0x20, 0x01, 0x20, 0x02, 0x6b, 0x21, 0x03]);
}

#[test]
fn emit_srai_uses_arithmetic_shift() {
    let mut b = WasmBuilder::new();
    let inst = CachedInst::decode(0x4030_d093);
    assert!(emit_instruction(&mut b, &inst, 0));
    assert_eq!(b.get_code(), &[0x20, 0x01, 0x41, 0x03, 0x75, 0x21, 0x01]);
}

#[test]
fn emit_mul_falls_back_after_loading_sources() {
    let mut b = WasmBuilder::new();
    let inst = CachedInst::decode(0x0220_81b3);
    assert!(!emit_instruction(&mut b, &inst, 0));
    assert_eq!(b.get_code(), &[0x20, 0x01, 0x20, 0x02]);
}

#[test]
fn emit_load_needs_interpreter() {
    let mut b = WasmBuilder::new();
    let inst = CachedInst::decode(0x0000_a083);
    assert!(!emit_instruction(&mut b, &inst, 0));
    assert!(b.get_code().is_empty());
}

#[test]
fn wasm_leb128_encodings() {
    let mut b = WasmBuilder::new();
    b.i32_const(-1);
    b.i32_const(128);
    b.local_get(300);
    assert_eq!(b.get_code(), &[0x41, 0x7f, 0x41, 0x80, 0x01, 0x20, 0xac, 0x02]);
}
