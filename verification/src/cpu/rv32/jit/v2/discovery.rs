//! Basic block discovery: scanning a page from its entry points.

use vstd::prelude::*;
use std::collections::{HashMap, HashSet, VecDeque};
use super::types::{successors_of, BasicBlock, BasicBlockType, BranchCondition, Page};
use super::cfg::lemma_grew;
use crate::cpu::decode::{imm_b, imm_j, spec_imm_b, spec_imm_j, OP_BRANCH, OP_JAL, OP_JALR, OP_SYSTEM};
use crate::cpu::rv32::icache::{spec_cached_decode, CachedInst};
use crate::cpu::rv32::execute::{add_offset, wrap32, peek_word};
use crate::memory::Bus;

verus! {

broadcast use vstd::std_specs::hash::group_hash_axioms;

/// Maximum instructions per basic block.
pub const MAX_BLOCK_SIZE: usize = 64;

/// Does an instruction with this opcode end a basic block (BRANCH, JAL, JALR, SYSTEM)?
pub open spec fn spec_is_block_terminator(opcode: u8) -> bool {
    opcode as u32 == OP_BRANCH || opcode as u32 == OP_JAL || opcode as u32 == OP_JALR
        || opcode as u32 == OP_SYSTEM
}

/// Check if an opcode terminates a basic block.
pub fn is_block_terminator(opcode: u8) -> (r: bool)
    ensures
        r == spec_is_block_terminator(opcode),
{
    let op = opcode as u32;
    op == OP_BRANCH || op == OP_JAL || op == OP_JALR || op == OP_SYSTEM
}

/// The offset of a BRANCH instruction.
fn extract_branch_offset(inst: u32) -> (r: i32)
    ensures
        r as int == spec_imm_b(inst),
{
    imm_b(inst)
}

/// The offset of a JAL instruction.
fn extract_jal_offset(inst: u32) -> (r: i32)
    ensures
        r as int == spec_imm_j(inst),
{
    imm_j(inst)
}

/// Is `a` in page `p`?
pub open spec fn in_page(p: Page, a: u32) -> bool {
    a / 0x1000 == p.0
}

/// A discovered block is well formed: it starts at its key in the page,
/// holds between one and 64 decoded instructions read from consecutive
/// words, ends where its instructions end, its last instruction ends the
/// block unless the block stopped at the size limit or at a known block,
/// and it names only successors inside the page.
pub open spec fn block_ok(p: Page, k: u32, b: BasicBlock, entry_points: Seq<u32>) -> bool {
    &&& b.addr == k
    &&& in_page(p, k)
    &&& 1 <= b.instructions@.len() <= MAX_BLOCK_SIZE
    &&& b.end_addr == k + 4 * b.instructions@.len()
    &&& b.is_entry_point == entry_points.contains(k)
    &&& forall|i: int| 0 <= i < b.instructions@.len()
        ==> #[trigger] b.instructions@[i] == spec_cached_decode(b.instructions@[i].raw)
    &&& forall|i: int| 0 <= i < b.instructions@.len() - 1
        ==> !spec_is_block_terminator(#[trigger] b.instructions@[i].opcode)
    &&& ends_as(b.instructions@.last(), k + 4 * (b.instructions@.len() - 1), p, b.ty)
    &&& forall|i: int| 0 <= i < successors_of(b.ty).len()
        ==> in_page(p, #[trigger] successors_of(b.ty)[i])
}

/// The target of a page-relative control transfer: kept when inside the page.
pub open spec fn kept(p: Page, a: u32) -> Option<u32> {
    if in_page(p, a) { Some(a) } else { None }
}

/// How a block whose last instruction `last` sits at `at` ends: a terminator
/// gives its branch, jump, indirect or system end; any other instruction
/// falls through to the next word.
pub open spec fn ends_as(last: CachedInst, at: int, p: Page, ty: BasicBlockType) -> bool {
    let next = (at + 4) as u32;
    if last.opcode as u32 == OP_BRANCH {
        let target = wrap32(at + spec_imm_b(last.raw));
        match BranchCondition::of_instruction(last.raw) {
            Some(c) => ty == BasicBlockType::Branch {
                taken: kept(p, target),
                not_taken: kept(p, next),
                condition: c,
                offset: spec_imm_b(last.raw) as i32,
            },
            None => ty == BasicBlockType::System,
        }
    } else if last.opcode as u32 == OP_JAL {
        ty == BasicBlockType::Jump {
            target: kept(p, wrap32(at + spec_imm_j(last.raw))),
            offset: spec_imm_j(last.raw) as i32,
        }
    } else if last.opcode as u32 == OP_JALR {
        ty == BasicBlockType::IndirectJump
    } else if last.opcode as u32 == OP_SYSTEM {
        ty == BasicBlockType::System
    } else {
        ty == BasicBlockType::Fallthrough { next: kept(p, next) }
    }
}

/// Does `s` hold `x`?
fn contains_addr(s: &[u32], x: u32) -> (r: bool)
    ensures
        r == s@.contains(x),
{
    let mut i: usize = 0;
    while i < s.len()
        invariant
            i <= s@.len(),
            forall|j: int| 0 <= j < i ==> s@[j] != x,
        decreases s@.len() - i,
    {
        if s[i] == x {
            return true;
        }
        i = i + 1;
    }
    false
}

/// Reads of `b` at the page and the three bytes after it change nothing.
pub open spec fn page_plain<B: Bus>(b: B, p: Page) -> bool {
    forall|a: u32| p.0 * 0x1000 <= a < p.0 * 0x1000 + 0x1003 ==> #[trigger] b.peek8(a) is Some
}

/// The instructions `insts` are the decodings of the words at `k`, `k+4`, ... on `b`.
pub open spec fn words_at<B: Bus>(b: B, k: u32, insts: Seq<CachedInst>) -> bool {
    forall|i: int| 0 <= i < insts.len() ==> peek_word(b, (k + 4 * i) as u32) == Some(#[trigger] insts[i].raw)
}

/// Within 64 words of `e`, before the end of page `p`, `b` holds a word that ends a block.
pub open spec fn meets_terminator<B: Bus>(b: B, p: Page, e: u32) -> bool {
    exists|j: int| 0 <= j < MAX_BLOCK_SIZE && e + 4 * j < p.0 * 0x1000 + 0x1000
        && #[trigger] ends_block_at(b, (e + 4 * j) as u32)
}

/// The word at `a` on `b` is plain and ends a block.
pub open spec fn ends_block_at<B: Bus>(b: B, a: u32) -> bool {
    peek_word(b, a) matches Some(w) && spec_is_block_terminator(spec_cached_decode(w).opcode)
}

/// The address of the `j`-th word from `a`.
pub open spec fn word_addr(a: u32, j: int) -> u32 {
    (a + 4 * j) as u32
}

/// Every successor named by `ty` is on the worklist `ws` or already visited.
pub open spec fn successors_queued(ws: Seq<u32>, visited: Set<u32>, ty: BasicBlockType) -> bool {
    forall|i: int| 0 <= i < successors_of(ty).len()
        ==> ws.contains(#[trigger] successors_of(ty)[i]) || visited.contains(successors_of(ty)[i])
}

/// Pushing onto a sequence keeps what it held and adds the pushed element.
proof fn lemma_push_contains(s: Seq<u32>, x: u32)
    ensures
        s.push(x).contains(x),
        forall|y: u32| s.contains(y) ==> #[trigger] s.push(x).contains(y),
{
    assert(s.push(x)[s.len() as int] == x);
    assert forall|y: u32| s.contains(y) implies #[trigger] s.push(x).contains(y) by {
        let j = choose|j: int| 0 <= j < s.len() && s[j] == y;
        assert(s.push(x)[j] == y);
    }
}

/// The worklist only grew at its end.
pub open spec fn extends(old_w: Seq<u32>, new_w: Seq<u32>) -> bool {
    &&& old_w.len() <= new_w.len()
    &&& forall|j: int| 0 <= j < old_w.len() ==> #[trigger] new_w[j] == old_w[j]
}

/// Scan one block from `start`, pushing its successors inside the page onto
/// the worklist. `None` when the scan runs past the end of the page before
/// the block ends, which can only happen within 63 words of that end.
fn scan_block<B: Bus>(
    bus: &mut B,
    page: Page,
    page_end: u64,
    start: u32,
    visited: &HashSet<u32>,
    worklist: &mut VecDeque<u32>,
    entry_points: &[u32],
) -> (r: Option<BasicBlock>)
    requires
        old(bus).inv(),
        page.0 < 0xF_FFFF,
        page_end == page.0 * 0x1000 + 0x1000,
        in_page(page, start),
        forall|k: u32| #[trigger] visited@.contains(k) ==> in_page(page, k),
    ensures
        final(bus).inv(),
        extends(old(worklist)@, final(worklist)@),
        match r {
            Some(b) => block_ok(page, start, b, entry_points@)
                && successors_queued(final(worklist)@, visited@, b.ty),
            None => start + 4 * (MAX_BLOCK_SIZE - 1) >= page_end
                && forall|j: int| 1 <= j < MAX_BLOCK_SIZE && start + 4 * j < page_end
                    ==> !visited@.contains(#[trigger] word_addr(start, j)),
        },
        page_plain(*old(bus), page) ==> *final(bus) == *old(bus),
        page_plain(*old(bus), page) ==> match r {
            Some(b) => words_at(*old(bus), start, b.instructions@),
            None => !meets_terminator(*old(bus), page, start),
        },
{
    let ghost w0 = worklist@;
    let mut instructions: Vec<CachedInst> = Vec::new();
    let mut vaddr: u32 = start;
    assert(start / 0x1000 == page.0);
    assert(start >= page.0 * 0x1000 && start < page_end);
    loop
        invariant
            bus.inv(),
            page.0 < 0xF_FFFF,
            page_end == page.0 * 0x1000 + 0x1000,
            in_page(page, start),
            start >= page.0 * 0x1000,
            vaddr == start + 4 * instructions@.len(),
            instructions@.len() < MAX_BLOCK_SIZE,
            vaddr < page_end + 4,
            extends(w0, worklist@),
            w0 == old(worklist)@,
            forall|k: u32| #[trigger] visited@.contains(k) ==> in_page(page, k),
            forall|i: int| 0 <= i < instructions@.len()
                ==> #[trigger] instructions@[i] == spec_cached_decode(instructions@[i].raw),
            forall|i: int| 0 <= i < instructions@.len()
                ==> !spec_is_block_terminator(#[trigger] instructions@[i].opcode),
            page_plain(*old(bus), page) ==> *bus == *old(bus) && words_at(*old(bus), start, instructions@),
            forall|j: int| 1 <= j <= instructions@.len() ==> !visited@.contains(#[trigger] word_addr(start, j)),
        decreases page_end + 4 - vaddr,
    {
        if vaddr as u64 >= page_end {
            proof {
                if page_plain(*old(bus), page) {
                    assert forall|j: int| 0 <= j < MAX_BLOCK_SIZE && start + 4 * j < page.0 * 0x1000 + 0x1000
                        implies !#[trigger] ends_block_at(*old(bus), (start + 4 * j) as u32) by {
                        assert(j < instructions@.len());
                        assert(peek_word(*old(bus), (start + 4 * j) as u32) == Some(instructions@[j].raw));
                        assert(instructions@[j] == spec_cached_decode(instructions@[j].raw));
                    }
                }
                assert forall|j: int| 1 <= j < MAX_BLOCK_SIZE && start + 4 * j < page_end
                    implies !visited@.contains(#[trigger] word_addr(start, j)) by {
                    assert(j <= instructions@.len());
                }
            }
            return None;
        }
        proof {
            if page_plain(*old(bus), page) {
                assert(vaddr.wrapping_add(1) == vaddr + 1);
                assert(vaddr.wrapping_add(2) == vaddr + 2);
                assert(vaddr.wrapping_add(3) == vaddr + 3);
                assert(old(bus).peek8(vaddr) is Some);
                assert(old(bus).peek8((vaddr + 1) as u32) is Some);
                assert(old(bus).peek8((vaddr + 2) as u32) is Some);
                assert(old(bus).peek8((vaddr + 3) as u32) is Some);
            }
        }
        let inst = bus.read32(vaddr);
        proof {
            if page_plain(*old(bus), page) {
                assert(peek_word(*old(bus), vaddr) == Some(inst));
            }
        }
        let cached = CachedInst::decode(inst);
        let opcode = cached.opcode;
        let ghost prev = instructions@;
        instructions.push(cached);
        let next_vaddr = vaddr + 4;
        assert(instructions@.last() == cached);
        proof {
            if page_plain(*old(bus), page) {
                assert forall|i: int| 0 <= i < instructions@.len() implies peek_word(*old(bus), (start + 4 * i) as u32)
                    == Some(#[trigger] instructions@[i].raw) by {
                    if i < prev.len() {
                        assert(instructions@[i] == prev[i]);
                    }
                }
            }
        }
        if is_block_terminator(opcode) {
            let ty = if opcode as u32 == OP_BRANCH {
                let offset = extract_branch_offset(inst);
                let target = add_offset(vaddr, offset);
                match BranchCondition::from_instruction(inst) {
                    Some(condition) => {
                        let taken = if page.contains(target) {
                            proof { lemma_push_contains(worklist@, target); }
                            worklist.push_back(target);
                            Some(target)
                        } else {
                            None
                        };
                        let not_taken = if page.contains(next_vaddr) {
                            proof { lemma_push_contains(worklist@, next_vaddr); }
                            worklist.push_back(next_vaddr);
                            Some(next_vaddr)
                        } else {
                            None
                        };
                        BasicBlockType::Branch { taken, not_taken, condition, offset }
                    },
                    None => BasicBlockType::System,
                }
            } else if opcode as u32 == OP_JAL {
                let offset = extract_jal_offset(inst);
                let target = add_offset(vaddr, offset);
                if cached.rd != 0 && page.contains(next_vaddr) {
                    worklist.push_back(next_vaddr);
                }
                let target_vaddr = if page.contains(target) {
                    proof { lemma_push_contains(worklist@, target); }
                    worklist.push_back(target);
                    Some(target)
                } else {
                    None
                };
                BasicBlockType::Jump { target: target_vaddr, offset }
            } else if opcode as u32 == OP_JALR {
                BasicBlockType::IndirectJump
            } else {
                BasicBlockType::System
            };
            assert(successors_queued(worklist@, visited@, ty)) by {
                if ty is Branch {
                    assert(successors_of(ty) =~= (match ty->taken { Some(a) => seq![a], None => Seq::empty() })
                        + (match ty->not_taken { Some(a) => seq![a], None => Seq::empty() }));
                }
            }
            let is_entry_point = contains_addr(entry_points, start);
            let block = BasicBlock {
                addr: start,
                end_addr: next_vaddr,
                instructions,
                ty,
                is_entry_point,
            };
            return Some(block);
        }
        if visited.contains(&next_vaddr) {
            let is_entry_point = contains_addr(entry_points, start);
            let block = BasicBlock {
                addr: start,
                end_addr: next_vaddr,
                instructions,
                ty: BasicBlockType::Fallthrough { next: Some(next_vaddr) },
                is_entry_point,
            };
            return Some(block);
        }
        if instructions.len() >= MAX_BLOCK_SIZE {
            let next = if page.contains(next_vaddr) {
                proof { lemma_push_contains(worklist@, next_vaddr); }
                worklist.push_back(next_vaddr);
                Some(next_vaddr)
            } else {
                None
            };
            let is_entry_point = contains_addr(entry_points, start);
            let block = BasicBlock {
                addr: start,
                end_addr: next_vaddr,
                instructions,
                ty: BasicBlockType::Fallthrough { next },
                is_entry_point,
            };
            return Some(block);
        }
        assert(next_vaddr == word_addr(start, instructions@.len() as int));
        vaddr = next_vaddr;
    }
}

/// Does a scan from `e` surely end inside page `p` on `b`: it starts at least
/// 64 words before the page end, or the page reads plainly and a word that
/// ends a block follows `e` within 64 words before that end.
pub open spec fn gets_block<B: Bus>(b: B, p: Page, e: u32) -> bool {
    ||| e + 4 * (MAX_BLOCK_SIZE - 1) < p.0 * 0x1000 + 0x1000
    ||| page_plain(b, p) && meets_terminator(b, p, e)
}

/// `ep[i]` does not occur earlier in `ep`.
pub open spec fn first_at(ep: Seq<u32>, i: int) -> bool {
    forall|k: int| 0 <= k < i ==> ep[k] != ep[i]
}

/// Within 64 words of `ep[i]`, before the end of page `p`, lies an earlier
/// entry point: a scan from `ep[i]` stops there at the latest.
pub open spec fn stops_at_earlier(ep: Seq<u32>, i: int, p: Page) -> bool {
    exists|k: int, j: int| #![trigger ep[k], word_addr(ep[i], j)]
        0 <= k < i && 1 <= j < MAX_BLOCK_SIZE && ep[i] + 4 * j < p.0 * 0x1000 + 0x1000 && ep[k] == word_addr(ep[i], j)
}

/// The entry point `ep[i]` surely starts a block: its scan surely ends
/// inside the page, or it runs into an earlier entry point first.
pub open spec fn entry_gets_block<B: Bus>(b: B, p: Page, ep: Seq<u32>, i: int) -> bool {
    gets_block(b, p, ep[i]) || stops_at_earlier(ep, i, p)
}

/// An address between the start and the end of page `p` is in it.
proof fn lemma_in_page(p: Page, a: u32)
    requires
        p.0 * 0x1000 <= a < p.0 * 0x1000 + 0x1000,
    ensures
        in_page(p, a),
{
    assert(a / 0x1000 == p.0) by (nonlinear_arith)
        requires
            p.0 * 0x1000 <= a < p.0 * 0x1000 + 0x1000;
}

/// Discover basic blocks from the entry points of a page, following static
/// control flow inside the page. Reads go through `bus`.
///
/// Every block is well formed and keyed by its start address. Every entry
/// point in the page whose scan surely ends inside the page starts a block:
/// one at least 64 words before the page end, one followed by a block
/// terminator before that end, or (at its first occurrence) one that runs
/// into an earlier entry point before that end. Every successor inside the
/// page named by a block whose scan surely ends inside the page starts a
/// block too: discovery follows the static control flow. When the page reads plainly, the bus is left
/// as it was and each block holds the decodings of the words at its address.
/// A BRANCH with a funct3 that names no comparison ends its block as a
/// system block, so the interpreter raises the illegal-instruction trap for
/// it. The top page of the address space is excluded: its end overflows.
pub fn discover_basic_blocks<B: Bus>(bus: &mut B, page: Page, entry_points: &[u32]) -> (blocks: HashMap<u32, BasicBlock>)
    requires
        old(bus).inv(),
        page.0 < 0xF_FFFF,
    ensures
        final(bus).inv(),
        forall|k: u32| #[trigger] blocks@.contains_key(k) ==> block_ok(page, k, blocks@[k], entry_points@),
        forall|i: int| 0 <= i < entry_points@.len() && in_page(page, #[trigger] entry_points@[i])
            && gets_block(*old(bus), page, entry_points@[i])
            ==> blocks@.contains_key(entry_points@[i]),
        forall|i: int| 0 <= i < entry_points@.len() && in_page(page, #[trigger] entry_points@[i])
            && first_at(entry_points@, i) && entry_gets_block(*old(bus), page, entry_points@, i)
            ==> blocks@.contains_key(entry_points@[i]),
        forall|k: u32, i: int| blocks@.contains_key(k) && 0 <= i < successors_of(blocks@[k].ty).len()
            && gets_block(*old(bus), page, #[trigger] successors_of(blocks@[k].ty)[i])
            ==> blocks@.contains_key(successors_of(blocks@[k].ty)[i]),
        page_plain(*old(bus), page) ==> *final(bus) == *old(bus),
        page_plain(*old(bus), page) ==> forall|k: u32| #[trigger] blocks@.contains_key(k)
            ==> words_at(*old(bus), k, blocks@[k].instructions@),
{
    let mut blocks: HashMap<u32, BasicBlock> = HashMap::new();
    let mut worklist: VecDeque<u32> = VecDeque::new();
    let mut e: usize = 0;
    while e < entry_points.len()
        invariant
            e <= entry_points@.len(),
            worklist@ == entry_points@.take(e as int),
        decreases entry_points@.len() - e,
    {
        worklist.push_back(entry_points[e]);
        assert(worklist@ =~= entry_points@.take(e + 1));
        e = e + 1;
    }
    assert(worklist@ =~= entry_points@);
    let mut visited: HashSet<u32> = HashSet::new();
    let page_base: u32 = page.base_addr();
    let page_end: u64 = page_base as u64 + 0x1000;
    assert(forall|i: int| 0 <= i < entry_points@.len() ==> worklist@.contains(#[trigger] entry_points@[i]));
    let ghost bus0 = *bus;
    let ghost ep = entry_points@;
    let ghost mut np: int = 0;
    loop
        invariant
            ep == entry_points@,
            0 <= np <= ep.len(),
            np < ep.len() ==> worklist@.len() >= ep.len() - np
                && forall|t: int| 0 <= t < ep.len() - np ==> #[trigger] worklist@[t] == ep[np + t],
            forall|k: int| 0 <= k < np && in_page(page, #[trigger] ep[k]) ==> visited@.contains(ep[k]),
            np < ep.len() ==> forall|x: u32| #[trigger] visited@.contains(x) ==> exists|k: int| 0 <= k < np && ep[k] == x,
            forall|i: int| 0 <= i < np && in_page(page, #[trigger] ep[i]) && first_at(ep, i)
                && entry_gets_block(bus0, page, ep, i) ==> blocks@.contains_key(ep[i]),
            forall|k: u32, i: int| blocks@.contains_key(k) && 0 <= i < successors_of(blocks@[k].ty).len()
                && gets_block(bus0, page, #[trigger] successors_of(blocks@[k].ty)[i])
                ==> blocks@.contains_key(successors_of(blocks@[k].ty)[i])
                    || worklist@.contains(successors_of(blocks@[k].ty)[i]),
            bus.inv(),
            bus0 == *old(bus),
            page_plain(bus0, page) ==> *bus == bus0,
            page_plain(bus0, page) ==> forall|k: u32| #[trigger] blocks@.contains_key(k)
                ==> words_at(bus0, k, blocks@[k].instructions@),
            page.0 < 0xF_FFFF,
            page_base == page.0 * 0x1000,
            page_end == page_base + 0x1000,
            forall|k: u32| #[trigger] blocks@.contains_key(k) ==> block_ok(page, k, blocks@[k], entry_points@),
            forall|k: u32| #[trigger] visited@.contains(k) ==> in_page(page, k),
            forall|k: u32| #[trigger] visited@.contains(k) && gets_block(bus0, page, k)
                ==> blocks@.contains_key(k),
            forall|i: int| 0 <= i < entry_points@.len() && in_page(page, #[trigger] entry_points@[i])
                && gets_block(bus0, page, entry_points@[i])
                ==> blocks@.contains_key(entry_points@[i]) || worklist@.contains(entry_points@[i]),
        ensures
            np == ep.len(),
            forall|i: int| 0 <= i < np && in_page(page, #[trigger] ep[i]) && first_at(ep, i)
                && entry_gets_block(bus0, page, ep, i) ==> blocks@.contains_key(ep[i]),
            forall|k: u32, i: int| blocks@.contains_key(k) && 0 <= i < successors_of(blocks@[k].ty).len()
                && gets_block(bus0, page, #[trigger] successors_of(blocks@[k].ty)[i])
                ==> blocks@.contains_key(successors_of(blocks@[k].ty)[i]),
            bus.inv(),
            page_plain(bus0, page) ==> *bus == bus0,
            page_plain(bus0, page) ==> forall|k: u32| #[trigger] blocks@.contains_key(k)
                ==> words_at(bus0, k, blocks@[k].instructions@),
            worklist@.len() == 0,
            forall|k: u32| #[trigger] blocks@.contains_key(k) ==> block_ok(page, k, blocks@[k], entry_points@),
            forall|i: int| 0 <= i < entry_points@.len() && in_page(page, #[trigger] entry_points@[i])
                && gets_block(bus0, page, entry_points@[i])
                ==> blocks@.contains_key(entry_points@[i]) || worklist@.contains(entry_points@[i]),
        decreases Set::<u32>::full().len() - visited@.len(), worklist@.len(),
    {
        let ghost w_old = worklist@;
        let ghost np0 = np;
        let ghost blocks0 = blocks@;
        let start = match worklist.pop_front() {
            Some(s) => s,
            None => {
                break;
            },
        };
        proof {
            assert forall|x: u32| w_old.contains(x) && x != start implies worklist@.contains(x) by {
                let j = choose|j: int| 0 <= j < w_old.len() && w_old[j] == x;
                assert(j != 0);
                assert(worklist@[j - 1] == x);
            }
            if np0 < ep.len() {
                assert(w_old[0] == ep[np0]);
                assert(start == ep[np0]);
                assert forall|t: int| 0 <= t < ep.len() - (np0 + 1) implies #[trigger] worklist@[t] == ep[np0 + 1 + t] by {
                    assert(w_old[t + 1] == ep[np0 + (t + 1)]);
                }
                np = np0 + 1;
            }
        }
        if visited.contains(&start) || start < page_base || start as u64 >= page_end {
            proof {
                if np0 < ep.len() {
                    if in_page(page, start) && first_at(ep, np0) && visited@.contains(start) {
                        let k = choose|k: int| 0 <= k < np0 && ep[k] == start;
                        assert(ep[k] != ep[np0]);
                    }
                    if !visited@.contains(start) {
                        assert(!in_page(page, start)) by {
                            assert(start < page_base || start >= page_end);
                        }
                    }
                }
            }
            continue;
        }
        assert(in_page(page, start));
        let ghost v_before = visited@;
        visited.insert(start);
        proof { lemma_grew(v_before, visited@, start); }
        let ghost w_mid = worklist@;
        let scanned = scan_block(bus, page, page_end, start, &visited, &mut worklist, entry_points);
        proof {
            assert forall|x: u32| w_mid.contains(x) implies worklist@.contains(x) by {
                let j = choose|j: int| 0 <= j < w_mid.len() && w_mid[j] == x;
                assert(worklist@[j] == x);
            }
        }
        proof {
            if scanned is None {
                assert(!gets_block(bus0, page, start));
                if np0 < ep.len() && stops_at_earlier(ep, np0, page) {
                    let (k, j) = choose|k: int, j: int| #![trigger ep[k], word_addr(ep[np0], j)]
                        0 <= k < np0 && 1 <= j < MAX_BLOCK_SIZE && ep[np0] + 4 * j < page.0 * 0x1000 + 0x1000
                        && ep[k] == word_addr(ep[np0], j);
                    lemma_in_page(page, word_addr(start, j));
                    assert(v_before.contains(ep[k]));
                    assert(!visited@.contains(word_addr(start, j)));
                }
            }
        }
        if let Some(block) = scanned {
            blocks.insert(start, block);
        }
    }
    blocks
}

} // verus!
