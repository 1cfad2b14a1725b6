//! Core types of the region JIT: pages, basic blocks, branch conditions and
//! the structured control flow of a compiled region.

use vstd::prelude::*;
use std::collections::HashMap;
use crate::cpu::rv32::icache::CachedInst;
use crate::cpu::rv32::execute::sgn;
use crate::cpu::trap::Trap;

verus! {

/// A virtual page: the upper 20 bits of a virtual address.
#[derive(Copy, Clone, PartialEq, Eq, Structural, Hash, Debug)]
pub struct Page(pub u32);

impl Page {
    /// The page of `vaddr`.
    pub fn of(vaddr: u32) -> (p: Page)
        ensures
            p.0 == vaddr / 0x1000,
    {
        Page(vaddr / 0x1000)
    }

    /// The first address of the page (the page number shifted into place;
    /// bits above the address width are dropped).
    pub fn base_addr(self) -> (r: u32)
        ensures
            r == self.0 << 12u32,
            self.0 < 0x10_0000 ==> r == self.0 * 0x1000,
    {
        proof { crate::bits::lemma_u32_shift_mask(); }
        self.0 << 12u32
    }

    /// Does `vaddr` lie in this page?
    pub fn contains(self, vaddr: u32) -> (r: bool)
        ensures
            r == (vaddr / 0x1000 == self.0),
    {
        Page::of(vaddr) == self
    }
}

/// Result of executing a compiled region.
#[derive(Debug)]
pub enum RegionResult {
    /// Continue execution at the given pc.
    Continue(u32),
    /// A trap occurred.
    Trap(Trap),
    /// The region was left (indirect jump, system instruction, or a target outside it).
    Exit(u32),
}

/// A branch condition: the comparison of a BRANCH instruction and its registers.
#[derive(Clone, Copy, PartialEq, Eq, Structural, Debug)]
pub enum BranchCondition {
    /// BEQ rs1, rs2
    Eq { rs1: u8, rs2: u8 },
    /// BNE rs1, rs2
    Ne { rs1: u8, rs2: u8 },
    /// BLT rs1, rs2 (signed)
    Lt { rs1: u8, rs2: u8 },
    /// BGE rs1, rs2 (signed)
    Ge { rs1: u8, rs2: u8 },
    /// BLTU rs1, rs2 (unsigned)
    Ltu { rs1: u8, rs2: u8 },
    /// BGEU rs1, rs2 (unsigned)
    Geu { rs1: u8, rs2: u8 },
}

impl BranchCondition {
    /// The two registers the condition compares.
    pub open spec fn operands(self) -> (u8, u8) {
        match self {
            BranchCondition::Eq { rs1, rs2 } => (rs1, rs2),
            BranchCondition::Ne { rs1, rs2 } => (rs1, rs2),
            BranchCondition::Lt { rs1, rs2 } => (rs1, rs2),
            BranchCondition::Ge { rs1, rs2 } => (rs1, rs2),
            BranchCondition::Ltu { rs1, rs2 } => (rs1, rs2),
            BranchCondition::Geu { rs1, rs2 } => (rs1, rs2),
        }
    }

    /// Both registers exist.
    pub open spec fn wf(self) -> bool {
        self.operands().0 < 32 && self.operands().1 < 32
    }

    /// Whether the branch is taken for the register file `regs`.
    pub open spec fn holds(self, regs: Seq<u32>) -> bool {
        let a = regs[self.operands().0 as int];
        let b = regs[self.operands().1 as int];
        match self {
            BranchCondition::Eq { .. } => a == b,
            BranchCondition::Ne { .. } => a != b,
            BranchCondition::Lt { .. } => sgn(a) < sgn(b),
            BranchCondition::Ge { .. } => sgn(a) >= sgn(b),
            BranchCondition::Ltu { .. } => a < b,
            BranchCondition::Geu { .. } => a >= b,
        }
    }

    /// Evaluate the condition against the register values.
    pub fn evaluate(&self, regs: &[u32; 32]) -> (r: bool)
        requires
            self.wf(),
        ensures
            r == self.holds(regs@),
    {
        match self {
            BranchCondition::Eq { rs1, rs2 } => regs[*rs1 as usize] == regs[*rs2 as usize],
            BranchCondition::Ne { rs1, rs2 } => regs[*rs1 as usize] != regs[*rs2 as usize],
            BranchCondition::Lt { rs1, rs2 } =>
                crate::cpu::rv32::execute::lt_signed(regs[*rs1 as usize], regs[*rs2 as usize]),
            BranchCondition::Ge { rs1, rs2 } =>
                !crate::cpu::rv32::execute::lt_signed(regs[*rs1 as usize], regs[*rs2 as usize]),
            BranchCondition::Ltu { rs1, rs2 } => regs[*rs1 as usize] < regs[*rs2 as usize],
            BranchCondition::Geu { rs1, rs2 } => regs[*rs1 as usize] >= regs[*rs2 as usize],
        }
    }

    /// The condition of a BRANCH instruction, by its funct3; `None` for the
    /// two funct3 values that name no branch.
    pub open spec fn of_instruction(inst: u32) -> Option<BranchCondition> {
        let funct3 = (inst / 0x1000) % 8;
        let rs1 = ((inst / 0x8000) % 32) as u8;
        let rs2 = ((inst / 0x10_0000) % 32) as u8;
        if funct3 == 0 { Some(BranchCondition::Eq { rs1, rs2 }) }
        else if funct3 == 1 { Some(BranchCondition::Ne { rs1, rs2 }) }
        else if funct3 == 4 { Some(BranchCondition::Lt { rs1, rs2 }) }
        else if funct3 == 5 { Some(BranchCondition::Ge { rs1, rs2 }) }
        else if funct3 == 6 { Some(BranchCondition::Ltu { rs1, rs2 }) }
        else if funct3 == 7 { Some(BranchCondition::Geu { rs1, rs2 }) }
        else { None }
    }

    /// Extract the branch condition of a BRANCH instruction.
    pub fn from_instruction(inst: u32) -> (r: Option<BranchCondition>)
        ensures
            r == Self::of_instruction(inst),
            r matches Some(c) ==> c.wf(),
    {
        let funct3 = (inst / 0x1000) % 8;
        let rs1 = ((inst / 0x8000) % 32) as u8;
        let rs2 = ((inst / 0x10_0000) % 32) as u8;
        if funct3 == 0 {
            Some(BranchCondition::Eq { rs1, rs2 })
        } else if funct3 == 1 {
            Some(BranchCondition::Ne { rs1, rs2 })
        } else if funct3 == 4 {
            Some(BranchCondition::Lt { rs1, rs2 })
        } else if funct3 == 5 {
            Some(BranchCondition::Ge { rs1, rs2 })
        } else if funct3 == 6 {
            Some(BranchCondition::Ltu { rs1, rs2 })
        } else if funct3 == 7 {
            Some(BranchCondition::Geu { rs1, rs2 })
        } else {
            None
        }
    }
}

/// How a basic block ends.
#[derive(Clone, Copy, Debug)]
pub enum BasicBlockType {
    /// Falls through to the next instruction (non-control-flow end or the block size limit).
    Fallthrough {
        /// The next block, when in the same page.
        next: Option<u32>,
    },
    /// Unconditional jump (JAL).
    Jump {
        /// The target, when static and in the same page.
        target: Option<u32>,
        /// The jump offset.
        offset: i32,
    },
    /// Conditional branch.
    Branch {
        /// Target if taken.
        taken: Option<u32>,
        /// Target if not taken (the next instruction).
        not_taken: Option<u32>,
        /// The condition.
        condition: BranchCondition,
        /// The branch offset.
        offset: i32,
    },
    /// Indirect jump (JALR: computed jumps and returns).
    IndirectJump,
    /// System instruction (ECALL, EBREAK, CSR access, ...): always leaves the region.
    System,
}

/// The targets of a block end inside its region, in order.
pub open spec fn successors_of(ty: BasicBlockType) -> Seq<u32> {
    match ty {
        BasicBlockType::Fallthrough { next: Some(a) } => seq![a],
        BasicBlockType::Jump { target: Some(a), .. } => seq![a],
        BasicBlockType::Branch { taken, not_taken, .. } =>
            (match taken { Some(a) => seq![a], None => Seq::empty() })
                + (match not_taken { Some(a) => seq![a], None => Seq::empty() }),
        _ => Seq::empty(),
    }
}

/// A basic block of a compiled region.
#[derive(Clone)]
pub struct BasicBlock {
    /// Start address.
    pub addr: u32,
    /// End address (exclusive: the address after the last instruction).
    pub end_addr: u32,
    /// Decoded instructions.
    pub instructions: Vec<CachedInst>,
    /// How the block ends, with its control-flow edges.
    pub ty: BasicBlockType,
    /// Is this an entry point from outside the region?
    pub is_entry_point: bool,
}

impl BasicBlock {
    /// The addresses control can pass to from this block, inside its region.
    pub fn successors(&self) -> (r: Vec<u32>)
        ensures
            r@ == successors_of(self.ty),
    {
        match &self.ty {
            BasicBlockType::Fallthrough { next: Some(addr) } => vec![*addr],
            BasicBlockType::Jump { target: Some(addr), .. } => vec![*addr],
            BasicBlockType::Branch { taken, not_taken, .. } => {
                let mut succs: Vec<u32> = Vec::new();
                if let Some(addr) = taken {
                    succs.push(*addr);
                }
                if let Some(addr) = not_taken {
                    succs.push(*addr);
                }
                assert(succs@ =~= successors_of(self.ty));
                succs
            },
            _ => {
                let v: Vec<u32> = Vec::new();
                assert(v@ =~= successors_of(self.ty));
                v
            },
        }
    }
}

/// Structured control flow for code generation.
#[derive(Debug)]
pub enum ControlFlowStructure {
    /// A single basic block.
    Block(u32),
    /// Entry point dispatcher.
    Dispatcher(Vec<u32>),
    /// Loop construct (back edges).
    Loop(Vec<ControlFlowStructure>),
    /// Block construct (forward jumps).
    Forward(Vec<ControlFlowStructure>),
}

/// The addresses a structure starts at.
pub open spec fn head_of(s: ControlFlowStructure) -> Seq<u32>
    decreases s,
{
    match s {
        ControlFlowStructure::Block(a) => seq![a],
        ControlFlowStructure::Dispatcher(entries) => entries@,
        ControlFlowStructure::Loop(children) =>
            if children@.len() > 0 { head_of(children@[0]) } else { Seq::empty() },
        ControlFlowStructure::Forward(children) =>
            if children@.len() > 0 { head_of(children@[0]) } else { Seq::empty() },
    }
}

/// The block addresses of a structure, in order.
pub open spec fn blocks_of(s: ControlFlowStructure) -> Seq<u32>
    decreases s,
{
    match s {
        ControlFlowStructure::Block(a) => seq![a],
        ControlFlowStructure::Dispatcher(_) => Seq::empty(),
        ControlFlowStructure::Loop(children) => blocks_of_all(children@),
        ControlFlowStructure::Forward(children) => blocks_of_all(children@),
    }
}

/// The block addresses of a sequence of structures, in order.
pub open spec fn blocks_of_all(cs: Seq<ControlFlowStructure>) -> Seq<u32>
    decreases cs,
{
    if cs.len() == 0 {
        Seq::empty()
    } else {
        blocks_of_all(cs.drop_last()) + blocks_of(cs.last())
    }
}

impl ControlFlowStructure {
    /// The "head" addresses of this structure.
    pub fn head(&self) -> (r: Vec<u32>)
        ensures
            r@ == head_of(*self),
        decreases *self,
    {
        match self {
            ControlFlowStructure::Block(addr) => vec![*addr],
            ControlFlowStructure::Dispatcher(entries) => entries.clone(),
            ControlFlowStructure::Loop(children) => {
                if children.len() > 0 {
                    children[0].head()
                } else {
                    Vec::new()
                }
            },
            ControlFlowStructure::Forward(children) => {
                if children.len() > 0 {
                    children[0].head()
                } else {
                    Vec::new()
                }
            },
        }
    }

    /// All block addresses in this structure.
    pub fn all_blocks(&self) -> (r: Vec<u32>)
        ensures
            r@ == blocks_of(*self),
        decreases *self,
    {
        match self {
            ControlFlowStructure::Block(addr) => vec![*addr],
            ControlFlowStructure::Dispatcher(_) => Vec::new(),
            ControlFlowStructure::Loop(children) => all_blocks_of(children),
            ControlFlowStructure::Forward(children) => all_blocks_of(children),
        }
    }
}

/// All block addresses of a sequence of structures.
fn all_blocks_of(children: &Vec<ControlFlowStructure>) -> (r: Vec<u32>)
    ensures
        r@ == blocks_of_all(children@),
    decreases children,
{
    let mut out: Vec<u32> = Vec::new();
    let mut i: usize = 0;
    while i < children.len()
        invariant
            i <= children@.len(),
            out@ == blocks_of_all(children@.take(i as int)),
        decreases children@.len() - i,
    {
        let mut b = children[i].all_blocks();
        assert(children@.take(i + 1).drop_last() =~= children@.take(i as int));
        out.append(&mut b);
        i = i + 1;
    }
    assert(children@.take(children@.len() as int) =~= children@);
    out
}

/// A compiled region of a page.
pub struct CompiledRegion {
    /// The basic blocks, by start address.
    pub blocks: HashMap<u32, BasicBlock>,
    /// Structured control flow.
    pub structure: Vec<ControlFlowStructure>,
    /// Entry points.
    pub entry_points: Vec<u32>,
    /// Generation counter for invalidation.
    pub generation: u32,
}

} // verus!
