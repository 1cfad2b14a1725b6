//! WebAssembly bytecode builder for compiled regions.

use vstd::prelude::*;
use std::collections::HashMap;

verus! {

broadcast use vstd::std_specs::hash::group_hash_axioms;

pub const OP_BLOCK: u8 = 0x02;
pub const OP_LOOP: u8 = 0x03;
pub const OP_IF: u8 = 0x04;
pub const OP_ELSE: u8 = 0x05;
pub const OP_END: u8 = 0x0B;
pub const OP_BR: u8 = 0x0C;
pub const OP_BR_IF: u8 = 0x0D;
pub const OP_BR_TABLE: u8 = 0x0E;
pub const OP_RETURN: u8 = 0x0F;
pub const OP_LOCAL_GET: u8 = 0x20;
pub const OP_LOCAL_SET: u8 = 0x21;
pub const OP_LOCAL_TEE: u8 = 0x22;
pub const OP_I32_LOAD: u8 = 0x28;
pub const OP_I32_STORE: u8 = 0x36;
pub const OP_I32_CONST: u8 = 0x41;
pub const OP_I32_EQZ: u8 = 0x45;
pub const OP_I32_EQ: u8 = 0x46;
pub const OP_I32_NE: u8 = 0x47;
pub const OP_I32_LT_S: u8 = 0x48;
pub const OP_I32_LT_U: u8 = 0x49;
pub const OP_I32_GT_S: u8 = 0x4A;
pub const OP_I32_GT_U: u8 = 0x4B;
pub const OP_I32_LE_S: u8 = 0x4C;
pub const OP_I32_LE_U: u8 = 0x4D;
pub const OP_I32_GE_S: u8 = 0x4E;
pub const OP_I32_GE_U: u8 = 0x4F;
pub const OP_I32_ADD: u8 = 0x6A;
pub const OP_I32_SUB: u8 = 0x6B;
pub const OP_I32_MUL: u8 = 0x6C;
pub const OP_I32_DIV_S: u8 = 0x6D;
pub const OP_I32_DIV_U: u8 = 0x6E;
pub const OP_I32_REM_S: u8 = 0x6F;
pub const OP_I32_REM_U: u8 = 0x70;
pub const OP_I32_AND: u8 = 0x71;
pub const OP_I32_OR: u8 = 0x72;
pub const OP_I32_XOR: u8 = 0x73;
pub const OP_I32_SHL: u8 = 0x74;
pub const OP_I32_SHR_S: u8 = 0x75;
pub const OP_I32_SHR_U: u8 = 0x76;
pub const TYPE_VOID: u8 = 0x40;

/// Unsigned LEB128 encoding of `v`.
pub open spec fn leb128_u32(v: nat) -> Seq<u8>
    decreases v,
{
    if v < 0x80 {
        seq![v as u8]
    } else {
        seq![(v % 0x80 + 0x80) as u8] + leb128_u32(v / 0x80)
    }
}

/// Signed LEB128 encoding of `v`: seven bits at a time, low first, until the
/// rest is the sign extension of the last byte's bit 6.
pub open spec fn leb128_i32(v: int) -> Seq<u8>
    decreases (if v >= 0 { v } else { -v - 1 }),
{
    let low = v % 0x80;
    let rest = v / 0x80;
    if (rest == 0 && low < 0x40) || (rest == -1 && low >= 0x40) {
        seq![low as u8]
    } else if v >= 0 || v <= -2 {
        seq![(low + 0x80) as u8] + leb128_i32(rest)
    } else {
        seq![low as u8]
    }
}

/// A label of structured control flow.
#[derive(Copy, Clone, PartialEq, Eq, Structural, Hash, Debug)]
pub struct Label(pub u32);

/// A function body in WebAssembly bytecode, with its open control blocks.
pub struct WasmBuilder {
    /// Output bytecode for the function body.
    code: Vec<u8>,
    /// Open blocks, innermost last.
    label_stack: Vec<Label>,
    /// Next label id.
    next_label: u32,
    /// Stack depth at which each label was opened, by label id.
    label_depths: HashMap<u32, usize>,
    /// Number of local variables.
    local_count: u32,
}

impl WasmBuilder {
    /// The bytecode emitted so far.
    pub closed spec fn code_view(&self) -> Seq<u8> {
        self.code@
    }

    /// The open blocks, innermost last.
    pub closed spec fn labels(&self) -> Seq<Label> {
        self.label_stack@
    }

    /// The number of labels handed out.
    pub closed spec fn label_count(&self) -> nat {
        self.next_label as nat
    }

    /// The number of locals allocated.
    pub closed spec fn locals(&self) -> nat {
        self.local_count as nat
    }

    /// Whether label `l` has been handed out.
    pub open spec fn known(&self, l: Label) -> bool {
        l.0 < self.label_count()
    }

    /// The depth of the stack when label `l` was opened.
    pub closed spec fn opened_at(&self, l: Label) -> nat {
        self.label_depths@[l.0] as nat
    }

    /// Every label handed out has its opening depth recorded, and no more
    /// blocks are open than labels were handed out.
    pub closed spec fn wf(&self) -> bool {
        &&& forall|k: u32| k < self.next_label <==> #[trigger] self.label_depths@.contains_key(k)
        &&& self.label_stack@.len() <= self.next_label
    }

    /// A branch target the builder can resolve: handed out and still enclosing.
    pub open spec fn resolvable(&self, l: Label) -> bool {
        self.known(l) && self.opened_at(l) < self.labels().len()
    }

    /// The relative depth a branch to `l` encodes.
    pub open spec fn depth_of(&self, l: Label) -> nat {
        (self.labels().len() - 1 - self.opened_at(l)) as nat
    }

    /// Everything but the code is as in `prev`.
    pub open spec fn keeps_control(&self, prev: &Self) -> bool {
        &&& self.labels() == prev.labels()
        &&& self.label_count() == prev.label_count()
        &&& self.locals() == prev.locals()
        &&& forall|l: Label| #[trigger] self.opened_at(l) == prev.opened_at(l)
        &&& prev.wf() ==> self.wf()
    }

    /// The branch depths of `ls`, each LEB128-encoded, in order.
    pub open spec fn depths_bytes(&self, ls: Seq<Label>) -> Seq<u8>
        decreases ls.len(),
    {
        if ls.len() == 0 {
            Seq::empty()
        } else {
            self.depths_bytes(ls.drop_last()) + leb128_u32(self.depth_of(ls.last()))
        }
    }

    pub fn new() -> (b: WasmBuilder)
        ensures
            b.wf(),
            b.code_view() == Seq::<u8>::empty(),
            b.labels() == Seq::<Label>::empty(),
            b.label_count() == 0,
            b.locals() == 0,
    {
        WasmBuilder {
            code: Vec::new(),
            label_stack: Vec::new(),
            next_label: 0,
            label_depths: HashMap::new(),
            local_count: 0,
        }
    }

    /// Reset the builder for a new function.
    pub fn reset(&mut self)
        ensures
            final(self).wf(),
            final(self).code_view() == Seq::<u8>::empty(),
            final(self).labels() == Seq::<Label>::empty(),
            final(self).label_count() == 0,
            final(self).locals() == 0,
    {
        self.code.clear();
        self.label_stack.clear();
        self.next_label = 0;
        self.label_depths.clear();
        self.local_count = 0;
    }

    /// The generated code.
    pub fn get_code(&self) -> (r: &[u8])
        ensures
            r@ == self.code_view(),
    {
        self.code.as_slice()
    }

    /// Allocate a new local variable and return its index.
    pub fn alloc_local(&mut self) -> (r: u32)
        requires
            old(self).locals() < u32::MAX,
        ensures
            r == old(self).locals(),
            final(self).locals() == old(self).locals() + 1,
            final(self).code_view() == old(self).code_view(),
            final(self).labels() == old(self).labels(),
            final(self).label_count() == old(self).label_count(),
            forall|l: Label| #[trigger] final(self).opened_at(l) == old(self).opened_at(l),
            old(self).wf() ==> final(self).wf(),
    {
        let idx = self.local_count;
        self.local_count = self.local_count + 1;
        idx
    }

    /// Open a block of kind `opcode` with a fresh label.
    fn open_block(&mut self, opcode: u8) -> (label: Label)
        requires
            old(self).wf(),
            old(self).label_count() < u32::MAX,
        ensures
            final(self).wf(),
            label.0 == old(self).label_count(),
            final(self).label_count() == old(self).label_count() + 1,
            final(self).labels() == old(self).labels().push(label),
            final(self).opened_at(label) == old(self).labels().len(),
            forall|l: Label| old(self).known(l) ==> #[trigger] final(self).opened_at(l) == old(self).opened_at(l),
            final(self).code_view() == old(self).code_view() + seq![opcode, TYPE_VOID],
            final(self).locals() == old(self).locals(),
    {
        let label = Label(self.next_label);
        self.next_label = self.next_label + 1;
        self.label_depths.insert(label.0, self.label_stack.len());
        self.label_stack.push(label);
        self.code.push(opcode);
        self.code.push(TYPE_VOID);
        assert forall|k: u32| k < self.next_label <==> #[trigger] self.label_depths@.contains_key(k) by {
            if k < old(self).next_label {
                assert(old(self).label_depths@.contains_key(k));
            }
        }
        assert(self.code@ =~= old(self).code@ + seq![opcode, TYPE_VOID]);
        label
    }

    /// Begin a block (forward jump target).
    pub fn block_void(&mut self) -> (label: Label)
        requires
            old(self).wf(),
            old(self).label_count() < u32::MAX,
        ensures
            final(self).wf(),
            label.0 == old(self).label_count(),
            final(self).label_count() == old(self).label_count() + 1,
            final(self).labels() == old(self).labels().push(label),
            final(self).opened_at(label) == old(self).labels().len(),
            forall|l: Label| old(self).known(l) ==> #[trigger] final(self).opened_at(l) == old(self).opened_at(l),
            final(self).code_view() == old(self).code_view() + seq![OP_BLOCK, TYPE_VOID],
            final(self).locals() == old(self).locals(),
    {
        self.open_block(OP_BLOCK)
    }

    /// Begin a loop (backward jump target).
    pub fn loop_void(&mut self) -> (label: Label)
        requires
            old(self).wf(),
            old(self).label_count() < u32::MAX,
        ensures
            final(self).wf(),
            label.0 == old(self).label_count(),
            final(self).label_count() == old(self).label_count() + 1,
            final(self).labels() == old(self).labels().push(label),
            final(self).opened_at(label) == old(self).labels().len(),
            forall|l: Label| old(self).known(l) ==> #[trigger] final(self).opened_at(l) == old(self).opened_at(l),
            final(self).code_view() == old(self).code_view() + seq![OP_LOOP, TYPE_VOID],
            final(self).locals() == old(self).locals(),
    {
        self.open_block(OP_LOOP)
    }

    /// If-then on the condition on the stack.
    pub fn if_void(&mut self) -> (label: Label)
        requires
            old(self).wf(),
            old(self).label_count() < u32::MAX,
        ensures
            final(self).wf(),
            label.0 == old(self).label_count(),
            final(self).label_count() == old(self).label_count() + 1,
            final(self).labels() == old(self).labels().push(label),
            final(self).opened_at(label) == old(self).labels().len(),
            forall|l: Label| old(self).known(l) ==> #[trigger] final(self).opened_at(l) == old(self).opened_at(l),
            final(self).code_view() == old(self).code_view() + seq![OP_IF, TYPE_VOID],
            final(self).locals() == old(self).locals(),
    {
        self.open_block(OP_IF)
    }

    /// End the innermost block or loop.
    pub fn end(&mut self)
        ensures
            old(self).wf() ==> final(self).wf(),
            final(self).labels() == (if old(self).labels().len() == 0 { old(self).labels() } else { old(self).labels().drop_last() }),
            final(self).code_view() == old(self).code_view().push(OP_END),
            final(self).label_count() == old(self).label_count(),
            forall|l: Label| #[trigger] final(self).opened_at(l) == old(self).opened_at(l),
            final(self).locals() == old(self).locals(),
    {
        let _ = self.label_stack.pop();
        self.code.push(OP_END);
    }

    /// Append one opcode byte.
    fn emit(&mut self, opcode: u8)
        ensures
            final(self).code_view() == old(self).code_view().push(opcode),
            final(self).keeps_control(&*old(self)),
    {
        self.code.push(opcode);
    }

    /// Else branch.
    pub fn else_(&mut self)
        ensures
            final(self).code_view() == old(self).code_view().push(OP_ELSE),
            final(self).keeps_control(&*old(self)),
    {
        self.emit(OP_ELSE);
    }

    /// Return from the function.
    pub fn return_(&mut self)
        ensures
            final(self).code_view() == old(self).code_view().push(OP_RETURN),
            final(self).keeps_control(&*old(self)),
    {
        self.emit(OP_RETURN);
    }

    /// Emit `i32.add`.
    pub fn i32_add(&mut self)
        ensures
            final(self).code_view() == old(self).code_view().push(OP_I32_ADD),
            final(self).keeps_control(&*old(self)),
    {
        self.emit(OP_I32_ADD);
    }

    /// Emit `i32.sub`.
    pub fn i32_sub(&mut self)
        ensures
            final(self).code_view() == old(self).code_view().push(OP_I32_SUB),
            final(self).keeps_control(&*old(self)),
    {
        self.emit(OP_I32_SUB);
    }

    /// Emit `i32.mul`.
    pub fn i32_mul(&mut self)
        ensures
            final(self).code_view() == old(self).code_view().push(OP_I32_MUL),
            final(self).keeps_control(&*old(self)),
    {
        self.emit(OP_I32_MUL);
    }

    /// Emit `i32.div_s`.
    pub fn i32_div_s(&mut self)
        ensures
            final(self).code_view() == old(self).code_view().push(OP_I32_DIV_S),
            final(self).keeps_control(&*old(self)),
    {
        self.emit(OP_I32_DIV_S);
    }

    /// Emit `i32.div_u`.
    pub fn i32_div_u(&mut self)
        ensures
            final(self).code_view() == old(self).code_view().push(OP_I32_DIV_U),
            final(self).keeps_control(&*old(self)),
    {
        self.emit(OP_I32_DIV_U);
    }

    /// Emit `i32.rem_s`.
    pub fn i32_rem_s(&mut self)
        ensures
            final(self).code_view() == old(self).code_view().push(OP_I32_REM_S),
            final(self).keeps_control(&*old(self)),
    {
        self.emit(OP_I32_REM_S);
    }

    /// Emit `i32.rem_u`.
    pub fn i32_rem_u(&mut self)
        ensures
            final(self).code_view() == old(self).code_view().push(OP_I32_REM_U),
            final(self).keeps_control(&*old(self)),
    {
        self.emit(OP_I32_REM_U);
    }

    /// Emit `i32.and`.
    pub fn i32_and(&mut self)
        ensures
            final(self).code_view() == old(self).code_view().push(OP_I32_AND),
            final(self).keeps_control(&*old(self)),
    {
        self.emit(OP_I32_AND);
    }

    /// Emit `i32.or`.
    pub fn i32_or(&mut self)
        ensures
            final(self).code_view() == old(self).code_view().push(OP_I32_OR),
            final(self).keeps_control(&*old(self)),
    {
        self.emit(OP_I32_OR);
    }

    /// Emit `i32.xor`.
    pub fn i32_xor(&mut self)
        ensures
            final(self).code_view() == old(self).code_view().push(OP_I32_XOR),
            final(self).keeps_control(&*old(self)),
    {
        self.emit(OP_I32_XOR);
    }

    /// Emit `i32.shl`.
    pub fn i32_shl(&mut self)
        ensures
            final(self).code_view() == old(self).code_view().push(OP_I32_SHL),
            final(self).keeps_control(&*old(self)),
    {
        self.emit(OP_I32_SHL);
    }

    /// Emit `i32.shr_s`.
    pub fn i32_shr_s(&mut self)
        ensures
            final(self).code_view() == old(self).code_view().push(OP_I32_SHR_S),
            final(self).keeps_control(&*old(self)),
    {
        self.emit(OP_I32_SHR_S);
    }

    /// Emit `i32.shr_u`.
    pub fn i32_shr_u(&mut self)
        ensures
            final(self).code_view() == old(self).code_view().push(OP_I32_SHR_U),
            final(self).keeps_control(&*old(self)),
    {
        self.emit(OP_I32_SHR_U);
    }

    /// Emit `i32.eqz`.
    pub fn i32_eqz(&mut self)
        ensures
            final(self).code_view() == old(self).code_view().push(OP_I32_EQZ),
            final(self).keeps_control(&*old(self)),
    {
        self.emit(OP_I32_EQZ);
    }

    /// Emit `i32.eq`.
    pub fn i32_eq(&mut self)
        ensures
            final(self).code_view() == old(self).code_view().push(OP_I32_EQ),
            final(self).keeps_control(&*old(self)),
    {
        self.emit(OP_I32_EQ);
    }

    /// Emit `i32.ne`.
    pub fn i32_ne(&mut self)
        ensures
            final(self).code_view() == old(self).code_view().push(OP_I32_NE),
            final(self).keeps_control(&*old(self)),
    {
        self.emit(OP_I32_NE);
    }

    /// Emit `i32.lt_s`.
    pub fn i32_lt_s(&mut self)
        ensures
            final(self).code_view() == old(self).code_view().push(OP_I32_LT_S),
            final(self).keeps_control(&*old(self)),
    {
        self.emit(OP_I32_LT_S);
    }

    /// Emit `i32.lt_u`.
    pub fn i32_lt_u(&mut self)
        ensures
            final(self).code_view() == old(self).code_view().push(OP_I32_LT_U),
            final(self).keeps_control(&*old(self)),
    {
        self.emit(OP_I32_LT_U);
    }

    /// Emit `i32.gt_s`.
    pub fn i32_gt_s(&mut self)
        ensures
            final(self).code_view() == old(self).code_view().push(OP_I32_GT_S),
            final(self).keeps_control(&*old(self)),
    {
        self.emit(OP_I32_GT_S);
    }

    /// Emit `i32.gt_u`.
    pub fn i32_gt_u(&mut self)
        ensures
            final(self).code_view() == old(self).code_view().push(OP_I32_GT_U),
            final(self).keeps_control(&*old(self)),
    {
        self.emit(OP_I32_GT_U);
    }

    /// Emit `i32.le_s`.
    pub fn i32_le_s(&mut self)
        ensures
            final(self).code_view() == old(self).code_view().push(OP_I32_LE_S),
            final(self).keeps_control(&*old(self)),
    {
        self.emit(OP_I32_LE_S);
    }

    /// Emit `i32.le_u`.
    pub fn i32_le_u(&mut self)
        ensures
            final(self).code_view() == old(self).code_view().push(OP_I32_LE_U),
            final(self).keeps_control(&*old(self)),
    {
        self.emit(OP_I32_LE_U);
    }

    /// Emit `i32.ge_s`.
    pub fn i32_ge_s(&mut self)
        ensures
            final(self).code_view() == old(self).code_view().push(OP_I32_GE_S),
            final(self).keeps_control(&*old(self)),
    {
        self.emit(OP_I32_GE_S);
    }

    /// Emit `i32.ge_u`.
    pub fn i32_ge_u(&mut self)
        ensures
            final(self).code_view() == old(self).code_view().push(OP_I32_GE_U),
            final(self).keeps_control(&*old(self)),
    {
        self.emit(OP_I32_GE_U);
    }

    /// Read local variable `idx`.
    pub fn local_get(&mut self, idx: u32)
        ensures
            final(self).code_view() == old(self).code_view().push(OP_LOCAL_GET) + leb128_u32(idx as nat),
            final(self).keeps_control(&*old(self)),
    {
        self.emit(OP_LOCAL_GET);
        self.write_leb128_u32(idx);
    }

    /// Write local variable `idx`.
    pub fn local_set(&mut self, idx: u32)
        ensures
            final(self).code_view() == old(self).code_view().push(OP_LOCAL_SET) + leb128_u32(idx as nat),
            final(self).keeps_control(&*old(self)),
    {
        self.emit(OP_LOCAL_SET);
        self.write_leb128_u32(idx);
    }

    /// Write local variable `idx`, keeping the value on the stack.
    pub fn local_tee(&mut self, idx: u32)
        ensures
            final(self).code_view() == old(self).code_view().push(OP_LOCAL_TEE) + leb128_u32(idx as nat),
            final(self).keeps_control(&*old(self)),
    {
        self.emit(OP_LOCAL_TEE);
        self.write_leb128_u32(idx);
    }

    /// Push an i32 constant.
    pub fn i32_const(&mut self, value: i32)
        ensures
            final(self).code_view() == old(self).code_view().push(OP_I32_CONST) + leb128_i32(value as int),
            final(self).keeps_control(&*old(self)),
    {
        self.emit(OP_I32_CONST);
        self.write_leb128_i32(value);
    }

    /// Load an i32 from memory (address on the stack).
    pub fn i32_load(&mut self, align: u32, offset: u32)
        ensures
            final(self).code_view() == old(self).code_view().push(OP_I32_LOAD) + leb128_u32(align as nat)
                + leb128_u32(offset as nat),
            final(self).keeps_control(&*old(self)),
    {
        self.emit(OP_I32_LOAD);
        self.write_leb128_u32(align);
        self.write_leb128_u32(offset);
    }

    /// Store an i32 to memory (address and value on the stack).
    pub fn i32_store(&mut self, align: u32, offset: u32)
        ensures
            final(self).code_view() == old(self).code_view().push(OP_I32_STORE) + leb128_u32(align as nat)
                + leb128_u32(offset as nat),
            final(self).keeps_control(&*old(self)),
    {
        self.emit(OP_I32_STORE);
        self.write_leb128_u32(align);
        self.write_leb128_u32(offset);
    }

    /// Unconditional branch to `label`.
    pub fn br(&mut self, label: Label)
        requires
            old(self).wf(),
            old(self).resolvable(label),
        ensures
            final(self).code_view() == old(self).code_view().push(OP_BR) + leb128_u32(old(self).depth_of(label)),
            final(self).keeps_control(&*old(self)),
    {
        let depth = self.label_depth(label);
        self.emit(OP_BR);
        self.write_leb128_u32(depth);
    }

    /// Branch to `label` if the top of the stack is non-zero.
    pub fn br_if(&mut self, label: Label)
        requires
            old(self).wf(),
            old(self).resolvable(label),
        ensures
            final(self).code_view() == old(self).code_view().push(OP_BR_IF) + leb128_u32(old(self).depth_of(label)),
            final(self).keeps_control(&*old(self)),
    {
        let depth = self.label_depth(label);
        self.emit(OP_BR_IF);
        self.write_leb128_u32(depth);
    }

    /// Branch table: the index on the stack picks one of `labels`, else `default`.
    pub fn br_table(&mut self, labels: &[Label], default: Label)
        requires
            old(self).wf(),
            labels@.len() <= u32::MAX,
            forall|i: int| 0 <= i < labels@.len() ==> old(self).resolvable(#[trigger] labels@[i]),
            old(self).resolvable(default),
        ensures
            final(self).code_view() == old(self).code_view().push(OP_BR_TABLE) + leb128_u32(labels@.len())
                + old(self).depths_bytes(labels@) + leb128_u32(old(self).depth_of(default)),
            final(self).keeps_control(&*old(self)),
    {
        self.emit(OP_BR_TABLE);
        self.write_leb128_u32(labels.len() as u32);
        let ghost start = self.code@;
        let mut i: usize = 0;
        while i < labels.len()
            invariant
                i <= labels@.len(),
                self.wf(),
                self.keeps_control(&*old(self)),
                forall|j: int| 0 <= j < labels@.len() ==> old(self).resolvable(#[trigger] labels@[j]),
                self.code@ == start + old(self).depths_bytes(labels@.take(i as int)),
            decreases labels@.len() - i,
        {
            let depth = self.label_depth(labels[i]);
            self.write_leb128_u32(depth);
            assert(labels@.take(i + 1).drop_last() =~= labels@.take(i as int));
            i = i + 1;
        }
        assert(labels@.take(labels@.len() as int) =~= labels@);
        let default_depth = self.label_depth(default);
        self.write_leb128_u32(default_depth);
    }

    /// The relative branch depth of `label`.
    fn label_depth(&self, label: Label) -> (r: u32)
        requires
            self.wf(),
            self.resolvable(label),
        ensures
            r == self.depth_of(label),
    {
        assert(self.label_depths@.contains_key(label.0));
        let target_depth = *self.label_depths.get(&label.0).unwrap();
        (self.label_stack.len() - 1 - target_depth) as u32
    }

    /// Append the unsigned LEB128 encoding of `value`.
    fn write_leb128_u32(&mut self, value: u32)
        ensures
            final(self).code_view() == old(self).code_view() + leb128_u32(value as nat),
            final(self).labels() == old(self).labels(),
            final(self).label_count() == old(self).label_count(),
            forall|l: Label| #[trigger] final(self).opened_at(l) == old(self).opened_at(l),
            final(self).locals() == old(self).locals(),
            old(self).wf() ==> final(self).wf(),
    {
        let mut v = value;
        loop
            invariant_except_break
                self.code@ + leb128_u32(v as nat) == old(self).code@ + leb128_u32(value as nat),
            invariant
                self.label_stack == old(self).label_stack,
                self.next_label == old(self).next_label,
                self.label_depths == old(self).label_depths,
                self.local_count == old(self).local_count,
            ensures
                self.code@ == old(self).code@ + leb128_u32(value as nat),
            decreases v,
        {
            let byte = (v % 0x80) as u8;
            let rest = v / 0x80;
            if rest == 0 {
                self.code.push(byte);
                assert(self.code@ == old(self).code@ + leb128_u32(value as nat));
                break;
            } else {
                let ghost before = self.code@;
                self.code.push(byte + 0x80);
                assert(leb128_u32(v as nat) == seq![(byte + 0x80) as u8] + leb128_u32(rest as nat));
                assert(before + leb128_u32(v as nat) == self.code@ + leb128_u32(rest as nat));
                v = rest;
            }
        }
    }

    /// Append the signed LEB128 encoding of `value`.
    fn write_leb128_i32(&mut self, value: i32)
        ensures
            final(self).code_view() == old(self).code_view() + leb128_i32(value as int),
            final(self).labels() == old(self).labels(),
            final(self).label_count() == old(self).label_count(),
            forall|l: Label| #[trigger] final(self).opened_at(l) == old(self).opened_at(l),
            final(self).locals() == old(self).locals(),
            old(self).wf() ==> final(self).wf(),
    {
        let mut v: i64 = value as i64;
        loop
            invariant_except_break
                i32::MIN <= v <= i32::MAX,
                self.code@ + leb128_i32(v as int) == old(self).code@ + leb128_i32(value as int),
            invariant
                self.label_stack == old(self).label_stack,
                self.next_label == old(self).next_label,
                self.label_depths == old(self).label_depths,
                self.local_count == old(self).local_count,
            ensures
                self.code@ == old(self).code@ + leb128_i32(value as int),
            decreases (if v >= 0 { v as int } else { -v - 1 }),
        {
            let rest: i64 = if v >= 0 { v / 0x80 } else { -((-v + 0x7F) / 0x80) };
            let low: i64 = v - rest * 0x80;
            assert(rest == v / 0x80 && low == v % 0x80) by (nonlinear_arith)
                requires
                    rest == (if v >= 0 { v / 0x80 } else { -((-v + 0x7F) / 0x80) }),
                    low == v - rest * 0x80,
            {
                if v < 0 {
                    let q = (-v + 0x7F) / 0x80;
                    assert(0x80 * q <= -v + 0x7F < 0x80 * q + 0x80);
                }
            }
            let byte = low as u8;
            if (rest == 0 && low < 0x40) || (rest == -1 && low >= 0x40) {
                self.code.push(byte);
                assert(self.code@ == old(self).code@ + leb128_i32(value as int));
                break;
            } else {
                let ghost before = self.code@;
                self.code.push(byte + 0x80);
                assert(v >= 0 || v <= -2);
                assert(leb128_i32(v as int) == seq![(byte + 0x80) as u8] + leb128_i32(rest as int));
                assert(before + leb128_i32(v as int) == self.code@ + leb128_i32(rest as int));
                v = rest;
            }
        }
    }
}

} // verus!
