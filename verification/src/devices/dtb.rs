//! Flattened Device Tree (FDT) writer: header, memory reservation map,
//! structure block and strings block.

use vstd::prelude::*;
use crate::devices::wire::push_all;

verus! {

pub const FDT_MAGIC: u32 = 0xd00dfeed;
pub const FDT_VERSION: u32 = 17;
pub const FDT_LAST_COMP_VERSION: u32 = 16;
pub const FDT_BEGIN_NODE: u32 = 1;
pub const FDT_END_NODE: u32 = 2;
pub const FDT_PROP: u32 = 3;
pub const FDT_NOP: u32 = 4;
pub const FDT_END: u32 = 9;

/// Header size in bytes.
pub const FDT_HEADER_SIZE: u32 = 40;
/// Size of the memory reservation map (one terminating empty entry).
pub const FDT_RSVMAP_SIZE: u32 = 16;

/// The big-endian bytes of `x`.
pub open spec fn be32_seq(x: u32) -> Seq<u8> {
    seq![(x / 0x100_0000) as u8, ((x / 0x1_0000) % 0x100) as u8, ((x / 0x100) % 0x100) as u8, (x % 0x100) as u8]
}

/// Zero bytes that pad `len` bytes to a multiple of four.
pub open spec fn pad4(len: nat) -> Seq<u8> {
    Seq::new(((4 - len % 4) % 4) as nat, |i: int| 0u8)
}

/// The UTF-8 bytes of a string.
pub open spec fn str_bytes(s: &str) -> Seq<u8> {
    vstd::utf8::encode_utf8(s@)
}

/// The offset recorded for a name in an association list (later entries win).
pub open spec fn name_lookup(entries: Seq<(Seq<u8>, u32)>, k: Seq<u8>) -> Option<u32>
    decreases entries.len(),
{
    if entries.len() == 0 {
        None
    } else if entries.last().0 == k {
        Some(entries.last().1)
    } else {
        name_lookup(entries.drop_last(), k)
    }
}

/// What a builder holds: the structure block, the strings block, and the
/// recorded property names with their offsets.
pub open spec fn fdt_state(st: Seq<u8>, sb: Seq<u8>, names: Seq<(Seq<u8>, u32)>) -> (Seq<u8>, Seq<u8>, Seq<(Seq<u8>, u32)>) {
    (st, sb, names)
}

/// The builder state after a node named `name` is begun.
pub open spec fn fdt_begin(s: (Seq<u8>, Seq<u8>, Seq<(Seq<u8>, u32)>), name: Seq<u8>) -> (Seq<u8>, Seq<u8>, Seq<(Seq<u8>, u32)>) {
    (s.0 + be32_seq(FDT_BEGIN_NODE) + name + seq![0u8] + pad4((s.0.len() + 4 + name.len() + 1) as nat), s.1, s.2)
}

/// The builder state after the current node is ended.
pub open spec fn fdt_end(s: (Seq<u8>, Seq<u8>, Seq<(Seq<u8>, u32)>)) -> (Seq<u8>, Seq<u8>, Seq<(Seq<u8>, u32)>) {
    (s.0 + be32_seq(FDT_END_NODE), s.1, s.2)
}

/// The builder state after a property `name` with value `data`: a name seen
/// before reuses its strings-block offset, a new one is appended.
pub open spec fn fdt_prop(s: (Seq<u8>, Seq<u8>, Seq<(Seq<u8>, u32)>), name: Seq<u8>, data: Seq<u8>) -> (Seq<u8>, Seq<u8>, Seq<(Seq<u8>, u32)>) {
    let off = match name_lookup(s.2, name) {
        Some(o) => o,
        None => s.1.len() as u32,
    };
    let st = s.0 + be32_seq(FDT_PROP) + be32_seq(data.len() as u32) + be32_seq(off) + data
        + pad4((s.0.len() + 12 + data.len()) as nat);
    match name_lookup(s.2, name) {
        Some(o) => (st, s.1, s.2),
        None => (st, s.1 + name + seq![0u8], s.2.push((name, off))),
    }
}

/// Builds a flattened device tree.
pub struct DtbBuilder {
    struct_buf: Vec<u8>,
    strings_buf: Vec<u8>,
    string_offsets: Vec<(Vec<u8>, u32)>,
}

impl DtbBuilder {
    /// The structure block written so far.
    pub closed spec fn struct_bytes(&self) -> Seq<u8> {
        self.struct_buf@
    }

    /// The strings block written so far.
    pub closed spec fn strings_bytes(&self) -> Seq<u8> {
        self.strings_buf@
    }

    /// The property names recorded so far, with their offsets in the strings block.
    pub closed spec fn names(&self) -> Seq<(Seq<u8>, u32)> {
        self.string_offsets@.map_values(|e: (Vec<u8>, u32)| (e.0@, e.1))
    }

    /// The structure block, the strings block and the recorded names.
    pub open spec fn state(&self) -> (Seq<u8>, Seq<u8>, Seq<(Seq<u8>, u32)>) {
        fdt_state(self.struct_bytes(), self.strings_bytes(), self.names())
    }

    /// The strings-block offset of property name `k`, if it was used.
    pub open spec fn offset_of(&self, k: Seq<u8>) -> Option<u32> {
        name_lookup(self.names(), k)
    }

    /// Each recorded offset points at the name, NUL-terminated, in the strings block;
    /// the structure block stays 4-byte aligned.
    pub open spec fn wf(&self) -> bool {
        &&& self.struct_bytes().len() % 4 == 0
        &&& self.strings_bytes().len() < 0x1_0000_0000 ==> forall|i: int| 0 <= i < self.names().len() ==> {
            let (k, off) = #[trigger] self.names()[i];
            &&& off + k.len() < self.strings_bytes().len()
            &&& self.strings_bytes().subrange(off as int, off + k.len()) == k
            &&& self.strings_bytes()[off + k.len()] == 0
        }
    }

    pub fn new() -> (b: DtbBuilder)
        ensures
            b.wf(),
            b.struct_bytes().len() == 0,
            b.strings_bytes().len() == 0,
            forall|k: Seq<u8>| #[trigger] b.offset_of(k) is None,
            b.state() == fdt_state(Seq::empty(), Seq::empty(), Seq::empty()),
    {
        let b = DtbBuilder { struct_buf: Vec::new(), strings_buf: Vec::new(), string_offsets: Vec::new() };
        assert(b.names() =~= Seq::<(Seq<u8>, u32)>::empty());
        b
    }

    /// Appends a big-endian word to the structure block.
    fn push_u32(&mut self, v: u32)
        requires
            old(self).wf(),
        ensures
            final(self).struct_bytes() == old(self).struct_bytes() + be32_seq(v),
            final(self).strings_bytes() == old(self).strings_bytes(),
            final(self).names() == old(self).names(),
    {
        self.struct_buf.push((v / 0x100_0000) as u8);
        self.struct_buf.push(((v / 0x1_0000) % 0x100) as u8);
        self.struct_buf.push(((v / 0x100) % 0x100) as u8);
        self.struct_buf.push((v % 0x100) as u8);
        assert(self.struct_bytes() =~= old(self).struct_bytes() + be32_seq(v));
    }

    /// Pads the structure block with zeros to a multiple of four.
    fn align4(&mut self)
        ensures
            final(self).struct_bytes() == old(self).struct_bytes() + pad4(old(self).struct_bytes().len()),
            final(self).strings_bytes() == old(self).strings_bytes(),
            final(self).names() == old(self).names(),
    {
        let ghost start = self.struct_buf@;
        while self.struct_buf.len() % 4 != 0
            invariant
                start.len() <= self.struct_buf@.len() <= start.len() + 3,
                self.struct_buf@ == start + Seq::new((self.struct_buf@.len() - start.len()) as nat, |i: int| 0u8),
                self.struct_buf@.len() % 4 != 0 ==> self.struct_buf@.len() - start.len() < (4 - start.len() % 4) % 4,
                self.struct_buf@.len() % 4 == 0 ==> self.struct_buf@.len() - start.len() == (4 - start.len() % 4) % 4,
                self.strings_buf == old(self).strings_buf,
                self.string_offsets == old(self).string_offsets,
            decreases start.len() + 3 - self.struct_buf@.len(),
        {
            self.struct_buf.push(0);
            assert(self.struct_buf@ =~= start + Seq::new((self.struct_buf@.len() - start.len()) as nat, |i: int| 0u8));
        }
        assert(self.struct_buf@ =~= start + pad4(start.len()));
    }

    /// Starts a node named `name`.
    pub fn begin_node(&mut self, name: &str)
        requires
            old(self).wf(),
        ensures
            final(self).wf(),
            final(self).struct_bytes() == old(self).struct_bytes() + be32_seq(FDT_BEGIN_NODE) + str_bytes(name)
                + seq![0u8] + pad4((old(self).struct_bytes().len() + 4 + str_bytes(name).len() + 1) as nat),
            final(self).strings_bytes() == old(self).strings_bytes(),
            final(self).names() == old(self).names(),
            final(self).state() == fdt_begin(old(self).state(), str_bytes(name)),
    {
        self.push_u32(FDT_BEGIN_NODE);
        push_all(&mut self.struct_buf, name.as_bytes());
        self.struct_buf.push(0);
        self.align4();
    }

    /// Ends the current node.
    pub fn end_node(&mut self)
        requires
            old(self).wf(),
        ensures
            final(self).wf(),
            final(self).struct_bytes() == old(self).struct_bytes() + be32_seq(FDT_END_NODE),
            final(self).strings_bytes() == old(self).strings_bytes(),
            final(self).names() == old(self).names(),
            final(self).state() == fdt_end(old(self).state()),
    {
        self.push_u32(FDT_END_NODE);
    }

    /// The strings-block offset of `s`, adding it if it is new.
    fn get_string_offset(&mut self, s: &str) -> (off: u32)
        requires
            old(self).wf(),
        ensures
            final(self).wf(),
            final(self).struct_bytes() == old(self).struct_bytes(),
            old(self).offset_of(str_bytes(s)) matches Some(o) ==> off == o
                && final(self).strings_bytes() == old(self).strings_bytes() && final(self).names() == old(self).names(),
            old(self).offset_of(str_bytes(s)) is None ==> {
                &&& off == old(self).strings_bytes().len() as u32
                &&& final(self).strings_bytes() == old(self).strings_bytes() + str_bytes(s) + seq![0u8]
                &&& final(self).names() == old(self).names().push((str_bytes(s), off))
            },
            final(self).offset_of(str_bytes(s)) == Some(off),
    {
        let key = s.as_bytes();
        let n = self.string_offsets.len();
        let mut i = n;
        assert(self.names().take(n as int) =~= self.names());
        while i > 0
            invariant
                i <= n,
                n == self.string_offsets@.len(),
                key@ == str_bytes(s),
                self.offset_of(key@) == name_lookup(self.names().take(i as int), key@),
                *self == *old(self),
                old(self).wf(),
            decreases i,
        {
            let ghost t = self.names().take(i as int);
            if Self::bytes_eq(self.string_offsets[i - 1].0.as_slice(), key) {
                assert(t.last() == self.names()[i - 1]);
                return self.string_offsets[i - 1].1;
            }
            assert(t.drop_last() =~= self.names().take(i - 1));
            i = i - 1;
        }
        let off = self.strings_buf.len() as u32;
        push_all(&mut self.strings_buf, key);
        self.strings_buf.push(0);
        let mut k: Vec<u8> = Vec::new();
        push_all(&mut k, key);
        let ghost before = self.names();
        self.string_offsets.push((k, off));
        assert(self.names() =~= before.push((key@, off)));
        assert(self.names().drop_last() =~= before);
        proof {
            let sb = self.strings_bytes();
            if sb.len() < 0x1_0000_0000 {
            assert forall|j: int| 0 <= j < self.names().len() implies {
                let (kk, o) = #[trigger] self.names()[j];
                &&& o + kk.len() < sb.len()
                &&& sb.subrange(o as int, o + kk.len()) == kk
                &&& sb[o + kk.len()] == 0
            } by {
                if j < before.len() {
                    let (kk, o) = before[j];
                    assert(sb.subrange(o as int, o + kk.len()) =~= old(self).strings_bytes().subrange(o as int, o + kk.len()));
                } else {
                    assert(sb.subrange(off as int, off + key@.len()) =~= key@);
                }
            }
            }
        }
        off
    }

    /// Byte-wise equality.
    fn bytes_eq(a: &[u8], b: &[u8]) -> (r: bool)
        ensures
            r == (a@ == b@),
    {
        if a.len() != b.len() {
            return false;
        }
        let mut i: usize = 0;
        while i < a.len()
            invariant
                i <= a@.len(),
                a@.len() == b@.len(),
                a@.subrange(0, i as int) == b@.subrange(0, i as int),
            decreases a@.len() - i,
        {
            if a[i] != b[i] {
                assert(a@[i as int] != b@[i as int]);
                return false;
            }
            i = i + 1;
            assert(a@.subrange(0, i as int) =~= b@.subrange(0, i as int));
        }
        assert(a@ =~= a@.subrange(0, i as int));
        assert(b@ =~= b@.subrange(0, i as int));
        true
    }

    /// A property with raw bytes.
    pub fn property(&mut self, name: &str, data: &[u8])
        requires
            old(self).wf(),
        ensures
            final(self).wf(),
            ({
                let off = match old(self).offset_of(str_bytes(name)) {
                    Some(o) => o,
                    None => old(self).strings_bytes().len() as u32,
                };
                &&& final(self).offset_of(str_bytes(name)) == Some(off)
                &&& final(self).struct_bytes() == old(self).struct_bytes() + be32_seq(FDT_PROP)
                    + be32_seq(data@.len() as u32) + be32_seq(off) + data@
                    + pad4((old(self).struct_bytes().len() + 12 + data@.len()) as nat)
            }),
            old(self).offset_of(str_bytes(name)) is Some ==> final(self).strings_bytes() == old(self).strings_bytes(),
            old(self).offset_of(str_bytes(name)) is None ==>
                final(self).strings_bytes() == old(self).strings_bytes() + str_bytes(name) + seq![0u8],
            final(self).state() == fdt_prop(old(self).state(), str_bytes(name), data@),
    {
        self.push_u32(FDT_PROP);
        self.push_u32(data.len() as u32);
        let name_off = self.get_string_offset(name);
        self.push_u32(name_off);
        push_all(&mut self.struct_buf, data);
        self.align4();
    }

    pub fn property_u32(&mut self, name: &str, value: u32)
        requires
            old(self).wf(),
        ensures
            final(self).wf(),
            ({
                let off = match old(self).offset_of(str_bytes(name)) { Some(o) => o, None => old(self).strings_bytes().len() as u32 };
                final(self).struct_bytes() == old(self).struct_bytes() + be32_seq(FDT_PROP) + be32_seq(4)
                    + be32_seq(off) + be32_seq(value)
            }),
            final(self).state() == fdt_prop(old(self).state(), str_bytes(name), be32_seq(value)),
    {
        let bytes: [u8; 4] = [(value / 0x100_0000) as u8, ((value / 0x1_0000) % 0x100) as u8,
            ((value / 0x100) % 0x100) as u8, (value % 0x100) as u8];
        assert(bytes@ =~= be32_seq(value));
        self.property(name, &bytes);
        assert(pad4((old(self).struct_bytes().len() + 16) as nat) =~= Seq::<u8>::empty());
    }

    pub fn property_u64(&mut self, name: &str, value: u64)
        requires
            old(self).wf(),
        ensures
            final(self).wf(),
            ({
                let off = match old(self).offset_of(str_bytes(name)) { Some(o) => o, None => old(self).strings_bytes().len() as u32 };
                final(self).struct_bytes() == old(self).struct_bytes() + be32_seq(FDT_PROP) + be32_seq(8)
                    + be32_seq(off) + be32_seq((value / 0x1_0000_0000) as u32) + be32_seq((value % 0x1_0000_0000) as u32)
            }),
            final(self).state() == fdt_prop(old(self).state(), str_bytes(name),
                be32_seq((value / 0x1_0000_0000) as u32) + be32_seq((value % 0x1_0000_0000) as u32)),
    {
        let hi = (value / 0x1_0000_0000) as u32;
        let lo = (value % 0x1_0000_0000) as u32;
        let bytes: [u8; 8] = [(hi / 0x100_0000) as u8, ((hi / 0x1_0000) % 0x100) as u8, ((hi / 0x100) % 0x100) as u8,
            (hi % 0x100) as u8, (lo / 0x100_0000) as u8, ((lo / 0x1_0000) % 0x100) as u8,
            ((lo / 0x100) % 0x100) as u8, (lo % 0x100) as u8];
        assert(bytes@ =~= be32_seq(hi) + be32_seq(lo));
        self.property(name, &bytes);
        assert(pad4((old(self).struct_bytes().len() + 20) as nat) =~= Seq::<u8>::empty());
    }

    pub fn property_null(&mut self, name: &str)
        requires
            old(self).wf(),
        ensures
            final(self).wf(),
            ({
                let off = match old(self).offset_of(str_bytes(name)) { Some(o) => o, None => old(self).strings_bytes().len() as u32 };
                final(self).struct_bytes() == old(self).struct_bytes() + be32_seq(FDT_PROP) + be32_seq(0) + be32_seq(off)
            }),
            final(self).state() == fdt_prop(old(self).state(), str_bytes(name), Seq::<u8>::empty()),
    {
        let empty: [u8; 0] = [];
        self.property(name, &empty);
        assert(pad4((old(self).struct_bytes().len() + 12) as nat) =~= Seq::<u8>::empty());
        assert(empty@ =~= Seq::<u8>::empty());
    }

    pub fn property_string(&mut self, name: &str, value: &str)
        requires
            old(self).wf(),
        ensures
            final(self).wf(),
            ({
                let off = match old(self).offset_of(str_bytes(name)) { Some(o) => o, None => old(self).strings_bytes().len() as u32 };
                let data = str_bytes(value) + seq![0u8];
                final(self).struct_bytes() == old(self).struct_bytes() + be32_seq(FDT_PROP) + be32_seq(data.len() as u32)
                    + be32_seq(off) + data + pad4((old(self).struct_bytes().len() + 12 + data.len()) as nat)
            }),
            final(self).state() == fdt_prop(old(self).state(), str_bytes(name), str_bytes(value) + seq![0u8]),
    {
        let mut data: Vec<u8> = Vec::new();
        push_all(&mut data, value.as_bytes());
        data.push(0);
        self.property(name, data.as_slice());
    }

    pub fn property_array_u32(&mut self, name: &str, values: &[u32])
        requires
            old(self).wf(),
        ensures
            final(self).wf(),
            ({
                let off = match old(self).offset_of(str_bytes(name)) { Some(o) => o, None => old(self).strings_bytes().len() as u32 };
                let data = be32_concat(values@);
                final(self).struct_bytes() == old(self).struct_bytes() + be32_seq(FDT_PROP) + be32_seq(data.len() as u32)
                    + be32_seq(off) + data + pad4((old(self).struct_bytes().len() + 12 + data.len()) as nat)
            }),
            final(self).state() == fdt_prop(old(self).state(), str_bytes(name), be32_concat(values@)),
    {
        let mut data: Vec<u8> = Vec::new();
        let mut i: usize = 0;
        while i < values.len()
            invariant
                i <= values@.len(),
                data@ == be32_concat(values@.take(i as int)),
            decreases values@.len() - i,
        {
            let v = values[i];
            data.push((v / 0x100_0000) as u8);
            data.push(((v / 0x1_0000) % 0x100) as u8);
            data.push(((v / 0x100) % 0x100) as u8);
            data.push((v % 0x100) as u8);
            assert(values@.take(i + 1).drop_last() =~= values@.take(i as int));
            assert(data@ =~= be32_concat(values@.take(i + 1)));
            i = i + 1;
        }
        assert(values@.take(values@.len() as int) =~= values@);
        self.property(name, data.as_slice());
    }

    /// Terminates the structure block and assembles the blob.
    pub fn finish(self) -> (r: Vec<u8>)
        requires
            self.wf(),
        ensures
            r@ == fdt_blob(self.struct_bytes() + be32_seq(FDT_END), self.strings_bytes()),
    {
        let mut b = self;
        b.push_u32(FDT_END);
        let off_mem_rsvmap: u32 = FDT_HEADER_SIZE;
        let off_dt_struct = off_mem_rsvmap + FDT_RSVMAP_SIZE;
        let size_dt_struct = b.struct_buf.len() as u32;
        let off_dt_strings = off_dt_struct.wrapping_add(size_dt_struct);
        let size_dt_strings = b.strings_buf.len() as u32;
        let totalsize = off_dt_strings.wrapping_add(size_dt_strings);
        let mut out: Vec<u8> = Vec::new();
        push_be32(&mut out, FDT_MAGIC);
        push_be32(&mut out, totalsize);
        push_be32(&mut out, off_dt_struct);
        push_be32(&mut out, off_dt_strings);
        push_be32(&mut out, off_mem_rsvmap);
        push_be32(&mut out, FDT_VERSION);
        push_be32(&mut out, FDT_LAST_COMP_VERSION);
        push_be32(&mut out, 0);
        push_be32(&mut out, size_dt_strings);
        push_be32(&mut out, size_dt_struct);
        let zeros: [u8; 16] = [0u8; 16];
        push_all(&mut out, &zeros);
        push_all(&mut out, b.struct_buf.as_slice());
        push_all(&mut out, b.strings_buf.as_slice());
        assert(zeros@ =~= Seq::new(16, |i: int| 0u8));
        proof { reveal(fdt_blob); }
        assert(out@ =~= fdt_blob(b.struct_bytes(), b.strings_bytes()));
        out
    }
}

/// The big-endian bytes of a sequence of words.
pub open spec fn be32_concat(v: Seq<u32>) -> Seq<u8>
    decreases v.len(),
{
    if v.len() == 0 { Seq::empty() } else { be32_concat(v.drop_last()) + be32_seq(v.last()) }
}

/// The blob of a structure block `st` (already terminated) and a strings block `sb`.
#[verifier::opaque]
pub open spec fn fdt_blob(st: Seq<u8>, sb: Seq<u8>) -> Seq<u8> {
    let off_struct = (FDT_HEADER_SIZE + FDT_RSVMAP_SIZE) as u32;
    let off_strings = off_struct.wrapping_add(st.len() as u32);
    be32_seq(FDT_MAGIC) + be32_seq(off_strings.wrapping_add(sb.len() as u32)) + be32_seq(off_struct) + be32_seq(off_strings)
        + be32_seq(FDT_HEADER_SIZE) + be32_seq(FDT_VERSION) + be32_seq(FDT_LAST_COMP_VERSION) + be32_seq(0)
        + be32_seq(sb.len() as u32) + be32_seq(st.len() as u32) + Seq::new(16, |i: int| 0u8) + st + sb
}

/// Appends a big-endian word.
pub fn push_be32(v: &mut Vec<u8>, x: u32)
    ensures
        final(v)@ == old(v)@ + be32_seq(x),
{
    v.push((x / 0x100_0000) as u8);
    v.push(((x / 0x1_0000) % 0x100) as u8);
    v.push(((x / 0x100) % 0x100) as u8);
    v.push((x % 0x100) as u8);
    assert(final(v)@ =~= old(v)@ + be32_seq(x));
}

/// The builder state after the root properties and /chosen.
pub open spec fn root_and_chosen_state(s: (Seq<u8>, Seq<u8>, Seq<(Seq<u8>, u32)>), cmdline: &str, initrd: Option<(u32, u32)>)
    -> (Seq<u8>, Seq<u8>, Seq<(Seq<u8>, u32)>)
{
    let s = fdt_begin(s, str_bytes(""));
    let s = fdt_prop(s, str_bytes("#address-cells"), be32_seq(2));
    let s = fdt_prop(s, str_bytes("#size-cells"), be32_seq(2));
    let s = fdt_prop(s, str_bytes("compatible"), str_bytes("riscv-emu") + seq![0u8]);
    let s = fdt_prop(s, str_bytes("model"), str_bytes("riscv-emu") + seq![0u8]);
    let s = fdt_begin(s, str_bytes("chosen"));
    let s = fdt_prop(s, str_bytes("bootargs"), str_bytes(cmdline) + seq![0u8]);
    let s = match initrd {
        Some((start, end)) => fdt_prop(
            fdt_prop(s, str_bytes("linux,initrd-start"), be32_seq(start)),
            str_bytes("linux,initrd-end"),
            be32_seq(end),
        ),
        None => s,
    };
    fdt_end(s)
}

/// The builder state after /cpus.
pub open spec fn cpus_state(s: (Seq<u8>, Seq<u8>, Seq<(Seq<u8>, u32)>)) -> (Seq<u8>, Seq<u8>, Seq<(Seq<u8>, u32)>) {
    let s = fdt_begin(s, str_bytes("cpus"));
    let s = fdt_prop(s, str_bytes("#address-cells"), be32_seq(1));
    let s = fdt_prop(s, str_bytes("#size-cells"), be32_seq(0));
    let s = fdt_prop(s, str_bytes("timebase-frequency"), be32_seq(10_000_000));
    let s = fdt_begin(s, str_bytes("cpu@0"));
    let s = fdt_prop(s, str_bytes("device_type"), str_bytes("cpu") + seq![0u8]);
    let s = fdt_prop(s, str_bytes("reg"), be32_seq(0));
    let s = fdt_prop(s, str_bytes("status"), str_bytes("okay") + seq![0u8]);
    let s = fdt_prop(s, str_bytes("compatible"), str_bytes("riscv") + seq![0u8]);
    let s = fdt_prop(s, str_bytes("riscv,isa"), str_bytes("rv32ima") + seq![0u8]);
    let s = fdt_prop(s, str_bytes("mmu-type"), str_bytes("riscv,sv32") + seq![0u8]);
    let s = fdt_begin(s, str_bytes("interrupt-controller"));
    let s = fdt_prop(s, str_bytes("#interrupt-cells"), be32_seq(1));
    let s = fdt_prop(s, str_bytes("interrupt-controller"), Seq::<u8>::empty());
    let s = fdt_prop(s, str_bytes("compatible"), str_bytes("riscv,cpu-intc") + seq![0u8]);
    let s = fdt_prop(s, str_bytes("phandle"), be32_seq(1));
    fdt_end(fdt_end(fdt_end(s)))
}

/// The builder state after /memory for `ram_size_mb` MiB.
pub open spec fn memory_state(s: (Seq<u8>, Seq<u8>, Seq<(Seq<u8>, u32)>), ram_size_mb: u32) -> (Seq<u8>, Seq<u8>, Seq<(Seq<u8>, u32)>) {
    let size = ram_size_mb as u64 * 0x10_0000;
    let s = fdt_begin(s, str_bytes("memory@80000000"));
    let s = fdt_prop(s, str_bytes("device_type"), str_bytes("memory") + seq![0u8]);
    let s = fdt_prop(s, str_bytes("reg"), be32_concat(seq![0u32, 0x8000_0000u32, (size / 0x1_0000_0000) as u32,
        (size % 0x1_0000_0000) as u32]));
    fdt_end(s)
}

/// The builder state after /soc is opened with the CLINT and the PLIC.
pub open spec fn soc_controllers_state(s: (Seq<u8>, Seq<u8>, Seq<(Seq<u8>, u32)>)) -> (Seq<u8>, Seq<u8>, Seq<(Seq<u8>, u32)>) {
    let s = fdt_begin(s, str_bytes("soc"));
    let s = fdt_prop(s, str_bytes("#address-cells"), be32_seq(2));
    let s = fdt_prop(s, str_bytes("#size-cells"), be32_seq(2));
    let s = fdt_prop(s, str_bytes("compatible"), str_bytes("simple-bus") + seq![0u8]);
    let s = fdt_prop(s, str_bytes("ranges"), Seq::<u8>::empty());
    let s = fdt_begin(s, str_bytes("clint@2000000"));
    let s = fdt_prop(s, str_bytes("compatible"), str_bytes("riscv,clint0") + seq![0u8]);
    let s = fdt_prop(s, str_bytes("interrupts-extended"), be32_concat(seq![1u32, 3u32, 1u32, 7u32]));
    let s = fdt_prop(s, str_bytes("reg"), be32_concat(seq![0u32, 0x0200_0000u32, 0u32, 0x10000u32]));
    let s = fdt_end(s);
    let s = fdt_begin(s, str_bytes("plic@4000000"));
    let s = fdt_prop(s, str_bytes("compatible"), str_bytes("riscv,plic0") + seq![0u8]);
    let s = fdt_prop(s, str_bytes("interrupts-extended"), be32_concat(seq![1u32, 11u32, 1u32, 9u32]));
    let s = fdt_prop(s, str_bytes("reg"), be32_concat(seq![0u32, 0x0400_0000u32, 0u32, 0x0400_0000u32]));
    let s = fdt_prop(s, str_bytes("riscv,ndev"), be32_seq(32));
    let s = fdt_prop(s, str_bytes("#interrupt-cells"), be32_seq(1));
    let s = fdt_prop(s, str_bytes("interrupt-controller"), Seq::<u8>::empty());
    let s = fdt_prop(s, str_bytes("phandle"), be32_seq(2));
    fdt_end(s)
}

/// The builder state after the UART node.
pub open spec fn uart_node_state(s: (Seq<u8>, Seq<u8>, Seq<(Seq<u8>, u32)>)) -> (Seq<u8>, Seq<u8>, Seq<(Seq<u8>, u32)>) {
    let s = fdt_begin(s, str_bytes("uart@3000000"));
    let s = fdt_prop(s, str_bytes("compatible"), str_bytes("ns16550a") + seq![0u8]);
    let s = fdt_prop(s, str_bytes("reg"), be32_concat(seq![0u32, 0x0300_0000u32, 0u32, 0x1000u32]));
    let s = fdt_prop(s, str_bytes("interrupts"), be32_seq(10));
    let s = fdt_prop(s, str_bytes("interrupt-parent"), be32_seq(2));
    let s = fdt_prop(s, str_bytes("clock-frequency"), be32_seq(3686400));
    fdt_end(s)
}

/// The builder state after the VirtIO node.
pub open spec fn virtio_node_state(s: (Seq<u8>, Seq<u8>, Seq<(Seq<u8>, u32)>)) -> (Seq<u8>, Seq<u8>, Seq<(Seq<u8>, u32)>) {
    let s = fdt_begin(s, str_bytes("virtio@20000000"));
    let s = fdt_prop(s, str_bytes("compatible"), str_bytes("virtio,mmio") + seq![0u8]);
    let s = fdt_prop(s, str_bytes("reg"), be32_concat(seq![0u32, 0x2000_0000u32, 0u32, 0x1000u32]));
    let s = fdt_prop(s, str_bytes("interrupts"), be32_seq(1));
    let s = fdt_prop(s, str_bytes("interrupt-parent"), be32_seq(2));
    fdt_end(s)
}

/// The builder state after the UART and VirtIO nodes close /soc and the root.
pub open spec fn soc_devices_state(s: (Seq<u8>, Seq<u8>, Seq<(Seq<u8>, u32)>)) -> (Seq<u8>, Seq<u8>, Seq<(Seq<u8>, u32)>) {
    fdt_end(fdt_end(virtio_node_state(uart_node_state(s))))
}

/// The device tree blob of the machine with `ram_size_mb` MiB of RAM, the
/// command line `cmdline` and the initrd range `initrd`.
#[verifier::opaque]
pub open spec fn fdt_image(ram_size_mb: u32, cmdline: &str, initrd: Option<(u32, u32)>) -> Seq<u8> {
    let s0 = fdt_state(Seq::empty(), Seq::empty(), Seq::empty());
    let s = soc_devices_state(soc_controllers_state(memory_state(cpus_state(root_and_chosen_state(s0, cmdline,
        initrd)), ram_size_mb)));
    fdt_blob(s.0 + be32_seq(FDT_END), s.1)
}

/// Root properties and /chosen.
fn fdt_root_and_chosen(dtb: &mut DtbBuilder, cmdline: &str, initrd: Option<(u32, u32)>)
    requires
        old(dtb).wf(),
    ensures
        final(dtb).wf(),
        final(dtb).state() == root_and_chosen_state(old(dtb).state(), cmdline, initrd),
{
    dtb.begin_node("");
    dtb.property_u32("#address-cells", 2);
    dtb.property_u32("#size-cells", 2);
    dtb.property_string("compatible", "riscv-emu");
    dtb.property_string("model", "riscv-emu");
    dtb.begin_node("chosen");
    dtb.property_string("bootargs", cmdline);
    match initrd {
        Some((start, end)) => {
            dtb.property_u32("linux,initrd-start", start);
            dtb.property_u32("linux,initrd-end", end);
        },
        None => {},
    }
    dtb.end_node();
}

/// /cpus with the single hart and its interrupt controller.
fn fdt_cpus(dtb: &mut DtbBuilder)
    requires
        old(dtb).wf(),
    ensures
        final(dtb).wf(),
        final(dtb).state() == cpus_state(old(dtb).state()),
{
    dtb.begin_node("cpus");
    dtb.property_u32("#address-cells", 1);
    dtb.property_u32("#size-cells", 0);
    dtb.property_u32("timebase-frequency", 10_000_000);
    dtb.begin_node("cpu@0");
    dtb.property_string("device_type", "cpu");
    dtb.property_u32("reg", 0);
    dtb.property_string("status", "okay");
    dtb.property_string("compatible", "riscv");
    dtb.property_string("riscv,isa", "rv32ima");
    dtb.property_string("mmu-type", "riscv,sv32");
    dtb.begin_node("interrupt-controller");
    dtb.property_u32("#interrupt-cells", 1);
    dtb.property_null("interrupt-controller");
    dtb.property_string("compatible", "riscv,cpu-intc");
    dtb.property_u32("phandle", 1);
    dtb.end_node();
    dtb.end_node();
    dtb.end_node();
}

/// /memory: `ram_size_mb` MiB at 0x8000_0000.
fn fdt_memory(dtb: &mut DtbBuilder, ram_size_mb: u32)
    requires
        old(dtb).wf(),
    ensures
        final(dtb).wf(),
        final(dtb).state() == memory_state(old(dtb).state(), ram_size_mb),
{
    dtb.begin_node("memory@80000000");
    dtb.property_string("device_type", "memory");
    let ram_size = (ram_size_mb as u64) * 1024 * 1024;
    let reg: [u32; 4] = [0, 0x8000_0000, (ram_size / 0x1_0000_0000) as u32, (ram_size % 0x1_0000_0000) as u32];
    dtb.property_array_u32("reg", &reg);
    dtb.end_node();
}

/// /soc with the CLINT and the PLIC.
fn fdt_soc_controllers(dtb: &mut DtbBuilder)
    requires
        old(dtb).wf(),
    ensures
        final(dtb).wf(),
        final(dtb).state() == soc_controllers_state(old(dtb).state()),
{
    dtb.begin_node("soc");
    dtb.property_u32("#address-cells", 2);
    dtb.property_u32("#size-cells", 2);
    dtb.property_string("compatible", "simple-bus");
    dtb.property_null("ranges");
    dtb.begin_node("clint@2000000");
    dtb.property_string("compatible", "riscv,clint0");
    let clint_irqs: [u32; 4] = [1, 3, 1, 7];
    dtb.property_array_u32("interrupts-extended", &clint_irqs);
    let clint_reg: [u32; 4] = [0, 0x0200_0000, 0, 0x10000];
    dtb.property_array_u32("reg", &clint_reg);
    dtb.end_node();
    dtb.begin_node("plic@4000000");
    dtb.property_string("compatible", "riscv,plic0");
    let plic_irqs: [u32; 4] = [1, 11, 1, 9];
    dtb.property_array_u32("interrupts-extended", &plic_irqs);
    let plic_reg: [u32; 4] = [0, 0x0400_0000, 0, 0x0400_0000];
    dtb.property_array_u32("reg", &plic_reg);
    dtb.property_u32("riscv,ndev", 32);
    dtb.property_u32("#interrupt-cells", 1);
    dtb.property_null("interrupt-controller");
    dtb.property_u32("phandle", 2);
    dtb.end_node();
}

/// The UART and VirtIO nodes, closing /soc and the root.
fn fdt_soc_devices(dtb: &mut DtbBuilder)
    requires
        old(dtb).wf(),
    ensures
        final(dtb).wf(),
        final(dtb).state() == soc_devices_state(old(dtb).state()),
{
    let ghost s0 = dtb.state();
    dtb.begin_node("uart@3000000");
    dtb.property_string("compatible", "ns16550a");
    let uart_reg: [u32; 4] = [0, 0x0300_0000, 0, 0x1000];
    assert(uart_reg@ == seq![0u32, 0x0300_0000u32, 0u32, 0x1000u32]);
    dtb.property_array_u32("reg", &uart_reg);
    dtb.property_u32("interrupts", 10);
    dtb.property_u32("interrupt-parent", 2);
    dtb.property_u32("clock-frequency", 3686400);
    dtb.end_node();
    assert(dtb.state() == uart_node_state(s0));
    let ghost s1 = dtb.state();
    dtb.begin_node("virtio@20000000");
    dtb.property_string("compatible", "virtio,mmio");
    let virtio_reg: [u32; 4] = [0, 0x2000_0000, 0, 0x1000];
    assert(virtio_reg@ == seq![0u32, 0x2000_0000u32, 0u32, 0x1000u32]);
    dtb.property_array_u32("reg", &virtio_reg);
    dtb.property_u32("interrupts", 1);
    dtb.property_u32("interrupt-parent", 2);
    dtb.end_node();
    assert(dtb.state() == virtio_node_state(s1));
    dtb.end_node();
    dtb.end_node();
}

/// The device tree of the emulated machine: one hart (rv32ima, Sv32), RAM at
/// 0x8000_0000, CLINT, PLIC, UART and a VirtIO MMIO slot, with the kernel
/// command line (and the initrd range, when there is one) under /chosen.
pub fn generate_fdt(ram_size_mb: u32, cmdline: &str, initrd: Option<(u32, u32)>) -> (r: Vec<u8>)
    ensures
        r@ == fdt_image(ram_size_mb, cmdline, initrd),
        exists|st: Seq<u8>, sb: Seq<u8>| #[trigger] fdt_blob(st, sb) == r@,
        r@.len() >= 56,
        r@.subrange(0, 4) == be32_seq(FDT_MAGIC),
        r@.subrange(8, 12) == be32_seq(56),
        r@.subrange(16, 20) == be32_seq(FDT_HEADER_SIZE),
        r@.subrange(20, 24) == be32_seq(FDT_VERSION),
{
    let mut dtb = DtbBuilder::new();
    fdt_root_and_chosen(&mut dtb, cmdline, initrd);
    fdt_cpus(&mut dtb);
    fdt_memory(&mut dtb, ram_size_mb);
    fdt_soc_controllers(&mut dtb);
    fdt_soc_devices(&mut dtb);
    let ghost st = dtb.struct_bytes() + be32_seq(FDT_END);
    let ghost sb = dtb.strings_bytes();
    let r = dtb.finish();
    proof {
        lemma_fdt_header(st, sb);
        reveal(fdt_image);
    }
    r
}

/// The fixed header fields of a blob: magic, structure offset, reservation map offset, version.
pub proof fn lemma_fdt_header(st: Seq<u8>, sb: Seq<u8>)
    ensures
        fdt_blob(st, sb).len() >= 56,
        fdt_blob(st, sb).subrange(0, 4) == be32_seq(FDT_MAGIC),
        fdt_blob(st, sb).subrange(8, 12) == be32_seq(56),
        fdt_blob(st, sb).subrange(16, 20) == be32_seq(FDT_HEADER_SIZE),
        fdt_blob(st, sb).subrange(20, 24) == be32_seq(FDT_VERSION),
{
    reveal(fdt_blob);
    let b = fdt_blob(st, sb);
    assert(b.subrange(0, 4) =~= be32_seq(FDT_MAGIC));
    assert(b.subrange(8, 12) =~= be32_seq(56));
    assert(b.subrange(16, 20) =~= be32_seq(FDT_HEADER_SIZE));
    assert(b.subrange(20, 24) =~= be32_seq(FDT_VERSION));
}


/// The big-endian 32-bit value of the four bytes of `b` at `o`.
pub open spec fn be32_at(b: Seq<u8>, o: int) -> int {
    b[o] as int * 0x100_0000 + b[o + 1] as int * 0x1_0000 + b[o + 2] as int * 0x100 + b[o + 3] as int
}

/// The four bytes of a word, most significant first, make the word again.
proof fn lemma_be32_value(x: u32)
    by (bit_vector)
    ensures
        (x / 0x100_0000) * 0x100_0000 + ((x / 0x1_0000) % 0x100) * 0x1_0000 + ((x / 0x100) % 0x100) * 0x100
            + x % 0x100 == x,
        x / 0x100_0000 < 0x100,
{
}

/// Reading back a word written big-endian at `o` gives the word.
proof fn lemma_be32_at(b: Seq<u8>, o: int, x: u32)
    requires
        0 <= o,
        o + 4 <= b.len(),
        b.subrange(o, o + 4) == be32_seq(x),
    ensures
        be32_at(b, o) == x,
{
    lemma_be32_value(x);
    assert(b[o] == be32_seq(x)[0]);
    assert(b[o + 1] == be32_seq(x)[1]);
    assert(b[o + 2] == be32_seq(x)[2]);
    assert(b[o + 3] == be32_seq(x)[3]);
}

/// The /memory node of the device tree describes the RAM: after the node's
/// structure-block bytes comes a 16-byte property (token 3, length 16) whose
/// two 64-bit big-endian cells give the base 0x8000_0000 and the size
/// `ram_size_mb` MiB.
pub proof fn lemma_memory_reg(s: (Seq<u8>, Seq<u8>, Seq<(Seq<u8>, u32)>), ram_size_mb: u32)
    ensures
        ({
            let st = memory_state(s, ram_size_mb).0;
            exists|o: int| {
                &&& s.0.len() + 12 <= o && o + 16 <= st.len()
                &&& #[trigger] be32_at(st, o - 12) == 3
                &&& be32_at(st, o - 8) == 16
                &&& be32_at(st, o) * 0x1_0000_0000 + be32_at(st, o + 4) == 0x8000_0000
                &&& be32_at(st, o + 8) * 0x1_0000_0000 + be32_at(st, o + 12) == ram_size_mb as int * 0x10_0000
            }
        }),
{
    let size = ram_size_mb as u64 * 0x10_0000;
    let hi = (size / 0x1_0000_0000) as u32;
    let lo = (size % 0x1_0000_0000) as u32;
    let s1 = fdt_begin(s, str_bytes("memory@80000000"));
    let s2 = fdt_prop(s1, str_bytes("device_type"), str_bytes("memory") + seq![0u8]);
    let data = be32_concat(seq![0u32, 0x8000_0000u32, hi, lo]);
    let s3 = fdt_prop(s2, str_bytes("reg"), data);
    assert(memory_state(s, ram_size_mb) == fdt_end(s3));
    reveal_with_fuel(be32_concat, 5);
    assert(seq![0u32, 0x8000_0000u32, hi, lo].drop_last() =~= seq![0u32, 0x8000_0000u32, hi]);
    assert(seq![0u32, 0x8000_0000u32, hi].drop_last() =~= seq![0u32, 0x8000_0000u32]);
    assert(seq![0u32, 0x8000_0000u32].drop_last() =~= seq![0u32]);
    assert(seq![0u32].drop_last() =~= Seq::<u32>::empty());
    assert(data =~= be32_seq(0) + be32_seq(0x8000_0000) + be32_seq(hi) + be32_seq(lo));
    let off = match name_lookup(s2.2, str_bytes("reg")) {
        Some(o) => o,
        None => s2.1.len() as u32,
    };
    let st = fdt_end(s3).0;
    let o: int = s2.0.len() as int + 12;
    assert(st == s2.0 + be32_seq(FDT_PROP) + be32_seq(data.len() as u32) + be32_seq(off) + data
        + pad4((s2.0.len() + 12 + data.len()) as nat) + be32_seq(FDT_END_NODE));
    assert(data.len() == 16);
    assert(st.subrange(o - 12, o - 8) =~= be32_seq(FDT_PROP));
    assert(st.subrange(o - 8, o - 4) =~= be32_seq(16));
    assert(st.subrange(o, o + 4) =~= be32_seq(0));
    assert(st.subrange(o + 4, o + 8) =~= be32_seq(0x8000_0000));
    assert(st.subrange(o + 8, o + 12) =~= be32_seq(hi));
    assert(st.subrange(o + 12, o + 16) =~= be32_seq(lo));
    lemma_be32_at(st, o - 12, FDT_PROP);
    lemma_be32_at(st, o - 8, 16);
    lemma_be32_at(st, o, 0);
    lemma_be32_at(st, o + 4, 0x8000_0000);
    lemma_be32_at(st, o + 8, hi);
    lemma_be32_at(st, o + 12, lo);
    assert(s.0.len() <= s1.0.len() <= s2.0.len());
    assert(hi as int * 0x1_0000_0000 + lo as int == ram_size_mb as int * 0x10_0000);
}

} // verus!
