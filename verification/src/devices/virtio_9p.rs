//! VirtIO-9p filesystem device: a 9P2000.L server over the VirtIO transport,
//! serving an in-memory inode tree whose file contents may be loaded lazily
//! (by content hash) from the host.

use vstd::prelude::*;
use std::collections::{HashMap, VecDeque};
use super::virtio::{VirtioMmio, Virtqueue, Descriptor, VRING_DESC_F_WRITE, VRING_DESC_F_NEXT};
use super::wire::{le16_seq, le32_seq, le64_seq, le16_at, le32_at, le64_at, push_le16, push_le32, push_le64,
    push_all, read_le16, read_le32, read_le64};
use crate::memory::Memory;

pub mod filesystem;
pub mod in_memory;

verus! {

broadcast use vstd::std_specs::hash::group_hash_axioms;

// 9P2000.L message types
pub const P9_RLERROR: u8 = 7;
pub const P9_TSTATFS: u8 = 8;
pub const P9_RSTATFS: u8 = 9;
pub const P9_TLOPEN: u8 = 12;
pub const P9_RLOPEN: u8 = 13;
pub const P9_TGETATTR: u8 = 24;
pub const P9_RGETATTR: u8 = 25;
pub const P9_TREADDIR: u8 = 40;
pub const P9_RREADDIR: u8 = 41;
pub const P9_TVERSION: u8 = 100;
pub const P9_RVERSION: u8 = 101;
pub const P9_TATTACH: u8 = 104;
pub const P9_RATTACH: u8 = 105;
pub const P9_TWALK: u8 = 110;
pub const P9_RWALK: u8 = 111;
pub const P9_TREAD: u8 = 116;
pub const P9_RREAD: u8 = 117;
pub const P9_TCLUNK: u8 = 120;
pub const P9_RCLUNK: u8 = 121;

// 9P QID types
pub const P9_QTDIR: u8 = 0x80;
pub const P9_QTSYMLINK: u8 = 0x02;
pub const P9_QTFILE: u8 = 0x00;

// Error codes
pub const ENOENT: u32 = 2;
pub const EBADF: u32 = 9;
pub const ENOTDIR: u32 = 20;
pub const EISDIR: u32 = 21;
pub const EINVAL: u32 = 22;

/// The largest message size the server accepts.
pub const MAX_MSIZE: u32 = 8192;

/// A 9P QID (unique identifier for a file).
#[derive(Clone, Copy, Debug, PartialEq, Eq, Structural)]
pub struct Qid {
    pub qtype: u8,
    pub version: u32,
    pub path: u64,
}

/// The 13-byte wire form of a QID.
pub open spec fn qid_bytes(q: Qid) -> Seq<u8> {
    seq![q.qtype] + le32_seq(q.version) + le64_seq(q.path)
}

impl Qid {
    pub fn new(qtype: u8, path: u64) -> (q: Qid)
        ensures
            q == (Qid { qtype, version: 0, path }),
    {
        Qid { qtype, version: 0, path }
    }

    pub fn encode(&self) -> (r: Vec<u8>)
        ensures
            r@ == qid_bytes(*self),
    {
        let mut buf: Vec<u8> = Vec::new();
        buf.push(self.qtype);
        push_le32(&mut buf, self.version);
        push_le64(&mut buf, self.path);
        assert(buf@ =~= qid_bytes(*self));
        buf
    }
}

/// What a file holds.
pub enum InodeContent {
    /// Content stored inline (small files)
    Inline(Vec<u8>),
    /// Content identified by hash (loaded lazily)
    Hash(String),
    /// Directory (no content)
    Directory,
    /// Symlink target
    Symlink(String),
}

/// A file or directory.
pub struct Inode {
    pub qid: Qid,
    pub name: String,
    pub size: u64,
    pub mode: u32,
    pub uid: u32,
    pub gid: u32,
    pub mtime: u64,
    pub atime: u64,
    pub ctime: u64,
    /// For files: inline data or a content hash for lazy loading
    pub content: InodeContent,
    /// For directories: child inode paths
    pub children: Vec<u64>,
    /// Parent inode path (0 for root)
    pub parent: u64,
}

/// The file type bits of a mode.
pub open spec fn mode_type(mode: u32) -> u32 {
    mode & 0o170000
}

impl Inode {
    pub fn is_dir(&self) -> (r: bool)
        ensures
            r == (mode_type(self.mode) == 0o040000),
    {
        (self.mode & 0o170000) == 0o040000
    }

    pub fn is_file(&self) -> (r: bool)
        ensures
            r == (mode_type(self.mode) == 0o100000),
    {
        (self.mode & 0o170000) == 0o100000
    }

    pub fn is_symlink(&self) -> (r: bool)
        ensures
            r == (mode_type(self.mode) == 0o120000),
    {
        (self.mode & 0o170000) == 0o120000
    }
}

/// An open file handle.
#[derive(Clone, Copy, Debug, PartialEq, Eq, Structural)]
pub struct Fid {
    pub inode_path: u64,
    pub open: bool,
    pub open_flags: u32,
    pub position: u64,
}

/// The fid a successful attach or walk creates.
pub open spec fn fresh_fid(path: u64) -> Fid {
    Fid { inode_path: path, open: false, open_flags: 0, position: 0 }
}

/// The content cached for `k` in an association list where later entries win.
pub open spec fn cache_lookup(entries: Seq<(Seq<char>, Seq<u8>)>, k: Seq<char>) -> Option<Seq<u8>>
    decreases entries.len(),
{
    if entries.len() == 0 {
        None
    } else if entries.last().0 == k {
        Some(entries.last().1)
    } else {
        cache_lookup(entries.drop_last(), k)
    }
}

/// Contents of lazily loaded files, by content hash.
pub struct BlobCache {
    entries: Vec<(String, Vec<u8>)>,
}

impl BlobCache {
    /// The cached entries, in insertion order.
    pub closed spec fn entries_view(&self) -> Seq<(Seq<char>, Seq<u8>)> {
        self.entries@.map_values(|e: (String, Vec<u8>)| (e.0@, e.1@))
    }

    /// The content cached for hash `k`.
    pub open spec fn lookup(&self, k: Seq<char>) -> Option<Seq<u8>> {
        cache_lookup(self.entries_view(), k)
    }

    pub fn new() -> (c: BlobCache)
        ensures
            forall|k: Seq<char>| #[trigger] c.lookup(k) is None,
    {
        let c = BlobCache { entries: Vec::new() };
        assert(c.entries_view() =~= Seq::<(Seq<char>, Seq<u8>)>::empty());
        c
    }

    /// Cache `data` as the content of `hash`.
    pub fn insert(&mut self, hash: String, data: Vec<u8>)
        ensures
            forall|k: Seq<char>| #[trigger] final(self).lookup(k)
                == if k == hash@ { Some(data@) } else { old(self).lookup(k) },
    {
        let ghost h = hash@;
        let ghost d = data@;
        self.entries.push((hash, data));
        assert(self.entries_view().drop_last() =~= old(self).entries_view());
        assert(self.entries_view().last() == (h, d));
    }

    /// The content cached for `hash`.
    pub fn get(&self, hash: &String) -> (r: Option<&Vec<u8>>)
        ensures
            match r {
                Some(v) => self.lookup(hash@) == Some(v@),
                None => self.lookup(hash@) is None,
            },
    {
        let n = self.entries.len();
        let mut i = n;
        assert(self.entries_view().take(n as int) =~= self.entries_view());
        while i > 0
            invariant
                i <= n,
                n == self.entries@.len(),
                self.lookup(hash@) == cache_lookup(self.entries_view().take(i as int), hash@),
            decreases i,
        {
            let ghost t = self.entries_view().take(i as int);
            if self.entries[i - 1].0 == *hash {
                assert(t.last() == self.entries_view()[i - 1]);
                return Some(&self.entries[i - 1].1);
            }
            assert(t.drop_last() =~= self.entries_view().take(i - 1));
            i = i - 1;
        }
        None
    }

    /// Forget everything.
    pub fn clear(&mut self)
        ensures
            forall|k: Seq<char>| #[trigger] final(self).lookup(k) is None,
    {
        self.entries.clear();
        assert(self.entries_view() =~= Seq::<(Seq<char>, Seq<u8>)>::empty());
    }
}

/// The character sequences of some strings.
pub open spec fn string_views(v: Seq<String>) -> Seq<Seq<char>> {
    v.map_values(|x: String| x@)
}

/// Names of blobs requested from the host and not yet provided.
pub struct BlobNames {
    names: Vec<String>,
}

impl BlobNames {
    /// The names, in request order.
    pub closed spec fn names_view(&self) -> Seq<Seq<char>> {
        string_views(self.names@)
    }

    /// Is `k` one of the names?
    pub open spec fn has(&self, k: Seq<char>) -> bool {
        self.names_view().contains(k)
    }

    pub fn new() -> (s: BlobNames)
        ensures
            forall|k: Seq<char>| !#[trigger] s.has(k),
            s.names_view().len() == 0,
    {
        let s = BlobNames { names: Vec::new() };
        assert(s.names_view() =~= Seq::<Seq<char>>::empty());
        s
    }

    fn position(&self, k: &String) -> (r: Option<usize>)
        ensures
            match r {
                Some(i) => i < self.names_view().len() && self.names_view()[i as int] == k@,
                None => !self.has(k@),
            },
    {
        let mut i: usize = 0;
        while i < self.names.len()
            invariant
                i <= self.names@.len(),
                forall|j: int| 0 <= j < i ==> self.names_view()[j] != k@,
            decreases self.names@.len() - i,
        {
            if self.names[i] == *k {
                return Some(i);
            }
            i = i + 1;
        }
        None
    }

    /// Is `name` one of the missing blobs?
    pub fn contains(&self, name: &str) -> (r: bool)
        ensures
            r == self.has(name@),
    {
        broadcast use vstd::string::to_string_from_display_ensures_for_str;
        let k = name.to_string();
        self.position(&k).is_some()
    }

    /// Adds `name` unless it is already there.
    pub fn insert(&mut self, name: String)
        ensures
            forall|k: Seq<char>| #[trigger] final(self).has(k) == (old(self).has(k) || k == name@),
    {
        broadcast use vstd::seq_lib::group_seq_properties;
        match self.position(&name) {
            Some(i) => {
                assert(self.names_view().contains(name@)) by {
                    assert(self.names_view()[i as int] == name@);
                }
            },
            None => {
                let ghost nm = name@;
                self.names.push(name);
                assert(self.names_view() =~= old(self).names_view().push(nm));
            },
        }
    }

    /// Removes every occurrence of `name`.
    pub fn remove(&mut self, name: &str)
        ensures
            forall|k: Seq<char>| #[trigger] final(self).has(k) == (old(self).has(k) && k != name@),
    {
        broadcast use vstd::string::to_string_from_display_ensures_for_str;
        let k = name.to_string();
        let ghost pred = |s: Seq<char>| s != name@;
        let mut kept: Vec<String> = Vec::new();
        let n = self.names.len();
        let mut i: usize = 0;
        assert(self.names_view().take(0) =~= Seq::<Seq<char>>::empty());
        assert(string_views(kept@) =~= Seq::<Seq<char>>::empty().filter(pred)) by {
            reveal(Seq::filter);
        }
        while i < n
            invariant
                i <= n,
                n == self.names@.len(),
                k@ == name@,
                pred == (|s: Seq<char>| s != name@),
                string_views(kept@) == self.names_view().take(i as int).filter(pred),
            decreases n - i,
        {
            let ghost before = kept@;
            let ghost x = self.names_view()[i as int];
            proof {
                self.names_view().take(i as int).lemma_filter_push(x, pred);
                assert(self.names_view().take(i + 1) =~= self.names_view().take(i as int).push(x));
            }
            if !(self.names[i] == k) {
                let c = self.names[i].clone();
                kept.push(c);
                assert(self.names@[i as int]@ != k@);
                assert(string_views(kept@) =~= string_views(before).push(x));
                assert(string_views(kept@) == self.names_view().take(i + 1).filter(pred));
            } else {
                assert(string_views(kept@) == self.names_view().take(i + 1).filter(pred));
            }
            i = i + 1;
        }
        assert(self.names_view().take(n as int) =~= self.names_view());
        let ghost all = old(self).names_view();
        self.names = kept;
        proof {
            broadcast use vstd::seq_lib::group_filter_ensures;
            assert forall|s: Seq<char>| #[trigger] self.has(s) == (old(self).has(s) && s != name@) by {
                if self.has(s) {
                    all.lemma_filter_contains_rev(pred, s);
                    let j = choose|j: int| 0 <= j < all.filter(pred).len() && all.filter(pred)[j] == s;
                    assert(pred(all.filter(pred)[j]));
                }
                if old(self).has(s) && s != name@ {
                    let j = choose|j: int| 0 <= j < all.len() && all[j] == s;
                    assert(all.filter(pred).contains(all[j]));
                }
            }
        }
    }

    /// Forget every name.
    pub fn clear(&mut self)
        ensures
            forall|k: Seq<char>| !#[trigger] final(self).has(k),
    {
        self.names.clear();
        assert(self.names_view() =~= Seq::<Seq<char>>::empty());
    }

    /// The names, in request order.
    pub fn to_vec(&self) -> (r: Vec<String>)
        ensures
            string_views(r@) == self.names_view(),
    {
        let mut out: Vec<String> = Vec::new();
        let mut i: usize = 0;
        while i < self.names.len()
            invariant
                i <= self.names@.len(),
                string_views(out@) == self.names_view().take(i as int),
            decreases self.names@.len() - i,
        {
            let ghost before = out@;
            let c = self.names[i].clone();
            out.push(c);
            assert(string_views(out@) =~= string_views(before).push(self.names_view()[i as int]));
            assert(self.names_view().take(i + 1) =~= self.names_view().take(i as int).push(self.names_view()[i as int]));
            i = i + 1;
        }
        assert(self.names_view().take(i as int) =~= self.names_view());
        out
    }
}

/// A request waiting for the content of a lazily loaded file.
pub struct SuspendedRequest {
    pub queue_idx: usize,
    pub head_idx: u16,
    pub output_descriptors: Vec<Descriptor>,
    pub tag: u16,
    pub input_buffer: Vec<u8>,
}

/// VirtIO-9p device.
pub struct Virtio9p {
    /// VirtIO MMIO transport
    pub virtio: VirtioMmio,
    /// Filesystem tag (mount point identifier)
    pub tag: String,
    /// Inode table
    pub inodes: HashMap<u64, Inode>,
    /// Next inode path
    pub next_inode: u64,
    /// Active fids
    pub fids: HashMap<u32, Fid>,
    /// Maximum message size
    pub msize: u32,
    /// Pending requests
    pub pending_requests: Vec<Vec<u8>>,
    /// Pending responses
    pub pending_responses: VecDeque<Vec<u8>>,
    /// Contents of lazily loaded files, by hash
    pub blob_cache: BlobCache,
    /// Hashes requested from the host
    pub missing_blobs: BlobNames,
    /// Requests waiting for a blob
    pub suspended_requests: Vec<SuspendedRequest>,
}

/// A complete response: size, type, tag, then the body.
pub open spec fn frame(t: u8, tag: u16, body: Seq<u8>) -> Seq<u8> {
    le32_seq((body.len() as u32).wrapping_add(7)) + seq![t] + le16_seq(tag) + body
}

/// An Rlerror response.
pub open spec fn error_bytes(tag: u16, errno: u32) -> Seq<u8> {
    frame(P9_RLERROR, tag, le32_seq(errno))
}

/// The protocol version string "9P2000.L".
pub open spec fn version_string() -> Seq<u8> {
    seq![0x39u8, 0x50, 0x32, 0x30, 0x30, 0x30, 0x2E, 0x4C]
}

/// The payload of a request (after size, type and tag).
pub open spec fn payload(req: Seq<u8>) -> Seq<u8> {
    req.subrange(7, req.len() as int)
}

/// The body of an Rgetattr for `i`.
pub open spec fn getattr_body(i: Inode) -> Seq<u8> {
    le64_seq(0x7fff) + qid_bytes(i.qid) + le32_seq(i.mode) + le32_seq(i.uid) + le32_seq(i.gid)
        + le64_seq(1) + le64_seq(0) + le64_seq(i.size) + le64_seq(4096)
        + le64_seq(((i.size + 511) / 512) as u64)
        + le64_seq(i.atime) + le64_seq(0) + le64_seq(i.mtime) + le64_seq(0) + le64_seq(i.ctime)
        + le64_seq(0) + le64_seq(0) + le64_seq(0) + le64_seq(0) + le64_seq(0)
}

/// The body of an Rstatfs.
pub open spec fn statfs_body() -> Seq<u8> {
    le32_seq(0x01021997) + le32_seq(4096) + le64_seq(1000000) + le64_seq(500000) + le64_seq(500000)
        + le64_seq(100000) + le64_seq(50000) + le64_seq(0) + le32_seq(255)
}

/// Bytes `[off, off + count)` of `data`, cut at its end.
pub open spec fn read_window(data: Seq<u8>, off: u64, count: u32) -> Seq<u8> {
    if off >= data.len() {
        Seq::empty()
    } else {
        let end = if off + count < data.len() { off + count } else { data.len() as int };
        data.subrange(off as int, end)
    }
}

/// The bytes a read sees of a file's content, or `None` for a blob not in the cache
/// (directories have no content).
pub open spec fn content_bytes(c: InodeContent, cache: BlobCache) -> Option<Seq<u8>> {
    match c {
        InodeContent::Inline(d) => Some(d@),
        InodeContent::Hash(h) => cache.lookup(h@),
        InodeContent::Symlink(t) => Some(vstd::utf8::encode_utf8(t@)),
        InodeContent::Directory => Some(Seq::empty()),
    }
}

/// Everything but the fid table is as in `o`.
pub open spec fn same_but_fids(o: Virtio9p, n: Virtio9p) -> bool {
    n == Virtio9p { fids: n.fids, ..o }
}

/// What a Tversion does.
pub open spec fn version_post(o: Virtio9p, n: Virtio9p, tag: u16, p: Seq<u8>, r: Seq<u8>) -> bool {
    if p.len() < 6 || p.len() < 6 + le16_at(p, 4) {
        r == error_bytes(tag, EINVAL) && n == o
    } else {
        let req = le32_at(p, 0);
        let ms: u32 = if req < MAX_MSIZE { req } else { MAX_MSIZE };
        &&& n == Virtio9p { msize: ms, ..o }
        &&& r == frame(P9_RVERSION, tag, le32_seq(ms) + le16_seq(8) + version_string())
    }
}

/// What a Tattach does.
pub open spec fn attach_post(o: Virtio9p, n: Virtio9p, tag: u16, p: Seq<u8>, r: Seq<u8>) -> bool {
    if p.len() < 12 {
        r == error_bytes(tag, EINVAL) && n == o
    } else {
        &&& same_but_fids(o, n)
        &&& n.fids@ == o.fids@.insert(le32_at(p, 0), fresh_fid(0))
        &&& r == frame(P9_RATTACH, tag, qid_bytes(o.inodes@[0].qid))
    }
}

/// What a Tclunk does.
pub open spec fn clunk_post(o: Virtio9p, n: Virtio9p, tag: u16, p: Seq<u8>, r: Seq<u8>) -> bool {
    if p.len() < 4 {
        r == error_bytes(tag, EINVAL) && n == o
    } else {
        &&& same_but_fids(o, n)
        &&& n.fids@ == o.fids@.remove(le32_at(p, 0))
        &&& r == frame(P9_RCLUNK, tag, Seq::empty())
    }
}

/// What a Tgetattr answers.
pub open spec fn getattr_post(o: Virtio9p, tag: u16, p: Seq<u8>, r: Seq<u8>) -> bool {
    let fid = le32_at(p, 0);
    if p.len() < 12 { r == error_bytes(tag, EINVAL) }
    else if !o.fids@.contains_key(fid) { r == error_bytes(tag, EBADF) }
    else if !o.inodes@.contains_key(o.fids@[fid].inode_path) { r == error_bytes(tag, ENOENT) }
    else { r == frame(P9_RGETATTR, tag, getattr_body(o.inodes@[o.fids@[fid].inode_path])) }
}

/// What a Tlopen does.
pub open spec fn lopen_post(o: Virtio9p, n: Virtio9p, tag: u16, p: Seq<u8>, r: Seq<u8>) -> bool {
    let fid = le32_at(p, 0);
    if p.len() < 8 { r == error_bytes(tag, EINVAL) && n == o }
    else if !o.fids@.contains_key(fid) { r == error_bytes(tag, EBADF) && n == o }
    else if !o.inodes@.contains_key(o.fids@[fid].inode_path) { r == error_bytes(tag, ENOENT) && n == o }
    else {
        let f = o.fids@[fid];
        &&& same_but_fids(o, n)
        &&& n.fids@ == o.fids@.insert(fid, Fid { open: true, open_flags: le32_at(p, 4), position: 0, ..f })
        &&& r == frame(P9_RLOPEN, tag, qid_bytes(o.inodes@[f.inode_path].qid) + le32_seq(4096))
    }
}

/// What a Tread does; `None` suspends the request until the blob arrives.
pub open spec fn read_post(o: Virtio9p, n: Virtio9p, tag: u16, p: Seq<u8>, r: Option<Vec<u8>>) -> bool {
    let fid = le32_at(p, 0);
    if p.len() < 16 { r matches Some(v) && v@ == error_bytes(tag, EINVAL) && n == o }
    else if !o.fids@.contains_key(fid) { r matches Some(v) && v@ == error_bytes(tag, EBADF) && n == o }
    else if !o.inodes@.contains_key(o.fids@[fid].inode_path) { r matches Some(v) && v@ == error_bytes(tag, ENOENT) && n == o }
    else {
        let i = o.inodes@[o.fids@[fid].inode_path];
        match i.content {
            InodeContent::Directory => r matches Some(v) && v@ == error_bytes(tag, EISDIR) && n == o,
            InodeContent::Hash(h) if o.blob_cache.lookup(h@) is None => {
                &&& r is None
                &&& n == Virtio9p { missing_blobs: n.missing_blobs, ..o }
                &&& forall|k: Seq<char>| #[trigger] n.missing_blobs.has(k) == (o.missing_blobs.has(k) || k == h@)
            },
            _ => {
                let data = read_window(content_bytes(i.content, o.blob_cache)->Some_0, le64_at(p, 4), le32_at(p, 12));
                &&& n == o
                &&& r matches Some(v) && v@ == frame(P9_RREAD, tag, le32_seq(data.len() as u32) + data)
            },
        }
    }
}

/// What a Tstatfs answers.
pub open spec fn statfs_post(tag: u16, p: Seq<u8>, r: Seq<u8>) -> bool {
    if p.len() < 4 { r == error_bytes(tag, EINVAL) } else { r == frame(P9_RSTATFS, tag, statfs_body()) }
}

/// What a Twalk does. A walk of no names clones the fid; otherwise the new fid
/// ends where the walk stopped and the response lists one QID per name walked.
pub open spec fn walk_post(o: Virtio9p, n: Virtio9p, tag: u16, p: Seq<u8>, r: Seq<u8>) -> bool {
    let fid = le32_at(p, 0);
    let newfid = le32_at(p, 4);
    if p.len() < 10 {
        r == error_bytes(tag, EINVAL) && n == o
    } else if !o.fids@.contains_key(fid) {
        r == error_bytes(tag, EBADF) && n == o
    } else {
        &&& le16_at(p, 8) == 0 ==> {
            &&& same_but_fids(o, n)
            &&& n.fids@ == o.fids@.insert(newfid, fresh_fid(o.fids@[fid].inode_path))
            &&& r == frame(P9_RWALK, tag, le16_seq(0))
        }
        &&& {
            ||| ((r == error_bytes(tag, EINVAL) || r == error_bytes(tag, ENOENT) || r == error_bytes(tag, ENOTDIR)) && n == o)
            ||| (same_but_fids(o, n) && exists|path: u64, k: u16, qs: Seq<u8>|
                    #![trigger o.fids@.insert(newfid, fresh_fid(path)), le16_seq(k), qs.len()]
                    n.fids@ == o.fids@.insert(newfid, fresh_fid(path)) && qs.len() == 13 * k
                    && r == frame(P9_RWALK, tag, le16_seq(k) + qs))
        }
    }
}

/// What a Treaddir answers: entries fitting in `count` bytes, starting at the given index.
pub open spec fn readdir_post(o: Virtio9p, tag: u16, p: Seq<u8>, r: Seq<u8>) -> bool {
    let fid = le32_at(p, 0);
    if p.len() < 16 { r == error_bytes(tag, EINVAL) }
    else if !o.fids@.contains_key(fid) { r == error_bytes(tag, EBADF) }
    else if !o.inodes@.contains_key(o.fids@[fid].inode_path) { r == error_bytes(tag, ENOENT) }
    else if mode_type(o.inodes@[o.fids@[fid].inode_path].mode) != 0o040000 { r == error_bytes(tag, ENOTDIR) }
    else {
        exists|e: Seq<u8>| #![trigger e.len()] e.len() <= le32_at(p, 12)
            && (le64_at(p, 4) >= o.inodes@[o.fids@[fid].inode_path].children@.len() ==> e.len() == 0)
            && r == frame(P9_RREADDIR, tag, le32_seq(e.len() as u32) + e)
    }
}

/// The device's fixed structure: the root inode exists and fresh inode paths never reuse it.
pub open spec fn p9_inv(d: Virtio9p) -> bool {
    &&& d.inodes@.contains_key(0)
    &&& d.next_inode >= 1
}


/// The total length of the buffers `ds`.
pub open spec fn buffers_total(ds: Seq<Descriptor>) -> int
    decreases ds.len(),
{
    if ds.len() == 0 { 0 } else { buffers_total(ds.drop_last()) + ds.last().len }
}

/// RAM after `bytes` are copied into the buffer at `addr`, each byte as a
/// 32-bit store of its value followed by a byte store of it.
pub open spec fn buffer_fill(ram: Seq<u8>, addr: u64, bytes: Seq<u8>) -> Seq<u8>
    decreases bytes.len(),
{
    if bytes.len() == 0 {
        ram
    } else {
        let i = bytes.len() - 1;
        let b = bytes.last();
        Memory::ram_after_write8(
            Memory::ram_after_write(buffer_fill(ram, addr, bytes.drop_last()),
                ((addr % 0x1_0000_0000) as u32).wrapping_add(i as u32), b as u64, 4),
            (addr.wrapping_add(i as u64) % 0x1_0000_0000) as u32,
            b,
        )
    }
}

/// How many bytes of a response of `len` bytes fit in buffers holding `total`.
pub open spec fn fill_count(len: nat, total: int) -> int {
    if len <= total { len as int } else { total }
}

/// RAM after `response` is copied into the buffers `ds` in order, each
/// buffer taking what is left of the response up to its length.
pub open spec fn response_fill(ram: Seq<u8>, ds: Seq<Descriptor>, response: Seq<u8>) -> Seq<u8>
    decreases ds.len(),
{
    if ds.len() == 0 {
        ram
    } else {
        let prev = response_fill(ram, ds.drop_last(), response);
        let w = fill_count(response.len(), buffers_total(ds.drop_last()));
        let room = response.len() - w;
        let n = if (ds.last().len as int) < room { ds.last().len as int } else { room };
        if w >= response.len() { prev } else { buffer_fill(prev, ds.last().addr, response.subrange(w, w + n)) }
    }
}

/// Once the response is used up, later buffers change nothing.
proof fn lemma_fill_stops(ram: Seq<u8>, ds: Seq<Descriptor>, response: Seq<u8>, d: int)
    requires
        0 <= d <= ds.len(),
        buffers_total(ds.take(d)) >= response.len(),
    ensures
        response_fill(ram, ds, response) == response_fill(ram, ds.take(d), response),
    decreases ds.len() - d,
{
    if d < ds.len() {
        assert(ds.drop_last().take(d) =~= ds.take(d));
        lemma_buffers_total_prefix(ds.drop_last(), d);
        lemma_fill_stops(ram, ds.drop_last(), response, d);
    } else {
        assert(ds.take(d) =~= ds);
    }
}

/// The buffers of a prefix hold no more than all of them.
proof fn lemma_buffers_total_prefix(ds: Seq<Descriptor>, k: int)
    requires
        0 <= k <= ds.len(),
    ensures
        buffers_total(ds.take(k)) <= buffers_total(ds),
    decreases ds.len() - k,
{
    if k < ds.len() {
        lemma_buffers_total_prefix(ds, k + 1);
        assert(ds.take(k + 1).drop_last() =~= ds.take(k));
    } else {
        assert(ds.take(k) =~= ds);
    }
}

impl Virtio9p {
    pub fn new(tag: &str) -> (d: Virtio9p)
        ensures
            p9_inv(d),
            d.tag@ == tag@,
            d.next_inode == 1,
            d.msize == MAX_MSIZE,
            d.fids@ == Map::<u32, Fid>::empty(),
            d.inodes@.dom() == set![0u64],
            d.inodes@[0].qid == (Qid { qtype: P9_QTDIR, version: 0, path: 0 }),
            d.inodes@[0].mode == 0o40755,
            d.inodes@[0].children@.len() == 0,
            d.virtio.device_id == 9,
            d.virtio.device_features == 1,
            d.virtio.queues@.len() == 1,
            ({
                let tb = vstd::utf8::encode_utf8(tag@);
                let c = le16_seq(tb.len() as u16) + tb;
                d.virtio.config@ == if c.len() < 8 { c + Seq::new((8 - c.len()) as nat, |i: int| 0u8) } else { c }
            }),
            forall|k: Seq<char>| #[trigger] d.blob_cache.lookup(k) is None,
            forall|k: Seq<char>| !#[trigger] d.missing_blobs.has(k),
            d.suspended_requests@.len() == 0,
    {
        broadcast use vstd::string::to_string_from_display_ensures_for_str;
        let tag_bytes = tag.as_bytes();
        let mut config: Vec<u8> = Vec::new();
        push_le16(&mut config, tag_bytes.len() as u16);
        push_all(&mut config, tag_bytes);
        let ghost c = config@;
        while config.len() < 8
            invariant
                c.len() <= config@.len() <= 8 || config@ == c,
                c.len() < 8 ==> config@ == c + Seq::new((config@.len() - c.len()) as nat, |i: int| 0u8),
                c.len() >= 8 ==> config@ == c,
            decreases 8 - config@.len(),
        {
            config.push(0);
            assert(config@ =~= c + Seq::new((config@.len() - c.len()) as nat, |i: int| 0u8));
        }
        let mut virtio = VirtioMmio::new(9, 1, config);
        virtio.device_features = 1;
        let mut inodes: HashMap<u64, Inode> = HashMap::new();
        let root = Inode {
            qid: Qid::new(P9_QTDIR, 0),
            name: String::new(),
            size: 0,
            mode: 0o40755,
            uid: 0,
            gid: 0,
            mtime: 0,
            atime: 0,
            ctime: 0,
            content: InodeContent::Directory,
            children: Vec::new(),
            parent: 0,
        };
        inodes.insert(0, root);
        let d = Virtio9p {
            virtio,
            tag: tag.to_string(),
            inodes,
            next_inode: 1,
            fids: HashMap::new(),
            msize: MAX_MSIZE,
            pending_requests: Vec::new(),
            pending_responses: VecDeque::new(),
            blob_cache: BlobCache::new(),
            missing_blobs: BlobNames::new(),
            suspended_requests: Vec::new(),
        };
        assert(d.inodes@.dom() =~= set![0u64]);
        d
    }

    pub fn read8(&self, offset: u32) -> (r: u8)
        ensures
            r == super::virtio::mmio_read8(self.virtio, offset),
    {
        self.virtio.read8(offset)
    }

    pub fn write8(&mut self, offset: u32, value: u8)
        ensures
            *final(self) == (Virtio9p { virtio: final(self).virtio, ..*old(self) }),
    {
        self.virtio.write8(offset, value);
    }

    pub fn read32(&self, offset: u32) -> (r: u32)
        ensures
            r == super::virtio::mmio_read32(self.virtio, offset),
    {
        self.virtio.read32(offset)
    }

    pub fn write32(&mut self, offset: u32, value: u32)
        ensures
            super::virtio::mmio_write32(old(self).virtio, final(self).virtio, offset, value),
            *final(self) == (Virtio9p { virtio: final(self).virtio, ..*old(self) }),
    {
        self.virtio.write32(offset, value);
    }

    /// Kept for interface compatibility; queues are processed by `process_queues`.
    pub fn notify(&mut self, _queue: u32)
        ensures
            *final(self) == *old(self),
    {
    }

    /// Builds a response: size, type, tag, body.
    fn respond(t: u8, tag: u16, body: &Vec<u8>) -> (r: Vec<u8>)
        ensures
            r@ == frame(t, tag, body@),
    {
        let mut resp: Vec<u8> = Vec::new();
        push_le32(&mut resp, (body.len() as u32).wrapping_add(7));
        resp.push(t);
        push_le16(&mut resp, tag);
        push_all(&mut resp, body.as_slice());
        assert(resp@ =~= frame(t, tag, body@));
        resp
    }

    fn error_response(&self, tag: u16, errno: u32) -> (r: Vec<u8>)
        ensures
            r@ == error_bytes(tag, errno),
    {
        let mut body: Vec<u8> = Vec::new();
        push_le32(&mut body, errno);
        assert(body@ =~= le32_seq(errno));
        Self::respond(P9_RLERROR, tag, &body)
    }

    /// Process a 9P request message and return the response (`None` when the
    /// request waits for a blob from the host).
    pub fn process_message(&mut self, request: &[u8]) -> (r: Option<Vec<u8>>)
        requires
            p9_inv(*old(self)),
        ensures
            final(self).virtio == old(self).virtio,
            p9_inv(*final(self)),
            ({
                let o = *old(self);
                let n = *final(self);
                let req = request@;
                let t = req[4];
                let tag = le16_at(req, 5);
                let p = payload(req);
                if req.len() < 7 {
                    r matches Some(v) && v@ == error_bytes(0, EINVAL) && n == o
                } else if t == P9_TVERSION {
                    r matches Some(v) && version_post(o, n, tag, p, v@)
                } else if t == P9_TATTACH {
                    r matches Some(v) && attach_post(o, n, tag, p, v@)
                } else if t == P9_TWALK {
                    r matches Some(v) && walk_post(o, n, tag, p, v@)
                } else if t == P9_TCLUNK {
                    r matches Some(v) && clunk_post(o, n, tag, p, v@)
                } else if t == P9_TGETATTR {
                    r matches Some(v) && getattr_post(o, tag, p, v@) && n == o
                } else if t == P9_TREADDIR {
                    r matches Some(v) && readdir_post(o, tag, p, v@) && n == o
                } else if t == P9_TLOPEN {
                    r matches Some(v) && lopen_post(o, n, tag, p, v@)
                } else if t == P9_TREAD {
                    read_post(o, n, tag, p, r)
                } else if t == P9_TSTATFS {
                    r matches Some(v) && statfs_post(tag, p, v@) && n == o
                } else {
                    r matches Some(v) && v@ == error_bytes(tag, EINVAL) && n == o
                }
            }),
    {
        if request.len() < 7 {
            return Some(self.error_response(0, EINVAL));
        }
        let msg_type = request[4];
        let tag = read_le16(request, 5);
        if msg_type == P9_TVERSION {
            Some(self.handle_version(tag, request))
        } else if msg_type == P9_TATTACH {
            Some(self.handle_attach(tag, request))
        } else if msg_type == P9_TWALK {
            Some(self.handle_walk(tag, request))
        } else if msg_type == P9_TCLUNK {
            Some(self.handle_clunk(tag, request))
        } else if msg_type == P9_TGETATTR {
            Some(self.handle_getattr(tag, request))
        } else if msg_type == P9_TREADDIR {
            Some(self.handle_readdir(tag, request))
        } else if msg_type == P9_TLOPEN {
            Some(self.handle_lopen(tag, request))
        } else if msg_type == P9_TREAD {
            self.handle_read(tag, request)
        } else if msg_type == P9_TSTATFS {
            Some(self.handle_statfs(tag, request))
        } else {
            Some(self.error_response(tag, EINVAL))
        }
    }

    fn handle_version(&mut self, tag: u16, req: &[u8]) -> (r: Vec<u8>)
        requires
            7 <= req@.len(),
        ensures
            final(self).virtio == old(self).virtio,
            version_post(*old(self), *final(self), tag, payload(req@), r@),
    {
        let ghost p = payload(req@);
        if req.len() < 13 {
            return self.error_response(tag, EINVAL);
        }
        let msize = read_le32(req, 7);
        let version_len = read_le16(req, 11) as usize;
        assert(le32_at(p, 0) == msize && le16_at(p, 4) == version_len);
        if req.len() - 7 < 6 + version_len {
            return self.error_response(tag, EINVAL);
        }
        self.msize = if msize < MAX_MSIZE { msize } else { MAX_MSIZE };
        let mut body: Vec<u8> = Vec::new();
        push_le32(&mut body, self.msize);
        push_le16(&mut body, 8);
        let version: [u8; 8] = [0x39, 0x50, 0x32, 0x30, 0x30, 0x30, 0x2E, 0x4C];
        push_all(&mut body, &version);
        assert(version@ =~= version_string());
        Self::respond(P9_RVERSION, tag, &body)
    }

    fn handle_attach(&mut self, tag: u16, req: &[u8]) -> (r: Vec<u8>)
        requires
            7 <= req@.len(),
            p9_inv(*old(self)),
        ensures
            final(self).virtio == old(self).virtio,
            attach_post(*old(self), *final(self), tag, payload(req@), r@),
    {
        let ghost p = payload(req@);
        if req.len() < 19 {
            return self.error_response(tag, EINVAL);
        }
        let fid = read_le32(req, 7);
        assert(le32_at(p, 0) == fid);
        let qid = match self.inodes.get(&0) {
            Some(root) => root.qid,
            None => {
                return self.error_response(tag, ENOENT);
            },
        };
        self.fids.insert(fid, Fid { inode_path: 0, open: false, open_flags: 0, position: 0 });
        let body = qid.encode();
        Self::respond(P9_RATTACH, tag, &body)
    }

    fn handle_clunk(&mut self, tag: u16, req: &[u8]) -> (r: Vec<u8>)
        requires
            7 <= req@.len(),
        ensures
            final(self).virtio == old(self).virtio,
            clunk_post(*old(self), *final(self), tag, payload(req@), r@),
    {
        let ghost p = payload(req@);
        if req.len() < 11 {
            return self.error_response(tag, EINVAL);
        }
        let fid = read_le32(req, 7);
        assert(le32_at(p, 0) == fid);
        self.fids.remove(&fid);
        let body: Vec<u8> = Vec::new();
        Self::respond(P9_RCLUNK, tag, &body)
    }

    fn handle_getattr(&self, tag: u16, req: &[u8]) -> (r: Vec<u8>)
        requires
            7 <= req@.len(),
        ensures
            getattr_post(*self, tag, payload(req@), r@),
    {
        let ghost p = payload(req@);
        if req.len() < 19 {
            return self.error_response(tag, EINVAL);
        }
        let fid = read_le32(req, 7);
        assert(le32_at(p, 0) == fid);
        let f = match self.fids.get(&fid) {
            Some(f) => *f,
            None => {
                return self.error_response(tag, EBADF);
            },
        };
        let inode = match self.inodes.get(&f.inode_path) {
            Some(i) => i,
            None => {
                return self.error_response(tag, ENOENT);
            },
        };
        let mut body: Vec<u8> = Vec::new();
        push_le64(&mut body, 0x7fff);
        let q = inode.qid.encode();
        push_all(&mut body, q.as_slice());
        push_le32(&mut body, inode.mode);
        push_le32(&mut body, inode.uid);
        push_le32(&mut body, inode.gid);
        push_le64(&mut body, 1);
        push_le64(&mut body, 0);
        push_le64(&mut body, inode.size);
        push_le64(&mut body, 4096);
        let blocks = inode.size / 512 + if inode.size % 512 != 0 { 1 } else { 0 };
        assert(blocks == (inode.size + 511) / 512);
        push_le64(&mut body, blocks);
        push_le64(&mut body, inode.atime);
        push_le64(&mut body, 0);
        push_le64(&mut body, inode.mtime);
        push_le64(&mut body, 0);
        push_le64(&mut body, inode.ctime);
        push_le64(&mut body, 0);
        push_le64(&mut body, 0);
        push_le64(&mut body, 0);
        push_le64(&mut body, 0);
        push_le64(&mut body, 0);
        assert(body@ =~= getattr_body(*inode));
        Self::respond(P9_RGETATTR, tag, &body)
    }

    fn handle_lopen(&mut self, tag: u16, req: &[u8]) -> (r: Vec<u8>)
        requires
            7 <= req@.len(),
        ensures
            final(self).virtio == old(self).virtio,
            lopen_post(*old(self), *final(self), tag, payload(req@), r@),
    {
        let ghost p = payload(req@);
        if req.len() < 15 {
            return self.error_response(tag, EINVAL);
        }
        let fid = read_le32(req, 7);
        let flags = read_le32(req, 11);
        assert(le32_at(p, 0) == fid && le32_at(p, 4) == flags);
        let f = match self.fids.get(&fid) {
            Some(f) => *f,
            None => {
                return self.error_response(tag, EBADF);
            },
        };
        let qid = match self.inodes.get(&f.inode_path) {
            Some(i) => i.qid,
            None => {
                return self.error_response(tag, ENOENT);
            },
        };
        self.fids.insert(fid, Fid { open: true, open_flags: flags, position: 0, ..f });
        let mut body = qid.encode();
        push_le32(&mut body, 4096);
        Self::respond(P9_RLOPEN, tag, &body)
    }

    fn handle_statfs(&self, tag: u16, req: &[u8]) -> (r: Vec<u8>)
        requires
            7 <= req@.len(),
        ensures
            statfs_post(tag, payload(req@), r@),
    {
        if req.len() < 11 {
            return self.error_response(tag, EINVAL);
        }
        let mut body: Vec<u8> = Vec::new();
        push_le32(&mut body, 0x01021997);
        push_le32(&mut body, 4096);
        push_le64(&mut body, 1000000);
        push_le64(&mut body, 500000);
        push_le64(&mut body, 500000);
        push_le64(&mut body, 100000);
        push_le64(&mut body, 50000);
        push_le64(&mut body, 0);
        push_le32(&mut body, 255);
        assert(body@ =~= statfs_body());
        Self::respond(P9_RSTATFS, tag, &body)
    }

    /// Bytes `[off, off + count)` of `data` (cut at its end).
    fn window(data: &[u8], off: u64, count: u32) -> (r: Vec<u8>)
        ensures
            r@ == read_window(data@, off, count),
    {
        let mut out: Vec<u8> = Vec::new();
        if off >= data.len() as u64 {
            return out;
        }
        let start = off as usize;
        let end: usize = if (count as u64) < (data.len() as u64) - off { start + count as usize } else { data.len() };
        let mut i = start;
        while i < end
            invariant
                start <= i <= end <= data@.len(),
                out@ == data@.subrange(start as int, i as int),
            decreases end - i,
        {
            out.push(data[i]);
            i = i + 1;
            assert(out@ =~= data@.subrange(start as int, i as int));
        }
        out
    }

    fn handle_read(&mut self, tag: u16, req: &[u8]) -> (r: Option<Vec<u8>>)
        requires
            7 <= req@.len(),
        ensures
            final(self).virtio == old(self).virtio,
            read_post(*old(self), *final(self), tag, payload(req@), r),
    {
        let ghost p = payload(req@);
        if req.len() < 23 {
            return Some(self.error_response(tag, EINVAL));
        }
        let fid = read_le32(req, 7);
        let offset = read_le64(req, 11);
        let count = read_le32(req, 19);
        assert(le32_at(p, 0) == fid && le32_at(p, 12) == count);
        assert(le32_at(p, 4) == le32_at(req@, 11) && le32_at(p, 8) == le32_at(req@, 15));
        assert(le64_at(p, 4) == offset);
        let f = match self.fids.get(&fid) {
            Some(f) => *f,
            None => {
                return Some(self.error_response(tag, EBADF));
            },
        };
        let inode = match self.inodes.get(&f.inode_path) {
            Some(i) => i,
            None => {
                return Some(self.error_response(tag, ENOENT));
            },
        };
        let data: Vec<u8> = match &inode.content {
            InodeContent::Inline(d) => Self::window(d.as_slice(), offset, count),
            InodeContent::Hash(h) => {
                match self.blob_cache.get(h) {
                    Some(blob) => Self::window(blob.as_slice(), offset, count),
                    None => {
                        let hash = h.clone();
                        self.missing_blobs.insert(hash);
                        return None;
                    },
                }
            },
            InodeContent::Symlink(t) => Self::window(t.as_str().as_bytes(), offset, count),
            InodeContent::Directory => {
                return Some(self.error_response(tag, EISDIR));
            },
        };
        let mut body: Vec<u8> = Vec::new();
        push_le32(&mut body, data.len() as u32);
        push_all(&mut body, data.as_slice());
        Some(Self::respond(P9_RREAD, tag, &body))
    }

    /// The names of the blobs the host should provide.
    pub fn get_missing_blobs(&self) -> (r: Vec<String>)
        ensures
            string_views(r@) == self.missing_blobs.names_view(),
    {
        self.missing_blobs.to_vec()
    }

    /// Add a file (or directory, or symlink) under `parent_path`; returns its inode path.
    pub fn add_file(&mut self, parent_path: u64, name: &str, content: InodeContent, mode: u32) -> (r: u64)
        requires
            p9_inv(*old(self)),
            old(self).next_inode < u64::MAX,
        ensures
            p9_inv(*final(self)),
            r == old(self).next_inode,
            final(self).next_inode == old(self).next_inode + 1,
            final(self).inodes@.contains_key(r),
            final(self).inodes@[r].name@ == name@,
            final(self).inodes@[r].mode == mode,
            final(self).inodes@[r].parent == parent_path,
            final(self).inodes@[r].qid == (Qid {
                qtype: match content { InodeContent::Directory => P9_QTDIR, InodeContent::Symlink(_) => P9_QTSYMLINK, _ => P9_QTFILE },
                version: 0,
                path: r,
            }),
            final(self).inodes@.dom() == old(self).inodes@.dom().insert(r),
            forall|k: u64| k != r && k != parent_path && #[trigger] old(self).inodes@.contains_key(k)
                ==> final(self).inodes@[k] == old(self).inodes@[k],
            parent_path != r && old(self).inodes@.contains_key(parent_path) ==>
                final(self).inodes@[parent_path].children@ == old(self).inodes@[parent_path].children@.push(r),
            final(self).fids == old(self).fids,
    {
        broadcast use vstd::string::to_string_from_display_ensures_for_str;
        let path = self.next_inode;
        self.next_inode = self.next_inode + 1;
        let qtype = match &content {
            InodeContent::Directory => P9_QTDIR,
            InodeContent::Symlink(_) => P9_QTSYMLINK,
            _ => P9_QTFILE,
        };
        let size: u64 = match &content {
            InodeContent::Inline(data) => data.len() as u64,
            InodeContent::Symlink(target) => target.as_str().as_bytes().len() as u64,
            _ => 0,
        };
        let inode = Inode {
            qid: Qid::new(qtype, path),
            name: name.to_string(),
            size,
            mode,
            uid: 0,
            gid: 0,
            mtime: 0,
            atime: 0,
            ctime: 0,
            content,
            children: Vec::new(),
            parent: parent_path,
        };
        self.inodes.insert(path, inode);
        if parent_path != path {
            match self.inodes.remove(&parent_path) {
                Some(mut parent) => {
                    parent.children.push(path);
                    self.inodes.insert(parent_path, parent);
                },
                None => {},
            }
        }
        assert(self.inodes@.dom() =~= old(self).inodes@.dom().insert(path));
        path
    }

    /// Create a directory.
    pub fn mkdir(&mut self, parent_path: u64, name: &str) -> (r: u64)
        requires
            p9_inv(*old(self)),
            old(self).next_inode < u64::MAX,
        ensures
            p9_inv(*final(self)),
            r == old(self).next_inode,
            final(self).inodes@.contains_key(r),
            final(self).inodes@[r].name@ == name@,
            final(self).inodes@[r].mode == 0o40755,
            final(self).inodes@[r].parent == parent_path,
            final(self).inodes@[r].qid == (Qid { qtype: P9_QTDIR, version: 0, path: r }),
            final(self).inodes@.dom() == old(self).inodes@.dom().insert(r),
    {
        self.add_file(parent_path, name, InodeContent::Directory, 0o40755)
    }

    /// Reset the transport and forget fids, cached blobs and waiting requests.
    pub fn reset(&mut self)
        ensures
            super::virtio::mmio_reset(old(self).virtio, final(self).virtio),
            final(self).fids@ == Map::<u32, Fid>::empty(),
            forall|k: Seq<char>| #[trigger] final(self).blob_cache.lookup(k) is None,
            forall|k: Seq<char>| !#[trigger] final(self).missing_blobs.has(k),
            final(self).suspended_requests@.len() == 0,
            final(self).inodes == old(self).inodes,
            final(self).next_inode == old(self).next_inode,
            final(self).msize == old(self).msize,
    {
        self.virtio.reset();
        self.fids.clear();
        self.blob_cache.clear();
        self.missing_blobs.clear();
        self.suspended_requests.clear();
    }

    /// Does `name` equal the `len` bytes of `req` at `at`?
    fn name_matches(name: &String, req: &[u8], at: usize, len: usize) -> (r: bool)
        requires
            at + len <= req@.len(),
        ensures
            r == (vstd::utf8::encode_utf8(name@) == req@.subrange(at as int, at + len)),
    {
        let b = name.as_str().as_bytes();
        assert(b@ == vstd::utf8::encode_utf8(name@));
        let rl = req.len();
        if b.len() != len {
            assert(b@.len() != req@.subrange(at as int, at + len).len());
            return false;
        }
        let mut i: usize = 0;
        while i < len
            invariant
                i <= len,
                b@.len() == len,
                b@ == vstd::utf8::encode_utf8(name@),
                at + len <= req@.len(),
                rl == req@.len(),
                b@.subrange(0, i as int) == req@.subrange(at as int, at + i),
            decreases len - i,
        {
            assert(at + i < req@.len());
            if b[i] != req[at + i] {
                assert(b@[i as int] != req@.subrange(at as int, at + len)[i as int]);
                assert(b@ != req@.subrange(at as int, at + len));
                return false;
            }
            i = i + 1;
            assert(b@.subrange(0, i as int) =~= req@.subrange(at as int, at + i));
        }
        assert(b@ =~= b@.subrange(0, len as int));
        true
    }

    fn handle_walk(&mut self, tag: u16, req: &[u8]) -> (r: Vec<u8>)
        requires
            7 <= req@.len(),
        ensures
            final(self).virtio == old(self).virtio,
            walk_post(*old(self), *final(self), tag, payload(req@), r@),
    {
        let ghost p = payload(req@);
        if req.len() < 17 {
            return self.error_response(tag, EINVAL);
        }
        let fid = read_le32(req, 7);
        let newfid = read_le32(req, 11);
        let nwname = read_le16(req, 15);
        assert(le32_at(p, 0) == fid && le32_at(p, 4) == newfid && le16_at(p, 8) == nwname);
        let start = match self.fids.get(&fid) {
            Some(f) => *f,
            None => {
                return self.error_response(tag, EBADF);
            },
        };
        let mut current_path = start.inode_path;
        let mut qids: Vec<u8> = Vec::new();
        let mut nqids: u16 = 0;
        let mut offset: usize = 17;
        let mut w: u16 = 0;
        while w < nwname
            invariant
                w <= nwname,
                nqids <= w,
                qids@.len() == 13 * nqids,
                nwname == 0 ==> current_path == start.inode_path && nqids == 0,
                17 <= offset <= req@.len(),
                *self == *old(self),
                le16_at(payload(req@), 8) == nwname,
                le32_at(payload(req@), 0) == fid,
                le32_at(payload(req@), 4) == newfid,
                old(self).fids@.contains_key(fid),
                payload(req@).len() >= 10,
            decreases nwname - w,
        {
            w = w + 1;
            if req.len() - offset < 2 {
                return self.error_response(tag, EINVAL);
            }
            let name_len = read_le16(req, offset) as usize;
            offset = offset + 2;
            if req.len() - offset < name_len {
                return self.error_response(tag, EINVAL);
            }
            let name_at = offset;
            offset = offset + name_len;
            let current = match self.inodes.get(&current_path) {
                Some(i) => i,
                None => {
                    return self.error_response(tag, ENOENT);
                },
            };
            if !current.is_dir() {
                return self.error_response(tag, ENOTDIR);
            }
            let next: Option<(u64, Qid)> = if name_len == 1 && req[name_at] == 0x2E {
                Some((current_path, current.qid))
            } else if name_len == 2 && req[name_at] == 0x2E && req[name_at + 1] == 0x2E {
                let parent_path = current.parent;
                match self.inodes.get(&parent_path) {
                    Some(parent) => Some((parent_path, parent.qid)),
                    None => {
                        return self.error_response(tag, ENOENT);
                    },
                }
            } else {
                let mut found: Option<(u64, Qid)> = None;
                let mut c: usize = 0;
                let nchildren = current.children.len();
                while c < nchildren
                    invariant
                        c <= nchildren,
                        nchildren == current.children@.len(),
                        name_at + name_len <= req@.len(),
                    decreases nchildren - c,
                {
                    let child_path = current.children[c];
                    match self.inodes.get(&child_path) {
                        Some(child) => {
                            if Self::name_matches(&child.name, req, name_at, name_len) {
                                found = Some((child_path, child.qid));
                                break;
                            }
                        },
                        None => {},
                    }
                    c = c + 1;
                }
                found
            };
            match next {
                Some((path, qid)) => {
                    current_path = path;
                    let q = qid.encode();
                    push_all(&mut qids, q.as_slice());
                    nqids = nqids + 1;
                },
                None => {
                    if nqids == 0 {
                        return self.error_response(tag, ENOENT);
                    }
                    break;
                },
            }
        }
        self.fids.insert(newfid, Fid { inode_path: current_path, open: false, open_flags: 0, position: 0 });
        let mut body: Vec<u8> = Vec::new();
        push_le16(&mut body, nqids);
        push_all(&mut body, qids.as_slice());
        let r = Self::respond(P9_RWALK, tag, &body);
        proof {
            assert(body@ == le16_seq(nqids) + qids@);
            if nwname == 0 {
                assert(qids@ =~= Seq::<u8>::empty());
                assert(body@ =~= le16_seq(0));
            }
            assert(self.fids@ == old(self).fids@.insert(newfid, fresh_fid(current_path)));
            assert(r@ == frame(P9_RWALK, tag, le16_seq(nqids) + qids@));
            assert(qids@.len() == 13 * nqids);
        }
        r
    }

    fn handle_readdir(&self, tag: u16, req: &[u8]) -> (r: Vec<u8>)
        requires
            7 <= req@.len(),
        ensures
            readdir_post(*self, tag, payload(req@), r@),
    {
        let ghost p = payload(req@);
        if req.len() < 23 {
            return self.error_response(tag, EINVAL);
        }
        let fid = read_le32(req, 7);
        let offset = read_le64(req, 11);
        let count = read_le32(req, 19);
        assert(le32_at(p, 0) == fid && le32_at(p, 12) == count);
        assert(le32_at(p, 4) == le32_at(req@, 11) && le32_at(p, 8) == le32_at(req@, 15));
        assert(le64_at(p, 4) == offset);
        let f = match self.fids.get(&fid) {
            Some(f) => *f,
            None => {
                return self.error_response(tag, EBADF);
            },
        };
        let inode = match self.inodes.get(&f.inode_path) {
            Some(i) => i,
            None => {
                return self.error_response(tag, ENOENT);
            },
        };
        if !inode.is_dir() {
            return self.error_response(tag, ENOTDIR);
        }
        let mut entries: Vec<u8> = Vec::new();
        let mut current_offset: u64 = 0;
        let n = inode.children.len();
        let mut c: usize = 0;
        while c < n
            invariant
                c <= n,
                n == inode.children@.len(),
                current_offset == c,
                entries@.len() <= count,
                offset >= n ==> entries@.len() == 0,
            decreases n - c,
        {
            if current_offset < offset {
                current_offset = current_offset + 1;
                c = c + 1;
                continue;
            }
            let child_path = inode.children[c];
            match self.inodes.get(&child_path) {
                Some(child) => {
                    let mut entry = child.qid.encode();
                    push_le64(&mut entry, current_offset + 1);
                    entry.push(child.qid.qtype);
                    let name_bytes = child.name.as_str().as_bytes();
                    if name_bytes.len() > 0xFFFF || entry.len() + 2 + name_bytes.len() > (count as usize) {
                        break;
                    }
                    push_le16(&mut entry, name_bytes.len() as u16);
                    push_all(&mut entry, name_bytes);
                    if entries.len() as u64 + entry.len() as u64 > count as u64 {
                        break;
                    }
                    push_all(&mut entries, entry.as_slice());
                },
                None => {},
            }
            current_offset = current_offset + 1;
            c = c + 1;
        }
        let mut body: Vec<u8> = Vec::new();
        push_le32(&mut body, entries.len() as u32);
        push_all(&mut body, entries.as_slice());
        let r = Self::respond(P9_RREADDIR, tag, &body);
        assert(entries@.len() == entries@.len());
        r
    }

    /// Copies `response` into the device-writable buffers `outputs`, in order,
    /// and returns the number of bytes written.
    fn write_response(mem: &mut Memory, outputs: &Vec<Descriptor>, response: &Vec<u8>) -> (n: u32)
        requires
            old(mem).wf(),
        ensures
            final(mem).wf(),
            final(mem).rom_view() == old(mem).rom_view(),
            final(mem).same_devices(*old(mem)),
            n == (if response@.len() <= buffers_total(outputs@) { response@.len() as int } else { buffers_total(outputs@) }) as u32,
            old(mem).no_devices() ==> final(mem).ram_view() == response_fill(old(mem).ram_view(), outputs@, response@),
    {
        let mut written: usize = 0;
        let mut d: usize = 0;
        let rlen = response.len();
        assert(outputs@.take(outputs@.len() as int) =~= outputs@);
        while d < outputs.len()
            invariant
                outputs@.take(outputs@.len() as int) == outputs@,
                rlen == response@.len(),
                mem.wf(),
                mem.rom_view() == old(mem).rom_view(),
                mem.same_devices(*old(mem)),
                written <= response@.len(),
                d <= outputs@.len(),
                written == (if response@.len() <= buffers_total(outputs@.take(d as int)) { response@.len() as int }
                    else { buffers_total(outputs@.take(d as int)) }),
                old(mem).no_devices() ==> mem.ram_view() == response_fill(old(mem).ram_view(), outputs@.take(d as int), response@),
            ensures
                mem.wf(),
                mem.rom_view() == old(mem).rom_view(),
                mem.same_devices(*old(mem)),
                written == (if response@.len() <= buffers_total(outputs@) { response@.len() as int }
                    else { buffers_total(outputs@) }),
                old(mem).no_devices() ==> mem.ram_view() == response_fill(old(mem).ram_view(), outputs@, response@),
            decreases outputs@.len() - d,
        {
            if written >= response.len() {
                proof {
                    lemma_buffers_total_prefix(outputs@, d as int);
                    lemma_fill_stops(old(mem).ram_view(), outputs@, response@, d as int);
                }
                break;
            }
            let desc = outputs[d];
            let room = response.len() - written;
            let to_write: usize = if (desc.len as u64) < (room as u64) { desc.len as usize } else { room };
            let ghost ram_d = mem.ram_view();
            let mut i: usize = 0;
            while i < to_write
                invariant
                    i <= to_write,
                    rlen == response@.len(),
                    written + to_write <= response@.len(),
                    mem.wf(),
                    mem.rom_view() == old(mem).rom_view(),
                    mem.same_devices(*old(mem)),
                    old(mem).no_devices() ==> mem.ram_view() == buffer_fill(ram_d, desc.addr,
                        response@.subrange(written as int, written + i)),
                decreases to_write - i,
            {
                let b = response[written + i];
                proof {
                    assert(response@.subrange(written as int, written + i + 1).drop_last()
                        =~= response@.subrange(written as int, written + i));
                    if old(mem).no_devices() {
                        mem.lemma_no_devices_free(((desc.addr % 0x1_0000_0000) as u32).wrapping_add(i as u32), 4);
                    }
                }
                mem.write32(((desc.addr % 0x1_0000_0000) as u32).wrapping_add(i as u32), b as u32);
                proof {
                    if old(mem).no_devices() {
                        mem.lemma_no_devices_free((desc.addr.wrapping_add(i as u64) % 0x1_0000_0000) as u32, 1);
                        assert((desc.addr.wrapping_add(i as u64) % 0x1_0000_0000) as u32 == ((desc.addr.wrapping_add(i as u64) % 0x1_0000_0000) as u32).wrapping_add(0u32));
                    }
                }
                mem.write8((desc.addr.wrapping_add(i as u64) % 0x1_0000_0000) as u32, b);
                i = i + 1;
            }
            proof {
                assert(outputs@.take(d + 1).drop_last() =~= outputs@.take(d as int));
                assert(outputs@.take(d + 1).last() == desc);
            }
            written = written + to_write;
            d = d + 1;
        }
        written as u32
    }

    /// Serves every request the driver made available on queue `queue_idx`.
    fn process_queue(&mut self, mem: &mut Memory, queue_idx: usize)
        requires
            p9_inv(*old(self)),
            old(mem).wf(),
        ensures
            p9_inv(*final(self)),
            final(mem).wf(),
            final(mem).rom_view() == old(mem).rom_view(),
            final(mem).same_devices(*old(mem)),
            final(self).virtio.queue_notify_pending@ == old(self).virtio.queue_notify_pending@,
            queue_idx >= old(self).virtio.queues@.len() || !old(self).virtio.queues@[queue_idx as int].ready
                ==> *final(self) == *old(self) && *final(mem) == *old(mem),
    {
        let mut processed_any = false;
        let mut budget: u32 = 0x1_0000;
        while budget > 0
            invariant
                p9_inv(*self),
                mem.wf(),
                mem.rom_view() == old(mem).rom_view(),
                mem.same_devices(*old(mem)),
                self.virtio.queue_notify_pending@ == old(self).virtio.queue_notify_pending@,
                queue_idx >= old(self).virtio.queues@.len() || !old(self).virtio.queues@[queue_idx as int].ready
                    ==> *self == *old(self) && *mem == *old(mem) && !processed_any,
            decreases budget,
        {
            budget = budget - 1;
            if queue_idx >= self.virtio.queues.len() {
                return;
            }
            let q = self.virtio.queues[queue_idx];
            if !q.ready {
                return;
            }
            let avail = q.avail_idx(mem);
            if q.last_avail_idx == avail {
                break;
            }
            let head_idx = q.get_avail_head(mem, q.last_avail_idx);
            self.virtio.queues.set(queue_idx, Virtqueue { last_avail_idx: q.last_avail_idx.wrapping_add(1), ..q });
            let mut desc_idx = head_idx;
            let mut input: Vec<u8> = Vec::new();
            let mut output: Vec<Descriptor> = Vec::new();
            let mut steps: u32 = 0;
            while steps < 0x1_0000
                invariant
                    mem.wf(),
                decreases 0x1_0000 - steps,
            {
                steps = steps + 1;
                let desc = q.read_desc(mem, desc_idx);
                if desc.flags & VRING_DESC_F_WRITE == 0 {
                    let mut i: u32 = 0;
                    while i < desc.len
                        invariant
                            mem.wf(),
                        decreases desc.len - i,
                    {
                        input.push(mem.read8((desc.addr.wrapping_add(i as u64) % 0x1_0000_0000) as u32));
                        i = i + 1;
                    }
                } else {
                    output.push(desc);
                }
                if desc.flags & VRING_DESC_F_NEXT == 0 {
                    break;
                }
                desc_idx = desc.next;
            }
            match self.process_message(input.as_slice()) {
                Some(response) => {
                    let n = Self::write_response(mem, &output, &response);
                    let q2 = self.virtio.queues[queue_idx];
                    q2.push_used(mem, head_idx as u32, n);
                    processed_any = true;
                },
                None => {
                    let tag: u16 = if input.len() >= 7 { read_le16(input.as_slice(), 5) } else { 0xFFFF };
                    self.suspended_requests.push(SuspendedRequest {
                        queue_idx,
                        head_idx,
                        output_descriptors: output,
                        tag,
                        input_buffer: input,
                    });
                },
            }
        }
        if processed_any {
            self.virtio.raise_interrupt(true);
        }
    }

    /// Inserts `x` into a strictly increasing list, keeping it so.
    fn insert_sorted(list: &mut Vec<u32>, x: u32)
        requires
            forall|i: int, j: int| 0 <= i < j < old(list)@.len() ==> old(list)@[i] < old(list)@[j],
        ensures
            forall|i: int, j: int| 0 <= i < j < final(list)@.len() ==> final(list)@[i] < final(list)@[j],
            final(list)@.to_set() == old(list)@.to_set().insert(x),
    {
        let mut pos: usize = 0;
        while pos < list.len() && list[pos] < x
            invariant
                pos <= list@.len(),
                list@ == old(list)@,
                forall|i: int| 0 <= i < pos ==> list@[i] < x,
            decreases list@.len() - pos,
        {
            pos = pos + 1;
        }
        if pos < list.len() && list[pos] == x {
            assert(old(list)@.to_set().insert(x) =~= old(list)@.to_set()) by {
                assert(old(list)@.contains(x)) by { assert(old(list)@[pos as int] == x); }
            }
            return;
        }
        list.insert(pos, x);
        assert(final(list)@ =~= old(list)@.subrange(0, pos as int).push(x) + old(list)@.subrange(pos as int, old(list)@.len() as int));
        assert(final(list)@.to_set() =~= old(list)@.to_set().insert(x)) by {
            assert forall|y: u32| final(list)@.to_set().contains(y) == old(list)@.to_set().insert(x).contains(y) by {
                if final(list)@.contains(y) {
                    let k = choose|k: int| 0 <= k < final(list)@.len() && final(list)@[k] == y;
                    if k < pos { assert(old(list)@[k] == y); }
                    else if k > pos { assert(old(list)@[k - 1] == y); }
                }
                if old(list)@.contains(y) {
                    let k = choose|k: int| 0 <= k < old(list)@.len() && old(list)@[k] == y;
                    if k < pos { assert(final(list)@[k] == y); } else { assert(final(list)@[k + 1] == y); }
                }
                if y == x { assert(final(list)@[pos as int] == x); }
            }
        }
    }

    /// Serves every queue the driver notified, each once, in increasing order.
    pub fn process_queues(&mut self, mem: &mut Memory)
        requires
            p9_inv(*old(self)),
            old(mem).wf(),
        ensures
            p9_inv(*final(self)),
            final(mem).wf(),
            final(mem).rom_view() == old(mem).rom_view(),
            final(mem).same_devices(*old(mem)),
            final(self).virtio.queue_notify_pending@.len() == 0,
    {
        let mut queues_to_process: Vec<u32> = Vec::new();
        while self.virtio.queue_notify_pending.len() > 0
            invariant
                p9_inv(*self),
                forall|i: int, j: int| 0 <= i < j < queues_to_process@.len()
                    ==> queues_to_process@[i] < queues_to_process@[j],
            decreases self.virtio.queue_notify_pending@.len(),
        {
            match self.virtio.queue_notify_pending.pop_front() {
                Some(q) => Self::insert_sorted(&mut queues_to_process, q),
                None => {},
            }
        }
        let mut k: usize = 0;
        while k < queues_to_process.len()
            invariant
                p9_inv(*self),
                mem.wf(),
                mem.rom_view() == old(mem).rom_view(),
                mem.same_devices(*old(mem)),
                self.virtio.queue_notify_pending@.len() == 0,
            decreases queues_to_process@.len() - k,
        {
            self.process_queue(mem, queues_to_process[k] as usize);
            k = k + 1;
        }
    }

    /// Supplies the content of blob `hash`, then retries the requests that waited for a blob.
    pub fn provide_blob(&mut self, hash: String, data: Vec<u8>, mem: &mut Memory)
        requires
            p9_inv(*old(self)),
            old(mem).wf(),
        ensures
            p9_inv(*final(self)),
            final(mem).wf(),
            final(mem).rom_view() == old(mem).rom_view(),
            final(mem).same_devices(*old(mem)),
            final(self).blob_cache.lookup(hash@) == Some(data@),
            !final(self).missing_blobs.has(hash@),
    {
        let ghost h = hash@;
        let ghost dv = data@;
        self.blob_cache.insert(hash.clone(), data);
        self.missing_blobs.remove(hash.as_str());
        let mut requests: Vec<SuspendedRequest> = Vec::new();
        std::mem::swap(&mut requests, &mut self.suspended_requests);
        let mut still_suspended: Vec<SuspendedRequest> = Vec::new();
        let mut processing_occurred = false;
        while requests.len() > 0
            invariant
                p9_inv(*self),
                mem.wf(),
                mem.rom_view() == old(mem).rom_view(),
                mem.same_devices(*old(mem)),
                self.blob_cache.lookup(h) == Some(dv),
                !self.missing_blobs.has(h),
            decreases requests@.len(),
        {
            let req = requests.remove(0);
            match self.process_message(req.input_buffer.as_slice()) {
                Some(response) => {
                    if req.queue_idx < self.virtio.queues.len() {
                        let n = Self::write_response(mem, &req.output_descriptors, &response);
                        let q = self.virtio.queues[req.queue_idx];
                        q.push_used(mem, req.head_idx as u32, n);
                    }
                    processing_occurred = true;
                },
                None => {
                    still_suspended.push(req);
                },
            }
        }
        self.suspended_requests.append(&mut still_suspended);
        if processing_occurred {
            self.virtio.raise_interrupt(true);
        }
    }

    pub fn has_interrupt(&self) -> (r: bool)
        ensures
            r == self.virtio.interrupt_pending,
    {
        self.virtio.interrupt_pending
    }
}

} // verus!
