//! An in-memory filesystem: inodes in a table, files inline or by content
//! hash (filled in later from a blob cache), directories as child lists.

use vstd::prelude::*;
use std::collections::HashMap;
use super::{BlobCache, BlobNames, Qid, P9_QTDIR, P9_QTFILE};
use super::filesystem::{DirEntry, FileAttr, FileSystem};

verus! {

broadcast use vstd::std_specs::hash::group_hash_axioms;

/// Errno values.
pub const ENOENT: u32 = 2;
pub const EIO: u32 = 5;
pub const EEXIST: u32 = 17;
pub const ENOTDIR: u32 = 20;
pub const ENOTEMPTY: u32 = 39;

/// A file, directory or symlink.
pub struct Inode {
    pub qid: Qid,
    pub name: String,
    pub size: u64,
    pub mode: u32,
    pub uid: u32,
    pub gid: u32,
    pub mtime: u64,
    pub atime: u64,
    pub ctime: u64,
    pub content: InodeContent,
    pub children: Vec<u64>,
    pub parent: u64,
}

/// What an inode holds.
pub enum InodeContent {
    /// File bytes.
    Inline(Vec<u8>),
    /// File bytes to be fetched by content hash.
    Hash(String),
    Directory,
    /// Link target.
    Symlink(String),
}

/// Is `mode` a directory's?
pub open spec fn dir_mode(mode: u32) -> bool {
    mode & 0o170000 == 0o040000
}

impl Inode {
    pub fn is_dir(&self) -> (r: bool)
        ensures
            r == dir_mode(self.mode),
    {
        (self.mode & 0o170000) == 0o040000
    }
}

/// The in-memory filesystem.
pub struct InMemoryFileSystem {
    pub inodes: HashMap<u64, Inode>,
    pub next_inode: u64,
    pub blob_cache: BlobCache,
    pub missing_blobs: BlobNames,
}

/// The first child of `children` from position `k` on that exists and is named `name`.
pub open spec fn find_from(inodes: Map<u64, Inode>, children: Seq<u64>, name: Seq<char>, k: int) -> Option<u64>
    decreases children.len() - k,
{
    if k < 0 || k >= children.len() {
        None
    } else if inodes.contains_key(children[k]) && inodes[children[k]].name@ == name {
        Some(children[k])
    } else {
        find_from(inodes, children, name, k + 1)
    }
}

/// What `find_from` finds exists and has the name.
pub proof fn lemma_find_from_found(inodes: Map<u64, Inode>, children: Seq<u64>, name: Seq<char>, k: int)
    requires
        find_from(inodes, children, name, k) is Some,
    ensures
        inodes.contains_key(find_from(inodes, children, name, k)->0),
        inodes[find_from(inodes, children, name, k)->0].name@ == name,
    decreases children.len() - k,
{
    if k >= 0 && k < children.len() && !(inodes.contains_key(children[k]) && inodes[children[k]].name@ == name) {
        lemma_find_from_found(inodes, children, name, k + 1);
    }
}

/// What a walk from `parent` to `name` finds.
pub open spec fn walk_result(inodes: Map<u64, Inode>, parent: u64, name: Seq<char>) -> Result<Qid, u32> {
    if !inodes.contains_key(parent) {
        Err(ENOENT)
    } else if !dir_mode(inodes[parent].mode) {
        Err(ENOTDIR)
    } else if name == seq!['.'] {
        Ok(inodes[parent].qid)
    } else if name == seq!['.', '.'] {
        let gp = inodes[parent].parent;
        if inodes.contains_key(gp) { Ok(inodes[gp].qid) } else { Err(ENOENT) }
    } else {
        match find_from(inodes, inodes[parent].children@, name, 0) {
            Some(c) => Ok(inodes[c].qid),
            None => Err(ENOENT),
        }
    }
}

/// Bytes `offset` .. `offset + count` of `data`, cut at its end.
pub open spec fn read_slice(data: Seq<u8>, offset: int, count: u32) -> Seq<u8> {
    if offset >= data.len() {
        Seq::empty()
    } else if count > data.len() - offset {
        data.subrange(offset, data.len() as int)
    } else {
        data.subrange(offset, offset + count)
    }
}

/// An empty inline file.
pub open spec fn empty_file(c: InodeContent) -> bool {
    match c {
        InodeContent::Inline(v) => v@.len() == 0,
        _ => false,
    }
}

/// `a` and `b` agree but for their children.
pub open spec fn same_but_children(a: Inode, b: Inode) -> bool {
    &&& a.qid == b.qid
    &&& a.name@ == b.name@
    &&& a.size == b.size
    &&& a.mode == b.mode
    &&& a.uid == b.uid
    &&& a.gid == b.gid
    &&& a.mtime == b.mtime
    &&& a.atime == b.atime
    &&& a.ctime == b.ctime
    &&& a.content == b.content
    &&& a.parent == b.parent
}

/// The positions of the entries a directory listing from `offset` shows,
/// among the first `k` children: those at or after `offset` that exist.
pub open spec fn listed(inodes: Map<u64, Inode>, children: Seq<u64>, offset: u64, k: int) -> Seq<int>
    decreases k,
{
    if k <= 0 {
        Seq::empty()
    } else {
        let rest = listed(inodes, children, offset, k - 1);
        if k - 1 >= offset && inodes.contains_key(children[k - 1]) { rest.push(k - 1) } else { rest }
    }
}

/// Entry `e` describes child `c` at position `pos`.
pub open spec fn entry_of(e: DirEntry, c: Inode, pos: int) -> bool {
    &&& e.qid == c.qid
    &&& e.offset == pos + 1
    &&& e.type_ == c.qid.qtype
    &&& e.name@ == c.name@
}

impl InMemoryFileSystem {
    /// Every inode number is below the next one to hand out.
    pub open spec fn wf(&self) -> bool {
        forall|k: u64| #[trigger] self.inodes@.contains_key(k) ==> k < self.next_inode
    }

    /// An empty filesystem: the root directory, inode 0, its own parent.
    pub fn new() -> (fs: InMemoryFileSystem)
        ensures
            fs.wf(),
            fs.next_inode == 1,
            fs.inodes@.dom() == set![0u64],
            fs.inodes@[0].qid == Qid::new_spec(P9_QTDIR, 0),
            fs.inodes@[0].name@.len() == 0,
            fs.inodes@[0].mode == 0o40755,
            fs.inodes@[0].content == InodeContent::Directory,
            fs.inodes@[0].children@.len() == 0,
            fs.inodes@[0].parent == 0,
            forall|k: Seq<char>| #[trigger] fs.blob_cache.lookup(k) is None,
    {
        let mut inodes: HashMap<u64, Inode> = HashMap::new();
        let root = Inode {
            qid: Qid::new(P9_QTDIR, 0),
            name: String::new(),
            size: 0,
            mode: 0o40755,
            uid: 0,
            gid: 0,
            mtime: 0,
            atime: 0,
            ctime: 0,
            content: InodeContent::Directory,
            children: Vec::new(),
            parent: 0,
        };
        inodes.insert(0, root);
        let fs = InMemoryFileSystem { inodes, next_inode: 1, blob_cache: BlobCache::new(), missing_blobs: BlobNames::new() };
        assert(fs.inodes@.dom() =~= set![0u64]);
        fs
    }

    /// Hand out the next inode number.
    fn alloc_inode(&mut self) -> (id: u64)
        requires
            old(self).next_inode < u64::MAX,
        ensures
            id == old(self).next_inode,
            final(self).next_inode == old(self).next_inode + 1,
            final(self).inodes@ == old(self).inodes@,
    {
        let id = self.next_inode;
        self.next_inode = self.next_inode + 1;
        id
    }

    /// The first child of `children` that exists and is named `name`.
    fn find_child(&self, children: &Vec<u64>, name: &String) -> (r: Option<u64>)
        ensures
            r == find_from(self.inodes@, children@, name@, 0),
    {
        let mut i: usize = 0;
        while i < children.len()
            invariant
                i <= children@.len(),
                find_from(self.inodes@, children@, name@, 0) == find_from(self.inodes@, children@, name@, i as int),
            decreases children@.len() - i,
        {
            let c = children[i];
            match self.inodes.get(&c) {
                Some(child) => {
                    if child.name == *name {
                        return Some(c);
                    }
                },
                None => {},
            }
            i = i + 1;
        }
        None
    }
}

/// The content after writing `data` at `off` into `d`: zero-extended to
/// the end of the write when it is longer, then overwritten there.
pub open spec fn written(d: Seq<u8>, off: int, data: Seq<u8>) -> Seq<u8> {
    let end = off + data.len();
    let len = if end > d.len() { end } else { d.len() as int };
    Seq::new(len as nat, |i: int| if off <= i < end { data[i - off] } else if i < d.len() { d[i] } else { 0u8 })
}

/// The test for entries other than `x`.
pub open spec fn other_than(x: u64) -> spec_fn(u64) -> bool {
    |y: u64| y != x
}

/// The children of `k` after `path` moves from `old_parent` to `new_dir`.
pub open spec fn children_after_move(c: Seq<u64>, k: u64, path: u64, old_parent: u64, new_dir: u64) -> Seq<u64> {
    let c1 = if old_parent != new_dir && k == old_parent { c.filter(other_than(path)) } else { c };
    if old_parent != new_dir && k == new_dir { c1.push(path) } else { c1 }
}

/// The outcome of reading inode `path`.
pub open spec fn read_post(fs0: InMemoryFileSystem, path: u64, offset: u64, count: u32, r: Result<Vec<u8>, u32>) -> bool {
    &&& (!fs0.inodes@.contains_key(path) ==> r == Err::<Vec<u8>, u32>(ENOENT))
    &&& (fs0.inodes@.contains_key(path) ==> match fs0.inodes@[path].content {
            InodeContent::Inline(d) => r matches Ok(v) && v@ == read_slice(d@, (offset as usize) as int, count),
            InodeContent::Hash(h) => match fs0.blob_cache.lookup(h@) {
                Some(d) => r matches Ok(v) && v@ == read_slice(d, (offset as usize) as int, count),
                None => r == Err::<Vec<u8>, u32>(EIO),
            },
            _ => r == Err::<Vec<u8>, u32>(EIO)
        })
}

/// The outcome of writing `data` into inode `path`, from `fs0` to `fs1`.
pub open spec fn write_post(fs0: InMemoryFileSystem, fs1: InMemoryFileSystem, path: u64, offset: u64, data: Seq<u8>, r: Result<u32, u32>) -> bool {
    &&& (!fs0.inodes@.contains_key(path) ==> r == Err::<u32, u32>(ENOENT) && fs1.inodes@ == fs0.inodes@)
    &&& (fs0.inodes@.contains_key(path) && !(fs0.inodes@[path].content is Inline)
            ==> r == Err::<u32, u32>(EIO) && fs1.inodes@ == fs0.inodes@)
    &&& (fs0.inodes@.contains_key(path) ==> match fs0.inodes@[path].content {
            InodeContent::Inline(d) => {
                let o = fs0.inodes@[path];
                let n = fs1.inodes@[path];
                &&& r == Ok::<u32, u32>(data.len() as u32)
                &&& fs1.inodes@.dom() == fs0.inodes@.dom()
                &&& n.content matches InodeContent::Inline(c) && c@ == written(d@, (offset as usize) as int, data)
                    && n.size == c@.len()
                &&& n.mtime == 0
                &&& n.qid == o.qid && n.name@ == o.name@ && n.mode == o.mode && n.uid == o.uid && n.gid == o.gid
                &&& n.atime == o.atime && n.ctime == o.ctime && n.children@ == o.children@ && n.parent == o.parent
                &&& forall|k: u64| k != path && #[trigger] fs0.inodes@.contains_key(k)
                    ==> fs1.inodes@[k] == fs0.inodes@[k]
            },
            _ => true
        })
    &&& (fs1.next_inode == fs0.next_inode)
    &&& (fs0.wf() ==> fs1.wf())
}

/// The outcome of listing directory `path`.
pub open spec fn list_post(fs0: InMemoryFileSystem, path: u64, offset: u64, r: Result<Vec<DirEntry>, u32>) -> bool {
    &&& (!fs0.inodes@.contains_key(path) ==> r == Err::<Vec<DirEntry>, u32>(ENOENT))
    &&& (fs0.inodes@.contains_key(path) && !dir_mode(fs0.inodes@[path].mode) ==> r == Err::<Vec<DirEntry>, u32>(ENOTDIR))
    &&& (fs0.inodes@.contains_key(path) && dir_mode(fs0.inodes@[path].mode) ==> (r matches Ok(v) && {
            let c = fs0.inodes@[path].children@;
            let pos = listed(fs0.inodes@, c, offset, c.len() as int);
            &&& v@.len() == pos.len()
            &&& forall|i: int| 0 <= i < pos.len() ==> entry_of(#[trigger] v@[i], fs0.inodes@[c[pos[i]]], pos[i])
        }))
}

/// The outcome of removing inode `path`, from `fs0` to `fs1`.
pub open spec fn remove_post(fs0: InMemoryFileSystem, fs1: InMemoryFileSystem, path: u64, r: Result<(), u32>) -> bool {
    &&& (!fs0.inodes@.contains_key(path) ==> r == Err::<(), u32>(ENOENT) && fs1.inodes@ == fs0.inodes@)
    &&& (fs0.inodes@.contains_key(path) && fs0.inodes@[path].children@.len() > 0
            ==> r == Err::<(), u32>(ENOTEMPTY) && fs1.inodes@ == fs0.inodes@)
    &&& (fs0.inodes@.contains_key(path) && fs0.inodes@[path].children@.len() == 0 ==> ({
            let o = fs0.inodes@;
            let n = fs1.inodes@;
            let p = o[path].parent;
            &&& r == Ok::<(), u32>(())
            &&& n.dom() == o.dom().remove(path)
            &&& (p != path && o.contains_key(p)) ==> same_but_children(n[p], o[p])
                && n[p].children@ == o[p].children@.filter(other_than(path))
            &&& forall|k: u64| k != path && k != p && #[trigger] o.contains_key(k) ==> n[k] == o[k]
        }))
    &&& (fs1.next_inode == fs0.next_inode)
    &&& (fs0.wf() ==> fs1.wf())
}

/// The outcome of moving inode `path`, from `fs0` to `fs1`.
pub open spec fn move_post(fs0: InMemoryFileSystem, fs1: InMemoryFileSystem, path: u64, new_dir: u64, new_name: Seq<char>, r: Result<(), u32>) -> bool {
    &&& (!fs0.inodes@.contains_key(path) ==> r == Err::<(), u32>(ENOENT) && fs1.inodes@ == fs0.inodes@)
    &&& (fs0.inodes@.contains_key(path) ==> ({
            let o = fs0.inodes@;
            let n = fs1.inodes@;
            let op = o[path].parent;
            &&& r == Ok::<(), u32>(())
            &&& n.dom() == o.dom()
            &&& forall|k: u64| #[trigger] o.contains_key(k) ==> {
                &&& n[k].name@ == (if k == path { new_name } else { o[k].name@ })
                &&& n[k].parent == (if k == path { new_dir } else { o[k].parent })
                &&& n[k].qid == o[k].qid && n[k].size == o[k].size && n[k].mode == o[k].mode
                &&& n[k].uid == o[k].uid && n[k].gid == o[k].gid && n[k].content == o[k].content
                &&& n[k].mtime == o[k].mtime && n[k].atime == o[k].atime && n[k].ctime == o[k].ctime
                &&& n[k].children@ == children_after_move(o[k].children@, k, path, op, new_dir)
            }
        }))
    &&& (fs1.next_inode == fs0.next_inode)
    &&& (fs0.wf() ==> fs1.wf())
}

/// The outcome of creating `name` in `parent`, from `fs0` to `fs1`.
pub open spec fn create_post(fs0: InMemoryFileSystem, fs1: InMemoryFileSystem, parent: u64, name: Seq<char>, mode: u32, r: Result<Qid, u32>) -> bool {
    &&& (fs0.wf() ==> fs1.wf())
    &&& (!fs0.inodes@.contains_key(parent) ==> r == Err::<Qid, u32>(ENOENT) && fs1.inodes@ == fs0.inodes@)
    &&& (fs0.inodes@.contains_key(parent) && find_from(fs0.inodes@, fs0.inodes@[parent].children@, name, 0) is Some
            ==> r == Err::<Qid, u32>(EEXIST) && fs1.inodes@ == fs0.inodes@)
    &&& (fs0.inodes@.contains_key(parent) && find_from(fs0.inodes@, fs0.inodes@[parent].children@, name, 0) is None
            ==> ({
                let id = fs0.next_inode;
                let o = fs0.inodes@;
                let n = fs1.inodes@;
                &&& r == Ok::<Qid, u32>(Qid::new_spec(if dir_mode(mode) { P9_QTDIR } else { P9_QTFILE }, id))
                &&& fs1.next_inode == id + 1
                &&& n.dom() == o.dom().insert(id)
                &&& n[id].qid == Qid::new_spec(if dir_mode(mode) { P9_QTDIR } else { P9_QTFILE }, id)
                &&& n[id].name@ == name
                &&& n[id].size == 0 && n[id].mode == mode && n[id].uid == 0 && n[id].gid == 0
                &&& n[id].mtime == 0 && n[id].atime == 0 && n[id].ctime == 0
                &&& (dir_mode(mode) ==> n[id].content == InodeContent::Directory)
                &&& (!dir_mode(mode) ==> empty_file(n[id].content))
                &&& n[id].children@.len() == 0
                &&& n[id].parent == parent
                &&& same_but_children(n[parent], o[parent])
                &&& n[parent].children@ == o[parent].children@.push(id)
                &&& forall|k: u64| k != id && k != parent && #[trigger] o.contains_key(k) ==> n[k] == o[k]
            }))
    &&& (r is Err ==> fs1.next_inode == fs0.next_inode)
}

/// The outcome of asking for the attributes of inode `path`.
pub open spec fn attr_post(fs0: InMemoryFileSystem, path: u64, r: Result<FileAttr, u32>) -> bool {
    &&& (!fs0.inodes@.contains_key(path) ==> r == Err::<FileAttr, u32>(ENOENT))
    &&& (fs0.inodes@.contains_key(path) ==> (r matches Ok(a) && {
            let i = fs0.inodes@[path];
            &&& a.qid == i.qid && a.mode == i.mode && a.uid == i.uid && a.gid == i.gid
            &&& a.nlink == 1 && a.rdev == 0 && a.size == i.size && a.blksize == 4096
            &&& a.blocks == (i.size + 511) / 512
            &&& a.atime == (i.atime, 0u64) && a.mtime == (i.mtime, 0u64) && a.ctime == (i.ctime, 0u64)
        }))
}

impl InMemoryFileSystem {
    /// Walk from directory `parent` to `name` (`.` and `..` included).
    pub fn walk_from(&self, parent: u64, name: &str) -> (r: Result<Qid, u32>)
        ensures
            r == walk_result(self.inodes@, parent, name@),
    {
        broadcast use vstd::string::to_string_from_display_ensures_for_str;
        let p = match self.inodes.get(&parent) {
            Some(p) => p,
            None => {
                return Err(ENOENT);
            },
        };
        if !p.is_dir() {
            return Err(ENOTDIR);
        }
        let n = name.to_string();
        let dot = ".".to_string();
        let dotdot = "..".to_string();
        proof {
            reveal_strlit(".");
            reveal_strlit("..");
        }
        assert(dot@ =~= seq!['.']);
        assert(dotdot@ =~= seq!['.', '.']);
        assert(n@ == name@);
        if n == dot {
            return Ok(p.qid);
        } else if n == dotdot {
            return match self.inodes.get(&p.parent) {
                Some(g) => Ok(g.qid),
                None => Err(ENOENT),
            };
        }
        let found = self.find_child(&p.children, &n);
        proof {
            if found is Some {
                lemma_find_from_found(self.inodes@, p.children@, n@, 0);
            }
        }
        match found {
            Some(c) => match self.inodes.get(&c) {
                Some(child) => Ok(child.qid),
                None => Err(ENOENT),
            },
            None => Err(ENOENT),
        }
    }

    /// The attributes of inode `path`: one link, 4 KiB blocks for I/O, the
    /// size in 512-byte blocks, times in whole seconds.
    pub fn attributes(&self, path: u64) -> (r: Result<FileAttr, u32>)
        requires
            self.inodes@.contains_key(path) ==> self.inodes@[path].size <= u64::MAX - 511,
        ensures
            attr_post(*self, path, r),
    {
        match self.inodes.get(&path) {
            Some(inode) => Ok(FileAttr {
                qid: inode.qid,
                mode: inode.mode,
                uid: inode.uid,
                gid: inode.gid,
                nlink: 1,
                rdev: 0,
                size: inode.size,
                blksize: 4096,
                blocks: (inode.size + 511) / 512,
                atime: (inode.atime, 0),
                mtime: (inode.mtime, 0),
                ctime: (inode.ctime, 0),
            }),
            None => Err(ENOENT),
        }
    }

    /// Create `name` in `parent` with `mode` (a directory when the mode says
    /// so, else an empty file). The parent must exist and hold no child of
    /// that name.
    pub fn create_in(&mut self, parent: u64, name: &str, mode: u32) -> (r: Result<Qid, u32>)
        requires
            !old(self).inodes@.contains_key(old(self).next_inode),
            old(self).next_inode < u64::MAX,
        ensures
            create_post(*old(self), *final(self), parent, name@, mode, r),
    {
        broadcast use vstd::string::to_string_from_display_ensures_for_str;
        if !self.inodes.contains_key(&parent) {
            return Err(ENOENT);
        }
        let n = name.to_string();
        let exists = match self.inodes.get(&parent) {
            Some(p) => self.find_child(&p.children, &n).is_some(),
            None => false,
        };
        if exists {
            return Err(EEXIST);
        }
        let id = self.alloc_inode();
        let is_dir = (mode & 0o170000) == 0o040000;
        let qtype = if is_dir { P9_QTDIR } else { P9_QTFILE };
        let qid = Qid::new(qtype, id);
        let content = if is_dir { InodeContent::Directory } else { InodeContent::Inline(Vec::new()) };
        let inode = Inode {
            qid,
            name: n,
            size: 0,
            mode,
            uid: 0,
            gid: 0,
            mtime: 0,
            atime: 0,
            ctime: 0,
            content,
            children: Vec::new(),
            parent,
        };
        assert(!self.inodes@.contains_key(id));
        self.inodes.insert(id, inode);
        let mut p = self.inodes.remove(&parent).unwrap();
        p.children.push(id);
        self.inodes.insert(parent, p);
        assert(final(self).inodes@.dom() =~= old(self).inodes@.dom().insert(id)) by {
            assert(self.inodes@.dom() =~= old(self).inodes@.dom().insert(id));
        }
        Ok(qid)
    }

    /// Up to `count` bytes of file `path` from `offset`: inline bytes, or
    /// the cached blob for a hashed file (EIO while it is missing).
    pub fn read_at(&self, path: u64, offset: u64, count: u32) -> (r: Result<Vec<u8>, u32>)
        ensures
            read_post(*self, path, offset, count, r),
    {
        let inode = match self.inodes.get(&path) {
            Some(i) => i,
            None => {
                return Err(ENOENT);
            },
        };
        match &inode.content {
            InodeContent::Inline(data) => Ok(slice_of(data, offset as usize, count)),
            InodeContent::Hash(hash) => match self.blob_cache.get(hash) {
                Some(data) => Ok(slice_of(data, offset as usize, count)),
                None => Err(EIO),
            },
            _ => Err(EIO),
        }
    }

    /// Write `data` at `offset` into inline file `path`: the file grows with
    /// zeros up to the end of the write when needed; its size follows and its
    /// modification time is reset. Returns the bytes written (modulo 2^32).
    pub fn write_at(&mut self, path: u64, offset: u64, data: &[u8]) -> (r: Result<u32, u32>)
        requires
            old(self).inodes@.contains_key(path) && old(self).inodes@[path].content is Inline
                ==> (offset as usize) + data@.len() <= usize::MAX,
        ensures
            write_post(*old(self), *final(self), path, offset, data@, r),
    {
        if !self.inodes.contains_key(&path) {
            return Err(ENOENT);
        }
        let is_inline = match self.inodes.get(&path) {
            Some(i) => match &i.content {
                InodeContent::Inline(_) => true,
                _ => false,
            },
            None => false,
        };
        if !is_inline {
            return Err(EIO);
        }
        let mut inode = self.inodes.remove(&path).unwrap();
        let mut content = InodeContent::Directory;
        std::mem::swap(&mut content, &mut inode.content);
        let mut bytes = match content {
            InodeContent::Inline(v) => v,
            _ => Vec::new(),
        };
        let ghost d = bytes@;
        let start = offset as usize;
        let end = start + data.len();
        if end > bytes.len() {
            bytes.resize(end, 0u8);
        }
        let ghost grown = bytes@;
        let mut i: usize = 0;
        while i < data.len()
            invariant
                start + data@.len() == end,
                end <= bytes@.len(),
                bytes@.len() == grown.len(),
                i <= data@.len(),
                forall|j: int| 0 <= j < bytes@.len() ==> #[trigger] bytes@[j]
                    == if start <= j < start + i { data@[j - start] } else { grown[j] },
            decreases data@.len() - i,
        {
            bytes.set(start + i, data[i]);
            i = i + 1;
        }
        proof {
            assert forall|j: int| 0 <= j < grown.len() && !(start <= j < end) implies
                grown[j] == (if j < d.len() { d[j] } else { 0u8 }) by {
                if j < d.len() {
                    assert(grown.subrange(0, d.len() as int)[j] == d[j]);
                } else {
                    assert(vstd::pervasive::cloned::<u8>(0u8, grown[j]));
                }
            }
            assert(bytes@ =~= written(d, start as int, data@));
        }
        inode.size = bytes.len() as u64;
        inode.mtime = 0;
        inode.content = InodeContent::Inline(bytes);
        self.inodes.insert(path, inode);
        Ok(data.len() as u32)
    }

    /// The entries of directory `path` from position `offset` on (the byte
    /// budget of the request is left to the caller).
    pub fn list(&self, path: u64, offset: u64) -> (r: Result<Vec<DirEntry>, u32>)
        ensures
            list_post(*self, path, offset, r),
    {
        let inode = match self.inodes.get(&path) {
            Some(i) => i,
            None => {
                return Err(ENOENT);
            },
        };
        if !inode.is_dir() {
            return Err(ENOTDIR);
        }
        let ghost c = inode.children@;
        let mut entries: Vec<DirEntry> = Vec::new();
        let mut k: usize = 0;
        while k < inode.children.len()
            invariant
                c == inode.children@,
                k <= c.len(),
                entries@.len() == listed(self.inodes@, c, offset, k as int).len(),
                forall|i: int| 0 <= i < entries@.len() ==> {
                    let p = listed(self.inodes@, c, offset, k as int)[i];
                    entry_of(#[trigger] entries@[i], self.inodes@[c[p]], p)
                },
            decreases c.len() - k,
        {
            let child_path = inode.children[k];
            let ghost before = listed(self.inodes@, c, offset, k as int);
            if k as u64 >= offset {
                match self.inodes.get(&child_path) {
                    Some(child) => {
                        entries.push(DirEntry {
                            qid: child.qid,
                            offset: k as u64 + 1,
                            type_: child.qid.qtype,
                            name: child.name.clone(),
                        });
                    },
                    None => {},
                }
            }
            assert forall|i: int| 0 <= i < entries@.len() implies {
                let p = listed(self.inodes@, c, offset, k + 1)[i];
                entry_of(#[trigger] entries@[i], self.inodes@[c[p]], p)
            } by {
                if i < before.len() {
                    assert(listed(self.inodes@, c, offset, k + 1)[i] == before[i]);
                }
            }
            k = k + 1;
        }
        Ok(entries)
    }

    /// Remove inode `path` when it has no children, and drop it from its
    /// parent's children.
    pub fn remove_inode(&mut self, path: u64) -> (r: Result<(), u32>)
        ensures
            remove_post(*old(self), *final(self), path, r),
    {
        let (parent, empty) = match self.inodes.get(&path) {
            Some(i) => (i.parent, i.children.len() == 0),
            None => {
                return Err(ENOENT);
            },
        };
        if !empty {
            return Err(ENOTEMPTY);
        }
        if parent != path && self.inodes.contains_key(&parent) {
            let mut p = self.inodes.remove(&parent).unwrap();
            let kept = without(&p.children, path);
            p.children = kept;
            self.inodes.insert(parent, p);
        }
        self.inodes.remove(&path);
        assert(self.inodes@.dom() =~= old(self).inodes@.dom().remove(path));
        Ok(())
    }

    /// Move inode `path` into `new_dir` under `new_name`: its name and
    /// parent change; when the parent changes it leaves the old parent's
    /// children and joins the new one's (each when that inode exists).
    pub fn move_inode(&mut self, path: u64, new_dir: u64, new_name: &str) -> (r: Result<(), u32>)
        ensures
            move_post(*old(self), *final(self), path, new_dir, new_name@, r),
    {
        broadcast use vstd::string::to_string_from_display_ensures_for_str;
        if !self.inodes.contains_key(&path) {
            return Err(ENOENT);
        }
        let ghost o = self.inodes@;
        let mut inode = self.inodes.remove(&path).unwrap();
        inode.name = new_name.to_string();
        let old_parent = inode.parent;
        inode.parent = new_dir;
        self.inodes.insert(path, inode);
        assert(self.inodes@.dom() =~= o.dom());
        let ghost m1 = self.inodes@;
        assert forall|k: u64| #[trigger] o.contains_key(k) implies {
            &&& m1[k].name@ == (if k == path { new_name@ } else { o[k].name@ })
            &&& m1[k].parent == (if k == path { new_dir } else { o[k].parent })
            &&& m1[k].qid == o[k].qid && m1[k].size == o[k].size && m1[k].mode == o[k].mode
            &&& m1[k].uid == o[k].uid && m1[k].gid == o[k].gid && m1[k].content == o[k].content
            &&& m1[k].mtime == o[k].mtime && m1[k].atime == o[k].atime && m1[k].ctime == o[k].ctime
            &&& m1[k].children@ == o[k].children@
        } by {}
        if old_parent != new_dir {
            if self.inodes.contains_key(&old_parent) {
                let mut p = self.inodes.remove(&old_parent).unwrap();
                let kept = without(&p.children, path);
                p.children = kept;
                self.inodes.insert(old_parent, p);
                assert(self.inodes@.dom() =~= o.dom());
            }
            let ghost m2 = self.inodes@;
            assert forall|k: u64| #[trigger] o.contains_key(k) implies
                m2[k].children@ == (if k == old_parent { o[k].children@.filter(other_than(path)) } else { o[k].children@ })
                && same_but_children(m2[k], m1[k]) by {
                if k != old_parent {
                    assert(m2[k] == m1[k]);
                }
            }
            if self.inodes.contains_key(&new_dir) {
                let mut p = self.inodes.remove(&new_dir).unwrap();
                p.children.push(path);
                self.inodes.insert(new_dir, p);
                assert(self.inodes@.dom() =~= o.dom());
            }
            let ghost m3 = self.inodes@;
            assert forall|k: u64| #[trigger] o.contains_key(k) implies
                m3[k].children@ == (if k == new_dir { m2[k].children@.push(path) } else { m2[k].children@ })
                && same_but_children(m3[k], m2[k]) by {
                if k != new_dir {
                    assert(m3[k] == m2[k]);
                }
            }
            assert forall|k: u64| #[trigger] o.contains_key(k) implies
                m3[k].children@ == children_after_move(o[k].children@, k, path, old_parent, new_dir) by {
                assert(m2[k].children@ == (if k == old_parent { o[k].children@.filter(other_than(path)) } else { o[k].children@ }));
                assert(m3[k].children@ == (if k == new_dir { m2[k].children@.push(path) } else { m2[k].children@ }));
            }
        }
        Ok(())
    }
}

/// `v` without the entries equal to `x`.
fn without(v: &Vec<u64>, x: u64) -> (r: Vec<u64>)
    ensures
        r@ == v@.filter(other_than(x)),
{
    let mut out: Vec<u64> = Vec::new();
    let mut i: usize = 0;
    while i < v.len()
        invariant
            i <= v@.len(),
            out@ == v@.take(i as int).filter(other_than(x)),
        decreases v@.len() - i,
    {
        proof {
            reveal(Seq::filter);
            assert(v@.take(i + 1).drop_last() =~= v@.take(i as int));
        }
        if v[i] != x {
            out.push(v[i]);
        }
        i = i + 1;
    }
    assert(v@.take(v@.len() as int) =~= v@);
    out
}

/// Bytes `start` .. `start + count` of `data`, cut at its end.
fn slice_of(data: &Vec<u8>, start: usize, count: u32) -> (r: Vec<u8>)
    ensures
        r@ == read_slice(data@, start as int, count),
{
    let mut out: Vec<u8> = Vec::new();
    if start >= data.len() {
        return out;
    }
    let end = if count as usize > data.len() - start { data.len() } else { start + count as usize };
    let mut i = start;
    while i < end
        invariant
            start <= i <= end,
            end <= data@.len(),
            out@ == data@.subrange(start as int, i as int),
        decreases end - i,
    {
        out.push(data[i]);
        assert(data@.subrange(start as int, i + 1) =~= data@.subrange(start as int, i as int).push(data@[i as int]));
        i = i + 1;
    }
    out
}

impl Qid {
    /// The QID `Qid::new` makes.
    pub open spec fn new_spec(qtype: u8, path: u64) -> Qid {
        Qid { qtype, version: 0, path }
    }
}

impl FileSystem for InMemoryFileSystem {
    fn attach(&mut self) -> (r: Result<Qid, u32>)
        ensures
            r == (if old(self).inodes@.contains_key(0) { Ok::<Qid, u32>(old(self).inodes@[0].qid) } else { Err(ENOENT) }),
            *final(self) == *old(self),
    {
        match self.inodes.get(&0) {
            Some(root) => Ok(root.qid),
            None => Err(ENOENT),
        }
    }

    fn walk(&mut self, parent_qid: &Qid, name: &str) -> (r: Result<Qid, u32>)
        ensures
            r == walk_result(old(self).inodes@, parent_qid.path, name@),
            *final(self) == *old(self),
    {
        self.walk_from(parent_qid.path, name)
    }

    /// A size whose block count would not fit answers EIO.
    fn getattr(&mut self, qid: &Qid) -> (r: Result<FileAttr, u32>)
        ensures
            old(self).inodes@.contains_key(qid.path) && old(self).inodes@[qid.path].size > u64::MAX - 511
                ==> r == Err::<FileAttr, u32>(EIO),
            !(old(self).inodes@.contains_key(qid.path) && old(self).inodes@[qid.path].size > u64::MAX - 511)
                ==> attr_post(*old(self), qid.path, r),
            *final(self) == *old(self),
    {
        let too_big = match self.inodes.get(&qid.path) {
            Some(i) => i.size > u64::MAX - 511,
            None => false,
        };
        if too_big {
            return Err(EIO);
        }
        self.attributes(qid.path)
    }

    fn open(&mut self, _qid: &Qid, _flags: u32) -> (r: Result<(), u32>)
        ensures
            r == Ok::<(), u32>(()),
            *final(self) == *old(self),
    {
        Ok(())
    }

    /// With no inode number left to hand out (the next one is taken or the
    /// last) the answer is EIO.
    fn create(&mut self, parent_qid: &Qid, name: &str, mode: u32, _flags: u32) -> (r: Result<Qid, u32>)
        ensures
            old(self).next_inode == u64::MAX || old(self).inodes@.contains_key(old(self).next_inode)
                ==> r == Err::<Qid, u32>(EIO) && *final(self) == *old(self),
            !(old(self).next_inode == u64::MAX || old(self).inodes@.contains_key(old(self).next_inode))
                ==> create_post(*old(self), *final(self), parent_qid.path, name@, mode, r),
    {
        if self.next_inode == u64::MAX || self.inodes.contains_key(&self.next_inode) {
            return Err(EIO);
        }
        self.create_in(parent_qid.path, name, mode)
    }

    /// As `create`, with the directory bit set in the mode.
    fn mkdir(&mut self, parent_qid: &Qid, name: &str, mode: u32) -> (r: Result<Qid, u32>)
        ensures
            old(self).next_inode == u64::MAX || old(self).inodes@.contains_key(old(self).next_inode)
                ==> r == Err::<Qid, u32>(EIO) && *final(self) == *old(self),
            !(old(self).next_inode == u64::MAX || old(self).inodes@.contains_key(old(self).next_inode))
                ==> create_post(*old(self), *final(self), parent_qid.path, name@, mode | 0o040000, r),
    {
        if self.next_inode == u64::MAX || self.inodes.contains_key(&self.next_inode) {
            return Err(EIO);
        }
        self.create_in(parent_qid.path, name, mode | 0o040000)
    }

    fn read(&mut self, qid: &Qid, offset: u64, count: u32) -> (r: Result<Vec<u8>, u32>)
        ensures
            read_post(*old(self), qid.path, offset, count, r),
            *final(self) == *old(self),
    {
        self.read_at(qid.path, offset, count)
    }

    /// A write whose end would pass the largest address answers EIO.
    fn write(&mut self, qid: &Qid, offset: u64, data: &[u8]) -> (r: Result<u32, u32>)
        ensures
            (offset as usize) + data@.len() > usize::MAX ==> r == Err::<u32, u32>(EIO) && *final(self) == *old(self),
            (offset as usize) + data@.len() <= usize::MAX ==> write_post(*old(self), *final(self), qid.path, offset, data@, r),
    {
        if offset as usize > usize::MAX - data.len() {
            return Err(EIO);
        }
        self.write_at(qid.path, offset, data)
    }

    fn readdir(&mut self, qid: &Qid, offset: u64, _count: u32) -> (r: Result<Vec<DirEntry>, u32>)
        ensures
            list_post(*old(self), qid.path, offset, r),
            *final(self) == *old(self),
    {
        self.list(qid.path, offset)
    }

    fn remove(&mut self, qid: &Qid) -> (r: Result<(), u32>)
        ensures
            remove_post(*old(self), *final(self), qid.path, r),
    {
        self.remove_inode(qid.path)
    }

    fn rename(&mut self, qid: &Qid, new_dir: &Qid, new_name: &str) -> (r: Result<(), u32>)
        ensures
            move_post(*old(self), *final(self), qid.path, new_dir.path, new_name@, r),
    {
        self.move_inode(qid.path, new_dir.path, new_name)
    }
}

/// What a file read gives back of a write: reading from the offset of a
/// write, as many bytes as were written, gives the written bytes.
pub proof fn lemma_read_after_write(
    fs0: InMemoryFileSystem,
    fs1: InMemoryFileSystem,
    path: u64,
    offset: u64,
    data: Seq<u8>,
    w: Result<u32, u32>,
    rd: Result<Vec<u8>, u32>,
)
    requires
        fs0.inodes@.contains_key(path),
        fs0.inodes@[path].content is Inline,
        write_post(fs0, fs1, path, offset, data, w),
        read_post(fs1, path, offset, data.len() as u32, rd),
        data.len() <= u32::MAX,
    ensures
        rd matches Ok(v) && v@ == data,
{
    let off = (offset as usize) as int;
    match fs0.inodes@[path].content {
        InodeContent::Inline(d) => {
            let n = fs1.inodes@[path];
            match n.content {
                InodeContent::Inline(c) => {
                    let wd = written(d@, off, data);
                    assert(c@ == wd);
                    if data.len() > 0 {
                        assert(read_slice(wd, off, data.len() as u32) =~= data);
                    } else {
                        assert(read_slice(wd, off, data.len() as u32) =~= data);
                    }
                },
                _ => {},
            }
        },
        _ => {},
    }
}

} // verus!
