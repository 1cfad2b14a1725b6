//! The storage interface of the 9P server: a filesystem addressed by QIDs.

use vstd::prelude::*;
use super::Qid;

verus! {

/// Metadata of a file or directory.
#[derive(Debug)]
pub struct FileAttr {
    pub qid: Qid,
    pub mode: u32,
    pub uid: u32,
    pub gid: u32,
    pub nlink: u64,
    pub rdev: u64,
    pub size: u64,
    pub blksize: u32,
    pub blocks: u64,
    /// Seconds and nanoseconds.
    pub atime: (u64, u64),
    pub mtime: (u64, u64),
    pub ctime: (u64, u64),
}

/// A directory entry.
#[derive(Clone, Debug)]
pub struct DirEntry {
    pub qid: Qid,
    /// The offset of the next entry.
    pub offset: u64,
    pub type_: u8,
    pub name: String,
}

/// A filesystem the 9P server serves from. Errors are errno values.
pub trait FileSystem {
    /// The root's QID.
    fn attach(&mut self) -> Result<Qid, u32>;

    /// The child `name` of a directory (`.` and `..` included).
    fn walk(&mut self, parent_qid: &Qid, name: &str) -> Result<Qid, u32>;

    /// The attributes of a file.
    fn getattr(&mut self, qid: &Qid) -> Result<FileAttr, u32>;

    /// Open a file.
    fn open(&mut self, qid: &Qid, flags: u32) -> Result<(), u32>;

    /// Create a file (or a directory, by its mode) in a directory.
    fn create(&mut self, parent_qid: &Qid, name: &str, mode: u32, flags: u32) -> Result<Qid, u32>;

    /// Create a directory.
    fn mkdir(&mut self, parent_qid: &Qid, name: &str, mode: u32) -> Result<Qid, u32>;

    /// Up to `count` bytes from `offset`.
    fn read(&mut self, qid: &Qid, offset: u64, count: u32) -> Result<Vec<u8>, u32>;

    /// Write `data` at `offset`; returns the bytes written.
    fn write(&mut self, qid: &Qid, offset: u64, data: &[u8]) -> Result<u32, u32>;

    /// The entries of a directory from position `offset` on.
    fn readdir(&mut self, qid: &Qid, offset: u64, count: u32) -> Result<Vec<DirEntry>, u32>;

    /// Remove an empty directory or a file.
    fn remove(&mut self, qid: &Qid) -> Result<(), u32>;

    /// Move a file to `new_dir` under `new_name`.
    fn rename(&mut self, qid: &Qid, new_dir: &Qid, new_name: &str) -> Result<(), u32>;
}

} // verus!
