use otoriscv::devices::virtio_9p::filesystem::FileSystem;
use otoriscv::devices::virtio_9p::in_memory::{InMemoryFileSystem, Inode, InodeContent};
use otoriscv::devices::virtio_9p::{Qid, P9_QTDIR, P9_QTFILE};

fn root() -> Qid {
    Qid::new(P9_QTDIR, 0)
}

#[test]
fn memfs_create_walk_and_names() {
    let mut fs = InMemoryFileSystem::new();
    assert_eq!(fs.attach(), Ok(root()));
    let f = fs.create(&root(), "a.txt", 0o100644, 0).unwrap();
    assert_eq!(f, Qid::new(P9_QTFILE, 1));
    assert_eq!(fs.create(&root(), "a.txt", 0o100644, 0), Err(17));
    let d = fs.mkdir(&root(), "d", 0o755).unwrap();
    assert_eq!(d, Qid::new(P9_QTDIR, 2));
    assert_eq!(fs.walk(&root(), "a.txt"), Ok(f));
    assert_eq!(fs.walk(&root(), "."), Ok(root()));
    assert_eq!(fs.walk(&d, ".."), Ok(root()));
    assert_eq!(fs.walk(&root(), "zz"), Err(2));
    assert_eq!(fs.walk(&f, "x"), Err(20));
    assert_eq!(fs.create(&Qid::new(P9_QTDIR, 77), "x", 0o644, 0), Err(2));
}

#[test]
fn memfs_write_read_back_and_zero_fill() {
    let mut fs = InMemoryFileSystem::new();
    let f = fs.create(&root(), "a", 0o100644, 0).unwrap();
    assert_eq!(fs.write(&f, 0, b"hello"), Ok(5));
    assert_eq!(fs.read(&f, 0, 100).unwrap(), b"hello".to_vec());
    assert_eq!(fs.write(&f, 8, b"xy"), Ok(2));
    assert_eq!(fs.read(&f, 0, 100).unwrap(), b"hello\0\0\0xy".to_vec());
    assert_eq!(fs.read(&f, 8, 2).unwrap(), b"xy".to_vec());
    assert!(fs.read(&f, 20, 4).unwrap().is_empty());
    let attr = fs.getattr(&f).unwrap();
    assert_eq!(attr.size, 10);
    assert_eq!(attr.blocks, 1);
    assert_eq!(attr.blksize, 4096);
    assert_eq!(fs.write(&root(), 0, b"x"), Err(5));
    assert_eq!(fs.read(&root(), 0, 1), Err(5));
}

#[test]
fn memfs_hashed_file_reads_from_cache() {
    let mut fs = InMemoryFileSystem::new();
    fs.inodes.insert(9, Inode {
        qid: Qid::new(P9_QTFILE, 9),
        name: "blob".to_string(),
        size: 3,
        mode: 0o100644,
        uid: 0,
        gid: 0,
        mtime: 0,
        atime: 0,
        ctime: 0,
        content: InodeContent::Hash("h1".to_string()),
        children: Vec::new(),
        parent: 0,
    });
    let q = Qid::new(P9_QTFILE, 9);
    assert_eq!(fs.read(&q, 0, 3), Err(5));
    fs.blob_cache.insert("h1".to_string(), b"abc".to_vec());
    assert_eq!(fs.read(&q, 1, 5).unwrap(), b"bc".to_vec());
}

#[test]
fn memfs_readdir_rename_remove() {
    let mut fs = InMemoryFileSystem::new();
    let f = fs.create(&root(), "a.txt", 0o100644, 0).unwrap();
    let d = fs.mkdir(&root(), "d", 0o755).unwrap();
    let all = fs.readdir(&root(), 0, 8192).unwrap();
    assert_eq!(all.len(), 2);
    assert_eq!(all[0].name, "a.txt");
    assert_eq!(all[0].offset, 1);
    assert_eq!(all[1].name, "d");
    assert_eq!(all[1].type_, P9_QTDIR);
    let rest = fs.readdir(&root(), 1, 8192).unwrap();
    assert_eq!(rest.len(), 1);
    assert_eq!(rest[0].name, "d");
    assert_eq!(fs.readdir(&f, 0, 10).unwrap_err(), 20);

    assert_eq!(fs.rename(&f, &d, "b.txt"), Ok(()));
    assert_eq!(fs.walk(&d, "b.txt"), Ok(f));
    assert_eq!(fs.walk(&root(), "a.txt"), Err(2));
    assert_eq!(fs.remove(&d), Err(39));
    assert_eq!(fs.remove(&f), Ok(()));
    assert_eq!(fs.remove(&d), Ok(()));
    assert!(fs.readdir(&root(), 0, 10).unwrap().is_empty());
    assert_eq!(fs.remove(&f), Err(2));
}
