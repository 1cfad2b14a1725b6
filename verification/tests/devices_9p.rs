use otoriscv::devices::virtio_9p::{Fid, InodeContent, Virtio9p, P9_RREAD, P9_RVERSION, P9_TREAD, P9_TVERSION};

#[test]
fn test_version_negotiation() {
    let mut device = Virtio9p::new("test");
    let mut request = Vec::new();
    request.extend_from_slice(&(21u32).to_le_bytes());
    request.push(P9_TVERSION);
    request.extend_from_slice(&(0u16).to_le_bytes());
    request.extend_from_slice(&(8192u32).to_le_bytes());
    request.extend_from_slice(&(8u16).to_le_bytes());
    request.extend_from_slice(b"9P2000.L");
    let response = device.process_message(&request);
    assert!(response.is_some());
    let response = response.unwrap();
    let resp_size = u32::from_le_bytes([response[0], response[1], response[2], response[3]]);
    assert_eq!(resp_size as usize, response.len());
    assert_eq!(response[4], P9_RVERSION);
}

#[test]
fn test_lazy_read() {
    let mut device = Virtio9p::new("test");
    let root = 1;
    let file_inode = device.add_file(root, "lazy.txt", InodeContent::Hash("hash123".to_string()), 0o100644);
    let fid = 100;
    device.fids.insert(fid, Fid { inode_path: file_inode, open: true, open_flags: 0, position: 0 });
    let mut request = Vec::new();
    let tag = 1;
    request.extend_from_slice(&(23u32).to_le_bytes());
    request.push(P9_TREAD);
    request.extend_from_slice(&(tag as u16).to_le_bytes());
    request.extend_from_slice(&(fid as u32).to_le_bytes());
    request.extend_from_slice(&(0u64).to_le_bytes());
    request.extend_from_slice(&(100u32).to_le_bytes());

    let response = device.process_message(&request);
    assert!(response.is_none());
    assert!(device.missing_blobs.contains("hash123"));

    device.blob_cache.insert("hash123".to_string(), b"Hello Lazy".to_vec());
    device.missing_blobs.remove("hash123");

    let response = device.process_message(&request);
    assert!(response.is_some());
    let data = response.unwrap();
    assert_eq!(data[4], P9_RREAD);
    let count = u32::from_le_bytes([data[7], data[8], data[9], data[10]]);
    assert_eq!(count, 10);
    let content = &data[11..];
    assert_eq!(content, b"Hello Lazy");
}
