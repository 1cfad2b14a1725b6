use std::io::Write;
use otoriscv::compress::{compress_state, decompress_state};
use otoriscv::{decompress_gzip, decompress_zstd};

#[test]
fn state_round_trips_through_zstd() {
    let data = b"hello hello hello hello state".to_vec();
    let packed = compress_state(&data, 3).unwrap();
    assert_ne!(packed, data);
    assert_eq!(decompress_state(&packed).unwrap(), data);
    assert_eq!(decompress_zstd(&packed).unwrap(), data);
}

#[test]
fn zstd_rejects_garbage() {
    assert!(decompress_zstd(b"definitely not zstd").is_err());
    assert!(decompress_state(b"nope").is_err());
}

#[test]
fn gzip_decodes_and_rejects_garbage() {
    let mut enc = flate2::write::GzEncoder::new(Vec::new(), flate2::Compression::default());
    enc.write_all(b"kernel image bytes").unwrap();
    let gz = enc.finish().unwrap();
    assert_eq!(decompress_gzip(&gz).unwrap(), b"kernel image bytes".to_vec());
    assert!(decompress_gzip(b"not gzip").is_err());
}
