use boop::compression::{compress, decompress};
use boop::{BoopImage, Channels, Error};

fn noise(len: usize) -> Vec<u8> {
    let mut state: u64 = 0x2545_f491_4f6c_dd1d;
    let mut bytes = Vec::with_capacity(len);
    for _ in 0..len {
        state ^= state << 13;
        state ^= state >> 7;
        state ^= state << 17;
        bytes.push((state >> 32) as u8);
    }
    bytes
}

#[test]
fn uniform_image_compresses_below_its_filtered_size() {
    let raw = vec![0x5a; 256 * 256 * 3];
    let image = BoopImage::new(256, 256, raw.clone());
    let filtered = image.delta_encode();
    let encoded = image.encode().unwrap();
    assert!(encoded.len() - 17 < filtered.len());
    assert!(encoded.len() < 1024);
    assert_eq!(BoopImage::decode(&encoded).unwrap().into_raw(), raw);
}

#[test]
fn repetitive_bytes_compress_and_come_back() {
    let data = vec![7u8; 1 << 20];
    let compressed = compress(&data).unwrap();
    assert!(compressed.len() < data.len());
    assert_eq!(decompress(&compressed).unwrap(), data);
}

#[test]
fn random_bytes_come_back_exactly() {
    let data = noise(100_000);
    let compressed = compress(&data).unwrap();
    assert_ne!(compressed, data);
    assert_eq!(decompress(&compressed).unwrap(), data);
}

#[test]
fn random_image_round_trips() {
    let raw = noise(64 * 64 * 4);
    let image = BoopImage::with_channels(64, 64, Channels::RGBA, raw.clone());
    let decoded = BoopImage::decode(&image.encode().unwrap()).unwrap();
    assert_eq!(decoded.dimensions(), (64, 64));
    assert_eq!(decoded.into_raw(), raw);
}

#[test]
fn nothing_compresses_to_a_frame_that_decompresses_to_nothing() {
    let compressed = compress(&[]).unwrap();
    assert!(!compressed.is_empty());
    assert!(decompress(&compressed).unwrap().is_empty());
}

#[test]
fn compressed_frame_is_one_that_zstd_reads() {
    let data = b"the same bytes, the same bytes, the same bytes".to_vec();
    let compressed = compress(&data).unwrap();
    assert_eq!(&compressed[..4], &[0x28, 0xb5, 0x2f, 0xfd]);
    assert_eq!(zstd::decode_all(&compressed[..]).unwrap(), data);
    assert_eq!(decompress(&zstd::encode_all(&data[..], 3).unwrap()).unwrap(), data);
}

#[test]
fn backend_failure_becomes_an_io_error() {
    let failure = std::io::Error::new(std::io::ErrorKind::Other, "backend");
    match Error::from(failure) {
        Error::Io(inner) => assert_eq!(inner.kind(), std::io::ErrorKind::Other),
        other => panic!("unexpected {:?}", other),
    }
}
