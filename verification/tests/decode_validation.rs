use boop::compression::{compress, decompress};
use boop::container::{build_container, split_container};
use boop::{BoopImage, Channels, Error, Flags, Header, Information, InformationV0, InformationV1};

fn filtered(raw: &[u8]) -> Vec<u8> {
    BoopImage::new(0, 0, raw.to_vec()).delta_encode().to_vec()
}

fn version_zero_file(width: u32, height: u32, raw: &[u8]) -> Vec<u8> {
    let payload = compress(&filtered(raw)).unwrap();
    let mut file = Header { magic: Header::MAGIC, version: 0 }.to_bytes().to_vec();
    file.extend_from_slice(&InformationV0::new(width, height).to_bytes());
    file.extend_from_slice(&(payload.len() as u32).to_le_bytes());
    file.extend_from_slice(&payload);
    file
}

fn current_file() -> Vec<u8> {
    BoopImage::new(2, 1, vec![1, 2, 3, 4, 5, 6]).encode().unwrap().to_vec()
}

#[test]
fn buffer_shorter_than_header_is_malformed_header() {
    let file = current_file();
    for len in 0..5usize {
        assert!(matches!(BoopImage::decode(&file[..len]), Err(Error::MalformedHeader)));
    }
}

#[test]
fn buffer_that_ends_within_the_record_is_malformed_header() {
    let file = current_file();
    for len in 5..17usize {
        assert!(matches!(BoopImage::decode(&file[..len]), Err(Error::MalformedHeader)));
    }
    let old = version_zero_file(1, 1, &[1, 2, 3]);
    for len in 5..13usize {
        assert!(matches!(BoopImage::decode(&old[..len]), Err(Error::MalformedHeader)));
    }
}

#[test]
fn altered_magic_is_malformed_header() {
    for at in 0..4usize {
        let mut file = current_file();
        file[at] = file[at].wrapping_add(1);
        assert!(matches!(BoopImage::decode(&file), Err(Error::MalformedHeader)));
    }
}

#[test]
fn unknown_flag_is_malformed_header() {
    let mut file = current_file();
    file[5] = 2;
    assert!(matches!(BoopImage::decode(&file), Err(Error::MalformedHeader)));
    let mut file = current_file();
    file[8] = 0x80;
    assert!(matches!(BoopImage::decode(&file), Err(Error::MalformedHeader)));
}

#[test]
fn version_above_the_highest_is_unsupported() {
    let mut file = current_file();
    file[4] = Header::VERSION + 1;
    assert!(matches!(BoopImage::decode(&file), Err(Error::Unsupported)));
    file[4] = 255;
    assert!(matches!(BoopImage::decode(&file), Err(Error::Unsupported)));
}

#[test]
fn unsupported_version_is_told_before_any_field_is_read() {
    assert!(matches!(BoopImage::decode(b"BOOP\x02"), Err(Error::Unsupported)));
    assert!(matches!(BoopImage::decode(b"BOOP\x09\xff\xff"), Err(Error::Unsupported)));
}

#[test]
fn current_version_decodes() {
    let image = BoopImage::decode(&current_file()).unwrap();
    assert_eq!(image.dimensions(), (2, 1));
    assert_eq!(image.into_raw(), vec![1, 2, 3, 4, 5, 6]);
}

#[test]
fn version_zero_decodes_as_rgb() {
    let raw = vec![5, 6, 7, 8, 9, 10];
    let image = BoopImage::decode(&version_zero_file(1, 2, &raw)).unwrap();
    assert_eq!(image.dimensions(), (1, 2));
    assert_eq!(image.channels(), Channels::RGB);
    assert_eq!(image.into_raw(), raw);
}

#[test]
fn version_zero_ignores_what_follows_the_declared_payload() {
    let raw = vec![5, 6, 7];
    let mut file = version_zero_file(1, 1, &raw);
    file.extend_from_slice(b"not part of the payload");
    assert_eq!(BoopImage::decode(&file).unwrap().into_raw(), raw);
}

#[test]
fn declared_length_beyond_the_end_is_malformed_body() {
    let mut file = version_zero_file(1, 1, &[1, 2, 3]);
    let declared = u32::from_le_bytes([file[13], file[14], file[15], file[16]]);
    file[13..17].copy_from_slice(&(declared + 1).to_le_bytes());
    assert!(matches!(BoopImage::decode(&file), Err(Error::MalformedBody)));
    file[13..17].copy_from_slice(&u32::MAX.to_le_bytes());
    assert!(matches!(BoopImage::decode(&file), Err(Error::MalformedBody)));
}

#[test]
fn truncated_bounded_payload_is_malformed_body() {
    let file = version_zero_file(1, 1, &[1, 2, 3]);
    assert!(matches!(BoopImage::decode(&file[..file.len() - 1]), Err(Error::MalformedBody)));
    assert!(matches!(BoopImage::decode(&file[..17]), Err(Error::MalformedBody)));
    assert!(matches!(BoopImage::decode(&file[..15]), Err(Error::MalformedBody)));
    assert!(matches!(BoopImage::decode(&file[..13]), Err(Error::MalformedBody)));
}

#[test]
fn corrupt_payload_is_an_io_error() {
    let mut file = current_file();
    file.truncate(file.len() - 2);
    assert!(matches!(BoopImage::decode(&file), Err(Error::Io(_))));
    let mut file = current_file();
    file[17] ^= 0xff;
    assert!(matches!(BoopImage::decode(&file), Err(Error::Io(_))));
    assert!(matches!(BoopImage::decode(&current_file()[..17]), Err(Error::Io(_))));
}

#[test]
fn payload_of_other_length_than_the_geometry_is_malformed_body() {
    let payload = compress(&filtered(&[1, 2, 3, 4])).unwrap();
    let info = InformationV1::new(Flags::empty(), 1, 1);
    let file = build_container(&info, &payload);
    assert!(matches!(BoopImage::decode(&file), Err(Error::MalformedBody)));
    let info = InformationV1::new(Flags::alpha(), 1, 1);
    let file = build_container(&info, &payload);
    assert_eq!(BoopImage::decode(&file).unwrap().into_raw(), vec![1, 2, 3, 4]);
}

#[test]
fn container_is_taken_apart_as_it_was_put_together() {
    let info = InformationV1::new(Flags::alpha(), 640, 480);
    let file = build_container(&info, b"payload");
    assert_eq!(&file[..5], b"BOOP\x01");
    assert_eq!(&file[5..17], &info.to_bytes()[..]);
    assert_eq!(&file[17..], b"payload");
    let (record, payload) = split_container(&file).unwrap();
    assert_eq!(record, Information::V1(info));
    assert_eq!(payload, b"payload");
}

#[test]
fn container_without_payload_is_taken_apart() {
    let file = build_container(&InformationV1::new(Flags::empty(), 0, 0), b"");
    assert_eq!(file.len(), 17);
    let (record, payload) = split_container(&file).unwrap();
    assert_eq!(record.version(), 1);
    assert!(payload.is_empty());
}

#[test]
fn restored_image_takes_the_geometry_of_the_record() {
    let record = Information::V1(InformationV1::new(Flags::alpha(), 1, 2));
    let image = BoopImage::from_filtered(&record, &[1, 1, 1, 1, 1, 1, 1, 1]).unwrap();
    assert_eq!(image.dimensions(), (1, 2));
    assert_eq!(image.channels(), Channels::RGBA);
    assert_eq!(image.into_raw(), vec![1, 2, 3, 4, 5, 6, 7, 8]);
    assert!(matches!(
        BoopImage::from_filtered(&record, &[1, 1, 1, 1, 1, 1]),
        Err(Error::MalformedBody)
    ));
    let record = Information::V0(InformationV0::new(1, 2));
    assert!(BoopImage::from_filtered(&record, &[0; 6]).is_ok());
    assert!(matches!(BoopImage::from_filtered(&record, &[0; 8]), Err(Error::MalformedBody)));
}

#[test]
fn decompress_refuses_what_is_no_stream() {
    assert!(matches!(decompress(b""), Err(Error::Io(_))));
    assert!(matches!(decompress(b"plain text"), Err(Error::Io(_))));
}
