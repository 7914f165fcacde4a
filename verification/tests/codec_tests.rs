use secs_transport::transport::secs1::codec::{
    calculate_checksum, decode_panics, Secs1Codec, Secs1CodecError,
};
use secs_transport::transport::secs1::message::Secs1Message;
use tokio_util::bytes::BytesMut;

fn message() -> Secs1Message {
    Secs1Message { header: [0x81, 0x02, 0x81, 0x01, 0x80, 0x01, 0, 0, 0, 7], data: vec![0xaa, 0xbb] }
}

#[test]
fn calculate_checksum_values() {
    assert_eq!(calculate_checksum(&[]), 0);
    assert_eq!(calculate_checksum(&[1, 2, 3]), 6);
    assert_eq!(calculate_checksum(&[0xff; 258]), ((258u32 * 255) % 65536) as u16);
}

#[test]
fn encode_writes_length_payload_checksum() {
    let mut codec = Secs1Codec;
    let mut dst = BytesMut::new();
    dst.extend_from_slice(&[0x42]);
    codec.encode(message(), &mut dst).unwrap();
    let payload = [0x81u8, 0x02, 0x81, 0x01, 0x80, 0x01, 0, 0, 0, 7, 0xaa, 0xbb];
    let sum: u16 = payload.iter().map(|b| *b as u16).sum();
    let mut expected = vec![0x42, 12];
    expected.extend_from_slice(&payload);
    expected.push((sum >> 8) as u8);
    expected.push(sum as u8);
    assert_eq!(&dst[..], &expected[..]);
}

#[test]
fn decode_waits_for_whole_frame() {
    let mut codec = Secs1Codec;
    let mut full = BytesMut::new();
    codec.encode(message(), &mut full).unwrap();
    let mut part = BytesMut::from(&full[..12]);
    assert!(codec.decode(&mut part).unwrap().is_none());
    assert_eq!(part.len(), 12);
    let mut part = BytesMut::from(&full[..full.len() - 1]);
    assert!(codec.decode(&mut part).unwrap().is_none());
    assert_eq!(part.len(), full.len() - 1);
}

#[test]
fn decode_reads_what_encode_wrote() {
    let mut codec = Secs1Codec;
    let mut buf = BytesMut::new();
    codec.encode(message(), &mut buf).unwrap();
    buf.extend_from_slice(&[1, 2, 3]);
    let m = codec.decode(&mut buf).unwrap().unwrap();
    assert_eq!(m.header, message().header);
    assert_eq!(m.data, message().data);
    assert_eq!(&buf[..], &[1, 2, 3]);
}

#[test]
fn decode_drops_frame_with_bad_checksum() {
    let mut codec = Secs1Codec;
    let mut buf = BytesMut::new();
    codec.encode(message(), &mut buf).unwrap();
    let last = buf.len() - 1;
    buf[last] ^= 0x01;
    buf.extend_from_slice(&[9, 9]);
    assert_eq!(codec.decode(&mut buf).err(), Some(Secs1CodecError::ChecksumMismatch));
    assert_eq!(&buf[..], &[9, 9]);
}

#[test]
fn message_accessors() {
    let m = Secs1Message { header: [0x92, 0x34, 0x81, 0x0d, 0x83, 0x01, 0x01, 0x02, 0x03, 0x04], data: vec![] };
    assert_eq!(m.rbit(), 0x80);
    assert_eq!(m.wbit(), 0x80);
    assert_eq!(m.ebit(), 0x80);
    assert_eq!(m.device_id(), 0x1234);
    assert_eq!(m.stream(), 1);
    assert_eq!(m.function(), 0x0d);
    assert_eq!(m.block_no(), 0x0301);
    assert_eq!(m.system_bytes(), 0x0102_0304);
    let z = Secs1Message { header: [0x12, 0, 0x01, 0, 0x00, 0, 0, 0, 0, 0], data: vec![] };
    assert_eq!(z.rbit(), 0);
    assert_eq!(z.wbit(), 0);
    assert_eq!(z.ebit(), 0);
    assert_eq!(z.device_id(), 0x1200);
}

#[test]
fn decode_panics_only_on_checked_short_frame() {
    // length 2, payload [1, 2], checksum 3, padded to 13 bytes
    let mut short = vec![2u8, 1, 2, 0, 3];
    short.resize(13, 0);
    assert!(decode_panics(&short));
    let mut wrong = vec![2u8, 1, 2, 0, 4];
    wrong.resize(13, 0);
    assert!(!decode_panics(&wrong));
    assert!(!decode_panics(&short[..12]));
    let mut codec = Secs1Codec;
    let mut buf = BytesMut::from(&wrong[..]);
    assert_eq!(codec.decode(&mut buf).err(), Some(Secs1CodecError::ChecksumMismatch));
    assert_eq!(buf.len(), 8);
}

#[test]
fn decode_checked_refuses_short_checked_frame() {
    let mut codec = Secs1Codec;
    let mut short = vec![2u8, 1, 2, 0, 3];
    short.resize(13, 0);
    let mut buf = BytesMut::from(&short[..]);
    assert!(codec.decode_checked(&mut buf).is_none());
    assert_eq!(&buf[..], &short[..]);
    let mut full = BytesMut::new();
    codec.encode(message(), &mut full).unwrap();
    let m = codec.decode_checked(&mut full).unwrap().unwrap().unwrap();
    assert_eq!(m.data, message().data);
    assert!(full.is_empty());
}

#[test]
fn encode_checked_appends_frame() {
    let mut codec = Secs1Codec;
    let mut a = BytesMut::new();
    let mut b = BytesMut::new();
    assert!(codec.encode_checked(message(), &mut a));
    codec.encode(message(), &mut b).unwrap();
    assert_eq!(&a[..], &b[..]);
}
