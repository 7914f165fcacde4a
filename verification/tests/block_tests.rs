use secs_transport::transport::error::SecsTransportError;
use secs_transport::transport::secs1::block::{Secs1Block, Secs1BlockHeader, Secs1HandshakeCode};
use secs_transport::transport::secs1::config::DeviceId;

fn header() -> Secs1BlockHeader {
    Secs1BlockHeader {
        rbit: true,
        device_id: DeviceId(0x1234),
        wbit: true,
        stream: 1,
        function: 13,
        ebit: true,
        block_no: 1,
        system_bytes: 0x0102_0304,
    }
}

#[test]
fn header_to_bytes_sets_flag_bits() {
    assert_eq!(
        header().to_bytes(),
        [0x92, 0x34, 0x81, 0x0d, 0x80, 0x01, 0x01, 0x02, 0x03, 0x04]
    );
}

#[test]
fn header_to_bytes_masks_wide_fields() {
    let h = Secs1BlockHeader {
        rbit: false,
        device_id: DeviceId(0xffff),
        wbit: false,
        stream: 0xff,
        function: 0xff,
        ebit: false,
        block_no: 0xffff,
        system_bytes: 0xffff_ffff,
    };
    assert_eq!(h.to_bytes(), [0x7f, 0xff, 0x7f, 0xff, 0x7f, 0xff, 0xff, 0xff, 0xff, 0xff]);
}

#[test]
fn header_try_from_reads_fields() {
    let h = Secs1BlockHeader::try_from([0x92, 0x34, 0x81, 0x0d, 0x80, 0x01, 0x01, 0x02, 0x03, 0x04])
        .unwrap();
    assert_eq!(h, header());
}

#[test]
fn header_roundtrip_both_ways() {
    let h = header();
    assert_eq!(Secs1BlockHeader::try_from(h.to_bytes()).unwrap(), h);
    let raw = [0xff, 0x00, 0x7f, 0x80, 0x00, 0x00, 0xde, 0xad, 0xbe, 0xef];
    assert_eq!(Secs1BlockHeader::try_from(raw).unwrap().to_bytes(), raw);
}

#[test]
fn header_default_is_zero() {
    let h = Secs1BlockHeader::default();
    assert_eq!(h.to_bytes(), [0u8; 10]);
    assert!(!h.rbit && !h.wbit && !h.ebit);
}

#[test]
fn header_predicates() {
    let h = header();
    assert!(h.is_end());
    assert!(h.need_reply());
    assert!(h.is_primary());
    assert!(h.is_first_block());
    let mut s = header();
    s.function = 14;
    s.block_no = 0;
    s.ebit = false;
    assert!(!s.is_primary());
    assert!(!s.is_first_block());
    s.ebit = true;
    assert!(s.is_first_block());
    s.block_no = 2;
    assert!(!s.is_first_block());
}

#[test]
fn block_checksum_sums_header_and_data() {
    let b = Secs1Block { header: header(), data: vec![0x01, 0x02, 0xff] };
    let sum: u16 = [0x92u16, 0x34, 0x81, 0x0d, 0x80, 0x01, 0x01, 0x02, 0x03, 0x04, 0x01, 0x02, 0xff]
        .iter()
        .sum();
    assert_eq!(b.checksum(), sum);
    assert!(b.verify_checksum(sum));
    assert!(!b.verify_checksum(sum + 1));
}

#[test]
fn block_checksum_wraps() {
    let b = Secs1Block {
        header: Secs1BlockHeader::try_from([0xff; 10]).unwrap(),
        data: vec![0xff; 244],
    };
    assert_eq!(b.checksum(), ((254u32 * 255) % 65536) as u16);
}

#[test]
fn block_to_bytes_is_header_then_data() {
    let b = Secs1Block { header: header(), data: vec![9, 8, 7] };
    let mut expected = header().to_bytes().to_vec();
    expected.extend_from_slice(&[9, 8, 7]);
    assert_eq!(b.to_bytes(), expected);
}

#[test]
fn block_try_from_rejects_bad_lengths() {
    assert_eq!(Secs1Block::try_from(&[0u8; 9][..]).err(), Some(SecsTransportError::BlockInvalid));
    assert_eq!(Secs1Block::try_from(&[0u8; 255][..]).err(), Some(SecsTransportError::BlockInvalid));
    assert!(Secs1Block::try_from(&[0u8; 10][..]).is_ok());
    assert!(Secs1Block::try_from(&[0u8; 254][..]).is_ok());
}

#[test]
fn block_bytes_roundtrip() {
    let b = Secs1Block { header: header(), data: vec![1, 2, 3, 4] };
    let back = Secs1Block::try_from(&b.to_bytes()[..]).unwrap();
    assert_eq!(back.header, b.header);
    assert_eq!(back.data, b.data);
}

#[test]
fn handshake_codes() {
    assert_eq!(Secs1HandshakeCode::ENQ.to_byte(), 0x05);
    assert_eq!(Secs1HandshakeCode::EOT.to_byte(), 0x04);
    assert_eq!(Secs1HandshakeCode::ACK.to_byte(), 0x06);
    assert_eq!(Secs1HandshakeCode::NAK.to_byte(), 0x15);
    for c in [Secs1HandshakeCode::ENQ, Secs1HandshakeCode::EOT, Secs1HandshakeCode::ACK, Secs1HandshakeCode::NAK] {
        assert_eq!(Secs1HandshakeCode::from_byte(c.to_byte()), Some(c));
    }
    assert_eq!(Secs1HandshakeCode::from_byte(0x00), None);
    assert_eq!(Secs1HandshakeCode::from_byte(0x07), None);
}

#[test]
fn handshake_code_conversions() {
    let b: u8 = Secs1HandshakeCode::NAK.into();
    assert_eq!(b, 0x15);
    assert_eq!(Secs1HandshakeCode::try_from(0x04u8), Ok(Secs1HandshakeCode::EOT));
    assert_eq!(Secs1HandshakeCode::try_from(0x99u8), Err(0x99));
}
