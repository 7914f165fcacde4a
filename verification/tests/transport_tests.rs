use std::time::Duration;

use secs_transport::transport::error::{SecsTimeoutType, SecsTransportError};
use secs_transport::transport::secs1::block::{Secs1Block, Secs1BlockHeader};
use secs_transport::transport::secs1::config::{DeviceId, Secs1TransportConfig};
use secs_transport::transport::secs1::transport::{
    split_into_blocks, Secs1Transport, TransactionState,
};
use secs_transport::transport::ConnectionMode;

fn config() -> Secs1TransportConfig {
    Secs1TransportConfig {
        device_id: DeviceId(7),
        mode: ConnectionMode::Passive,
        t1_timeout: Duration::from_millis(500),
        t2_timeout: Duration::from_secs(10),
        t3_timeout: Duration::from_secs(45),
        t4_timeout: Duration::from_secs(45),
        t2_rty: 3,
    }
}

fn header(device: u16, function: u8, block_no: u16, ebit: bool) -> Secs1BlockHeader {
    Secs1BlockHeader {
        rbit: false,
        device_id: DeviceId(device),
        wbit: true,
        stream: 1,
        function,
        ebit,
        block_no,
        system_bytes: 9,
    }
}

fn block(h: Secs1BlockHeader, data: &[u8]) -> Secs1Block {
    Secs1Block { header: h, data: data.to_vec() }
}

#[test]
fn transaction_state_recv_start_next_complete() {
    let mut s = TransactionState::Idle;
    assert!(!s.is_complete());
    s.recv_next(block(header(7, 1, 1, false), &[1]));
    assert!(matches!(s, TransactionState::Idle));
    s.recv_start(block(header(7, 1, 1, false), &[1, 2]));
    assert!(!s.is_complete());
    s.recv_next(block(header(7, 1, 2, true), &[3]));
    assert!(s.is_complete());
    match &s {
        TransactionState::Receiving { expected_header, blocks } => {
            assert_eq!(expected_header.block_no, 2);
            assert_eq!(blocks, &vec![1, 2, 3]);
        }
        _ => panic!("not receiving"),
    }
}

#[test]
fn unknown_device_fails_and_resets() {
    let mut t = Secs1Transport::new(config()).unwrap();
    t.recv_block(block(header(7, 1, 1, false), &[1])).unwrap();
    assert!(t.t4_armed());
    let r = t.recv_block(block(header(8, 1, 1, true), &[1]));
    assert_eq!(r.err(), Some(SecsTransportError::UnknownDeviceId(DeviceId(8))));
    assert!(matches!(t.state(), TransactionState::Idle));
    assert!(!t.t4_armed());
}

#[test]
fn unexpected_non_primary_block_is_invalid() {
    let mut t = Secs1Transport::new(config()).unwrap();
    let r = t.recv_block(block(header(7, 2, 1, true), &[1]));
    assert_eq!(r.err(), Some(SecsTransportError::BlockInvalid));
    assert!(matches!(t.state(), TransactionState::Idle));
    let r = t.recv_block(block(header(7, 1, 2, true), &[1]));
    assert_eq!(r.err(), Some(SecsTransportError::BlockInvalid));
}

#[test]
fn single_block_primary_message_is_returned() {
    let mut t = Secs1Transport::new(config()).unwrap();
    assert_eq!(t.recv_block(block(header(7, 1, 0, true), &[5, 6])).unwrap(), Some(vec![5, 6]));
    assert!(matches!(t.state(), TransactionState::Idle));
    assert!(!t.t4_armed());
    assert_eq!(t.recv_block(block(header(7, 3, 1, true), &[7])).unwrap(), Some(vec![7]));
}

#[test]
fn multi_block_message_is_assembled() {
    let mut t = Secs1Transport::new(config()).unwrap();
    assert_eq!(t.recv_block(block(header(7, 3, 1, false), &[1, 2])).unwrap(), None);
    assert!(t.t4_armed());
    assert_eq!(t.recv_block(block(header(7, 3, 2, false), &[3])).unwrap(), None);
    assert_eq!(t.recv_block(block(header(7, 3, 3, true), &[4])).unwrap(), Some(vec![1, 2, 3, 4]));
    assert!(matches!(t.state(), TransactionState::Idle));
    assert!(!t.t4_armed());
}

#[test]
fn resent_block_is_discarded() {
    let mut t = Secs1Transport::new(config()).unwrap();
    assert_eq!(t.recv_block(block(header(7, 3, 1, false), &[1])).unwrap(), None);
    assert_eq!(t.recv_block(block(header(7, 3, 1, false), &[1])).unwrap(), None);
    assert_eq!(t.recv_block(block(header(7, 3, 2, true), &[2])).unwrap(), Some(vec![1, 2]));
    // a resend of the last block, whose acknowledgement was lost
    assert_eq!(t.recv_block(block(header(7, 3, 2, true), &[2])).unwrap(), None);
    assert!(matches!(t.state(), TransactionState::Idle));
}

#[test]
fn out_of_order_block_is_invalid() {
    let mut t = Secs1Transport::new(config()).unwrap();
    assert_eq!(t.recv_block(block(header(7, 3, 1, false), &[1])).unwrap(), None);
    let r = t.recv_block(block(header(7, 3, 3, true), &[3]));
    assert_eq!(r.err(), Some(SecsTransportError::BlockInvalid));
    assert!(matches!(t.state(), TransactionState::Idle));
    let mut other = header(7, 3, 2, true);
    other.system_bytes = 10;
    let mut t = Secs1Transport::new(config()).unwrap();
    t.recv_block(block(header(7, 3, 1, false), &[1])).unwrap();
    assert_eq!(t.recv_block(block(other, &[2])).err(), Some(SecsTransportError::BlockInvalid));
}

#[test]
fn new_primary_restarts_reception() {
    let mut t = Secs1Transport::new(config()).unwrap();
    t.recv_block(block(header(7, 3, 1, false), &[1])).unwrap();
    let mut fresh = header(7, 5, 1, false);
    fresh.system_bytes = 11;
    assert_eq!(t.recv_block(block(fresh, &[9])).unwrap(), None);
    match t.state() {
        TransactionState::Receiving { blocks, .. } => assert_eq!(blocks, &vec![9]),
        _ => panic!("not receiving"),
    }
}

#[test]
fn split_into_blocks_numbers_and_reassembles() {
    let data: Vec<u8> = (0..600u32).map(|i| (i % 251) as u8).collect();
    let blocks = split_into_blocks(&header(7, 3, 0, false), &data);
    assert_eq!(blocks.len(), 3);
    assert_eq!(blocks.iter().map(|b| b.data.len()).collect::<Vec<_>>(), vec![244, 244, 112]);
    assert_eq!(blocks.iter().map(|b| b.header.block_no).collect::<Vec<_>>(), vec![1, 2, 3]);
    assert_eq!(blocks.iter().map(|b| b.header.ebit).collect::<Vec<_>>(), vec![false, false, true]);
    let mut t = Secs1Transport::new(config()).unwrap();
    let mut got = None;
    for b in blocks {
        got = t.recv_block(b).unwrap();
    }
    assert_eq!(got, Some(data));
}

#[test]
fn split_small_and_empty() {
    let one = split_into_blocks(&header(7, 3, 0, false), &[1, 2, 3]);
    assert_eq!(one.len(), 1);
    assert_eq!(one[0].data, vec![1, 2, 3]);
    assert_eq!((one[0].header.block_no, one[0].header.ebit), (1, true));
    let empty = split_into_blocks(&header(7, 3, 0, false), &[]);
    assert_eq!(empty.len(), 1);
    assert!(empty[0].data.is_empty());
    let full = split_into_blocks(&header(7, 3, 0, false), &[0u8; 488]);
    assert_eq!(full.len(), 2);
    assert_eq!(full[1].data.len(), 244);
}

#[test]
fn t4_expiry_resets() {
    let mut t = Secs1Transport::new(config()).unwrap();
    t.recv_block(block(header(7, 1, 1, false), &[1])).unwrap();
    assert_eq!(t.t4_expired(), SecsTransportError::Timeout(SecsTimeoutType::T4));
    assert!(matches!(t.state(), TransactionState::Idle));
    assert!(!t.t3_armed());
}
