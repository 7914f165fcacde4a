use std::time::Duration;

use secs_transport::transport::error::{SecsTimeoutType, SecsTransportError};
use secs_transport::transport::secs1::block::{Secs1Block, Secs1BlockHeader, Secs1HandshakeCode};
use secs_transport::transport::secs1::config::{DeviceId, Secs1TransportConfig};
use secs_transport::transport::secs1::link::{
    continues_after, LinkAction, LinkEvent, Secs1LinkControl, Secs1LinkState,
};
use secs_transport::transport::ConnectionMode;

fn config(mode: ConnectionMode, t2_rty: u8) -> Secs1TransportConfig {
    Secs1TransportConfig {
        device_id: DeviceId(1),
        mode,
        t1_timeout: Duration::from_millis(500),
        t2_timeout: Duration::from_millis(10_000),
        t3_timeout: Duration::from_millis(45_000),
        t4_timeout: Duration::from_millis(45_000),
        t2_rty,
    }
}

fn block() -> Secs1Block {
    Secs1Block {
        header: Secs1BlockHeader {
            rbit: false,
            device_id: DeviceId(1),
            wbit: true,
            stream: 1,
            function: 1,
            ebit: true,
            block_no: 1,
            system_bytes: 42,
        },
        data: vec![0x01, 0x00],
    }
}

fn write_of(a: &LinkAction) -> Option<Secs1HandshakeCode> {
    match a {
        LinkAction::Write(c) => Some(*c),
        _ => None,
    }
}

#[test]
fn new_link_is_idle() {
    let c = Secs1LinkControl::new(config(ConnectionMode::Active, 3));
    assert_eq!(c.state(), Secs1LinkState::IDLE);
    assert_eq!(c.retry_count(), 0);
    assert_eq!(c.config().t2_rty, 3);
}

#[test]
fn idle_with_queued_block_sends_enq() {
    let mut c = Secs1LinkControl::new(config(ConnectionMode::Active, 3));
    assert!(matches!(c.step(LinkEvent::QueueChecked(false)), LinkAction::Wait));
    assert_eq!(c.state(), Secs1LinkState::IDLE);
    let a = c.step(LinkEvent::QueueChecked(true));
    assert_eq!(write_of(&a), Some(Secs1HandshakeCode::ENQ));
    assert_eq!(c.state(), Secs1LinkState::LINECONTROL);
}

#[test]
fn idle_answers_enq_with_eot() {
    let mut c = Secs1LinkControl::new(config(ConnectionMode::Active, 3));
    assert!(matches!(c.step(LinkEvent::Byte(0x00)), LinkAction::Done));
    assert!(matches!(c.step(LinkEvent::Notified), LinkAction::Done));
    assert_eq!(c.state(), Secs1LinkState::IDLE);
    let a = c.step(LinkEvent::Byte(0x05));
    assert_eq!(write_of(&a), Some(Secs1HandshakeCode::EOT));
    assert_eq!(c.state(), Secs1LinkState::RECEIVE);
    assert!(c.awaits_length());
}

#[test]
fn idle_fails_when_reader_is_gone() {
    let mut c = Secs1LinkControl::new(config(ConnectionMode::Active, 3));
    match c.step(LinkEvent::ReaderClosed) {
        LinkAction::Fail(e) => assert_eq!(e, SecsTransportError::RecvFailed),
        other => panic!("{:?}", other),
    }
}

#[test]
fn line_control_eot_enters_send() {
    let mut c = Secs1LinkControl::new(config(ConnectionMode::Active, 3));
    c.step(LinkEvent::QueueChecked(true));
    assert!(matches!(c.step(LinkEvent::Byte(0x15)), LinkAction::Wait));
    assert!(matches!(c.step(LinkEvent::Byte(0x04)), LinkAction::Done));
    assert_eq!(c.state(), Secs1LinkState::SEND);
}

#[test]
fn contention_passive_yields_active_waits() {
    let mut p = Secs1LinkControl::new(config(ConnectionMode::Passive, 3));
    p.step(LinkEvent::QueueChecked(true));
    let a = p.step(LinkEvent::Byte(0x05));
    assert_eq!(write_of(&a), Some(Secs1HandshakeCode::EOT));
    assert_eq!(p.state(), Secs1LinkState::RECEIVE);

    let mut m = Secs1LinkControl::new(config(ConnectionMode::Active, 3));
    m.step(LinkEvent::QueueChecked(true));
    assert!(matches!(m.step(LinkEvent::Byte(0x05)), LinkAction::Wait));
    assert_eq!(m.state(), Secs1LinkState::LINECONTROL);
}

#[test]
fn retry_budget_returns_to_idle() {
    let mut c = Secs1LinkControl::new(config(ConnectionMode::Active, 2));
    c.step(LinkEvent::QueueChecked(true));
    assert!(matches!(c.step(LinkEvent::T2Expired), LinkAction::Done));
    assert_eq!((c.state(), c.retry_count()), (Secs1LinkState::LINECONTROL, 1));
    c.step(LinkEvent::T2Expired);
    assert_eq!((c.state(), c.retry_count()), (Secs1LinkState::LINECONTROL, 2));
    c.step(LinkEvent::T2Expired);
    assert_eq!((c.state(), c.retry_count()), (Secs1LinkState::IDLE, 0));
}

#[test]
fn send_ack_pops_and_nak_retries() {
    let mut c = Secs1LinkControl::new(config(ConnectionMode::Active, 3));
    c.step(LinkEvent::QueueChecked(true));
    c.step(LinkEvent::Byte(0x04));
    assert!(matches!(c.step(LinkEvent::Byte(0x15)), LinkAction::Done));
    assert_eq!((c.state(), c.retry_count()), (Secs1LinkState::LINECONTROL, 1));
    c.step(LinkEvent::Byte(0x04));
    assert!(matches!(c.step(LinkEvent::Byte(0x06)), LinkAction::PopFront));
    assert_eq!(c.state(), Secs1LinkState::IDLE);
}

#[test]
fn frame_for_send_values() {
    let c = Secs1LinkControl::new(config(ConnectionMode::Active, 3));
    assert_eq!(c.frame_for_send(None).err(), Some(SecsTransportError::NothingToSend));
    let b = block();
    let frame = c.frame_for_send(Some(&b)).unwrap();
    let bytes = b.to_bytes();
    assert_eq!(frame[0] as usize, bytes.len());
    assert_eq!(&frame[1..=bytes.len()], &bytes[..]);
    let sum = b.checksum();
    assert_eq!(&frame[bytes.len() + 1..], &[(sum >> 8) as u8, sum as u8]);
    let big = Secs1Block { header: b.header.clone(), data: vec![0; 245] };
    assert_eq!(c.frame_for_send(Some(&big)).err(), Some(SecsTransportError::BlockInvalid));
}

#[test]
fn receive_frame_byte_by_byte() {
    let sender = Secs1LinkControl::new(config(ConnectionMode::Active, 3));
    let frame = sender.frame_for_send(Some(&block())).unwrap();
    let mut c = Secs1LinkControl::new(config(ConnectionMode::Passive, 3));
    c.step(LinkEvent::Byte(0x05));
    for (i, b) in frame.iter().enumerate() {
        let a = c.step(LinkEvent::Byte(*b));
        if i + 1 < frame.len() {
            assert!(matches!(a, LinkAction::Wait));
            assert!(!c.awaits_length());
        } else {
            match a {
                LinkAction::Deliver(got) => {
                    assert_eq!(got.header, block().header);
                    assert_eq!(got.data, block().data);
                }
                other => panic!("{:?}", other),
            }
        }
    }
    assert_eq!(c.state(), Secs1LinkState::IDLE);
}

#[test]
fn receive_bad_checksum_is_nacked() {
    let sender = Secs1LinkControl::new(config(ConnectionMode::Active, 3));
    let mut frame = sender.frame_for_send(Some(&block())).unwrap();
    let last = frame.len() - 1;
    frame[last] ^= 0xff;
    let mut c = Secs1LinkControl::new(config(ConnectionMode::Passive, 3));
    c.step(LinkEvent::Byte(0x05));
    let mut final_action = None;
    for b in frame {
        final_action = Some(c.step(LinkEvent::Byte(b)));
    }
    assert!(matches!(final_action, Some(LinkAction::DrainThenNak)));
    assert_eq!(c.state(), Secs1LinkState::IDLE);
}

#[test]
fn receive_bad_length_is_nacked() {
    let mut c = Secs1LinkControl::new(config(ConnectionMode::Passive, 3));
    c.step(LinkEvent::Byte(0x05));
    assert!(matches!(c.step(LinkEvent::Byte(9)), LinkAction::DrainThenNak));
    assert_eq!(c.state(), Secs1LinkState::IDLE);
    c.step(LinkEvent::Byte(0x05));
    assert!(matches!(c.step(LinkEvent::Byte(255)), LinkAction::DrainThenNak));
}

#[test]
fn receive_timeouts() {
    let mut c = Secs1LinkControl::new(config(ConnectionMode::Passive, 3));
    c.step(LinkEvent::Byte(0x05));
    match c.step(LinkEvent::T2Expired) {
        LinkAction::NakThenFail(e) => assert_eq!(e, SecsTransportError::Timeout(SecsTimeoutType::T2)),
        other => panic!("{:?}", other),
    }
    assert_eq!(c.state(), Secs1LinkState::IDLE);
    c.step(LinkEvent::Byte(0x05));
    c.step(LinkEvent::Byte(12));
    match c.step(LinkEvent::T1Expired) {
        LinkAction::NakThenFail(e) => assert_eq!(e, SecsTransportError::Timeout(SecsTimeoutType::T1)),
        other => panic!("{:?}", other),
    }
    c.step(LinkEvent::Byte(0x05));
    c.step(LinkEvent::Byte(12));
    match c.step(LinkEvent::ReaderClosed) {
        LinkAction::Fail(e) => assert_eq!(e, SecsTransportError::ConnectionClosed),
        other => panic!("{:?}", other),
    }
}

#[test]
fn only_t2_timeouts_keep_the_link_running() {
    assert!(continues_after(&SecsTransportError::Timeout(SecsTimeoutType::T2)));
    assert!(!continues_after(&SecsTransportError::Timeout(SecsTimeoutType::T1)));
    assert!(!continues_after(&SecsTransportError::RecvFailed));
    assert!(!continues_after(&SecsTransportError::NothingToSend));
}

#[test]
fn accepts_rules_out_stray_bytes_in_send() {
    let mut c = Secs1LinkControl::new(config(ConnectionMode::Active, 255));
    assert!(c.accepts(LinkEvent::Byte(0x42)));
    c.step(LinkEvent::QueueChecked(true));
    c.step(LinkEvent::Byte(0x04));
    assert_eq!(c.state(), Secs1LinkState::SEND);
    assert!(!c.accepts(LinkEvent::Byte(0x42)));
    assert!(c.accepts(LinkEvent::Byte(0x06)));
    assert!(c.accepts(LinkEvent::T2Expired));
}

#[test]
fn retry_count_stops_at_255_limit() {
    let mut c = Secs1LinkControl::new(config(ConnectionMode::Active, 255));
    c.step(LinkEvent::QueueChecked(true));
    for _ in 0..255 {
        assert!(c.accepts(LinkEvent::T2Expired));
        c.step(LinkEvent::T2Expired);
    }
    assert_eq!((c.state(), c.retry_count()), (Secs1LinkState::LINECONTROL, 255));
    assert!(!c.accepts(LinkEvent::T2Expired));
}
