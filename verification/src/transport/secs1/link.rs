use vstd::prelude::*;

use crate::transport::ConnectionMode;
use crate::transport::error::{SecsTimeoutType, SecsTransportError};
use crate::transport::secs1::block::{
    Secs1BlockHeader, header_fits_wire, lemma_header_bytes_roundtrip, lemma_header_fields_roundtrip,
    spec_block_bytes, spec_code_byte, spec_code_from_byte, spec_header_bytes,
    spec_header_from_bytes, Secs1Block, Secs1HandshakeCode,
};
use crate::transport::secs1::codec::{
    lemma_codec_roundtrip, spec_encode_frame, spec_frame_checksum,
    spec_frame_checksum_ok, spec_frame_len, spec_frame_payload,
};
use crate::transport::secs1::config::Secs1TransportConfig;

verus! {

/// The phases of the SECS-I block transfer protocol.
#[derive(Debug, Clone, Copy, PartialEq, Eq, Structural)]
#[allow(non_camel_case_types)]
pub enum Secs1LinkState {
    /// Nothing in progress.
    IDLE,
    /// ENQ sent; waiting for EOT to settle the direction of transfer.
    LINECONTROL,
    /// Sending a block; waiting for its ACK.
    SEND,
    /// Receiving a block.
    RECEIVE,
    /// Closing a transfer (never entered).
    COMPLETION,
}

/// What happened on the line, or to the send queue, while the link waited.
#[derive(Debug, Clone, Copy, PartialEq, Eq, Structural)]
pub enum LinkEvent {
    /// The send queue was looked at on entering IDLE; `true` when it holds a block.
    QueueChecked(bool),
    /// New blocks to send were announced.
    Notified,
    /// A byte arrived from the line.
    Byte(u8),
    /// The line reader is gone.
    ReaderClosed,
    /// T1 expired while waiting for the next byte of a block.
    T1Expired,
    /// T2 expired.
    T2Expired,
}

/// What the link is to do after an event.
#[derive(Debug)]
pub enum LinkAction {
    /// Keep waiting in the current phase, with the same timers.
    Wait,
    /// The phase is over; go on with the current state.
    Done,
    /// Write this handshake code; then the phase is over.
    Write(Secs1HandshakeCode),
    /// Discard every byte that arrives until T1 expires, then write NAK; then the phase is over.
    DrainThenNak,
    /// Write NAK; then the phase ends with this error.
    NakThenFail(SecsTransportError),
    /// Hand this block to the upper layer, then write ACK; when the hand-over fails the
    /// phase ends with `SendFailed` instead.
    Deliver(Secs1Block),
    /// The block at the front of the send queue was acknowledged: remove it; then the
    /// phase is over.
    PopFront,
    /// The phase ends with this error.
    Fail(SecsTransportError),
}

/// What the bytes received so far of a block frame amount to.
pub enum FrameProgress {
    /// More bytes are due.
    Incomplete,
    /// The length byte is outside 10..=254.
    BadLength,
    /// The frame is whole but its checksum does not match.
    BadChecksum,
    /// The frame is whole and its checksum matches.
    Complete,
}

/// How a received frame prefix stands: a length byte in 10..=254 announces that many
/// payload bytes, followed by a two-byte big-endian checksum of the payload.
pub open spec fn spec_frame_progress(f: Seq<u8>) -> FrameProgress {
    if f.len() == 0 {
        FrameProgress::Incomplete
    } else if f[0] < 10 || f[0] > 254 {
        FrameProgress::BadLength
    } else if f.len() < spec_frame_len(f) {
        FrameProgress::Incomplete
    } else if spec_frame_checksum_ok(f) {
        FrameProgress::Complete
    } else {
        FrameProgress::BadChecksum
    }
}

/// Reads a whole received frame: the block that its payload stands for, when the
/// checksum matches; `None` otherwise.
fn read_frame(frame: &[u8]) -> (res: Option<Secs1Block>)
    requires
        frame@.len() >= 1,
        10 <= frame@[0] <= 254,
        frame@.len() == spec_frame_len(frame@),
    ensures
        spec_frame_checksum_ok(frame@) ==> (res matches Some(blk) && blk.header
            == spec_header_from_bytes(spec_frame_payload(frame@).take(10)) && blk.data@
            == spec_frame_payload(frame@).skip(10)),
        !spec_frame_checksum_ok(frame@) ==> res is None,
{
    let length = frame[0] as usize;
    let payload = vstd::slice::slice_subrange(frame, 1, length + 1);
    let checksum = (frame[length + 1] as u16) * 256 + (frame[length + 2] as u16);
    assert(payload@ == spec_frame_payload(frame@));
    assert(checksum == spec_frame_checksum(frame@));
    let block = match Secs1Block::try_from(payload) {
        Ok(block) => block,
        Err(_) => {
            return None;
        },
    };
    proof {
        lemma_header_bytes_roundtrip(payload@.take(10));
        assert(spec_header_bytes(block.header) + block.data@ =~= payload@);
    }
    if !block.verify_checksum(checksum) {
        return None;
    }
    Some(block)
}

/// The decisions of the SECS-I block transfer protocol: the phase, the count of T2
/// retries and the bytes of the block being received. The line, the timers and the
/// queues are driven by the caller, which reports what happened as `LinkEvent`s and
/// carries out the `LinkAction`s.
pub struct Secs1LinkControl {
    config: Secs1TransportConfig,
    state: Secs1LinkState,
    retry_count: u8,
    frame: Vec<u8>,
}

impl Secs1LinkControl {
    /// The current phase.
    pub closed spec fn spec_state(&self) -> Secs1LinkState {
        self.state
    }

    /// How many T2 retries the current transfer has used.
    pub closed spec fn spec_retry_count(&self) -> u8 {
        self.retry_count
    }

    /// The bytes received so far of the block frame in progress.
    pub closed spec fn spec_frame(&self) -> Seq<u8> {
        self.frame@
    }

    /// The configuration of the link.
    pub closed spec fn spec_config(&self) -> Secs1TransportConfig {
        self.config
    }

    /// The retry limit of the configuration.
    pub open spec fn spec_t2_rty(&self) -> u8 {
        self.spec_config().t2_rty
    }

    /// The connection mode of the configuration.
    pub open spec fn spec_mode(&self) -> ConnectionMode {
        self.spec_config().mode
    }

    /// The invariant of the link: the retry count stays within the limit, COMPLETION
    /// is never reached, and while receiving the bytes held are a proper prefix of a
    /// frame with a valid length byte.
    pub closed spec fn wf(&self) -> bool {
        &&& self.retry_count <= self.config.t2_rty
        &&& self.state != Secs1LinkState::COMPLETION
        &&& self.state == Secs1LinkState::RECEIVE ==> (self.frame@.len() == 0 || (10
            <= self.frame@[0] <= 254 && self.frame@.len() < spec_frame_len(self.frame@)))
    }

    /// Whether the event makes the link count a T2 retry.
    pub open spec fn spec_event_retries(&self, event: LinkEvent) -> bool {
        ||| (self.spec_state() == Secs1LinkState::LINECONTROL || self.spec_state()
            == Secs1LinkState::SEND) && event == LinkEvent::T2Expired
        ||| self.spec_state() == Secs1LinkState::SEND && (event matches LinkEvent::Byte(b)
            && spec_code_from_byte(b) is Some && spec_code_from_byte(b) != Some(
            Secs1HandshakeCode::ACK,
        ))
    }

    /// Whether `post` is `self` after one T2 retry: back to LINECONTROL with one more
    /// retry counted, or, once the count passes the limit, to IDLE with the count cleared.
    pub open spec fn spec_retried(&self, post: &Self) -> bool {
        &&& post.spec_frame() == self.spec_frame()
        &&& if self.spec_retry_count() + 1 > self.spec_t2_rty() {
            post.spec_state() == Secs1LinkState::IDLE && post.spec_retry_count() == 0
        } else {
            post.spec_state() == Secs1LinkState::LINECONTROL && post.spec_retry_count()
                == self.spec_retry_count() + 1
        }
    }

    /// Whether `post` has the phase, retry count and frame of `self`.
    pub open spec fn spec_same(&self, post: &Self) -> bool {
        &&& post.spec_state() == self.spec_state()
        &&& post.spec_retry_count() == self.spec_retry_count()
        &&& post.spec_frame() == self.spec_frame()
    }

    /// IDLE: a block in the queue starts a send (ENQ, LINECONTROL, retries cleared);
    /// an ENQ from the line starts a reception (EOT, RECEIVE, nothing received); any
    /// other byte, or a notification, ends the phase; a lost reader fails with
    /// `RecvFailed`; nothing else is waited for.
    pub open spec fn spec_idle_step(&self, post: &Self, event: LinkEvent, action: LinkAction) -> bool {
        match event {
            LinkEvent::QueueChecked(true) => post.spec_state() == Secs1LinkState::LINECONTROL
                && post.spec_retry_count() == 0 && post.spec_frame() == self.spec_frame()
                && action == LinkAction::Write(Secs1HandshakeCode::ENQ),
            LinkEvent::Byte(b) => if b == spec_code_byte(Secs1HandshakeCode::ENQ) {
                post.spec_state() == Secs1LinkState::RECEIVE && post.spec_retry_count()
                    == self.spec_retry_count() && post.spec_frame().len() == 0 && action
                    == LinkAction::Write(Secs1HandshakeCode::EOT)
            } else {
                self.spec_same(post) && action == LinkAction::Done
            },
            LinkEvent::Notified => self.spec_same(post) && action == LinkAction::Done,
            LinkEvent::ReaderClosed => self.spec_same(post) && action == LinkAction::Fail(
                SecsTransportError::RecvFailed,
            ),
            _ => self.spec_same(post) && action == LinkAction::Wait,
        }
    }

    /// LINECONTROL: EOT enters SEND; an ENQ makes a passive link give way (EOT,
    /// RECEIVE, nothing received); other bytes are ignored; T2 counts a retry; a lost
    /// reader fails with `RecvFailed`.
    pub open spec fn spec_line_control_step(&self, post: &Self, event: LinkEvent, action: LinkAction) -> bool {
        match event {
            LinkEvent::T2Expired => self.spec_retried(post) && action == LinkAction::Done,
            LinkEvent::Byte(b) => if b == spec_code_byte(Secs1HandshakeCode::ENQ)
                && self.spec_mode() == ConnectionMode::Passive {
                post.spec_state() == Secs1LinkState::RECEIVE && post.spec_retry_count()
                    == self.spec_retry_count() && post.spec_frame().len() == 0 && action
                    == LinkAction::Write(Secs1HandshakeCode::EOT)
            } else if b == spec_code_byte(Secs1HandshakeCode::EOT) {
                post.spec_state() == Secs1LinkState::SEND && post.spec_retry_count()
                    == self.spec_retry_count() && post.spec_frame() == self.spec_frame()
                    && action == LinkAction::Done
            } else {
                self.spec_same(post) && action == LinkAction::Wait
            },
            LinkEvent::ReaderClosed => self.spec_same(post) && action == LinkAction::Fail(
                SecsTransportError::RecvFailed,
            ),
            _ => self.spec_same(post) && action == LinkAction::Wait,
        }
    }

    /// SEND, after the frame was written: ACK returns to IDLE and takes the block off
    /// the queue; any other handshake code, or T2, counts a retry; a lost reader fails
    /// with `RecvFailed`.
    pub open spec fn spec_send_step(&self, post: &Self, event: LinkEvent, action: LinkAction) -> bool {
        match event {
            LinkEvent::T2Expired => self.spec_retried(post) && action == LinkAction::Done,
            LinkEvent::Byte(b) => if b == spec_code_byte(Secs1HandshakeCode::ACK) {
                post.spec_state() == Secs1LinkState::IDLE && post.spec_retry_count()
                    == self.spec_retry_count() && post.spec_frame() == self.spec_frame()
                    && action == LinkAction::PopFront
            } else {
                self.spec_retried(post) && action == LinkAction::Done
            },
            LinkEvent::ReaderClosed => self.spec_same(post) && action == LinkAction::Fail(
                SecsTransportError::RecvFailed,
            ),
            _ => self.spec_same(post) && action == LinkAction::Wait,
        }
    }

    /// RECEIVE, waiting for the length byte: T2 answers NAK and fails with a T2
    /// timeout (IDLE); a length in 10..=254 starts the frame; any other length is
    /// answered with NAK once the line falls quiet (IDLE); a lost reader fails with
    /// `RecvFailed`.
    pub open spec fn spec_receive_length_step(&self, post: &Self, event: LinkEvent, action: LinkAction) -> bool {
        match event {
            LinkEvent::T2Expired => post.spec_state() == Secs1LinkState::IDLE
                && post.spec_retry_count() == self.spec_retry_count() && action
                == LinkAction::NakThenFail(SecsTransportError::Timeout(SecsTimeoutType::T2)),
            LinkEvent::Byte(b) => if 10 <= b <= 254 {
                post.spec_state() == Secs1LinkState::RECEIVE && post.spec_retry_count()
                    == self.spec_retry_count() && post.spec_frame() == seq![b] && action
                    == LinkAction::Wait
            } else {
                post.spec_state() == Secs1LinkState::IDLE && post.spec_retry_count()
                    == self.spec_retry_count() && action == LinkAction::DrainThenNak
            },
            LinkEvent::ReaderClosed => self.spec_same(post) && action == LinkAction::Fail(
                SecsTransportError::RecvFailed,
            ),
            _ => self.spec_same(post) && action == LinkAction::Wait,
        }
    }

    /// RECEIVE, within a frame: each byte is added; a whole frame with a matching
    /// checksum is delivered as the block its payload reads as (IDLE); one with a wrong
    /// checksum is answered with NAK once the line falls quiet (IDLE); T1 answers NAK
    /// and fails with a T1 timeout (IDLE); a lost reader fails with `ConnectionClosed`.
    pub open spec fn spec_receive_byte_step(&self, post: &Self, event: LinkEvent, action: LinkAction) -> bool {
        match event {
            LinkEvent::T1Expired => post.spec_state() == Secs1LinkState::IDLE
                && post.spec_retry_count() == self.spec_retry_count() && action
                == LinkAction::NakThenFail(SecsTransportError::Timeout(SecsTimeoutType::T1)),
            LinkEvent::Byte(b) => {
                let f = self.spec_frame().push(b);
                &&& post.spec_retry_count() == self.spec_retry_count()
                &&& match spec_frame_progress(f) {
                    FrameProgress::Complete => post.spec_state() == Secs1LinkState::IDLE && (
                    action matches LinkAction::Deliver(blk) && blk.header
                        == spec_header_from_bytes(spec_frame_payload(f).take(10)) && blk.data@
                        == spec_frame_payload(f).skip(10)),
                    FrameProgress::BadChecksum => post.spec_state() == Secs1LinkState::IDLE
                        && action == LinkAction::DrainThenNak,
                    _ => post.spec_state() == Secs1LinkState::RECEIVE && post.spec_frame() == f
                        && action == LinkAction::Wait,
                }
            },
            LinkEvent::ReaderClosed => self.spec_same(post) && action == LinkAction::Fail(
                SecsTransportError::ConnectionClosed,
            ),
            _ => self.spec_same(post) && action == LinkAction::Wait,
        }
    }

    /// One step of the link, by phase: what `step` leaves in `post` and returns as
    /// `action` after `event`, with the configuration kept.
    pub open spec fn spec_step(&self, post: &Self, event: LinkEvent, action: LinkAction) -> bool {
        &&& post.spec_config() == self.spec_config()
        &&& match self.spec_state() {
            Secs1LinkState::IDLE => self.spec_idle_step(post, event, action),
            Secs1LinkState::LINECONTROL => self.spec_line_control_step(post, event, action),
            Secs1LinkState::SEND => self.spec_send_step(post, event, action),
            Secs1LinkState::RECEIVE => if self.spec_frame().len() == 0 {
                self.spec_receive_length_step(post, event, action)
            } else {
                self.spec_receive_byte_step(post, event, action)
            },
            Secs1LinkState::COMPLETION => self.spec_same(post) && action == LinkAction::Wait,
        }
    }

    /// A link at rest: IDLE, no retries, nothing received.
    pub fn new(config: Secs1TransportConfig) -> (r: Self)
        ensures
            r.wf(),
            r.spec_state() == Secs1LinkState::IDLE,
            r.spec_retry_count() == 0,
            r.spec_frame().len() == 0,
            r.spec_config() == config,
    {
        Secs1LinkControl { config, state: Secs1LinkState::IDLE, retry_count: 0, frame: Vec::new() }
    }

    /// The configuration of the link.
    pub fn config(&self) -> (c: &Secs1TransportConfig)
        ensures
            *c == self.spec_config(),
    {
        &self.config
    }

    /// The current phase.
    pub fn state(&self) -> (s: Secs1LinkState)
        ensures
            s == self.spec_state(),
    {
        self.state
    }

    /// How many T2 retries the current transfer has used.
    pub fn retry_count(&self) -> (n: u8)
        ensures
            n == self.spec_retry_count(),
    {
        self.retry_count
    }

    /// Whether a receiving link still waits for the length byte (under T2) rather than
    /// for further bytes of the block (under T1).
    pub fn awaits_length(&self) -> (r: bool)
        ensures
            r == (self.spec_frame().len() == 0),
    {
        self.frame.len() == 0
    }

    /// Whether `step` takes `event` now: not when it would count a retry past 255,
    /// nor a byte that is no handshake code while a block awaits its acknowledgement
    /// (on both the link gives up with a panic).
    pub fn accepts(&self, event: LinkEvent) -> (r: bool)
        ensures
            r == ((self.spec_event_retries(event) ==> self.spec_retry_count() < 255) && !(
            self.spec_state() == Secs1LinkState::SEND && (event matches LinkEvent::Byte(b)
                && spec_code_from_byte(b) is None))),
    {
        let retries = match event {
            LinkEvent::T2Expired => self.state == Secs1LinkState::LINECONTROL || self.state
                == Secs1LinkState::SEND,
            LinkEvent::Byte(b) => self.state == Secs1LinkState::SEND && match Secs1HandshakeCode::from_byte(b) {
                Some(Secs1HandshakeCode::ACK) => false,
                Some(_) => true,
                None => false,
            },
            _ => false,
        };
        let stray = match event {
            LinkEvent::Byte(b) => self.state == Secs1LinkState::SEND
                && Secs1HandshakeCode::from_byte(b).is_none(),
            _ => false,
        };
        (!retries || self.retry_count < 255) && !stray
    }

    /// Requests to send: enters LINECONTROL with the retry count cleared and gives ENQ
    /// to write.
    fn send_enq(&mut self) -> (c: Secs1HandshakeCode)
        ensures
            final(self).spec_state() == Secs1LinkState::LINECONTROL,
            final(self).spec_retry_count() == 0,
            final(self).spec_frame() == old(self).spec_frame(),
            final(self).config == old(self).config,
            c == Secs1HandshakeCode::ENQ,
    {
        self.state = Secs1LinkState::LINECONTROL;
        self.retry_count = 0;
        Secs1HandshakeCode::ENQ
    }

    /// Accepts a transfer: enters RECEIVE with nothing received and gives EOT to write.
    fn switch_to_receive(&mut self) -> (c: Secs1HandshakeCode)
        ensures
            final(self).spec_state() == Secs1LinkState::RECEIVE,
            final(self).spec_retry_count() == old(self).spec_retry_count(),
            final(self).spec_frame().len() == 0,
            final(self).config == old(self).config,
            c == Secs1HandshakeCode::EOT,
    {
        self.state = Secs1LinkState::RECEIVE;
        self.frame = Vec::new();
        Secs1HandshakeCode::EOT
    }

    /// EOT came back to an ENQ: enters SEND.
    fn switch_to_send(&mut self)
        ensures
            final(self).spec_state() == Secs1LinkState::SEND,
            final(self).spec_retry_count() == old(self).spec_retry_count(),
            final(self).spec_frame() == old(self).spec_frame(),
            final(self).config == old(self).config,
    {
        self.state = Secs1LinkState::SEND;
    }

    /// A T2 retry: back to LINECONTROL with one more retry counted; once the count
    /// passes the limit, the send has failed and the link returns to IDLE with the
    /// count cleared.
    fn handle_linecontrol_retry(&mut self)
        requires
            old(self).retry_count < 255,
        ensures
            old(self).spec_retried(final(self)),
            final(self).config == old(self).config,
    {
        self.state = Secs1LinkState::LINECONTROL;
        self.retry_count = self.retry_count + 1;
        if self.retry_count > self.config.t2_rty {
            self.state = Secs1LinkState::IDLE;
            self.retry_count = 0;
        }
    }

    /// Gives up the block being received: IDLE.
    fn to_idle(&mut self)
        ensures
            final(self).spec_state() == Secs1LinkState::IDLE,
            final(self).spec_retry_count() == old(self).spec_retry_count(),
            final(self).spec_frame() == old(self).spec_frame(),
            final(self).config == old(self).config,
    {
        self.state = Secs1LinkState::IDLE;
    }

    fn step_idle(&mut self, event: LinkEvent) -> (action: LinkAction)
        requires
            old(self).wf(),
            old(self).spec_state() == Secs1LinkState::IDLE,
        ensures
            final(self).wf(),
            final(self).config == old(self).config,
            old(self).spec_idle_step(final(self), event, action),
    {
        match event {
            LinkEvent::QueueChecked(true) => LinkAction::Write(self.send_enq()),
            LinkEvent::Notified => LinkAction::Done,
            LinkEvent::Byte(b) => {
                match Secs1HandshakeCode::from_byte(b) {
                    Some(Secs1HandshakeCode::ENQ) => LinkAction::Write(self.switch_to_receive()),
                    _ => LinkAction::Done,
                }
            },
            LinkEvent::ReaderClosed => LinkAction::Fail(SecsTransportError::RecvFailed),
            _ => LinkAction::Wait,
        }
    }

    fn step_line_control(&mut self, event: LinkEvent) -> (action: LinkAction)
        requires
            old(self).wf(),
            old(self).spec_state() == Secs1LinkState::LINECONTROL,
            old(self).spec_event_retries(event) ==> old(self).spec_retry_count() < 255,
        ensures
            final(self).wf(),
            final(self).config == old(self).config,
            old(self).spec_line_control_step(final(self), event, action),
    {
        match event {
            LinkEvent::T2Expired => {
                self.handle_linecontrol_retry();
                LinkAction::Done
            },
            LinkEvent::Byte(b) => {
                match Secs1HandshakeCode::from_byte(b) {
                    Some(Secs1HandshakeCode::ENQ) => {
                        if self.config.mode == ConnectionMode::Passive {
                            LinkAction::Write(self.switch_to_receive())
                        } else {
                            LinkAction::Wait
                        }
                    },
                    Some(Secs1HandshakeCode::EOT) => {
                        self.switch_to_send();
                        LinkAction::Done
                    },
                    _ => LinkAction::Wait,
                }
            },
            LinkEvent::ReaderClosed => LinkAction::Fail(SecsTransportError::RecvFailed),
            _ => LinkAction::Wait,
        }
    }

    fn step_send(&mut self, event: LinkEvent) -> (action: LinkAction)
        requires
            old(self).wf(),
            old(self).spec_state() == Secs1LinkState::SEND,
            old(self).spec_event_retries(event) ==> old(self).spec_retry_count() < 255,
            !(event matches LinkEvent::Byte(b) && spec_code_from_byte(b) is None),
        ensures
            final(self).wf(),
            final(self).config == old(self).config,
            old(self).spec_send_step(final(self), event, action),
    {
        match event {
            LinkEvent::T2Expired => {
                self.handle_linecontrol_retry();
                LinkAction::Done
            },
            LinkEvent::Byte(b) => {
                match Secs1HandshakeCode::from_byte(b) {
                    Some(Secs1HandshakeCode::ACK) => {
                        self.state = Secs1LinkState::IDLE;
                        LinkAction::PopFront
                    },
                    _ => {
                        self.handle_linecontrol_retry();
                        LinkAction::Done
                    },
                }
            },
            LinkEvent::ReaderClosed => LinkAction::Fail(SecsTransportError::RecvFailed),
            _ => LinkAction::Wait,
        }
    }

    fn step_receive_length(&mut self, event: LinkEvent) -> (action: LinkAction)
        requires
            old(self).wf(),
            old(self).spec_state() == Secs1LinkState::RECEIVE,
            old(self).spec_frame().len() == 0,
        ensures
            final(self).wf(),
            final(self).config == old(self).config,
            old(self).spec_receive_length_step(final(self), event, action),
    {
        match event {
            LinkEvent::T2Expired => {
                self.to_idle();
                LinkAction::NakThenFail(SecsTransportError::Timeout(SecsTimeoutType::T2))
            },
            LinkEvent::Byte(length) => {
                if length < 10 || length > 254 {
                    self.to_idle();
                    LinkAction::DrainThenNak
                } else {
                    self.frame.push(length);
                    assert(self.frame@ =~= seq![length]);
                    LinkAction::Wait
                }
            },
            LinkEvent::ReaderClosed => LinkAction::Fail(SecsTransportError::RecvFailed),
            _ => LinkAction::Wait,
        }
    }

    fn step_receive_byte(&mut self, event: LinkEvent) -> (action: LinkAction)
        requires
            old(self).wf(),
            old(self).spec_state() == Secs1LinkState::RECEIVE,
            old(self).spec_frame().len() > 0,
        ensures
            final(self).wf(),
            final(self).config == old(self).config,
            old(self).spec_receive_byte_step(final(self), event, action),
    {
        match event {
            LinkEvent::T1Expired => {
                self.to_idle();
                LinkAction::NakThenFail(SecsTransportError::Timeout(SecsTimeoutType::T1))
            },
            LinkEvent::Byte(b) => {
                self.frame.push(b);
                let ghost f = self.frame@;
                assert(f == old(self).spec_frame().push(b));
                let length = self.frame[0] as usize;
                if self.frame.len() < length + 3 {
                    assert(spec_frame_progress(f) is Incomplete);
                    return LinkAction::Wait;
                }
                let received = read_frame(self.frame.as_slice());
                self.to_idle();
                match received {
                    Some(block) => LinkAction::Deliver(block),
                    None => LinkAction::DrainThenNak,
                }
            },
            LinkEvent::ReaderClosed => LinkAction::Fail(SecsTransportError::ConnectionClosed),
            _ => LinkAction::Wait,
        }
    }

    /// The frame to write for the block at the front of the send queue: its length
    /// byte, its bytes and its checksum, big endian. `NothingToSend` when the queue is
    /// empty, `BlockInvalid` when the block has more than 254 bytes.
    pub fn frame_for_send(&self, front: Option<&Secs1Block>) -> (res: Result<
        Vec<u8>,
        SecsTransportError,
    >)
        ensures
            front is None ==> res == Err::<Vec<u8>, SecsTransportError>(
                SecsTransportError::NothingToSend,
            ),
            front matches Some(b) ==> (spec_block_bytes(*b).len() > 254 ==> res == Err::<
                Vec<u8>,
                SecsTransportError,
            >(SecsTransportError::BlockInvalid)),
            front matches Some(b) ==> (spec_block_bytes(*b).len() <= 254 ==> (res matches Ok(f)
                && f@ == spec_encode_frame(spec_header_bytes(b.header), b.data@))),
    {
        let item = match front {
            Some(v) => v,
            None => {
                return Err(SecsTransportError::NothingToSend);
            },
        };
        let bytes = item.to_bytes();
        let checksum = item.checksum();
        let length = bytes.len();
        if length < 10 || length > 254 {
            return Err(SecsTransportError::BlockInvalid);
        }
        let mut frame: Vec<u8> = Vec::new();
        frame.push(length as u8);
        let mut i: usize = 0;
        while i < length
            invariant
                i <= length,
                length == bytes@.len(),
                frame@ == seq![length as u8] + bytes@.take(i as int),
            decreases length - i,
        {
            frame.push(bytes[i]);
            i = i + 1;
            assert(frame@ =~= seq![length as u8] + bytes@.take(i as int));
        }
        frame.push((checksum / 256) as u8);
        frame.push((checksum % 256) as u8);
        proof {
            assert(bytes@.take(length as int) =~= bytes@);
            assert(frame@ =~= spec_encode_frame(spec_header_bytes(item.header), item.data@));
        }
        Ok(frame)
    }

    /// Decides what to do after `event`.
    ///
    /// IDLE: a block in the queue starts a send (ENQ, LINECONTROL, retries cleared);
    /// an ENQ from the line starts a reception (EOT, RECEIVE); other bytes and
    /// notifications end the phase; a lost reader fails with `RecvFailed`.
    ///
    /// LINECONTROL: EOT enters SEND; an ENQ makes a passive link give way (EOT,
    /// RECEIVE); other bytes are ignored; T2 counts a retry; a lost reader fails with
    /// `RecvFailed`.
    ///
    /// SEND (the frame has been written): ACK returns to IDLE and takes the block off
    /// the queue; any other handshake code, or T2, counts a retry; a lost reader fails
    /// with `RecvFailed`.
    ///
    /// RECEIVE: while the length byte is awaited, T2 answers NAK and fails with a T2
    /// timeout, a length outside 10..=254 is answered with NAK after the line falls
    /// quiet, and a lost reader fails with `RecvFailed`. Then each byte is added to
    /// the frame; a whole frame with a matching checksum is delivered (and answered
    /// with ACK), one with a wrong checksum is answered with NAK after the line falls
    /// quiet, T1 answers NAK and fails with a T1 timeout, and a lost reader fails with
    /// `ConnectionClosed`.
    ///
    /// Events that a phase does not wait for change nothing.
    pub fn step(&mut self, event: LinkEvent) -> (action: LinkAction)
        requires
            old(self).wf(),
            old(self).spec_event_retries(event) ==> old(self).spec_retry_count() < 255,
            !(old(self).spec_state() == Secs1LinkState::SEND && (event matches LinkEvent::Byte(b)
                && spec_code_from_byte(b) is None)),
        ensures
            final(self).wf(),
            final(self).spec_state() != Secs1LinkState::COMPLETION,
            final(self).spec_retry_count() <= final(self).spec_t2_rty(),
            final(self).spec_config() == old(self).spec_config(),
            old(self).spec_step(final(self), event, action),
            old(self).spec_state() == Secs1LinkState::IDLE ==> old(self).spec_idle_step(
                final(self),
                event,
                action,
            ),
            old(self).spec_state() == Secs1LinkState::LINECONTROL
                ==> old(self).spec_line_control_step(final(self), event, action),
            old(self).spec_state() == Secs1LinkState::SEND ==> old(self).spec_send_step(
                final(self),
                event,
                action,
            ),
            old(self).spec_state() == Secs1LinkState::RECEIVE && old(self).spec_frame().len()
                == 0 ==> old(self).spec_receive_length_step(final(self), event, action),
            old(self).spec_state() == Secs1LinkState::RECEIVE && old(self).spec_frame().len()
                > 0 ==> old(self).spec_receive_byte_step(final(self), event, action),
    {
        match self.state {
            Secs1LinkState::IDLE => self.step_idle(event),
            Secs1LinkState::LINECONTROL => self.step_line_control(event),
            Secs1LinkState::SEND => self.step_send(event),
            Secs1LinkState::RECEIVE => {
                if self.frame.len() == 0 {
                    self.step_receive_length(event)
                } else {
                    self.step_receive_byte(event)
                }
            },
            Secs1LinkState::COMPLETION => LinkAction::Wait,
        }
    }
}

/// Whether the link keeps running after a phase ended with `err`: only a T2 timeout
/// is survived; every other failure stops the link.
pub fn continues_after(err: &SecsTransportError) -> (r: bool)
    ensures
        r == (*err == SecsTransportError::Timeout(SecsTimeoutType::T2)),
{
    match err {
        SecsTransportError::Timeout(SecsTimeoutType::T2) => true,
        _ => false,
    }
}

/// What a sender frames for a block of at most 254 bytes, a receiver reads back byte
/// by byte: every proper prefix of the frame is incomplete, the whole frame is complete
/// with a matching checksum, and the block read has the same bytes as the block sent
/// (the same header and data, when the header fields fit their widths on the wire).
pub proof fn lemma_link_frame_roundtrip(header: Secs1BlockHeader, data: Seq<u8>)
    requires
        data.len() <= 244,
    ensures
        ({
            let f = spec_encode_frame(spec_header_bytes(header), data);
            let payload = spec_frame_payload(f);
            &&& forall|k: int| 1 <= k < f.len() ==> spec_frame_progress(#[trigger] f.take(k))
                is Incomplete
            &&& spec_frame_progress(f) is Complete
            &&& spec_header_bytes(spec_header_from_bytes(payload.take(10))) + payload.skip(10)
                == spec_header_bytes(header) + data
            &&& payload.skip(10) == data
            &&& spec_header_bytes(spec_header_from_bytes(payload.take(10))) == spec_header_bytes(
                header,
            )
            &&& header_fits_wire(header) ==> spec_header_from_bytes(payload.take(10)) == header
                && payload.skip(10) == data
        }),
{
    let hb = spec_header_bytes(header);
    let f = spec_encode_frame(hb, data);
    lemma_codec_roundtrip(hb, data, Seq::<u8>::empty());
    assert(f + Seq::<u8>::empty() =~= f);
    let payload = spec_frame_payload(f);
    assert(payload =~= hb + data);
    assert(payload.take(10) =~= hb);
    assert(payload.skip(10) =~= data);
    assert(f[0] == 10 + data.len());
    assert forall|k: int| 1 <= k < f.len() implies spec_frame_progress(
        #[trigger] f.take(k),
    ) is Incomplete by {
        assert(f.take(k)[0] == f[0]);
    }
    lemma_header_bytes_roundtrip(hb);
    if header_fits_wire(header) {
        lemma_header_fields_roundtrip(header);
    }
}

/// The retry budget of a transfer: starting from LINECONTROL with no retries, a run of
/// T2 retries keeps the link in LINECONTROL, counting each one, for the first `t2_rty`
/// retries, and the next one gives up and returns the link to IDLE.
pub proof fn lemma_retry_budget(run: Seq<Secs1LinkControl>)
    requires
        run.len() >= 1,
        run[0].spec_state() == Secs1LinkState::LINECONTROL,
        run[0].spec_retry_count() == 0,
        forall|i: int| 0 <= i < run.len() - 1 ==> (#[trigger] run[i]).spec_retried(&run[i + 1]),
        forall|i: int|
            0 <= i < run.len() ==> (#[trigger] run[i]).spec_t2_rty() == run[0].spec_t2_rty(),
    ensures
        forall|i: int|
            0 <= i < run.len() && i <= run[0].spec_t2_rty() ==> (#[trigger] run[i]).spec_state()
                == Secs1LinkState::LINECONTROL && run[i].spec_retry_count() == i,
        run.len() > run[0].spec_t2_rty() + 1 ==> run[run[0].spec_t2_rty() + 1].spec_state()
            == Secs1LinkState::IDLE && run[run[0].spec_t2_rty() + 1].spec_retry_count() == 0,
    decreases run.len(),
{
    if run.len() > 1 {
        let shorter = run.drop_last();
        assert forall|i: int| 0 <= i < shorter.len() - 1 implies (
        #[trigger] shorter[i]).spec_retried(&shorter[i + 1]) by {
            assert(shorter[i] == run[i]);
            assert(shorter[i + 1] == run[i + 1]);
        }
        assert forall|i: int| 0 <= i < shorter.len() implies (
        #[trigger] shorter[i]).spec_t2_rty() == shorter[0].spec_t2_rty() by {
            assert(shorter[i] == run[i]);
        }
        lemma_retry_budget(shorter);
        let n = run.len() - 1;
        let rty = run[0].spec_t2_rty();
        assert(shorter[0] == run[0]);
        assert forall|i: int|
            0 <= i < run.len() && i <= rty implies (#[trigger] run[i]).spec_state()
            == Secs1LinkState::LINECONTROL && run[i].spec_retry_count() == i by {
            if i < n {
                assert(shorter[i] == run[i]);
            } else {
                assert(shorter[i - 1] == run[i - 1]);
                assert(run[i - 1].spec_retried(&run[i]));
            }
        }
        if n == rty + 1 {
            assert(run[n - 1].spec_retried(&run[n]));
        }
        if run.len() > rty + 1 && n > rty + 1 {
            assert(shorter[rty + 1] == run[rty + 1]);
        }
    }
}

/// A T2 timeout while the link sends (waiting for EOT in LINECONTROL, or for ACK in
/// SEND) ends the phase and takes the link out of SEND: it counts one retry and goes
/// back to LINECONTROL while the count stays within `t2_rty`, and gives up to IDLE with
/// the count cleared once it passes it.
pub proof fn lemma_t2_expiry_retries(pre: Secs1LinkControl, post: Secs1LinkControl, action: LinkAction)
    requires
        pre.spec_state() == Secs1LinkState::LINECONTROL || pre.spec_state()
            == Secs1LinkState::SEND,
        pre.spec_step(&post, LinkEvent::T2Expired, action),
    ensures
        action == LinkAction::Done,
        post.spec_state() != Secs1LinkState::SEND,
        pre.spec_retry_count() + 1 <= pre.spec_t2_rty() ==> post.spec_state()
            == Secs1LinkState::LINECONTROL && post.spec_retry_count() == pre.spec_retry_count() + 1,
        pre.spec_retry_count() + 1 > pre.spec_t2_rty() ==> post.spec_state()
            == Secs1LinkState::IDLE && post.spec_retry_count() == 0,
{
}

/// The retry budget over steps of the link: a send that has used no retries (in
/// LINECONTROL or SEND) and then meets only T2 timeouts stays in LINECONTROL with `i`
/// retries after the `i`-th timeout, for `i` up to `t2_rty`, and is back in IDLE with
/// no retries after timeout `t2_rty + 1`; every one of these steps ends its phase.
pub proof fn lemma_retry_budget_steps(run: Seq<Secs1LinkControl>, actions: Seq<LinkAction>)
    requires
        run.len() == actions.len() + 1,
        run[0].spec_state() == Secs1LinkState::LINECONTROL || run[0].spec_state()
            == Secs1LinkState::SEND,
        run[0].spec_retry_count() == 0,
        forall|i: int|
            0 <= i < actions.len() ==> (#[trigger] run[i]).spec_step(
                &run[i + 1],
                LinkEvent::T2Expired,
                actions[i],
            ),
    ensures
        forall|i: int|
            1 <= i < run.len() && i <= run[0].spec_t2_rty() ==> (#[trigger] run[i]).spec_state()
                == Secs1LinkState::LINECONTROL && run[i].spec_retry_count() == i,
        run.len() > run[0].spec_t2_rty() + 1 ==> run[run[0].spec_t2_rty() + 1].spec_state()
            == Secs1LinkState::IDLE && run[run[0].spec_t2_rty() + 1].spec_retry_count() == 0,
        forall|i: int|
            0 <= i < actions.len() && i <= run[0].spec_t2_rty() ==> #[trigger] actions[i]
                == LinkAction::Done,
    decreases actions.len(),
{
    if actions.len() > 0 {
        let k = actions.len() - 1;
        lemma_retry_budget_steps(run.drop_last(), actions.drop_last());
        let rty = run[0].spec_t2_rty();
        assert(run.drop_last()[0] == run[0]);
        assert forall|i: int| 0 <= i <= k implies (#[trigger] run[i]).spec_t2_rty() == rty by {
            lemma_retry_config_kept(run, actions, i);
        }
        if k <= rty {
            if k >= 1 {
                assert(run.drop_last()[k] == run[k]);
                assert(run[k].spec_state() == Secs1LinkState::LINECONTROL);
                assert(run[k].spec_retry_count() == k);
            }
            assert(run[k].spec_step(&run[k + 1], LinkEvent::T2Expired, actions[k]));
            lemma_t2_expiry_retries(run[k], run[k + 1], actions[k]);
        }
        assert forall|i: int|
            1 <= i < run.len() && i <= rty implies (#[trigger] run[i]).spec_state()
            == Secs1LinkState::LINECONTROL && run[i].spec_retry_count() == i by {
            if i < run.len() - 1 {
                assert(run.drop_last()[i] == run[i]);
            }
        }
        assert forall|i: int| 0 <= i < actions.len() && i <= rty implies #[trigger] actions[i]
            == LinkAction::Done by {
            if i < k {
                assert(actions.drop_last()[i] == actions[i]);
            }
        }
        if run.len() > rty + 1 && rty + 1 < run.len() - 1 {
            assert(run.drop_last()[rty + 1] == run[rty + 1]);
        }
    }
}

proof fn lemma_retry_config_kept(run: Seq<Secs1LinkControl>, actions: Seq<LinkAction>, i: int)
    requires
        run.len() == actions.len() + 1,
        forall|j: int|
            0 <= j < actions.len() ==> (#[trigger] run[j]).spec_step(
                &run[j + 1],
                LinkEvent::T2Expired,
                actions[j],
            ),
        0 <= i < run.len(),
    ensures
        run[i].spec_config() == run[0].spec_config(),
    decreases i,
{
    if i > 0 {
        lemma_retry_config_kept(run, actions, i - 1);
        assert(run[i - 1].spec_step(&run[i], LinkEvent::T2Expired, actions[i - 1]));
    }
}

/// Receiving a frame, end to end through the steps of the link: a link in RECEIVE that
/// awaits the length byte, fed one by one the bytes a sender frames for a block with at
/// most 244 data bytes, waits after every byte but the last and, on the last, delivers a
/// block with that data and the same header bytes (the same header, when its fields fit
/// the wire), and is back in IDLE.
pub proof fn lemma_receive_frame_steps(
    run: Seq<Secs1LinkControl>,
    actions: Seq<LinkAction>,
    header: Secs1BlockHeader,
    data: Seq<u8>,
)
    requires
        data.len() <= 244,
        run.len() == spec_encode_frame(spec_header_bytes(header), data).len() + 1,
        actions.len() == spec_encode_frame(spec_header_bytes(header), data).len(),
        run[0].spec_state() == Secs1LinkState::RECEIVE,
        run[0].spec_frame().len() == 0,
        forall|i: int|
            0 <= i < actions.len() ==> (#[trigger] run[i]).spec_step(
                &run[i + 1],
                LinkEvent::Byte(spec_encode_frame(spec_header_bytes(header), data)[i]),
                actions[i],
            ),
    ensures
        forall|i: int| 0 <= i < actions.len() - 1 ==> #[trigger] actions[i] == LinkAction::Wait,
        actions.last() matches LinkAction::Deliver(blk) && blk.data@ == data && spec_header_bytes(
            blk.header,
        ) == spec_header_bytes(header) && (header_fits_wire(header) ==> blk.header == header),
        run.last().spec_state() == Secs1LinkState::IDLE,
{
    let f = spec_encode_frame(spec_header_bytes(header), data);
    let n = f.len() as int;
    assert(n == 13 + data.len());
    assert forall|i: int| 0 <= i < actions.len() - 1 implies #[trigger] actions[i]
        == LinkAction::Wait by {
        lemma_receive_prefix(run, actions, header, data, i + 1);
    }
    lemma_receive_prefix(run, actions, header, data, n - 1);
    assert(run[n - 1].spec_step(&run[n], LinkEvent::Byte(f[n - 1]), actions[n - 1]));
    lemma_receive_last(run[n - 1], run[n], actions[n - 1], header, data);
    assert(run.last() == run[n]);
    assert(actions.last() == actions[n - 1]);
}

#[verifier::rlimit(50)]
proof fn lemma_receive_last(
    pre: Secs1LinkControl,
    post: Secs1LinkControl,
    action: LinkAction,
    header: Secs1BlockHeader,
    data: Seq<u8>,
)
    requires
        data.len() <= 244,
        pre.spec_state() == Secs1LinkState::RECEIVE,
        pre.spec_frame() == spec_encode_frame(spec_header_bytes(header), data).take(
            spec_encode_frame(spec_header_bytes(header), data).len() - 1,
        ),
        pre.spec_step(
            &post,
            LinkEvent::Byte(
                spec_encode_frame(spec_header_bytes(header), data).last(),
            ),
            action,
        ),
    ensures
        action matches LinkAction::Deliver(blk) && blk.data@ == data && spec_header_bytes(
            blk.header,
        ) == spec_header_bytes(header) && (header_fits_wire(header) ==> blk.header == header),
        post.spec_state() == Secs1LinkState::IDLE,
{
    let f = spec_encode_frame(spec_header_bytes(header), data);
    let n = f.len() as int;
    let b = f.last();
    lemma_link_frame_roundtrip(header, data);
    assert(n == 13 + data.len());
    assert(pre.spec_frame().len() == n - 1);
    assert(pre.spec_frame().push(b) =~= f);
    let payload = spec_frame_payload(f);
    assert(pre.spec_receive_byte_step(&post, LinkEvent::Byte(b), action));
    assert(spec_frame_progress(f) is Complete);
}

#[verifier::rlimit(30)]
proof fn lemma_receive_prefix(
    run: Seq<Secs1LinkControl>,
    actions: Seq<LinkAction>,
    header: Secs1BlockHeader,
    data: Seq<u8>,
    k: int,
)
    requires
        data.len() <= 244,
        run.len() == spec_encode_frame(spec_header_bytes(header), data).len() + 1,
        actions.len() == spec_encode_frame(spec_header_bytes(header), data).len(),
        run[0].spec_state() == Secs1LinkState::RECEIVE,
        run[0].spec_frame().len() == 0,
        forall|i: int|
            0 <= i < actions.len() ==> (#[trigger] run[i]).spec_step(
                &run[i + 1],
                LinkEvent::Byte(spec_encode_frame(spec_header_bytes(header), data)[i]),
                actions[i],
            ),
        1 <= k < spec_encode_frame(spec_header_bytes(header), data).len(),
    ensures
        run[k].spec_state() == Secs1LinkState::RECEIVE,
        run[k].spec_frame() == spec_encode_frame(spec_header_bytes(header), data).take(k),
        actions[k - 1] == LinkAction::Wait,
    decreases k,
{
    let f = spec_encode_frame(spec_header_bytes(header), data);
    lemma_link_frame_roundtrip(header, data);
    assert(f[0] == 10 + data.len());
    assert(run[k - 1].spec_step(&run[k], LinkEvent::Byte(f[k - 1]), actions[k - 1]));
    if k == 1 {
        assert(f.take(1) =~= seq![f[0]]);
    } else {
        lemma_receive_prefix(run, actions, header, data, k - 1);
        assert(f.take(k - 1).push(f[k - 1]) =~= f.take(k));
        assert(spec_frame_progress(f.take(k)) is Incomplete);
    }
}

/// The handshake of the block transfer, over the steps of the link, with the codes as
/// bytes (ENQ 0x05, EOT 0x04, ACK 0x06, NAK 0x15): an idle link with a block to send
/// writes ENQ and waits in LINECONTROL with no retries; an idle link answers ENQ with
/// EOT and awaits a length byte; EOT in LINECONTROL starts SEND; on ENQ in LINECONTROL a
/// passive link gives way (EOT, RECEIVE) and an active one keeps waiting; ACK in SEND
/// ends the transfer (the block leaves the queue, IDLE); NAK in SEND takes the link back
/// out of SEND with a retry counted.
pub proof fn lemma_handshake(pre: Secs1LinkControl, post: Secs1LinkControl, event: LinkEvent, action: LinkAction)
    requires
        pre.spec_step(&post, event, action),
    ensures
        pre.spec_state() == Secs1LinkState::IDLE && event == LinkEvent::QueueChecked(true) ==> (
        action == LinkAction::Write(Secs1HandshakeCode::ENQ) && spec_code_byte(
            Secs1HandshakeCode::ENQ,
        ) == 0x05 && post.spec_state() == Secs1LinkState::LINECONTROL && post.spec_retry_count()
            == 0),
        pre.spec_state() == Secs1LinkState::IDLE && event == LinkEvent::Byte(0x05) ==> (action
            == LinkAction::Write(Secs1HandshakeCode::EOT) && spec_code_byte(Secs1HandshakeCode::EOT)
            == 0x04 && post.spec_state() == Secs1LinkState::RECEIVE && post.spec_frame().len()
            == 0),
        pre.spec_state() == Secs1LinkState::LINECONTROL && event == LinkEvent::Byte(0x04) ==> (
        post.spec_state() == Secs1LinkState::SEND && action == LinkAction::Done),
        pre.spec_state() == Secs1LinkState::LINECONTROL && event == LinkEvent::Byte(0x05)
            && pre.spec_mode() == ConnectionMode::Passive ==> (action == LinkAction::Write(
            Secs1HandshakeCode::EOT,
        ) && post.spec_state() == Secs1LinkState::RECEIVE && post.spec_frame().len() == 0),
        pre.spec_state() == Secs1LinkState::LINECONTROL && event == LinkEvent::Byte(0x05)
            && pre.spec_mode() == ConnectionMode::Active ==> (action == LinkAction::Wait
            && post.spec_state() == Secs1LinkState::LINECONTROL),
        pre.spec_state() == Secs1LinkState::SEND && event == LinkEvent::Byte(0x06) ==> (action
            == LinkAction::PopFront && post.spec_state() == Secs1LinkState::IDLE),
        pre.spec_state() == Secs1LinkState::SEND && event == LinkEvent::Byte(0x15) ==> (action
            == LinkAction::Done && post.spec_state() != Secs1LinkState::SEND && (
        pre.spec_retry_count() + 1 <= pre.spec_t2_rty() ==> post.spec_retry_count()
            == pre.spec_retry_count() + 1)),
{
}

/// A receiving link that awaits the length byte takes any length from 10 to 254 (a
/// block of 10 header bytes and up to 244 data bytes) and waits for the rest; any other
/// length is refused with NAK once the line falls quiet, and the link is IDLE.
pub proof fn lemma_length_byte(pre: Secs1LinkControl, post: Secs1LinkControl, b: u8, action: LinkAction)
    requires
        pre.spec_state() == Secs1LinkState::RECEIVE,
        pre.spec_frame().len() == 0,
        pre.spec_step(&post, LinkEvent::Byte(b), action),
    ensures
        10 <= b <= 254 ==> action == LinkAction::Wait && post.spec_state()
            == Secs1LinkState::RECEIVE && post.spec_frame() == seq![b],
        (b < 10 || b > 254) ==> action == LinkAction::DrainThenNak && post.spec_state()
            == Secs1LinkState::IDLE,
{
}

} // verus!
