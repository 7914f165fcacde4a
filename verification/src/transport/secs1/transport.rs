use vstd::prelude::*;

use crate::transport::error::{SecsTimeoutType, SecsTransportError};
use crate::transport::secs1::block::{Secs1Block, Secs1BlockHeader};
use crate::transport::secs1::config::{DeviceId, Secs1TransportConfig};

verus! {

/// The transaction in progress.
pub enum TransactionState {
    Idle,
    /// A message is being received (under T4): `expected_header` is the header of the
    /// block received last, which the next block must continue; `blocks` is the data
    /// received so far.
    Receiving { expected_header: Secs1BlockHeader, blocks: Vec<u8> },
    /// A primary message was sent; its reply is awaited (under T3): `expected_header`
    /// is the header the first block of the reply carries.
    WaitingForReply { expected_header: Secs1BlockHeader },
}

impl TransactionState {
    /// Starts receiving a message with its first block: the block's header is kept as
    /// the header of the block received last, and its data is what has been received.
    pub fn recv_start(&mut self, block: Secs1Block)
        ensures
            *final(self) matches TransactionState::Receiving { expected_header, blocks }
                && expected_header == block.header && blocks@ == block.data@,
    {
        *self = TransactionState::Receiving { expected_header: block.header, blocks: block.data };
    }

    /// Adds a block to the message being received: its header becomes the header of the
    /// block received last and its data is appended. Any other state is left as it is.
    pub fn recv_next(&mut self, block: Secs1Block)
        ensures
            *old(self) matches TransactionState::Receiving { blocks: old_blocks, .. } ==> (
            *final(self) matches TransactionState::Receiving { expected_header, blocks }
                && expected_header == block.header && blocks@ == old_blocks@ + block.data@),
            !(*old(self) is Receiving) ==> *final(self) == *old(self),
    {
        if let TransactionState::Receiving { expected_header, blocks } = self {
            *expected_header = block.header;
            let mut i: usize = 0;
            let ghost start = blocks@;
            while i < block.data.len()
                invariant
                    i <= block.data.len(),
                    blocks@ == start + block.data@.take(i as int),
                decreases block.data.len() - i,
            {
                blocks.push(block.data[i]);
                i = i + 1;
                assert(blocks@ =~= start + block.data@.take(i as int));
            }
            assert(block.data@.take(i as int) =~= block.data@);
        }
    }

    /// Whether the message being received is complete: its last block had the E bit.
    pub fn is_complete(&self) -> (r: bool)
        ensures
            r == (self matches TransactionState::Receiving { expected_header, .. }
                && expected_header.ebit),
    {
        match self {
            TransactionState::Receiving { expected_header, .. } => expected_header.is_end(),
            _ => false,
        }
    }
}

/// Whether a block with header `next` continues the message whose block received last
/// had header `prev`: the same R bit, device id, W bit, stream, function and system
/// bytes, and the next block number.
pub open spec fn spec_continues(prev: Secs1BlockHeader, next: Secs1BlockHeader) -> bool {
    &&& next.rbit == prev.rbit
    &&& next.device_id == prev.device_id
    &&& next.wbit == prev.wbit
    &&& next.stream == prev.stream
    &&& next.function == prev.function
    &&& next.system_bytes == prev.system_bytes
    &&& next.block_no == prev.block_no + 1
}

/// Whether a block with `header` opens a primary message: an odd function, and block
/// number 1, or 0 on a block that is also the last.
pub open spec fn spec_opens_primary(header: Secs1BlockHeader) -> bool {
    header.function % 2 == 1 && (header.block_no == 1 || (header.block_no == 0 && header.ebit))
}

/// Whether `next` continues the message whose block received last had header `prev`.
pub fn continues(prev: &Secs1BlockHeader, next: &Secs1BlockHeader) -> (r: bool)
    ensures
        r == spec_continues(*prev, *next),
{
    next.rbit == prev.rbit && next.device_id == prev.device_id && next.wbit == prev.wbit
        && next.stream == prev.stream && next.function == prev.function && next.system_bytes
        == prev.system_bytes && prev.block_no < u16::MAX && next.block_no == prev.block_no + 1
}

/// The SECS-I message protocol: assembles received blocks into messages. The blocks
/// come from the link, and the T4 timer runs, at the caller; this holds the decisions.
pub struct Secs1Transport {
    secs_config: Secs1TransportConfig,
    /// Header of the block received last, against duplicates.
    last_header: Option<Secs1BlockHeader>,
    /// The transaction in progress.
    state: TransactionState,
    /// Whether the reply timer is armed.
    t3_armed: bool,
}

impl Secs1Transport {
    /// The transaction in progress.
    pub closed spec fn spec_state(&self) -> TransactionState {
        self.state
    }

    /// The header of the block received last, if any.
    pub closed spec fn spec_last_header(&self) -> Option<Secs1BlockHeader> {
        self.last_header
    }

    /// The configuration of the transport.
    pub closed spec fn spec_config(&self) -> Secs1TransportConfig {
        self.secs_config
    }

    /// The device the transport talks to.
    pub open spec fn spec_device_id(&self) -> DeviceId {
        self.spec_config().device_id
    }

    /// Whether the reply timer is armed.
    pub closed spec fn spec_t3_armed(&self) -> bool {
        self.t3_armed
    }

    /// Whether a block with `header` is the one the transaction expects next: while
    /// receiving, one that continues the block received last; while awaiting a reply,
    /// the reply's first block.
    pub open spec fn spec_is_expected(&self, header: Secs1BlockHeader) -> bool {
        match self.spec_state() {
            TransactionState::Receiving { expected_header, .. } => spec_continues(
                expected_header,
                header,
            ),
            TransactionState::WaitingForReply { expected_header } => expected_header == header,
            TransactionState::Idle => false,
        }
    }

    /// The data received so far of the message in progress.
    pub open spec fn spec_received(&self) -> Seq<u8> {
        match self.spec_state() {
            TransactionState::Receiving { blocks, .. } => blocks@,
            _ => Seq::<u8>::empty(),
        }
    }

    /// One block taken by `recv_block`: `post` and `res` are what it leaves and returns.
    /// A block from another device drops the transaction and fails with
    /// `UnknownDeviceId`. A block with the header of the block received last is
    /// discarded. Any other block becomes the block received last: when it is neither
    /// expected nor opens a primary message, the transaction is dropped with
    /// `BlockInvalid`; otherwise it starts (or, when expected, continues) the message, and
    /// with the E bit the message is returned and the transaction goes back to Idle.
    pub open spec fn spec_recv_step(
        &self,
        block: Secs1Block,
        post: &Self,
        res: Result<Option<Vec<u8>>, SecsTransportError>,
    ) -> bool {
        let h = block.header;
        let fresh = h.device_id == self.spec_device_id() && self.spec_last_header() != Some(h);
        let expected = self.spec_is_expected(h);
        let accepted = expected || spec_opens_primary(h);
        let received = if expected {
            self.spec_received() + block.data@
        } else {
            block.data@
        };
        &&& post.spec_config() == self.spec_config()
        &&& h.device_id != self.spec_device_id() ==> {
            &&& res == Err::<Option<Vec<u8>>, SecsTransportError>(
                SecsTransportError::UnknownDeviceId(h.device_id),
            )
            &&& post.spec_state() is Idle
            &&& !post.spec_t3_armed()
            &&& post.spec_last_header() == self.spec_last_header()
        }
        &&& h.device_id == self.spec_device_id() && self.spec_last_header() == Some(h) ==> {
            &&& res == Ok::<Option<Vec<u8>>, SecsTransportError>(None)
            &&& post.spec_state() == self.spec_state()
            &&& post.spec_t3_armed() == self.spec_t3_armed()
            &&& post.spec_last_header() == self.spec_last_header()
        }
        &&& fresh ==> post.spec_last_header() == Some(h)
        &&& fresh && !accepted ==> {
            &&& res == Err::<Option<Vec<u8>>, SecsTransportError>(
                SecsTransportError::BlockInvalid,
            )
            &&& post.spec_state() is Idle
            &&& !post.spec_t3_armed()
        }
        &&& fresh && accepted && h.ebit ==> {
            &&& res matches Ok(Some(m)) && m@ == received
            &&& post.spec_state() is Idle
            &&& !post.spec_t3_armed()
        }
        &&& fresh && accepted && !h.ebit ==> {
            &&& res == Ok::<Option<Vec<u8>>, SecsTransportError>(None)
            &&& post.spec_state() matches TransactionState::Receiving { expected_header, blocks }
                && expected_header == h && blocks@ == received
            &&& post.spec_t3_armed() == (self.spec_t3_armed() && !(expected
                && self.spec_state() is WaitingForReply))
        }
    }

    /// A transport with no transaction in progress and no block received; it always
    /// succeeds.
    pub fn new(secs_config: Secs1TransportConfig) -> (res: Result<Self, SecsTransportError>)
        ensures
            res matches Ok(t) && t.spec_state() is Idle && t.spec_last_header() is None
                && !t.spec_t3_armed() && t.spec_config() == secs_config,
    {
        Ok(Self {
            secs_config,
            last_header: None,
            state: TransactionState::Idle,
            t3_armed: false,
        })
    }

    /// The transaction in progress.
    pub fn state(&self) -> (s: &TransactionState)
        ensures
            *s == self.spec_state(),
    {
        &self.state
    }

    /// Whether the reply timer is armed.
    pub fn t3_armed(&self) -> (r: bool)
        ensures
            r == self.spec_t3_armed(),
    {
        self.t3_armed
    }

    /// Whether `device_id` is the configured device.
    fn is_known_device(&self, device_id: &DeviceId) -> (r: bool)
        ensures
            r == (*device_id == self.spec_device_id()),
    {
        self.secs_config.device_id == *device_id
    }

    /// Whether `header` is the header of the block received last.
    fn is_duplicate(&self, header: &Secs1BlockHeader) -> (r: bool)
        ensures
            r == (self.spec_last_header() == Some(*header)),
    {
        if let Some(last) = &self.last_header {
            return *last == *header;
        }
        return false;
    }

    /// Whether `header` is the one the transaction expects next.
    fn is_expected(&self, header: &Secs1BlockHeader) -> (r: bool)
        ensures
            r == self.spec_is_expected(*header),
    {
        match &self.state {
            TransactionState::Receiving { expected_header, .. } => continues(
                expected_header,
                header,
            ),
            TransactionState::WaitingForReply { expected_header } => *expected_header == *header,
            _ => false,
        }
    }

    /// Whether `header` opens a primary message.
    fn is_primary_first_block(&self, header: &Secs1BlockHeader) -> (r: bool)
        ensures
            r == spec_opens_primary(*header),
    {
        header.is_primary() && header.is_first_block()
    }

    /// Drops the transaction in progress and disarms the reply timer.
    fn reset_to_idle(&mut self)
        ensures
            final(self).spec_state() is Idle,
            !final(self).spec_t3_armed(),
            final(self).spec_last_header() == old(self).spec_last_header(),
            final(self).spec_config() == old(self).spec_config(),
    {
        self.t3_armed = false;
        self.state = TransactionState::Idle;
    }

    /// Drops the transaction in progress and fails with `err`.
    fn fail_with<T>(&mut self, err: SecsTransportError) -> (res: Result<T, SecsTransportError>)
        ensures
            res == Err::<T, SecsTransportError>(err),
            final(self).spec_state() is Idle,
            !final(self).spec_t3_armed(),
            final(self).spec_last_header() == old(self).spec_last_header(),
            final(self).spec_config() == old(self).spec_config(),
    {
        self.reset_to_idle();
        Err(err)
    }

    /// Whether the next block is awaited under the T4 timer: while a message is being
    /// received.
    pub fn t4_armed(&self) -> (r: bool)
        ensures
            r == (self.spec_state() is Receiving),
    {
        match &self.state {
            TransactionState::Receiving { .. } => true,
            _ => false,
        }
    }

    /// T4 expired while waiting for a block: the transaction is dropped and the receive
    /// fails with a T4 timeout.
    pub fn t4_expired(&mut self) -> (err: SecsTransportError)
        ensures
            err == SecsTransportError::Timeout(SecsTimeoutType::T4),
            final(self).spec_state() is Idle,
            !final(self).spec_t3_armed(),
            final(self).spec_last_header() == old(self).spec_last_header(),
            final(self).spec_config() == old(self).spec_config(),
    {
        match self.fail_with::<()>(SecsTransportError::Timeout(SecsTimeoutType::T4)) {
            Err(e) => e,
            Ok(_) => SecsTransportError::Timeout(SecsTimeoutType::T4),
        }
    }

    /// Ends the message in progress: its data, with the transaction back at Idle.
    fn take_message(&mut self) -> (m: Vec<u8>)
        ensures
            m@ == old(self).spec_received(),
            final(self).spec_state() is Idle,
            !final(self).spec_t3_armed(),
            final(self).spec_last_header() == old(self).spec_last_header(),
            final(self).spec_config() == old(self).spec_config(),
    {
        let mut st = TransactionState::Idle;
        std::mem::swap(&mut st, &mut self.state);
        self.reset_to_idle();
        match st {
            TransactionState::Receiving { blocks, .. } => blocks,
            _ => Vec::new(),
        }
    }

    /// Takes a block that the link received.
    ///
    /// A block from another device drops the transaction and fails with
    /// `UnknownDeviceId`. A block with the header of the block received last is a
    /// duplicate and is discarded. Any other block is recorded as the block received
    /// last. When it is not the expected one it must open a primary message, which
    /// starts a new reception; otherwise the transaction is dropped and the receive
    /// fails with `BlockInvalid`. The expected block continues the reception (or, when a
    /// reply was awaited, disarms T3 and starts receiving it). A block with the E bit
    /// completes the message: its bytes are returned and the transaction is back at
    /// Idle. `Ok(None)`: wait for the next block.
    pub fn recv_block(&mut self, block: Secs1Block) -> (res: Result<
        Option<Vec<u8>>,
        SecsTransportError,
    >)
        ensures
            old(self).spec_recv_step(block, final(self), res),
    {
        let h = block.header;
        if !self.is_known_device(&h.device_id) {
            return self.fail_with(SecsTransportError::UnknownDeviceId(h.device_id));
        }
        if self.is_duplicate(&h) {
            return Ok(None);
        }
        self.last_header = Some(h);
        if !self.is_expected(&h) {
            if !self.is_primary_first_block(&h) {
                return self.fail_with(SecsTransportError::BlockInvalid);
            }
            self.state.recv_start(block);
        } else if self.t4_armed() {
            self.state.recv_next(block);
        } else {
            self.t3_armed = false;
            self.state.recv_start(block);
        }
        if self.state.is_complete() {
            return Ok(Some(self.take_message()));
        }
        Ok(None)
    }
}

/// The data of a sequence of blocks, one after the other.
pub open spec fn spec_concat_data(blocks: Seq<Secs1Block>) -> Seq<u8>
    decreases blocks.len(),
{
    if blocks.len() == 0 {
        Seq::<u8>::empty()
    } else {
        spec_concat_data(blocks.drop_last()) + blocks.last().data@
    }
}

/// Whether `blocks` make one message for `device`: the first opens a primary message,
/// each next one continues the one before, and only the last has the E bit.
pub open spec fn spec_is_message(blocks: Seq<Secs1Block>, device: DeviceId) -> bool {
    &&& blocks.len() >= 1
    &&& forall|i: int| 0 <= i < blocks.len() ==> (#[trigger] blocks[i]).header.device_id == device
    &&& spec_opens_primary(blocks[0].header)
    &&& forall|i: int|
        1 <= i < blocks.len() ==> spec_continues(blocks[i - 1].header, #[trigger] blocks[i].header)
    &&& forall|i: int| 0 <= i < blocks.len() ==> (#[trigger] blocks[i]).header.ebit == (i
        == blocks.len() - 1)
}

/// Message assembly: an idle transport that takes the blocks of one message, one after
/// the other, waits after every block but the last, and after the last returns the data
/// of all the blocks in order and is idle again. (The first block must not repeat the
/// block received last, which would be discarded as a duplicate.)
pub proof fn lemma_message_assembly(
    ts: Seq<Secs1Transport>,
    blocks: Seq<Secs1Block>,
    results: Seq<Result<Option<Vec<u8>>, SecsTransportError>>,
)
    requires
        ts.len() == blocks.len() + 1,
        results.len() == blocks.len(),
        blocks.len() >= 1,
        ts[0].spec_state() is Idle,
        ts[0].spec_last_header() != Some(blocks[0].header),
        spec_is_message(blocks, ts[0].spec_device_id()),
        forall|i: int|
            0 <= i < blocks.len() ==> (#[trigger] ts[i]).spec_recv_step(
                blocks[i],
                &ts[i + 1],
                results[i],
            ),
    ensures
        forall|i: int|
            0 <= i < blocks.len() - 1 ==> #[trigger] results[i] == Ok::<
                Option<Vec<u8>>,
                SecsTransportError,
            >(None),
        results[blocks.len() - 1] matches Ok(Some(m)) && m@ == spec_concat_data(blocks),
        ts[blocks.len() as int].spec_state() is Idle,
{
    let n = blocks.len() as int;
    let dev = ts[0].spec_device_id();
    // After k blocks (k < n) the message is in progress with the first k blocks' data.
    assert forall|k: int| 1 <= k < n implies {
        &&& (#[trigger] ts[k]).spec_state() matches TransactionState::Receiving {
            expected_header,
            ..
        } && expected_header == blocks[k - 1].header
        &&& ts[k].spec_received() == spec_concat_data(blocks.take(k))
        &&& ts[k].spec_last_header() == Some(blocks[k - 1].header)
        &&& ts[k].spec_device_id() == dev
        &&& results[k - 1] == Ok::<Option<Vec<u8>>, SecsTransportError>(None)
    } by {
        lemma_assembly_prefix(ts, blocks, results, k);
    }
    let last = blocks[n - 1];
    assert(ts[n - 1].spec_recv_step(blocks[n - 1], &ts[n], results[n - 1]));
    assert(blocks.take(n) =~= blocks);
    assert(blocks.take(n).drop_last() =~= blocks.take(n - 1));
    if n == 1 {
        assert(blocks.drop_last() =~= Seq::<Secs1Block>::empty());
        assert(spec_concat_data(blocks.drop_last()) == Seq::<u8>::empty());
        assert(spec_concat_data(blocks) =~= blocks[0].data@);
    } else {
        assert(ts[n - 1].spec_last_header() == Some(blocks[n - 2].header));
        assert(spec_continues(blocks[n - 2].header, blocks[n - 1].header));
    }
    assert forall|i: int| 0 <= i < n - 1 implies #[trigger] results[i] == Ok::<
        Option<Vec<u8>>,
        SecsTransportError,
    >(None) by {
        lemma_assembly_prefix(ts, blocks, results, i + 1);
    }
}

proof fn lemma_assembly_prefix(
    ts: Seq<Secs1Transport>,
    blocks: Seq<Secs1Block>,
    results: Seq<Result<Option<Vec<u8>>, SecsTransportError>>,
    k: int,
)
    requires
        ts.len() == blocks.len() + 1,
        results.len() == blocks.len(),
        blocks.len() >= 1,
        ts[0].spec_state() is Idle,
        ts[0].spec_last_header() != Some(blocks[0].header),
        spec_is_message(blocks, ts[0].spec_device_id()),
        forall|i: int|
            0 <= i < blocks.len() ==> (#[trigger] ts[i]).spec_recv_step(
                blocks[i],
                &ts[i + 1],
                results[i],
            ),
        1 <= k < blocks.len(),
    ensures
        ts[k].spec_state() matches TransactionState::Receiving { expected_header, .. }
            && expected_header == blocks[k - 1].header,
        ts[k].spec_received() == spec_concat_data(blocks.take(k)),
        ts[k].spec_last_header() == Some(blocks[k - 1].header),
        ts[k].spec_device_id() == ts[0].spec_device_id(),
        results[k - 1] == Ok::<Option<Vec<u8>>, SecsTransportError>(None),
    decreases k,
{
    let b = blocks[k - 1];
    assert(ts[k - 1].spec_recv_step(blocks[k - 1], &ts[k], results[k - 1]));
    assert(b.header.device_id == ts[0].spec_device_id());
    assert(!b.header.ebit);
    assert(blocks.take(k).drop_last() =~= blocks.take(k - 1));
    if k == 1 {
        let t1 = blocks.take(1);
        assert(t1.drop_last() =~= Seq::<Secs1Block>::empty());
        assert(t1.last() == b);
        assert(spec_concat_data(t1.drop_last()) == Seq::<u8>::empty());
        assert(spec_concat_data(t1) =~= b.data@);
    } else {
        lemma_assembly_prefix(ts, blocks, results, k - 1);
        assert(spec_continues(blocks[k - 2].header, b.header));
        assert(ts[k - 1].spec_last_header() != Some(b.header));
    }
}

/// A resent block is discarded: once a block from the configured device has been taken,
/// taking the same block again returns `Ok(None)` and leaves the transaction as it was.
pub proof fn lemma_resend_discarded(
    t0: Secs1Transport,
    b: Secs1Block,
    t1: Secs1Transport,
    r1: Result<Option<Vec<u8>>, SecsTransportError>,
    t2: Secs1Transport,
    r2: Result<Option<Vec<u8>>, SecsTransportError>,
)
    requires
        b.header.device_id == t0.spec_device_id(),
        t0.spec_recv_step(b, &t1, r1),
        t1.spec_recv_step(b, &t2, r2),
    ensures
        r2 == Ok::<Option<Vec<u8>>, SecsTransportError>(None),
        t2.spec_state() == t1.spec_state(),
        t2.spec_t3_armed() == t1.spec_t3_armed(),
{
}

/// `t` with block number `no` and end bit `ebit`.
pub open spec fn spec_with_block(t: Secs1BlockHeader, no: int, ebit: bool) -> Secs1BlockHeader {
    Secs1BlockHeader {
        rbit: t.rbit,
        device_id: t.device_id,
        wbit: t.wbit,
        stream: t.stream,
        function: t.function,
        ebit: ebit,
        block_no: no as u16,
        system_bytes: t.system_bytes,
    }
}

/// Whether `blocks` are `data` split into blocks with the header `template`: blocks
/// numbered from 1, the E bit on the last only, 244 data bytes in every block but the
/// last, which holds the rest (at least one byte, unless `data` is empty).
pub open spec fn spec_is_split(
    blocks: Seq<Secs1Block>,
    template: Secs1BlockHeader,
    data: Seq<u8>,
) -> bool {
    &&& 1 <= blocks.len() <= 32767
    &&& forall|i: int|
        0 <= i < blocks.len() ==> (#[trigger] blocks[i]).header == spec_with_block(
            template,
            i + 1,
            i == blocks.len() - 1,
        )
    &&& forall|i: int| 0 <= i < blocks.len() - 1 ==> (#[trigger] blocks[i]).data@.len() == 244
    &&& blocks.last().data@.len() <= 244
    &&& data.len() > 0 ==> blocks.last().data@.len() > 0
    &&& spec_concat_data(blocks) == data
}

/// Splits the data of a message into blocks with the header `template`: blocks numbered
/// from 1, the E bit on the last only, 244 data bytes in every block but the last. The
/// block numbers must fit 15 bits, so `data` holds at most 244 * 32767 bytes.
pub fn split_into_blocks(template: &Secs1BlockHeader, data: &[u8]) -> (blocks: Vec<Secs1Block>)
    requires
        data@.len() <= 244 * 32767,
    ensures
        spec_is_split(blocks@, *template, data@),
        forall|i: int|
            0 <= i < blocks@.len() ==> {
                let h = (#[trigger] blocks@[i]).header;
                &&& h.rbit == template.rbit
                &&& h.device_id == template.device_id
                &&& h.wbit == template.wbit
                &&& h.stream == template.stream
                &&& h.function == template.function
                &&& h.system_bytes == template.system_bytes
                &&& h.block_no == i + 1
                &&& h.ebit == (i == blocks@.len() - 1)
            },
{
    let mut blocks: Vec<Secs1Block> = Vec::new();
    let mut pos: usize = 0;
    let mut no: u16 = 1;
    loop
        invariant_except_break
            pos <= data@.len(),
            pos == 244 * blocks@.len(),
            no == blocks@.len() + 1,
            blocks@.len() > 0 ==> pos < data@.len(),
            data@.len() <= 244 * 32767,
            forall|i: int|
                0 <= i < blocks@.len() ==> (#[trigger] blocks@[i]).header == spec_with_block(
                    *template,
                    i + 1,
                    false,
                ),
            forall|i: int| 0 <= i < blocks@.len() ==> (#[trigger] blocks@[i]).data@.len() == 244,
            spec_concat_data(blocks@) == data@.take(pos as int),
        ensures
            spec_is_split(blocks@, *template, data@),
        decreases data@.len() - pos,
    {
        let end = if data.len() - pos > 244 {
            pos + 244
        } else {
            data.len()
        };
        let last = end == data.len();
        let chunk = vstd::slice::slice_to_vec(vstd::slice::slice_subrange(data, pos, end));
        let header = Secs1BlockHeader {
            rbit: template.rbit,
            device_id: template.device_id,
            wbit: template.wbit,
            stream: template.stream,
            function: template.function,
            ebit: last,
            block_no: no,
            system_bytes: template.system_bytes,
        };
        let ghost before = blocks@;
        blocks.push(Secs1Block { header, data: chunk });
        proof {
            assert(blocks@.drop_last() == before);
            assert(data@.take(end as int) =~= data@.take(pos as int) + data@.subrange(
                pos as int,
                end as int,
            ));
        }
        if last {
            proof {
                assert(data@.take(end as int) =~= data@);
            }
            break;
        }
        pos = end;
        no = no + 1;
    }
    proof {
        lemma_split_carries_template(blocks@, *template, data@);
    }
    blocks
}

/// The blocks that `data` splits into, under a header that opens a primary message,
/// make one message whose data is `data`: taken one after the other by an idle
/// transport (see `lemma_message_assembly`), they give back `data`.
pub proof fn lemma_split_is_message(
    blocks: Seq<Secs1Block>,
    template: Secs1BlockHeader,
    data: Seq<u8>,
)
    requires
        spec_is_split(blocks, template, data),
        template.function % 2 == 1,
    ensures
        spec_is_message(blocks, template.device_id),
        spec_concat_data(blocks) == data,
{
    assert(blocks[0].header == spec_with_block(template, 1, 0 == blocks.len() - 1));
    assert forall|i: int| 1 <= i < blocks.len() implies spec_continues(
        blocks[i - 1].header,
        #[trigger] blocks[i].header,
    ) by {
        assert(blocks[i - 1].header == spec_with_block(template, i, i - 1 == blocks.len() - 1));
        assert(blocks[i].header == spec_with_block(template, i + 1, i == blocks.len() - 1));
    }
    assert forall|i: int| 0 <= i < blocks.len() implies (#[trigger] blocks[i]).header.device_id
        == template.device_id by {
        assert(blocks[i].header == spec_with_block(template, i + 1, i == blocks.len() - 1));
    }
    assert forall|i: int| 0 <= i < blocks.len() implies (#[trigger] blocks[i]).header.ebit == (i
        == blocks.len() - 1) by {
        assert(blocks[i].header == spec_with_block(template, i + 1, i == blocks.len() - 1));
    }
}

/// Every block of a split carries the template's R bit, device id, W bit, stream,
/// function and system bytes; block `i` (from 0) has number `i + 1`, and only the last
/// has the E bit.
pub proof fn lemma_split_carries_template(
    blocks: Seq<Secs1Block>,
    template: Secs1BlockHeader,
    data: Seq<u8>,
)
    requires
        spec_is_split(blocks, template, data),
    ensures
        forall|i: int|
            0 <= i < blocks.len() ==> {
                let h = (#[trigger] blocks[i]).header;
                &&& h.rbit == template.rbit
                &&& h.device_id == template.device_id
                &&& h.wbit == template.wbit
                &&& h.stream == template.stream
                &&& h.function == template.function
                &&& h.system_bytes == template.system_bytes
                &&& h.block_no == i + 1
                &&& h.ebit == (i == blocks.len() - 1)
            },
{
    assert forall|i: int| 0 <= i < blocks.len() implies {
        let h = (#[trigger] blocks[i]).header;
        &&& h.rbit == template.rbit
        &&& h.device_id == template.device_id
        &&& h.wbit == template.wbit
        &&& h.stream == template.stream
        &&& h.function == template.function
        &&& h.system_bytes == template.system_bytes
        &&& h.block_no == i + 1
        &&& h.ebit == (i == blocks.len() - 1)
    } by {
        assert(blocks[i].header == spec_with_block(template, i + 1, i == blocks.len() - 1));
    }
}

/// While a message is being received, a block from the configured device that is not a
/// resend of the block received last, does not open a primary message, and does not
/// continue the previous block (another R bit, W bit, stream, function or system bytes,
/// or a block number other than the next) is refused with `BlockInvalid`, and the
/// transaction is dropped.
pub proof fn lemma_out_of_sequence_refused(
    pre: Secs1Transport,
    block: Secs1Block,
    post: Secs1Transport,
    res: Result<Option<Vec<u8>>, SecsTransportError>,
)
    requires
        pre.spec_state() is Receiving,
        block.header.device_id == pre.spec_device_id(),
        pre.spec_last_header() != Some(block.header),
        !(block.header.function % 2 == 1 && (block.header.block_no == 1 || (
        block.header.block_no == 0 && block.header.ebit))),
        ({
            let prev = pre.spec_state()->Receiving_expected_header;
            let h = block.header;
            h.rbit != prev.rbit || h.wbit != prev.wbit || h.stream != prev.stream || h.function
                != prev.function || h.system_bytes != prev.system_bytes || h.block_no
                != prev.block_no + 1
        }),
        pre.spec_recv_step(block, &post, res),
    ensures
        res == Err::<Option<Vec<u8>>, SecsTransportError>(SecsTransportError::BlockInvalid),
        post.spec_state() is Idle,
{
}

} // verus!
