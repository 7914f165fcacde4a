use vstd::prelude::*;

use crate::transport::error::SecsTransportError;
use crate::transport::secs1::config::DeviceId;

verus! {

const WITHOUT_MSB: u8 = 0x7F;

const MSB_ONLY: u8 = 0x80;

/// A block of the SECS-I block transfer protocol: a ten-byte header and its data.
#[derive(Debug)]
pub struct Secs1Block {
    pub header: Secs1BlockHeader,
    pub data: Vec<u8>,
}

/// The header of a SECS-I block.
#[derive(Debug, Clone, Copy, PartialEq, Eq, PartialOrd, Ord, Structural)]
pub struct Secs1BlockHeader {
    /// Reverse bit: set when the block goes from equipment to host.
    pub rbit: bool,
    /// Identifier of the device communicated with.
    pub device_id: DeviceId,
    /// Wait bit: set when the primary message wants a reply.
    pub wbit: bool,
    pub stream: u8,
    pub function: u8,
    /// End bit: set on the last block of a message.
    pub ebit: bool,
    /// Block number: 0 is allowed for a single block, otherwise numbering starts at 1.
    pub block_no: u16,
    /// Bytes that identify the transaction.
    pub system_bytes: u32,
}

/// The value of a flag bit in the most significant position of a byte.
pub open spec fn flag_value(b: bool) -> int {
    if b {
        128
    } else {
        0
    }
}

/// The ten header bytes on the wire: the most significant bit of bytes 0, 2 and 4
/// carries the R, W and E bits, device id and block number are big endian in 15 bits,
/// the stream in 7 bits, and the system bytes are big endian.
pub open spec fn spec_header_bytes(h: Secs1BlockHeader) -> Seq<u8> {
    seq![
        (flag_value(h.rbit) + (h.device_id.0 / 256) % 128) as u8,
        (h.device_id.0 % 256) as u8,
        (flag_value(h.wbit) + h.stream % 128) as u8,
        h.function,
        (flag_value(h.ebit) + (h.block_no / 256) % 128) as u8,
        (h.block_no % 256) as u8,
        (h.system_bytes / 0x100_0000) as u8,
        ((h.system_bytes / 0x1_0000) % 256) as u8,
        ((h.system_bytes / 0x100) % 256) as u8,
        (h.system_bytes % 256) as u8,
    ]
}

/// The header that ten wire bytes stand for.
pub open spec fn spec_header_from_bytes(b: Seq<u8>) -> Secs1BlockHeader {
    Secs1BlockHeader {
        rbit: b[0] >= 128,
        device_id: DeviceId(((b[0] % 128) * 256 + b[1]) as u16),
        wbit: b[2] >= 128,
        stream: b[2] % 128,
        function: b[3],
        ebit: b[4] >= 128,
        block_no: ((b[4] % 128) * 256 + b[5]) as u16,
        system_bytes: (b[6] * 0x100_0000 + b[7] * 0x1_0000 + b[8] * 0x100 + b[9]) as u32,
    }
}

/// How a header lies in ten wire bytes, field by field: the R, W and E bits are the
/// top bits of bytes 0, 2 and 4; the low 15 bits of the device id are the low 7 bits of
/// byte 0 then byte 1; the low 7 bits of the stream are the low 7 bits of byte 2; the
/// function is byte 3; the low 15 bits of the block number are the low 7 bits of byte 4
/// then byte 5; the system bytes are bytes 6 to 9, big endian.
pub open spec fn spec_wire_layout(h: Secs1BlockHeader, b: Seq<u8>) -> bool {
    &&& b.len() == 10
    &&& (b[0] >= 128) == h.rbit
    &&& (b[2] >= 128) == h.wbit
    &&& (b[4] >= 128) == h.ebit
    &&& (b[0] % 128) * 256 + b[1] == h.device_id.0 % 0x8000
    &&& b[2] % 128 == h.stream % 128
    &&& b[3] == h.function
    &&& (b[4] % 128) * 256 + b[5] == h.block_no % 0x8000
    &&& b[6] * 0x100_0000 + b[7] * 0x1_0000 + b[8] * 0x100 + b[9] == h.system_bytes
}

/// Whether every field of the header fits its width on the wire
/// (15 bits of device id, 7 bits of stream, 15 bits of block number).
pub open spec fn header_fits_wire(h: Secs1BlockHeader) -> bool {
    &&& h.device_id.0 < 0x8000
    &&& h.stream < 0x80
    &&& h.block_no < 0x8000
}

/// Sum of the bytes of a sequence, as a natural number.
pub open spec fn spec_byte_sum(s: Seq<u8>) -> nat
    decreases s.len(),
{
    if s.len() == 0 {
        0
    } else {
        spec_byte_sum(s.drop_last()) + s.last() as nat
    }
}

/// The SECS-I checksum: the sum of the bytes modulo 2^16.
pub open spec fn spec_checksum(s: Seq<u8>) -> u16 {
    (spec_byte_sum(s) % 0x1_0000) as u16
}

/// The bytes of a block: its header bytes followed by its data.
pub open spec fn spec_block_bytes(b: Secs1Block) -> Seq<u8> {
    spec_header_bytes(b.header) + b.data@
}

/// Sum of a concatenation is the sum of the sums.
pub proof fn lemma_byte_sum_concat(a: Seq<u8>, b: Seq<u8>)
    ensures
        spec_byte_sum(a + b) == spec_byte_sum(a) + spec_byte_sum(b),
    decreases b.len(),
{
    if b.len() == 0 {
        assert(a + b =~= a);
    } else {
        lemma_byte_sum_concat(a, b.drop_last());
        assert((a + b).drop_last() =~= a + b.drop_last());
    }
}

/// Adds the bytes of `bytes` to `acc`, wrapping at 2^16.
pub(crate) fn wrapping_byte_sum(acc: u16, bytes: &[u8]) -> (res: u16)
    ensures
        res == (acc + spec_byte_sum(bytes@)) % 0x1_0000,
{
    let mut sum = acc;
    let mut i: usize = 0;
    while i < bytes.len()
        invariant
            i <= bytes.len(),
            sum == (acc + spec_byte_sum(bytes@.take(i as int))) % 0x1_0000,
        decreases bytes.len() - i,
    {
        let b = bytes[i];
        proof {
            assert(bytes@.take(i + 1).drop_last() =~= bytes@.take(i as int));
        }
        sum = sum.wrapping_add(b as u16);
        i = i + 1;
    }
    proof {
        assert(bytes@.take(i as int) =~= bytes@);
    }
    sum
}

impl Default for Secs1BlockHeader {
    fn default() -> (h: Self)
        ensures
            h == (Secs1BlockHeader {
                rbit: false,
                device_id: DeviceId(0),
                wbit: false,
                stream: 0,
                function: 0,
                ebit: false,
                block_no: 0,
                system_bytes: 0,
            }),
    {
        Secs1BlockHeader {
            rbit: false,
            device_id: DeviceId(0),
            wbit: false,
            stream: 0,
            function: 0,
            ebit: false,
            block_no: 0,
            system_bytes: 0,
        }
    }
}

proof fn lemma_flag_or(flag: bool, low: u8)
    requires
        low < 128,
    ensures
        ((if flag { MSB_ONLY } else { 0u8 }) | low) as int == flag_value(flag) + low,
{
    if flag {
        assert(0x80u8 | low == 128 + low) by (bit_vector)
            requires
                low < 128,
        ;
    } else {
        assert(0u8 | low == low) by (bit_vector);
    }
}

impl Secs1BlockHeader {
    /// The ten header bytes as they go on the wire.
    pub fn to_bytes(&self) -> (h: [u8; 10])
        ensures
            h@ == spec_header_bytes(*self),
            spec_wire_layout(*self, h@),
    {
        proof {
            lemma_header_bytes_layout(*self);
        }
        let dev = self.device_id.0;
        let dev_hi = ((dev >> 8) as u8) & WITHOUT_MSB;
        let stream_lo = self.stream & WITHOUT_MSB;
        let blk = self.block_no;
        let blk_hi = ((blk >> 8) as u8) & WITHOUT_MSB;
        let sys = self.system_bytes;
        proof {
            assert(((dev >> 8u16) as u8) & 0x7fu8 == (dev / 256) % 128) by (bit_vector);
            assert(((dev >> 8u16) as u8) & 0x7fu8 < 128) by (bit_vector);
            assert((dev as u8) == dev % 256) by (bit_vector);
            assert(((blk >> 8u16) as u8) & 0x7fu8 == (blk / 256) % 128) by (bit_vector);
            assert(((blk >> 8u16) as u8) & 0x7fu8 < 128) by (bit_vector);
            assert((blk as u8) == blk % 256) by (bit_vector);
            let st = self.stream;
            assert(st & 0x7fu8 == st % 128) by (bit_vector);
            assert(st & 0x7fu8 < 128) by (bit_vector);
            assert((sys >> 24u32) as u8 == sys / 0x100_0000) by (bit_vector);
            assert((sys >> 16u32) as u8 == (sys / 0x1_0000) % 256) by (bit_vector);
            assert((sys >> 8u32) as u8 == (sys / 0x100) % 256) by (bit_vector);
            assert((sys as u8) == sys % 256) by (bit_vector);
            lemma_flag_or(self.rbit, dev_hi);
            lemma_flag_or(self.wbit, stream_lo);
            lemma_flag_or(self.ebit, blk_hi);
        }
        let h: [u8; 10] = [
            (if self.rbit { MSB_ONLY } else { 0u8 }) | dev_hi,
            dev as u8,
            (if self.wbit { MSB_ONLY } else { 0u8 }) | stream_lo,
            self.function,
            (if self.ebit { MSB_ONLY } else { 0u8 }) | blk_hi,
            blk as u8,
            (sys >> 24) as u8,
            (sys >> 16) as u8,
            (sys >> 8) as u8,
            sys as u8,
        ];
        assert(h@ =~= spec_header_bytes(*self));
        h
    }

    /// Whether this is the last block of a message.
    pub fn is_end(&self) -> (r: bool)
        ensures
            r == self.ebit,
    {
        self.ebit
    }

    /// Whether the message wants a reply.
    pub fn need_reply(&self) -> (r: bool)
        ensures
            r == self.wbit,
    {
        self.wbit
    }

    /// Whether the block belongs to a primary message (odd function number).
    pub fn is_primary(&self) -> (r: bool)
        ensures
            r == (self.function % 2 == 1),
    {
        self.function % 2 == 1
    }

    /// Whether this is the first block of a message: block 1, or block 0 when it is
    /// also the last one.
    pub fn is_first_block(&self) -> (r: bool)
        ensures
            r == (self.block_no == 1 || (self.block_no == 0 && self.ebit)),
    {
        self.block_no == 1 || (self.block_no == 0 && self.ebit)
    }

    /// Reads a header from its ten wire bytes; every ten bytes make a header.
    pub fn try_from(h: [u8; 10]) -> (res: Result<Self, SecsTransportError>)
        ensures
            res matches Ok(v) && v == spec_header_from_bytes(h@),
            res matches Ok(v) && spec_wire_layout(v, h@),
    {
        proof {
            lemma_header_from_bytes_layout(h@);
        }
        let b0 = h[0];
        let b2 = h[2];
        let b4 = h[4];
        proof {
            assert((b0 & 0x80u8 != 0) == (b0 >= 128)) by (bit_vector);
            assert(b0 & 0x7fu8 == b0 % 128) by (bit_vector);
            assert((b2 & 0x80u8 != 0) == (b2 >= 128)) by (bit_vector);
            assert(b2 & 0x7fu8 == b2 % 128) by (bit_vector);
            assert((b4 & 0x80u8 != 0) == (b4 >= 128)) by (bit_vector);
            assert(b4 & 0x7fu8 == b4 % 128) by (bit_vector);
        }
        Ok(Self {
            rbit: b0 & MSB_ONLY != 0,
            device_id: DeviceId(((b0 & WITHOUT_MSB) as u16) * 256 + (h[1] as u16)),
            wbit: b2 & MSB_ONLY != 0,
            stream: b2 & WITHOUT_MSB,
            function: h[3],
            ebit: b4 & MSB_ONLY != 0,
            block_no: ((b4 & WITHOUT_MSB) as u16) * 256 + (h[5] as u16),
            system_bytes: (h[6] as u32) * 0x100_0000 + (h[7] as u32) * 0x1_0000 + (h[8] as u32)
                * 0x100 + (h[9] as u32),
        })
    }
}

proof fn lemma_split_pair(hi: int, lo: int)
    requires
        0 <= hi < 128,
        0 <= lo < 256,
    ensures
        (hi * 256 + lo) / 256 == hi,
        (hi * 256 + lo) % 256 == lo,
{
    vstd::arithmetic::div_mod::lemma_fundamental_div_mod_converse(hi * 256 + lo, 256, hi, lo);
}

proof fn lemma_split_quad(a: int, b: int, c: int, d: int)
    requires
        0 <= a < 256,
        0 <= b < 256,
        0 <= c < 256,
        0 <= d < 256,
    ensures
        ({
            let s = a * 0x100_0000 + b * 0x1_0000 + c * 0x100 + d;
            &&& s / 0x100_0000 == a
            &&& (s / 0x1_0000) % 256 == b
            &&& (s / 0x100) % 256 == c
            &&& s % 256 == d
        }),
{
    let s = a * 0x100_0000 + b * 0x1_0000 + c * 0x100 + d;
    vstd::arithmetic::div_mod::lemma_fundamental_div_mod_converse(
        s,
        0x100_0000,
        a,
        b * 0x1_0000 + c * 0x100 + d,
    );
    vstd::arithmetic::div_mod::lemma_fundamental_div_mod_converse(
        s,
        0x1_0000,
        a * 256 + b,
        c * 0x100 + d,
    );
    vstd::arithmetic::div_mod::lemma_fundamental_div_mod_converse(a * 256 + b, 256, a, b);
    vstd::arithmetic::div_mod::lemma_fundamental_div_mod_converse(
        s,
        0x100,
        a * 0x1_0000 + b * 256 + c,
        d,
    );
    vstd::arithmetic::div_mod::lemma_fundamental_div_mod_converse(
        a * 0x1_0000 + b * 256 + c,
        256,
        a * 256 + b,
        c,
    );
    vstd::arithmetic::div_mod::lemma_fundamental_div_mod_converse(s, 256, a * 0x1_0000 + b
        * 0x100 + c, d);
}

/// Encoding the header that ten bytes decode to gives back the ten bytes.
pub proof fn lemma_header_bytes_roundtrip(b: Seq<u8>)
    requires
        b.len() == 10,
    ensures
        spec_header_bytes(spec_header_from_bytes(b)) == b,
{
    let h = spec_header_from_bytes(b);
    lemma_split_pair((b[0] % 128) as int, b[1] as int);
    lemma_split_pair((b[4] % 128) as int, b[5] as int);
    lemma_split_quad(b[6] as int, b[7] as int, b[8] as int, b[9] as int);
    assert(h.device_id.0 == (b[0] % 128) * 256 + b[1]);
    assert(h.block_no == (b[4] % 128) * 256 + b[5]);
    assert(h.system_bytes == b[6] * 0x100_0000 + b[7] * 0x1_0000 + b[8] * 0x100 + b[9]);
    let e = spec_header_bytes(h);
    assert(e[0] == b[0]);
    assert(e[2] == b[2]);
    assert(e[4] == b[4]);
    assert(e =~= b);
}

/// The bytes of a header lie on the wire as the SECS-I header layout says: every header
/// and its ten bytes stand in `spec_wire_layout`, the R, W and E bits in particular in
/// the top bits of bytes 0, 2 and 4.
pub proof fn lemma_header_bytes_layout(h: Secs1BlockHeader)
    ensures
        spec_wire_layout(h, spec_header_bytes(h)),
        spec_header_bytes(h)[0] >= 128 <==> h.rbit,
        spec_header_bytes(h)[2] >= 128 <==> h.wbit,
        spec_header_bytes(h)[4] >= 128 <==> h.ebit,
{
    let b = spec_header_bytes(h);
    let d = h.device_id.0;
    let k = h.block_no;
    let st = h.stream;
    let sy = h.system_bytes;
    assert(d % 0x8000 == ((d / 256) % 128) * 256 + d % 256) by (bit_vector);
    assert(k % 0x8000 == ((k / 256) % 128) * 256 + k % 256) by (bit_vector);
    assert(sy == (sy / 0x100_0000) * 0x100_0000 + ((sy / 0x1_0000) % 256) * 0x1_0000 + ((sy
        / 0x100) % 256) * 0x100 + sy % 256) by (bit_vector);
    assert((d / 256) % 128 < 128 && (k / 256) % 128 < 128 && st % 128 < 128) by (bit_vector);
    assert(b[0] == flag_value(h.rbit) + (d / 256) % 128);
    assert(b[2] == flag_value(h.wbit) + st % 128);
    assert(b[4] == flag_value(h.ebit) + (k / 256) % 128);
}

/// The header read from ten bytes takes its fields from where the SECS-I header layout
/// puts them: the header and the bytes stand in `spec_wire_layout`, the R, W and E bits
/// in particular coming from the top bits of bytes 0, 2 and 4.
pub proof fn lemma_header_from_bytes_layout(b: Seq<u8>)
    requires
        b.len() == 10,
    ensures
        spec_wire_layout(spec_header_from_bytes(b), b),
        spec_header_from_bytes(b).rbit <==> b[0] >= 128,
        spec_header_from_bytes(b).wbit <==> b[2] >= 128,
        spec_header_from_bytes(b).ebit <==> b[4] >= 128,
{
    let h = spec_header_from_bytes(b);
    assert(h.device_id.0 == (b[0] % 128) * 256 + b[1]);
    assert(h.block_no == (b[4] % 128) * 256 + b[5]);
    let b2 = b[2];
    assert((b2 % 128) % 128 == b2 % 128) by (bit_vector);
}

/// Decoding the bytes of a header gives back the header, for every header whose
/// fields fit their widths on the wire.
pub proof fn lemma_header_fields_roundtrip(h: Secs1BlockHeader)
    requires
        header_fits_wire(h),
    ensures
        spec_header_from_bytes(spec_header_bytes(h)) == h,
{
    let s = h.system_bytes as int;
    vstd::arithmetic::div_mod::lemma_fundamental_div_mod(s, 0x100);
    vstd::arithmetic::div_mod::lemma_fundamental_div_mod(s / 0x100, 0x100);
    vstd::arithmetic::div_mod::lemma_fundamental_div_mod(s / 0x1_0000, 0x100);
    vstd::arithmetic::div_mod::lemma_div_denominator(s, 0x100, 0x100);
    vstd::arithmetic::div_mod::lemma_div_denominator(s, 0x1_0000, 0x100);
    let d = h.device_id.0 as int;
    vstd::arithmetic::div_mod::lemma_fundamental_div_mod(d, 256);
    let k = h.block_no as int;
    vstd::arithmetic::div_mod::lemma_fundamental_div_mod(k, 256);
    let r = spec_header_from_bytes(spec_header_bytes(h));
    assert(r.system_bytes == h.system_bytes);
    assert(r.device_id == h.device_id);
    assert(r.block_no == h.block_no);
}

impl Secs1Block {
    /// The checksum of the block: the sum of its header and data bytes modulo 2^16.
    pub fn checksum(&self) -> (c: u16)
        ensures
            c == spec_checksum(spec_block_bytes(*self)),
    {
        let header = self.header.to_bytes();
        let partial = wrapping_byte_sum(0, &header);
        let c = wrapping_byte_sum(partial, self.data.as_slice());
        proof {
            lemma_byte_sum_concat(header@, self.data@);
            let x = spec_byte_sum(header@);
            let y = spec_byte_sum(self.data@);
            assert((((x % 0x1_0000) + y) % 0x1_0000) == (x + y) % 0x1_0000) by (nonlinear_arith);
        }
        c
    }

    /// Whether `expected` is the checksum of the block.
    pub fn verify_checksum(&self, expected: u16) -> (r: bool)
        ensures
            r == (expected == spec_checksum(spec_block_bytes(*self))),
    {
        self.checksum() == expected
    }

    /// The bytes of the block: header then data.
    pub fn to_bytes(&self) -> (buf: Vec<u8>)
        ensures
            buf@ == spec_block_bytes(*self),
    {
        let header = self.header.to_bytes();
        let mut buf: Vec<u8> = Vec::new();
        let mut i: usize = 0;
        while i < 10
            invariant
                i <= 10,
                buf@ == header@.take(i as int),
            decreases 10 - i,
        {
            buf.push(header[i]);
            i = i + 1;
            assert(buf@ =~= header@.take(i as int));
        }
        let mut j: usize = 0;
        while j < self.data.len()
            invariant
                j <= self.data.len(),
                buf@ == header@ + self.data@.take(j as int),
            decreases self.data.len() - j,
        {
            buf.push(self.data[j]);
            j = j + 1;
            assert(buf@ =~= header@ + self.data@.take(j as int));
        }
        assert(self.data@.take(j as int) =~= self.data@);
        buf
    }

    /// Reads a block from its bytes: `Err(BlockInvalid)` exactly when there are fewer
    /// than 10 or more than 254 bytes; otherwise the first ten bytes are the header and
    /// the rest is the data.
    pub fn try_from(value: &[u8]) -> (res: Result<Self, SecsTransportError>)
        ensures
            (value@.len() < 10 || value@.len() > 254) ==> res == Err::<Self, SecsTransportError>(
                SecsTransportError::BlockInvalid,
            ),
            (10 <= value@.len() <= 254) ==> (res matches Ok(b) && b.header == spec_header_from_bytes(
                value@.take(10),
            ) && b.data@ == value@.skip(10)),
    {
        if value.len() < 10 || value.len() > 254 {
            return Err(SecsTransportError::BlockInvalid);
        }
        let raw_header: [u8; 10] = [
            value[0],
            value[1],
            value[2],
            value[3],
            value[4],
            value[5],
            value[6],
            value[7],
            value[8],
            value[9],
        ];
        assert(raw_header@ =~= value@.take(10));
        let header = match Secs1BlockHeader::try_from(raw_header) {
            Ok(h) => h,
            Err(e) => {
                return Err(e);
            },
        };
        let mut data: Vec<u8> = Vec::with_capacity(value.len() - 10);
        let mut i: usize = 10;
        while i < value.len()
            invariant
                10 <= i <= value@.len(),
                data@ == value@.subrange(10, i as int),
            decreases value.len() - i,
        {
            data.push(value[i]);
            i = i + 1;
            assert(data@ =~= value@.subrange(10, i as int));
        }
        Ok(Self { header, data })
    }
}

/// The bytes of a block with at most 244 data bytes read back as that block: there are
/// 10 to 254 of them, the first ten are the header bytes and the rest is the data; the
/// header read is the header written when its fields fit their widths on the wire,
/// and encodes to the same ten bytes in any case.
pub proof fn lemma_block_bytes_roundtrip(b: Secs1Block)
    requires
        b.data@.len() <= 244,
    ensures
        ({
            let s = spec_block_bytes(b);
            &&& 10 <= s.len() <= 254
            &&& spec_header_bytes(spec_header_from_bytes(s.take(10))) == spec_header_bytes(b.header)
            &&& s.skip(10) == b.data@
            &&& header_fits_wire(b.header) ==> spec_header_from_bytes(s.take(10)) == b.header
        }),
{
    let s = spec_block_bytes(b);
    assert(s.take(10) =~= spec_header_bytes(b.header));
    assert(s.skip(10) =~= b.data@);
    lemma_header_bytes_roundtrip(spec_header_bytes(b.header));
    if header_fits_wire(b.header) {
        lemma_header_fields_roundtrip(b.header);
    }
}

/// The checksum is the byte sum modulo 2^16: 0 for no bytes, and one more byte adds its
/// value, wrapping at 2^16.
pub proof fn lemma_checksum_is_wrapping_sum(s: Seq<u8>, x: u8)
    ensures
        spec_checksum(Seq::<u8>::empty()) == 0,
        spec_checksum(s.push(x)) == (spec_checksum(s) + x) % 0x1_0000,
{
    assert(s.push(x).drop_last() =~= s);
    let a = spec_byte_sum(s) as int;
    assert(((a % 0x1_0000) + x) % 0x1_0000 == (a + x) % 0x1_0000) by (nonlinear_arith);
}

/// SECS-I handshake codes.
#[derive(Debug, Clone, Copy, PartialEq, Eq, Structural)]
pub enum Secs1HandshakeCode {
    /// Request to send (0x05).
    ENQ,
    /// Ready to receive (0x04).
    EOT,
    /// Correct reception (0x06).
    ACK,
    /// Incorrect reception (0x15).
    NAK,
}

/// The byte that stands for a handshake code.
pub open spec fn spec_code_byte(c: Secs1HandshakeCode) -> u8 {
    match c {
        Secs1HandshakeCode::ENQ => 0x05,
        Secs1HandshakeCode::EOT => 0x04,
        Secs1HandshakeCode::ACK => 0x06,
        Secs1HandshakeCode::NAK => 0x15,
    }
}

/// The handshake code that a byte stands for, if any.
pub open spec fn spec_code_from_byte(b: u8) -> Option<Secs1HandshakeCode> {
    if b == 0x05 {
        Some(Secs1HandshakeCode::ENQ)
    } else if b == 0x04 {
        Some(Secs1HandshakeCode::EOT)
    } else if b == 0x06 {
        Some(Secs1HandshakeCode::ACK)
    } else if b == 0x15 {
        Some(Secs1HandshakeCode::NAK)
    } else {
        None
    }
}

impl Secs1HandshakeCode {
    /// The byte of the code on the wire.
    pub fn to_byte(self) -> (b: u8)
        ensures
            b == spec_code_byte(self),
    {
        match self {
            Secs1HandshakeCode::ENQ => 0x05,
            Secs1HandshakeCode::EOT => 0x04,
            Secs1HandshakeCode::ACK => 0x06,
            Secs1HandshakeCode::NAK => 0x15,
        }
    }

    /// The code that a byte stands for; `None` for any other byte.
    pub fn from_byte(b: u8) -> (c: Option<Self>)
        ensures
            c == spec_code_from_byte(b),
    {
        if b == 0x05 {
            Some(Secs1HandshakeCode::ENQ)
        } else if b == 0x04 {
            Some(Secs1HandshakeCode::EOT)
        } else if b == 0x06 {
            Some(Secs1HandshakeCode::ACK)
        } else if b == 0x15 {
            Some(Secs1HandshakeCode::NAK)
        } else {
            None
        }
    }
}

impl From<Secs1HandshakeCode> for u8 {
    fn from(c: Secs1HandshakeCode) -> (b: u8) {
        c.to_byte()
    }
}

impl vstd::std_specs::convert::FromSpecImpl<Secs1HandshakeCode> for u8 {
    open spec fn obeys_from_spec() -> bool {
        true
    }

    open spec fn from_spec(c: Secs1HandshakeCode) -> u8 {
        spec_code_byte(c)
    }
}

impl TryFrom<u8> for Secs1HandshakeCode {
    /// The byte that stands for no code.
    type Error = u8;

    fn try_from(b: u8) -> (r: Result<Self, u8>) {
        match Secs1HandshakeCode::from_byte(b) {
            Some(c) => Ok(c),
            None => Err(b),
        }
    }
}

impl vstd::std_specs::convert::TryFromSpecImpl<u8> for Secs1HandshakeCode {
    open spec fn obeys_try_from_spec() -> bool {
        true
    }

    open spec fn try_from_spec(b: u8) -> Result<Self, u8> {
        match spec_code_from_byte(b) {
            Some(c) => Ok(c),
            None => Err(b),
        }
    }
}

/// Reading a code's byte gives back the code.
pub proof fn lemma_code_byte_roundtrip(c: Secs1HandshakeCode)
    ensures
        spec_code_from_byte(spec_code_byte(c)) == Some(c),
{
}

} // verus!
