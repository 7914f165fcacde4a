use tokio_util::bytes::BytesMut;
use vstd::prelude::*;

use crate::transport::secs1::block::{spec_checksum, wrapping_byte_sum};
use crate::transport::secs1::buffer::{
    buf_advance, buf_as_slice, buf_copy_to_ten, buf_get_u16, buf_get_u8, buf_len, buf_put_slice,
    buf_put_u16, buf_put_u8, buf_reserve, buf_split_to_vec, bytes_mut_contents,
};
use crate::transport::secs1::message::Secs1Message;

verus! {

/// The checksum of a frame body: the sum of its bytes modulo 2^16.
pub fn calculate_checksum(body: &[u8]) -> (c: u16)
    ensures
        c == spec_checksum(body@),
{
    wrapping_byte_sum(0, body)
}

/// A frame on the wire is a length byte L, then L bytes of header and data, then
/// the checksum of those L bytes, big endian. This many bytes make the frame that
/// `s` begins with.
pub open spec fn spec_frame_len(s: Seq<u8>) -> int {
    s[0] + 3
}

/// Whether the buffer holds a whole frame the codec looks at: at least 13 bytes
/// (the shortest frame), and at least the bytes its length byte announces.
pub open spec fn spec_frame_ready(s: Seq<u8>) -> bool {
    s.len() >= 13 && s.len() >= spec_frame_len(s)
}

/// The payload (header and data) of the frame that `s` begins with.
pub open spec fn spec_frame_payload(s: Seq<u8>) -> Seq<u8> {
    s.subrange(1, s[0] + 1)
}

/// The checksum that the frame that `s` begins with carries.
pub open spec fn spec_frame_checksum(s: Seq<u8>) -> int {
    s[s[0] + 1] * 256 + s[s[0] + 2]
}

/// Whether the frame that `s` begins with carries the checksum of its payload.
pub open spec fn spec_frame_checksum_ok(s: Seq<u8>) -> bool {
    spec_checksum(spec_frame_payload(s)) == spec_frame_checksum(s)
}

/// The bytes the codec writes for a header and data.
pub open spec fn spec_encode_frame(header: Seq<u8>, data: Seq<u8>) -> Seq<u8> {
    let c = spec_checksum(header + data);
    seq![(10 + data.len()) as u8] + header + data + seq![(c / 256) as u8, (c % 256) as u8]
}

/// The inputs on which decoding panics: a whole frame with a correct checksum whose
/// length byte is under 10, too short for the header that is taken from it.
pub open spec fn spec_decode_panics(s: Seq<u8>) -> bool {
    spec_frame_ready(s) && spec_frame_checksum_ok(s) && s[0] < 10
}

/// Whether decoding `s` would panic (see `spec_decode_panics`): a caller tests this
/// before `Secs1Codec::decode`.
pub fn decode_panics(s: &[u8]) -> (r: bool)
    ensures
        r == spec_decode_panics(s@),
{
    if s.len() < 13 {
        return false;
    }
    let payload_len = s[0] as usize;
    let total_len = payload_len + 3;
    if s.len() < total_len {
        return false;
    }
    let body = vstd::slice::slice_subrange(s, 1, total_len - 2);
    let checksum = (s[total_len - 2] as u16) * 256 + (s[total_len - 1] as u16);
    calculate_checksum(body) == checksum && payload_len < 10
}

/// Why the codec refused a frame.
#[derive(Debug, Clone, Copy, PartialEq, Eq, Structural)]
pub enum Secs1CodecError {
    /// The checksum of a frame does not match its payload; the frame was dropped.
    ChecksumMismatch,
}

/// Frames `Secs1Message`s on a byte stream: length byte, header, data, checksum.
pub struct Secs1Codec;

impl Secs1Codec {
    /// Takes the next frame from `src`.
    ///
    /// With fewer than 13 bytes, or fewer than the frame announces, it returns
    /// `Ok(None)` and leaves `src` as it was. A frame whose checksum does not match
    /// is dropped from `src` and reported as `ChecksumMismatch`. Otherwise the frame
    /// is taken from `src` and returned as a message.
    pub fn decode(&mut self, src: &mut BytesMut) -> (res: Result<Option<Secs1Message>, Secs1CodecError>)
        requires
            !spec_decode_panics(bytes_mut_contents(*old(src))),
        ensures
            ({
                let s = bytes_mut_contents(*old(src));
                let t = bytes_mut_contents(*final(src));
                &&& !spec_frame_ready(s) ==> (res matches Ok(None) && t == s)
                &&& spec_frame_ready(s) && !spec_frame_checksum_ok(s) ==> res == Err::<
                    Option<Secs1Message>,
                    Secs1CodecError,
                >(Secs1CodecError::ChecksumMismatch) && t == s.skip(spec_frame_len(s))
                &&& spec_frame_ready(s) && spec_frame_checksum_ok(s) ==> (res matches Ok(Some(m))
                    && m.header@ == s.subrange(1, 11) && m.data@ == s.subrange(
                    11,
                    spec_frame_len(s) - 2,
                ) && t == s.skip(spec_frame_len(s)))
            }),
    {
        let ghost s = bytes_mut_contents(*src);
        if buf_len(src) < 13 {
            return Ok(None);
        }
        let view = buf_as_slice(src);
        let payload_len = view[0] as usize;
        let total_len = payload_len + 3;
        if view.len() < total_len {
            return Ok(None);
        }
        let body = vstd::slice::slice_subrange(view, 1, total_len - 2);
        let checksum = (view[total_len - 2] as u16) * 256 + (view[total_len - 1] as u16);
        let actual_sum = calculate_checksum(body);
        if checksum != actual_sum {
            buf_advance(src, total_len);
            return Err(Secs1CodecError::ChecksumMismatch);
        }
        let _len_byte = buf_get_u8(src);
        let header = buf_copy_to_ten(src);
        let data = buf_split_to_vec(src, payload_len - 10);
        let _checksum_bytes = buf_get_u16(src);
        proof {
            assert(header@ =~= s.subrange(1, 11));
            assert(data@ =~= s.subrange(11, spec_frame_len(s) - 2));
            assert(bytes_mut_contents(*src) =~= s.skip(spec_frame_len(s)));
        }
        Ok(Some(Secs1Message { header, data }))
    }

    /// Appends the frame of `item` to `dst`: the length byte (10 plus the data
    /// length, kept to its low 8 bits), the header, the data and the checksum of
    /// header and data, big endian. It always succeeds.
    pub fn encode(&mut self, item: Secs1Message, dst: &mut BytesMut) -> (res: Result<
        (),
        Secs1CodecError,
    >)
        requires
            bytes_mut_contents(*old(dst)).len() + item.data@.len() + 13 <= isize::MAX,
        ensures
            res is Ok,
            bytes_mut_contents(*final(dst)) == bytes_mut_contents(*old(dst)) + spec_encode_frame(
                item.header@,
                item.data@,
            ),
    {
        let ghost d = bytes_mut_contents(*dst);
        let payload_len = 10 + item.data.len();
        buf_reserve(dst, payload_len + 3);
        buf_put_u8(dst, payload_len as u8);
        let start = buf_len(dst);
        buf_put_slice(dst, &item.header);
        buf_put_slice(dst, item.data.as_slice());
        let written = buf_as_slice(dst);
        let payload = vstd::slice::slice_subrange(written, start, written.len());
        let checksum: u16 = calculate_checksum(payload);
        proof {
            assert(payload@ =~= item.header@ + item.data@);
        }
        buf_put_u16(dst, checksum);
        proof {
            let c = spec_checksum(item.header@ + item.data@);
            assert(bytes_mut_contents(*dst) =~= d + spec_encode_frame(item.header@, item.data@));
        }
        Ok(())
    }
    /// `decode`, for any buffer: `None`, with `src` left as it was, on the buffers that
    /// `decode` does not take (see `spec_decode_panics`); otherwise what `decode` gives.
    pub fn decode_checked(&mut self, src: &mut BytesMut) -> (res: Option<
        Result<Option<Secs1Message>, Secs1CodecError>,
    >)
        ensures
            spec_decode_panics(bytes_mut_contents(*old(src))) ==> res is None
                && bytes_mut_contents(*final(src)) == bytes_mut_contents(*old(src)),
            !spec_decode_panics(bytes_mut_contents(*old(src))) ==> res is Some,
            ({
                let s = bytes_mut_contents(*old(src));
                let t = bytes_mut_contents(*final(src));
                &&& !spec_decode_panics(s) && !spec_frame_ready(s) ==> (res matches Some(Ok(None))
                    && t == s)
                &&& !spec_decode_panics(s) && spec_frame_ready(s) && !spec_frame_checksum_ok(s)
                    ==> (res matches Some(Err(e)) && e == Secs1CodecError::ChecksumMismatch && t
                    == s.skip(spec_frame_len(s)))
                &&& !spec_decode_panics(s) && spec_frame_ready(s) && spec_frame_checksum_ok(s)
                    ==> (res matches Some(Ok(Some(m))) && m.header@ == s.subrange(1, 11)
                    && m.data@ == s.subrange(11, spec_frame_len(s) - 2) && t == s.skip(
                    spec_frame_len(s),
                ))
            }),
    {
        if decode_panics(buf_as_slice(src)) {
            return None;
        }
        Some(self.decode(src))
    }

    /// `encode`, for any buffer and message: `false`, with `dst` left as it was, when the
    /// frame would take the buffer past `isize::MAX` bytes; otherwise the frame is
    /// appended as `encode` does and the result is `true`.
    pub fn encode_checked(&mut self, item: Secs1Message, dst: &mut BytesMut) -> (ok: bool)
        ensures
            ok == (bytes_mut_contents(*old(dst)).len() + item.data@.len() + 13 <= isize::MAX),
            ok ==> bytes_mut_contents(*final(dst)) == bytes_mut_contents(*old(dst))
                + spec_encode_frame(item.header@, item.data@),
            !ok ==> bytes_mut_contents(*final(dst)) == bytes_mut_contents(*old(dst)),
    {
        let held = buf_len(dst);
        let room: usize = isize::MAX as usize;
        if held > room || item.data.len() > room - held || 13 > room - held - item.data.len() {
            return false;
        }
        match self.encode(item, dst) {
            Ok(()) => true,
            Err(_) => true,
        }
    }
}

/// What the codec writes for a message whose frame fits the length byte
/// (at most 245 data bytes), it reads back as that message, whatever follows it:
/// the frame is whole, its checksum matches, it is exactly the bytes written, and
/// it carries the same header and data.
pub proof fn lemma_codec_roundtrip(header: Seq<u8>, data: Seq<u8>, rest: Seq<u8>)
    requires
        header.len() == 10,
        data.len() <= 245,
    ensures
        ({
            let s = spec_encode_frame(header, data) + rest;
            &&& spec_frame_ready(s)
            &&& spec_frame_checksum_ok(s)
            &&& !spec_decode_panics(s)
            &&& spec_frame_len(s) == spec_encode_frame(header, data).len()
            &&& s.subrange(1, 11) == header
            &&& s.subrange(11, spec_frame_len(s) - 2) == data
            &&& s.skip(spec_frame_len(s)) == rest
        }),
{
    let f = spec_encode_frame(header, data);
    let s = f + rest;
    let n = data.len();
    let c = spec_checksum(header + data);
    assert(s[0] == 10 + n);
    assert(spec_frame_payload(s) =~= header + data);
    assert(s[s[0] + 1] == (c / 256) as u8);
    assert(s[s[0] + 2] == (c % 256) as u8);
    assert(s.subrange(1, 11) =~= header);
    assert(s.subrange(11, spec_frame_len(s) - 2) =~= data);
    assert(s.skip(spec_frame_len(s)) =~= rest);
}

/// The frame the codec writes for at most 245 data bytes, byte by byte: the length byte
/// is the number of header and data bytes, then the ten header bytes, the data, and the checksum of
/// header and data, high byte first.
pub proof fn lemma_encode_frame_layout(header: Seq<u8>, data: Seq<u8>)
    requires
        header.len() == 10,
        data.len() <= 245,
    ensures
        ({
            let f = spec_encode_frame(header, data);
            let n = data.len() as int;
            &&& f.len() == n + 13
            &&& f[0] == 10 + n
            &&& f.subrange(1, 11) == header
            &&& f.subrange(11, 11 + n) == data
            &&& f[11 + n] * 256 + f[12 + n] == spec_checksum(header + data)
        }),
{
    let f = spec_encode_frame(header, data);
    let n = data.len() as int;
    let c = spec_checksum(header + data);
    let l = 10 + data.len();
    assert(f.subrange(1, 11) =~= header);
    assert(f.subrange(11, 11 + n) =~= data);
    assert(f[11 + n] == (c / 256) as u8);
    assert(f[12 + n] == (c % 256) as u8);
    assert((c / 256) * 256 + c % 256 == c) by (bit_vector);
    assert((c / 256) < 256) by (bit_vector);
}

} // verus!
