use vstd::prelude::*;

pub use crate::transport::secs1::block::Secs1HandshakeCode;

verus! {

const WITHOUT_MSB: u8 = 0x7F;

const MSB_ONLY: u8 = 0x80;

/// A block as the codec frames it: the ten raw header bytes and the data.
pub struct Secs1Message {
    pub header: [u8; 10],
    pub data: Vec<u8>,
}

impl Secs1Message {
    /// The R bit in its position: 0x80 when set, 0 otherwise.
    pub fn rbit(&self) -> (r: u8)
        ensures
            r == (if self.header@[0] >= 128 { 128u8 } else { 0u8 }),
    {
        let b = self.header[0];
        assert(b & 0x80u8 == (if b >= 128 { 128u8 } else { 0u8 })) by (bit_vector);
        b & MSB_ONLY
    }

    /// The W bit in its position: 0x80 when set, 0 otherwise.
    pub fn wbit(&self) -> (r: u8)
        ensures
            r == (if self.header@[2] >= 128 { 128u8 } else { 0u8 }),
    {
        let b = self.header[2];
        assert(b & 0x80u8 == (if b >= 128 { 128u8 } else { 0u8 })) by (bit_vector);
        b & MSB_ONLY
    }

    /// The E bit in its position: 0x80 when set, 0 otherwise.
    pub fn ebit(&self) -> (r: u8)
        ensures
            r == (if self.header@[4] >= 128 { 128u8 } else { 0u8 }),
    {
        let b = self.header[4];
        assert(b & 0x80u8 == (if b >= 128 { 128u8 } else { 0u8 })) by (bit_vector);
        b & MSB_ONLY
    }

    /// The device id: the low 7 bits of byte 0 and byte 1, big endian.
    pub fn device_id(&self) -> (r: u16)
        ensures
            r == (self.header@[0] % 128) * 256 + self.header@[1],
    {
        let b = self.header[0];
        assert(b & 0x7fu8 == b % 128) by (bit_vector);
        ((b & WITHOUT_MSB) as u16) * 256 + (self.header[1] as u16)
    }

    /// The stream: the low 7 bits of byte 2.
    pub fn stream(&self) -> (r: u8)
        ensures
            r == self.header@[2] % 128,
    {
        let b = self.header[2];
        assert(b & 0x7fu8 == b % 128) by (bit_vector);
        b & WITHOUT_MSB
    }

    /// The function: byte 3.
    pub fn function(&self) -> (r: u8)
        ensures
            r == self.header@[3],
    {
        self.header[3]
    }

    /// The block number: the low 7 bits of byte 4 and byte 5, big endian.
    pub fn block_no(&self) -> (r: u16)
        ensures
            r == (self.header@[4] % 128) * 256 + self.header@[5],
    {
        let b = self.header[4];
        assert(b & 0x7fu8 == b % 128) by (bit_vector);
        ((b & WITHOUT_MSB) as u16) * 256 + (self.header[5] as u16)
    }

    /// The system bytes: bytes 6 to 9, big endian.
    pub fn system_bytes(&self) -> (r: u32)
        ensures
            r == self.header@[6] * 0x100_0000 + self.header@[7] * 0x1_0000 + self.header@[8]
                * 0x100 + self.header@[9],
    {
        (self.header[6] as u32) * 0x100_0000 + (self.header[7] as u32) * 0x1_0000 + (
        self.header[8] as u32) * 0x100 + (self.header[9] as u32)
    }
}

} // verus!
