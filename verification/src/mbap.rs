//! The seven-byte application header of a Modbus/TCP frame.

use vstd::prelude::*;
use crate::utils::{high_byte, low_byte, word_of, Utils};

verus! {

/// The header: transaction id, protocol id, length and unit id, held as
/// the seven bytes that go on the wire, each word big-endian.
pub struct Mbap {
    data: [u8; 7],
}

impl View for Mbap {
    type V = Seq<u8>;

    closed spec fn view(&self) -> Seq<u8> {
        self.data@
    }
}

/// The transaction id in header bytes.
pub open spec fn header_transaction_id(header: Seq<u8>) -> u16 {
    word_of(header[0], header[1])
}

/// The protocol id in header bytes.
pub open spec fn header_protocol_id(header: Seq<u8>) -> u16 {
    word_of(header[2], header[3])
}

/// The length field in header bytes.
pub open spec fn header_length(header: Seq<u8>) -> u16 {
    word_of(header[4], header[5])
}

/// The unit id in header bytes.
pub open spec fn header_unit_id(header: Seq<u8>) -> u8 {
    header[6]
}

/// Whether header bytes are acceptable: seven of them, with protocol id 0.
pub open spec fn header_is_valid(header: Seq<u8>) -> bool {
    header.len() == 7 && header_protocol_id(header) == 0
}

impl Default for Mbap {
    /// The all-zero header.
    fn default() -> (mbap: Self)
        ensures
            mbap@ == Seq::new(7, |i: int| 0u8),
    {
        let data: [u8; 7] = [0u8; 7];
        assert(data@ =~= Seq::new(7, |i: int| 0u8));
        Mbap { data }
    }
}

impl Mbap {
    /// Every header has exactly seven bytes.
    pub proof fn lemma_length(self)
        ensures
            self@.len() == 7,
    {
    }

    /// The header held in the first seven bytes of `data`.
    pub fn from_bytes(data: Vec<u8>) -> (mbap: Self)
        requires
            data@.len() >= 7,
        ensures
            mbap@ == data@.subrange(0, 7),
    {
        let bytes: [u8; 7] = [data[0], data[1], data[2], data[3], data[4], data[5], data[6]];
        assert(bytes@ =~= data@.subrange(0, 7));
        Mbap { data: bytes }
    }

    /// The seven bytes of the header.
    pub fn to_bytes(&self) -> (bytes: Vec<u8>)
        ensures
            bytes@ == self@,
            bytes@.len() == 7,
    {
        let mut out: Vec<u8> = Vec::new();
        let mut pos: usize = 0;
        while pos < 7
            invariant
                pos <= 7,
                out@ == self.data@.subrange(0, pos as int),
            decreases 7 - pos,
        {
            out.push(self.data[pos]);
            pos = pos + 1;
            assert(out@ =~= self.data@.subrange(0, pos as int));
        }
        assert(out@ =~= self.data@);
        out
    }

    /// Whether the header has seven bytes and names protocol 0.
    pub fn is_valid(&self) -> (valid: bool)
        ensures
            valid == header_is_valid(self@),
    {
        self.get_protocol_id() == 0x0000
    }

    pub fn get_transaction_id(&self) -> (id: u16)
        ensures
            id == header_transaction_id(self@),
    {
        Utils::u8_to_u16(self.data[0], self.data[1])
    }

    pub fn get_protocol_id(&self) -> (id: u16)
        ensures
            id == header_protocol_id(self@),
    {
        Utils::u8_to_u16(self.data[2], self.data[3])
    }

    pub fn get_length(&self) -> (length: u16)
        ensures
            length == header_length(self@),
    {
        Utils::u8_to_u16(self.data[4], self.data[5])
    }

    pub fn get_unit_id(&self) -> (id: u8)
        ensures
            id == header_unit_id(self@),
    {
        self.data[6]
    }

    pub fn set_transaction_id(&mut self, value: u16)
        ensures
            final(self)@ == old(self)@.update(0, high_byte(value)).update(1, low_byte(value)),
    {
        let bytes: [u8; 2] = Utils::u16_to_u8(value);
        self.data[0] = bytes[0];
        self.data[1] = bytes[1];
    }

    pub fn set_protocol_id(&mut self, value: u16)
        ensures
            final(self)@ == old(self)@.update(2, high_byte(value)).update(3, low_byte(value)),
    {
        let bytes: [u8; 2] = Utils::u16_to_u8(value);
        self.data[2] = bytes[0];
        self.data[3] = bytes[1];
    }

    pub fn set_length(&mut self, value: u16)
        ensures
            final(self)@ == old(self)@.update(4, high_byte(value)).update(5, low_byte(value)),
    {
        let bytes: [u8; 2] = Utils::u16_to_u8(value);
        self.data[4] = bytes[0];
        self.data[5] = bytes[1];
    }

    pub fn set_unit_id(&mut self, value: u8)
        ensures
            final(self)@ == old(self)@.update(6, value),
    {
        self.data[6] = value;
    }
}

} // verus!
