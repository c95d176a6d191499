//! A Modbus/TCP frame: the seven-byte header followed by the protocol data
//! unit.

use vstd::prelude::*;
use crate::mbap::{header_is_valid, header_length, Mbap};
use crate::pdu::Pdu;
use crate::utils::{high_byte, low_byte};

verus! {

/// What a frame is: its header bytes and the bytes of its data unit.
pub struct FrameView {
    pub mbap: Seq<u8>,
    pub pdu: Seq<u8>,
}

/// The frame that stands for undecodable input: an all-zero header and an
/// empty data unit.
pub open spec fn default_frame() -> FrameView {
    FrameView { mbap: Seq::new(7, |i: int| 0u8), pdu: Seq::empty() }
}

/// The bytes of a frame on the wire: header, then data unit.
pub open spec fn frame_encode(frame: FrameView) -> Seq<u8> {
    frame.mbap + frame.pdu
}

/// The frame held in `bytes`: the first seven bytes are the header, the rest
/// is the data unit. Fewer than seven bytes give the default frame.
pub open spec fn frame_decode(bytes: Seq<u8>) -> FrameView {
    if bytes.len() < 7 {
        default_frame()
    } else {
        FrameView { mbap: bytes.subrange(0, 7), pdu: bytes.subrange(7, bytes.len() as int) }
    }
}

/// A frame is valid when its header has seven bytes and protocol id 0, and
/// its length field is the length of the data unit plus one (for the unit
/// id, which the field counts).
pub open spec fn frame_is_valid(frame: FrameView) -> bool {
    header_is_valid(frame.mbap) && header_length(frame.mbap) as int == frame.pdu.len() + 1
}

/// The length field that belongs to a data unit of `pdu_len` bytes. The
/// field has sixteen bits, so it holds the length plus one modulo 65536.
pub open spec fn length_field(pdu_len: nat) -> u16 {
    ((pdu_len + 1) % 65536) as u16
}

/// Header bytes with the length field replaced.
pub open spec fn with_length(mbap: Seq<u8>, length: u16) -> Seq<u8> {
    mbap.update(4, high_byte(length)).update(5, low_byte(length))
}

/// The frame with the header of `frame`, the data unit `pdu`, and the
/// length field that belongs to it.
pub open spec fn frame_with_pdu(frame: FrameView, pdu: Seq<u8>) -> FrameView {
    FrameView { mbap: with_length(frame.mbap, length_field(pdu.len())), pdu }
}

/// The name under which a function code is logged.
pub open spec fn function_name_of(function_code: Option<u8>) -> Seq<char> {
    match function_code {
        Some(0x01) => "Read coils"@,
        Some(0x02) => "Read discrete inputs"@,
        Some(0x03) => "Read holding registers"@,
        Some(0x04) => "Read input registers"@,
        Some(0x05) => "Write single coil"@,
        Some(0x06) => "Write single register"@,
        Some(0x0F) => "Write multiple coils"@,
        Some(0x10) => "Write multiple registers"@,
        Some(0x16) => "Mask write register"@,
        _ => "Unknown function code"@,
    }
}

/// A frame: the header and the data unit.
pub struct Frame {
    mbap: Mbap,
    pdu: Pdu,
}

impl View for Frame {
    type V = FrameView;

    closed spec fn view(&self) -> FrameView {
        FrameView { mbap: self.mbap@, pdu: self.pdu@ }
    }
}

impl Default for Frame {
    /// The all-zero header with an empty data unit; it is not valid.
    fn default() -> (frame: Self)
        ensures
            frame@ == default_frame(),
    {
        Frame { mbap: Mbap::default(), pdu: Pdu::from_bytes(Vec::new()) }
    }
}

impl Frame {
    /// The header of every frame has seven bytes.
    pub proof fn lemma_header_length(self)
        ensures
            self@.mbap.len() == 7,
    {
        self.mbap.lemma_length();
    }

    /// Decodes a frame. Input shorter than a header gives the default frame.
    pub fn from_bytes(data: Vec<u8>) -> (frame: Self)
        ensures
            frame@ == frame_decode(data@),
    {
        if data.len() < 7 {
            return Frame::default();
        }
        let mut rest: Vec<u8> = Vec::new();
        let mut pos: usize = 7;
        while pos < data.len()
            invariant
                7 <= pos <= data.len(),
                rest@ == data@.subrange(7, pos as int),
            decreases data.len() - pos,
        {
            rest.push(data[pos]);
            pos = pos + 1;
            assert(rest@ =~= data@.subrange(7, pos as int));
        }
        Frame { mbap: Mbap::from_bytes(data), pdu: Pdu::from_bytes(rest) }
    }

    /// Encodes the frame: header bytes, then the data unit.
    pub fn to_bytes(&self) -> (bytes: Vec<u8>)
        ensures
            bytes@ == frame_encode(self@),
    {
        let mut out: Vec<u8> = self.mbap.to_bytes();
        let pdu: &Vec<u8> = self.pdu.to_bytes();
        let mut pos: usize = 0;
        while pos < pdu.len()
            invariant
                pos <= pdu.len(),
                out@ == self.mbap@ + pdu@.subrange(0, pos as int),
            decreases pdu.len() - pos,
        {
            out.push(pdu[pos]);
            pos = pos + 1;
            assert(out@ =~= self.mbap@ + pdu@.subrange(0, pos as int));
        }
        assert(pdu@.subrange(0, pdu@.len() as int) =~= pdu@);
        out
    }

    /// Whether the header is acceptable and its length field matches the
    /// data unit.
    pub fn is_valid(&self) -> (valid: bool)
        ensures
            valid == frame_is_valid(self@),
    {
        let length: usize = self.mbap.get_length() as usize;
        let length_valid: bool = length >= 1 && length - 1 == self.pdu.to_bytes().len();
        self.mbap.is_valid() && length_valid
    }

    /// The name of the function that the frame asks for. A frame without
    /// a function code counts as one with an unknown code.
    pub fn function_name(&self) -> (name: &'static str)
        ensures
            name@ == function_name_of(
                if self@.pdu.len() > 0 {
                    Some(self@.pdu[0])
                } else {
                    None
                },
            ),
    {
        let pdu: &Vec<u8> = self.pdu.to_bytes();
        if pdu.len() == 0 {
            return "Unknown function code";
        }
        let function_code: u8 = pdu[0];
        if function_code == 0x01 {
            "Read coils"
        } else if function_code == 0x02 {
            "Read discrete inputs"
        } else if function_code == 0x03 {
            "Read holding registers"
        } else if function_code == 0x04 {
            "Read input registers"
        } else if function_code == 0x05 {
            "Write single coil"
        } else if function_code == 0x06 {
            "Write single register"
        } else if function_code == 0x0F {
            "Write multiple coils"
        } else if function_code == 0x10 {
            "Write multiple registers"
        } else if function_code == 0x16 {
            "Mask write register"
        } else {
            "Unknown function code"
        }
    }

    /// The header, for reading.
    pub fn mbap_ref(&self) -> (mbap: &Mbap)
        ensures
            mbap@ == self@.mbap,
    {
        &self.mbap
    }

    /// The data unit, for reading.
    pub fn pdu_ref(&self) -> (pdu: &Pdu)
        ensures
            pdu@ == self@.pdu,
    {
        &self.pdu
    }

    /// The header, for reading and changing.
    pub fn mbap(&mut self) -> (mbap: &mut Mbap)
        ensures
            mbap@ == old(self)@.mbap,
            final(self)@ == (FrameView { mbap: final(mbap)@, pdu: old(self)@.pdu }),
    {
        &mut self.mbap
    }

    /// The data unit, for reading and changing.
    pub fn pdu(&mut self) -> (pdu: &mut Pdu)
        ensures
            pdu@ == old(self)@.pdu,
            final(self)@ == (FrameView { mbap: old(self)@.mbap, pdu: final(pdu)@ }),
    {
        &mut self.pdu
    }

    /// Replaces the data unit and sets the length field to match it.
    pub fn set_pdu(&mut self, data: Vec<u8>)
        ensures
            final(self)@ == frame_with_pdu(old(self)@, data@),
    {
        let len: usize = data.len();
        let low: usize = len % 65536;
        let field: u16 = if low == 65535 {
            0
        } else {
            (low + 1) as u16
        };
        assert(field == length_field(data@.len()));
        self.pdu = Pdu::from_bytes(data);
        self.mbap.set_length(field);
    }
}

/// Decoding an encoded frame gives the frame back.
pub proof fn lemma_frame_roundtrip(frame: FrameView)
    requires
        frame.mbap.len() == 7,
    ensures
        frame_decode(frame_encode(frame)) == frame,
{
    let bytes = frame_encode(frame);
    assert(bytes.subrange(0, 7) =~= frame.mbap);
    assert(bytes.subrange(7, bytes.len() as int) =~= frame.pdu);
}

/// A frame whose data unit was set with its matching length field is valid
/// whenever the header names protocol 0 and the unit is short enough for
/// the length field.
pub proof fn lemma_frame_with_pdu_valid(frame: FrameView, pdu: Seq<u8>)
    requires
        header_is_valid(frame.mbap),
        pdu.len() <= 65534,
    ensures
        frame_is_valid(frame_with_pdu(frame, pdu)),
{
    let length = length_field(pdu.len());
    assert(crate::utils::word_of(high_byte(length), low_byte(length)) == length);
}

} // verus!
