//! The envelope in which Modbus data crosses the one-way link: a type byte,
//! a two-byte identifier, and the value.

use vstd::prelude::*;
use crate::byte_order::{append_bytes, copy_range};
use crate::utils::{high_byte, low_byte, word_of, Utils};

verus! {

/// Identifiers of packets are drawn from 0 up to, and without, this limit.
pub const PACKET_ID_LIMIT: u16 = 65535;

/// What a packet carries.
#[derive(Copy, Clone, PartialEq, Eq, Debug, Structural)]
pub enum DataType {
    ModbusCommand,
    CoilValue,
    InputValue,
    HoldingRegisterValue,
    InputRegisterValue,
    Undefined,
}

/// A packet. The identifier is the only key by which a receiver tells a
/// repeated packet from a new one.
#[derive(Debug)]
pub struct DataPacket {
    pub datatype: DataType,
    pub id: u16,
    pub value: Vec<u8>,
}

/// What a packet is.
pub struct PacketView {
    pub datatype: DataType,
    pub id: u16,
    pub value: Seq<u8>,
}

impl View for DataPacket {
    type V = PacketView;

    open spec fn view(&self) -> PacketView {
        PacketView { datatype: self.datatype, id: self.id, value: self.value@ }
    }
}

/// The byte that stands for a type on the wire.
pub open spec fn data_type_byte(datatype: DataType) -> u8 {
    match datatype {
        DataType::ModbusCommand => 0,
        DataType::CoilValue => 1,
        DataType::InputValue => 2,
        DataType::HoldingRegisterValue => 3,
        DataType::InputRegisterValue => 4,
        DataType::Undefined => 255,
    }
}

/// The type that a byte stands for; every byte above 4 is undefined.
pub open spec fn data_type_of_byte(byte: u8) -> DataType {
    if byte == 0 {
        DataType::ModbusCommand
    } else if byte == 1 {
        DataType::CoilValue
    } else if byte == 2 {
        DataType::InputValue
    } else if byte == 3 {
        DataType::HoldingRegisterValue
    } else if byte == 4 {
        DataType::InputRegisterValue
    } else {
        DataType::Undefined
    }
}

/// The packet that stands for undecodable input.
pub open spec fn default_packet() -> PacketView {
    PacketView { datatype: DataType::Undefined, id: 0, value: Seq::empty() }
}

/// A packet on the wire: type byte, identifier big-endian, value.
pub open spec fn packet_encode(packet: PacketView) -> Seq<u8> {
    seq![data_type_byte(packet.datatype), high_byte(packet.id), low_byte(packet.id)]
        + packet.value
}

/// The packet held in bytes. Fewer than three bytes give the default
/// packet.
pub open spec fn packet_decode(bytes: Seq<u8>) -> PacketView {
    if bytes.len() < 3 {
        default_packet()
    } else {
        PacketView {
            datatype: data_type_of_byte(bytes[0]),
            id: word_of(bytes[1], bytes[2]),
            value: bytes.subrange(3, bytes.len() as int),
        }
    }
}

impl Default for DataPacket {
    fn default() -> (packet: Self)
        ensures
            packet@ == default_packet(),
    {
        DataPacket { datatype: DataType::Undefined, id: 0, value: Vec::new() }
    }
}

impl DataPacket {
    pub fn new(datatype: DataType, data: Vec<u8>, id: u16) -> (packet: Self)
        ensures
            packet@ == (PacketView { datatype, id, value: data@ }),
    {
        DataPacket { value: data, datatype, id }
    }

    pub fn get_id(&self) -> (id: u16)
        ensures
            id == self@.id,
    {
        self.id
    }

    pub fn get_value(&self) -> (value: &Vec<u8>)
        ensures
            value@ == self@.value,
    {
        &self.value
    }

    /// Decodes a packet. Input shorter than three bytes gives the default
    /// packet, whose type is undefined.
    pub fn from_bytes(data: Vec<u8>) -> (packet: Self)
        ensures
            packet@ == packet_decode(data@),
    {
        if data.len() < 3 {
            return DataPacket::default();
        }
        let code: u8 = data[0];
        let datatype: DataType = if code == 0 {
            DataType::ModbusCommand
        } else if code == 1 {
            DataType::CoilValue
        } else if code == 2 {
            DataType::InputValue
        } else if code == 3 {
            DataType::HoldingRegisterValue
        } else if code == 4 {
            DataType::InputRegisterValue
        } else {
            DataType::Undefined
        };
        let id: u16 = Utils::u8_to_u16(data[1], data[2]);
        let value: Vec<u8> = copy_range(data.as_slice(), 3, data.len());
        DataPacket { datatype, id, value }
    }

    /// Encodes the packet for the wire.
    pub fn to_bytes(&self) -> (bytes: Vec<u8>)
        ensures
            bytes@ == packet_encode(self@),
    {
        let mut out: Vec<u8> = Vec::new();
        let code: u8 = match self.datatype {
            DataType::ModbusCommand => 0,
            DataType::CoilValue => 1,
            DataType::InputValue => 2,
            DataType::HoldingRegisterValue => 3,
            DataType::InputRegisterValue => 4,
            DataType::Undefined => 255,
        };
        let id: [u8; 2] = Utils::u16_to_u8(self.id);
        out.push(code);
        out.push(id[0]);
        out.push(id[1]);
        append_bytes(&mut out, self.value.as_slice());
        assert(out@ =~= packet_encode(self@));
        out
    }
}

/// Decoding an encoded packet gives the packet back, whatever its type,
/// identifier and value.
pub proof fn lemma_packet_roundtrip(packet: PacketView)
    ensures
        packet_decode(packet_encode(packet)) == packet,
{
    let bytes = packet_encode(packet);
    assert(bytes.subrange(3, bytes.len() as int) =~= packet.value);
    assert(word_of(high_byte(packet.id), low_byte(packet.id)) == packet.id);
}

} // verus!
