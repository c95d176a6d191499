//! The receiving side of the Modbus link: what is done with each packet
//! that arrives.
//!
//! Every packet may arrive more than once. A packet is taken for a repeat,
//! and dropped, when its identifier is the one last seen.

use vstd::prelude::*;
use crate::data_packet::{packet_decode, packet_encode, DataPacket, DataType, PacketView};
use crate::frame::{frame_decode, frame_encode, frame_is_valid, Frame, FrameView};
use crate::modbus_databank::{
    databank_is_wf, lemma_read_after_write, read_range, write_range, DatabankView, ModbusDatabank,
};
use crate::poller::{bit_report, register_report};
use crate::utils::{word_of, Utils};

verus! {

/// The identifier last seen for each of the four types of data. All are 0
/// at first.
pub struct Replayer {
    last_coil_packet_id: u16,
    last_input_packet_id: u16,
    last_holding_register_packet_id: u16,
    last_input_register_packet_id: u16,
}

/// What a replayer remembers.
pub struct ReplayerView {
    pub last_coil: u16,
    pub last_input: u16,
    pub last_holding_register: u16,
    pub last_input_register: u16,
}

impl View for Replayer {
    type V = ReplayerView;

    closed spec fn view(&self) -> ReplayerView {
        ReplayerView {
            last_coil: self.last_coil_packet_id,
            last_input: self.last_input_packet_id,
            last_holding_register: self.last_holding_register_packet_id,
            last_input_register: self.last_input_register_packet_id,
        }
    }
}

/// Whether a packet carries one of the four types of data, with a value
/// long enough for it: address and status for a flag, address and word for
/// a register.
pub open spec fn carries_data(packet: PacketView) -> bool {
    match packet.datatype {
        DataType::CoilValue | DataType::InputValue => packet.value.len() >= 3,
        DataType::HoldingRegisterValue | DataType::InputRegisterValue => packet.value.len() >= 4,
        _ => false,
    }
}

/// The identifier last seen for the type of a packet that carries data.
pub open spec fn last_seen(state: ReplayerView, datatype: DataType) -> u16 {
    match datatype {
        DataType::CoilValue => state.last_coil,
        DataType::InputValue => state.last_input,
        DataType::HoldingRegisterValue => state.last_holding_register,
        _ => state.last_input_register,
    }
}

/// A packet is applied when it carries data and its identifier differs
/// from the one last seen for its type.
pub open spec fn is_applied(state: ReplayerView, packet: PacketView) -> bool {
    carries_data(packet) && packet.id != last_seen(state, packet.datatype)
}

/// What the replayer remembers after a packet: the identifier of the
/// packet for its type, if the packet is applied.
pub open spec fn state_after(state: ReplayerView, packet: PacketView) -> ReplayerView {
    if !is_applied(state, packet) {
        state
    } else {
        match packet.datatype {
            DataType::CoilValue => ReplayerView { last_coil: packet.id, ..state },
            DataType::InputValue => ReplayerView { last_input: packet.id, ..state },
            DataType::HoldingRegisterValue => ReplayerView {
                last_holding_register: packet.id,
                ..state
            },
            _ => ReplayerView { last_input_register: packet.id, ..state },
        }
    }
}

/// The address that a data packet names.
pub open spec fn packet_address(packet: PacketView) -> u16 {
    word_of(packet.value[0], packet.value[1])
}

/// The databank after a packet that is applied: the one unit that the
/// packet names holds what the packet carries.
pub open spec fn bank_written(bank: DatabankView, packet: PacketView) -> DatabankView {
    match packet.datatype {
        DataType::CoilValue => DatabankView {
            coils: write_range(bank.coils, packet_address(packet), seq![packet.value[2] != 0]),
            ..bank
        },
        DataType::InputValue => DatabankView {
            inputs: write_range(bank.inputs, packet_address(packet), seq![packet.value[2] != 0]),
            ..bank
        },
        DataType::HoldingRegisterValue => DatabankView {
            holding_registers: write_range(
                bank.holding_registers,
                packet_address(packet),
                seq![word_of(packet.value[2], packet.value[3])],
            ),
            ..bank
        },
        _ => DatabankView {
            input_registers: write_range(
                bank.input_registers,
                packet_address(packet),
                seq![word_of(packet.value[2], packet.value[3])],
            ),
            ..bank
        },
    }
}

/// The databank after a packet.
pub open spec fn bank_after(state: ReplayerView, bank: DatabankView, packet: PacketView) -> DatabankView {
    if is_applied(state, packet) {
        bank_written(bank, packet)
    } else {
        bank
    }
}

impl Replayer {
    /// A replayer that has seen identifier 0 for every type.
    pub fn new() -> (replayer: Self)
        ensures
            replayer@ == (ReplayerView {
                last_coil: 0,
                last_input: 0,
                last_holding_register: 0,
                last_input_register: 0,
            }),
    {
        Replayer {
            last_coil_packet_id: 0,
            last_input_packet_id: 0,
            last_holding_register_packet_id: 0,
            last_input_register_packet_id: 0,
        }
    }

    /// Takes a packet: writes what it carries into the databank and
    /// remembers its identifier, unless it is a repeat or carries no data.
    /// Says whether the packet was applied.
    pub fn apply(&mut self, databank: &mut ModbusDatabank, packet: &DataPacket) -> (applied: bool)
        requires
            old(databank).wf(),
        ensures
            final(databank).wf(),
            applied == is_applied(old(self)@, packet@),
            final(self)@ == state_after(old(self)@, packet@),
            final(databank)@ == bank_after(old(self)@, old(databank)@, packet@),
    {
        let value: &Vec<u8> = packet.get_value();
        let id: u16 = packet.get_id();
        match packet.datatype {
            DataType::CoilValue => {
                if value.len() < 3 || id == self.last_coil_packet_id {
                    return false;
                }
                let address: u16 = Utils::u8_to_u16(value[0], value[1]);
                let mut status: Vec<bool> = Vec::new();
                status.push(value[2] != 0);
                assert(status@ =~= seq![value@[2] != 0]);
                databank.write_coils(address, status);
                self.last_coil_packet_id = id;
                true
            },
            DataType::InputValue => {
                if value.len() < 3 || id == self.last_input_packet_id {
                    return false;
                }
                let address: u16 = Utils::u8_to_u16(value[0], value[1]);
                let mut status: Vec<bool> = Vec::new();
                status.push(value[2] != 0);
                assert(status@ =~= seq![value@[2] != 0]);
                databank.write_inputs(address, status);
                self.last_input_packet_id = id;
                true
            },
            DataType::HoldingRegisterValue => {
                if value.len() < 4 || id == self.last_holding_register_packet_id {
                    return false;
                }
                let address: u16 = Utils::u8_to_u16(value[0], value[1]);
                let mut register: Vec<u16> = Vec::new();
                register.push(Utils::u8_to_u16(value[2], value[3]));
                assert(register@ =~= seq![word_of(value@[2], value@[3])]);
                databank.write_holding_registers(address, register);
                self.last_holding_register_packet_id = id;
                true
            },
            DataType::InputRegisterValue => {
                if value.len() < 4 || id == self.last_input_register_packet_id {
                    return false;
                }
                let address: u16 = Utils::u8_to_u16(value[0], value[1]);
                let mut register: Vec<u16> = Vec::new();
                register.push(Utils::u8_to_u16(value[2], value[3]));
                assert(register@ =~= seq![word_of(value@[2], value@[3])]);
                databank.write_input_registers(address, register);
                self.last_input_register_packet_id = id;
                true
            },
            _ => false,
        }
    }

    /// Takes a packet as it came off the ring.
    pub fn apply_bytes(&mut self, databank: &mut ModbusDatabank, data: Vec<u8>) -> (applied: bool)
        requires
            old(databank).wf(),
        ensures
            final(databank).wf(),
            applied == is_applied(old(self)@, packet_decode(data@)),
            final(self)@ == state_after(old(self)@, packet_decode(data@)),
            final(databank)@ == bank_after(old(self)@, old(databank)@, packet_decode(data@)),
    {
        let packet: DataPacket = DataPacket::from_bytes(data);
        self.apply(databank, &packet)
    }
}

/// The receiving side in write mode: sends each command that arrives on
/// to the device, once.
pub struct CommandForwarder {
    latest_packet_id: u16,
}

impl View for CommandForwarder {
    type V = u16;

    closed spec fn view(&self) -> u16 {
        self.latest_packet_id
    }
}

/// Whether the bytes off the ring are a packet to look at: there are some,
/// and the identifier of the packet differs from the one last seen.
pub open spec fn is_new_packet(latest: u16, bytes: Seq<u8>) -> bool {
    bytes.len() > 0 && packet_decode(bytes).id != latest
}

/// Whether the bytes off the ring are a command to send on: a new packet
/// that carries a Modbus command whose frame is valid.
pub open spec fn is_command(latest: u16, bytes: Seq<u8>) -> bool {
    is_new_packet(latest, bytes) && packet_decode(bytes).datatype == DataType::ModbusCommand
        && frame_is_valid(frame_decode(packet_decode(bytes).value))
}

impl CommandForwarder {
    /// A forwarder that has seen identifier 0.
    pub fn new() -> (forwarder: Self)
        ensures
            forwarder@ == 0,
    {
        CommandForwarder { latest_packet_id: 0 }
    }

    /// Takes the bytes of one read of the ring. Gives the frame to send to
    /// the device, if the bytes are a command to send on, and remembers the
    /// identifier of every new packet.
    pub fn accept(&mut self, data: Vec<u8>) -> (command: Option<Vec<u8>>)
        ensures
            command is Some == is_command(old(self)@, data@),
            command is Some ==> command.unwrap()@ == frame_encode(
                frame_decode(packet_decode(data@).value),
            ),
            final(self)@ == if is_new_packet(old(self)@, data@) {
                packet_decode(data@).id
            } else {
                old(self)@
            },
    {
        if data.len() == 0 {
            return None;
        }
        let packet: DataPacket = DataPacket::from_bytes(data);
        if packet.get_id() == self.latest_packet_id {
            return None;
        }
        self.latest_packet_id = packet.get_id();
        if packet.datatype != DataType::ModbusCommand {
            return None;
        }
        let DataPacket { datatype, id, value } = packet;
        let frame: Frame = Frame::from_bytes(value);
        if frame.is_valid() {
            Some(frame.to_bytes())
        } else {
            None
        }
    }
}

/// A packet fed twice in succession changes the state at most once: the
/// second time it is dropped, and nothing changes.
pub proof fn lemma_repeat_is_dropped(state: ReplayerView, bank: DatabankView, packet: PacketView)
    ensures
        !is_applied(state_after(state, packet), packet),
        state_after(state_after(state, packet), packet) == state_after(state, packet),
        bank_after(state_after(state, packet), bank_after(state, bank, packet), packet)
            == bank_after(state, bank, packet),
{
}

/// Identifiers are kept per type: a packet that is applied does not make
/// a packet of another type with the same identifier a repeat.
pub proof fn lemma_types_are_independent(state: ReplayerView, first: PacketView, second: PacketView)
    requires
        carries_data(first),
        carries_data(second),
        first.datatype != second.datatype,
        first.id == second.id,
        is_applied(state, first),
        is_applied(state, second),
    ensures
        is_applied(state_after(state, first), second),
{
}

/// A command crosses the link unchanged: the packet that carries a valid
/// frame under an identifier other than the one last seen is a command to
/// send on, and the bytes sent on are the bytes of the frame.
pub proof fn lemma_command_crosses_the_link(request: FrameView, id: u16, latest: u16)
    requires
        frame_is_valid(request),
        id != latest,
    ensures
        ({
            let bytes = packet_encode(
                PacketView {
                    datatype: DataType::ModbusCommand,
                    id,
                    value: frame_encode(request),
                },
            );
            &&& is_command(latest, bytes)
            &&& frame_encode(frame_decode(packet_decode(bytes).value)) == frame_encode(request)
        }),
{
    let packet = PacketView {
        datatype: DataType::ModbusCommand,
        id,
        value: frame_encode(request),
    };
    crate::data_packet::lemma_packet_roundtrip(packet);
    crate::frame::lemma_frame_roundtrip(request);
}

/// A polled flag crosses the link: the packet that reports a coil or a
/// discrete input under an identifier other than the one last seen for its
/// type is applied, and the unit then reads as reported.
pub proof fn lemma_polled_flag_is_replayed(
    state: ReplayerView,
    bank: DatabankView,
    datatype: DataType,
    address: u16,
    status: bool,
    id: u16,
)
    requires
        databank_is_wf(bank),
        datatype == DataType::CoilValue || datatype == DataType::InputValue,
        id != last_seen(state, datatype),
    ensures
        ({
            let packet = PacketView { datatype, id, value: bit_report(address, status) };
            let after = bank_after(state, bank, packet);
            &&& is_applied(state, packet)
            &&& databank_is_wf(after)
            &&& datatype == DataType::CoilValue ==> read_range(after.coils, address, 1)
                == seq![status]
            &&& datatype == DataType::InputValue ==> read_range(after.inputs, address, 1)
                == seq![status]
        }),
{
    let packet = PacketView { datatype, id, value: bit_report(address, status) };
    assert(packet_address(packet) == address);
    assert((packet.value[2] != 0) == status);
    lemma_read_after_write(bank.coils, address, seq![status]);
    lemma_read_after_write(bank.inputs, address, seq![status]);
}

/// A polled register crosses the link: the packet that reports a holding
/// or an input register under an identifier other than the one last seen
/// for its type is applied, and the register then reads as reported.
pub proof fn lemma_polled_register_is_replayed(
    state: ReplayerView,
    bank: DatabankView,
    datatype: DataType,
    address: u16,
    value: u16,
    id: u16,
)
    requires
        databank_is_wf(bank),
        datatype == DataType::HoldingRegisterValue || datatype == DataType::InputRegisterValue,
        id != last_seen(state, datatype),
    ensures
        ({
            let packet = PacketView { datatype, id, value: register_report(address, value) };
            let after = bank_after(state, bank, packet);
            &&& is_applied(state, packet)
            &&& databank_is_wf(after)
            &&& datatype == DataType::HoldingRegisterValue ==> read_range(
                after.holding_registers,
                address,
                1,
            ) == seq![value]
            &&& datatype == DataType::InputRegisterValue ==> read_range(
                after.input_registers,
                address,
                1,
            ) == seq![value]
        }),
{
    let packet = PacketView { datatype, id, value: register_report(address, value) };
    assert(packet_address(packet) == address);
    assert(word_of(packet.value[2], packet.value[3]) == value);
    lemma_read_after_write(bank.holding_registers, address, seq![value]);
    lemma_read_after_write(bank.input_registers, address, seq![value]);
}

} // verus!
