//! The Modbus server, one request at a time: whether a request is sent on
//! across the link, and what is answered.
//!
//! The server answers every request from its own databank. On the source
//! side of a write-mode link it also sends on every request that is not a
//! local read, wrapped in a packet, before it answers.

use vstd::prelude::*;
use crate::data_packet::{DataPacket, DataType, PACKET_ID_LIMIT};
use crate::frame::{
    frame_encode, frame_is_valid, frame_with_pdu, length_field, Frame, FrameView,
};
use crate::modbus_databank::{databank_is_wf, range_ok, read_range, DatabankView};
use crate::random::random_below;
use crate::request_handler::{
    failure_reply, handle_effect, handle_reply, read_write_multiple_registers_effect,
    request_is_complete, RequestHandler,
};
use crate::utils::{high_byte, low_byte, word_of};

verus! {

/// The functions that are answered locally and never sent on: the reads
/// and the diagnostics.
pub open spec fn is_local_function(function_code: u8) -> bool {
    function_code == 0x01 || function_code == 0x02 || function_code == 0x03 || function_code
        == 0x04 || function_code == 0x07 || function_code == 0x08 || function_code == 0x0B
        || function_code == 0x0C || function_code == 0x11 || function_code == 0x14
        || function_code == 0x18 || function_code == 0x2B
}

/// A request is served when its frame is valid and its data unit has every
/// field that its function reads.
pub open spec fn request_is_served(request: FrameView) -> bool {
    frame_is_valid(request) && request_is_complete(request.pdu)
}

/// A request is sent on when the server forwards, the request is served,
/// and its function is not a local one.
pub open spec fn request_is_forwarded(forwarding: bool, request: FrameView) -> bool {
    forwarding && request_is_served(request) && !is_local_function(request.pdu[0])
}

/// The answer to a request: the handler's answer if the request is served,
/// a server device failure if not.
pub open spec fn server_reply(bank: DatabankView, request: FrameView) -> FrameView {
    if request_is_served(request) {
        frame_with_pdu(request, handle_reply(bank, request.pdu))
    } else {
        frame_with_pdu(request, failure_reply(request.pdu))
    }
}

/// The databank after a request: changed by the handler if the request is
/// served, untouched if not.
pub open spec fn server_effect(bank: DatabankView, request: FrameView) -> DatabankView {
    if request_is_served(request) {
        handle_effect(bank, request.pdu)
    } else {
        bank
    }
}

/// The most bytes that the server reads for one request.
pub const REQUEST_BUFFER_SIZE: usize = 4096;

/// What the server sends back, and whether it then closes the connection.
pub struct ServerReply {
    pub bytes: Vec<u8>,
    pub close: bool,
}

/// A Modbus server. `forwarding` says whether requests are sent on across
/// the link; `response_delay` is the pause in milliseconds before each
/// answer.
pub struct ModbusServer {
    pub host: String,
    pub handler: RequestHandler,
    pub forwarding: bool,
    pub response_delay: u64,
}

impl ModbusServer {
    /// Whether a function is answered locally and never sent on.
    pub fn is_local(function_code: u8) -> (local: bool)
        ensures
            local == is_local_function(function_code),
    {
        function_code == 0x01 || function_code == 0x02 || function_code == 0x03 || function_code
            == 0x04 || function_code == 0x07 || function_code == 0x08 || function_code == 0x0B
            || function_code == 0x0C || function_code == 0x11 || function_code == 0x14
            || function_code == 0x18 || function_code == 0x2B
    }

    /// Whether the request is served: valid, with every field of its
    /// function.
    pub fn is_served(request: &Frame) -> (served: bool)
        ensures
            served == request_is_served(request@),
    {
        request.is_valid() && RequestHandler::is_complete(request)
    }

    /// Whether the request is sent on across the link.
    pub fn is_forwarded(&self, request: &Frame) -> (forwarded: bool)
        ensures
            forwarded == request_is_forwarded(self.forwarding, request@),
    {
        self.forwarding && ModbusServer::is_served(request) && !ModbusServer::is_local(
            request.pdu_ref().get_function_code(),
        )
    }

    /// The packet that carries the request across the link under the given
    /// identifier, if the request is sent on.
    pub fn forward_with_id(&self, request: &Frame, id: u16) -> (packet: Option<DataPacket>)
        ensures
            packet is Some == request_is_forwarded(self.forwarding, request@),
            packet is Some ==> packet.unwrap()@ == (crate::data_packet::PacketView {
                datatype: DataType::ModbusCommand,
                id,
                value: frame_encode(request@),
            }),
    {
        if self.is_forwarded(request) {
            Some(DataPacket::new(DataType::ModbusCommand, request.to_bytes(), id))
        } else {
            None
        }
    }

    /// The packet that carries the request across the link, if the request
    /// is sent on. Its identifier is drawn at random from 0 up to, and
    /// without, `PACKET_ID_LIMIT`.
    pub fn forward(&self, request: &Frame) -> (packet: Option<DataPacket>)
        ensures
            packet is Some == request_is_forwarded(self.forwarding, request@),
            packet is Some ==> {
                &&& packet.unwrap()@.datatype == DataType::ModbusCommand
                &&& packet.unwrap()@.value == frame_encode(request@)
                &&& packet.unwrap()@.id < PACKET_ID_LIMIT
            },
    {
        if self.is_forwarded(request) {
            self.forward_with_id(request, random_below(PACKET_ID_LIMIT))
        } else {
            None
        }
    }

    /// Answers a request. A request that is served is handled against the
    /// databank; any other gets a server device failure, and the connection
    /// is closed after it.
    pub fn respond(&mut self, request: Frame) -> (reply: ServerReply)
        requires
            old(self).handler.databank.wf(),
        ensures
            final(self).handler.databank.wf(),
            final(self).handler.databank@ == server_effect(
                old(self).handler.databank@,
                request@,
            ),
            reply.bytes@ == frame_encode(server_reply(old(self).handler.databank@, request@)),
            reply.close == !request_is_served(request@),
            final(self).host == old(self).host,
            final(self).forwarding == old(self).forwarding,
            final(self).response_delay == old(self).response_delay,
    {
        if ModbusServer::is_served(&request) {
            let response: Frame = self.handler.handle(request);
            ServerReply { bytes: response.to_bytes(), close: false }
        } else {
            let response: Frame = RequestHandler::server_device_failure(request);
            ServerReply { bytes: response.to_bytes(), close: true }
        }
    }
}

/// Whether a request is a read of more registers than one answer can
/// carry. The length field of a frame has sixteen bits, so a data unit has
/// at most 65534 bytes, and an answer with its two leading bytes has room
/// for 32766 registers.
pub open spec fn asks_too_many_registers(pdu: Seq<u8>) -> bool {
    &&& pdu.len() >= 5
    &&& pdu[0] == 0x03 || pdu[0] == 0x04 || pdu[0] == 0x17
    &&& word_of(pdu[3], pdu[4]) > 32766
    &&& range_ok(word_of(pdu[1], pdu[2]), word_of(pdu[3], pdu[4]) as int)
}

/// The answer to a request that is served is a valid frame, with one
/// exception: a read of more than 32766 registers that lie inside the
/// address space is answered with all of them, and the length field cannot
/// say how long that answer is.
pub proof fn lemma_answer_is_valid(bank: DatabankView, request: FrameView)
    requires
        databank_is_wf(bank),
        request_is_served(request),
    ensures
        frame_is_valid(server_reply(bank, request)) <==> !asks_too_many_registers(request.pdu),
        frame_is_valid(server_reply(bank, request)) <==> handle_reply(bank, request.pdu).len()
            <= 65534,
{
    let pdu = request.pdu;
    let reply = handle_reply(bank, pdu);
    let length = length_field(reply.len());
    assert(word_of(high_byte(length), low_byte(length)) == length);
    assert(pdu.len() <= 65534);
    if pdu[0] == 0x01 || pdu[0] == 0x02 {
        let cells = if pdu[0] == 0x01 {
            bank.coils
        } else {
            bank.inputs
        };
        let data = read_range(cells, word_of(pdu[1], pdu[2]), word_of(pdu[3], pdu[4]) as int);
        assert(reply.len() <= 2 + 8192);
    } else if pdu[0] == 0x03 || pdu[0] == 0x04 {
        let cells = if pdu[0] == 0x03 {
            bank.holding_registers
        } else {
            bank.input_registers
        };
        let data = read_range(cells, word_of(pdu[1], pdu[2]), word_of(pdu[3], pdu[4]) as int);
        assert(data.len() > 0 ==> reply.len() == 2 + 2 * data.len());
    } else if pdu[0] == 0x17 {
        let cells = read_write_multiple_registers_effect(bank, pdu).holding_registers;
        assert(cells.len() == 65536);
        let data = read_range(cells, word_of(pdu[1], pdu[2]), word_of(pdu[3], pdu[4]) as int);
        assert(data.len() > 0 ==> reply.len() == 2 + 2 * data.len());
    }
}

} // verus!
