//! The server side of Modbus: what a request does to the databank and what
//! is answered.

use vstd::prelude::*;
use crate::byte_order::{append_bytes, copy_range};
use crate::frame::{frame_with_pdu, Frame, FrameView};
use crate::mbap::{header_protocol_id, header_transaction_id, header_unit_id};
use crate::modbus_databank::{
    databank_is_wf, range_ok, read_range, write_range, DatabankView, ModbusDatabank,
};
use crate::pdu::{exception_function_code, mark_exception};
use crate::utils::{bytes_to_words, pack_bits, unpack_bits, word_of, words_to_bytes, Utils};

verus! {

/// Exception code: the function is not known to the server.
pub const ILLEGAL_FUNCTION: u8 = 0x01;

/// Exception code: the request reaches outside the address space, or asks
/// for a value that the function does not take.
pub const ILLEGAL_DATA_ADDRESS: u8 = 0x02;

/// Exception code: the server could not make sense of the request.
pub const SERVER_DEVICE_FAILURE: u8 = 0x04;

/// The data unit of an exception response.
pub open spec fn exception_pdu(function_code: u8, code: u8) -> Seq<u8> {
    seq![exception_function_code(function_code), code]
}

/// The function code of a data unit; an empty unit counts as function 0.
pub open spec fn function_code_of(pdu: Seq<u8>) -> u8 {
    if pdu.len() > 0 {
        pdu[0]
    } else {
        0
    }
}

/// The answer to a request that is too short for its function.
pub open spec fn failure_reply(pdu: Seq<u8>) -> Seq<u8> {
    exception_pdu(function_code_of(pdu), SERVER_DEVICE_FAILURE)
}

/// The answer to a request for an unknown function.
pub open spec fn not_implemented_reply(pdu: Seq<u8>) -> Seq<u8> {
    exception_pdu(function_code_of(pdu), ILLEGAL_FUNCTION)
}

/// The low eight bits of a length, as the byte count of a response.
pub open spec fn byte_count(len: nat) -> u8 {
    (len % 256) as u8
}

/// The answer to a read of flags: function code, byte count and the packed
/// flags; an exception when the range is not accepted.
pub open spec fn bits_reply(pdu: Seq<u8>, cells: Seq<bool>) -> Seq<u8> {
    if pdu.len() < 5 {
        failure_reply(pdu)
    } else {
        let data = read_range(cells, word_of(pdu[1], pdu[2]), word_of(pdu[3], pdu[4]) as int);
        if data.len() > 0 {
            seq![pdu[0], byte_count(pack_bits(data).len())] + pack_bits(data)
        } else {
            exception_pdu(pdu[0], ILLEGAL_DATA_ADDRESS)
        }
    }
}

/// The answer to a read of registers: function code, byte count and the
/// registers big-endian; an exception when the range is not accepted.
pub open spec fn words_reply(pdu: Seq<u8>, cells: Seq<u16>) -> Seq<u8> {
    if pdu.len() < 5 {
        failure_reply(pdu)
    } else {
        let data = read_range(cells, word_of(pdu[1], pdu[2]), word_of(pdu[3], pdu[4]) as int);
        if data.len() > 0 {
            seq![pdu[0], byte_count(words_to_bytes(data).len())] + words_to_bytes(data)
        } else {
            exception_pdu(pdu[0], ILLEGAL_DATA_ADDRESS)
        }
    }
}

/// Whether the value of a Write Single Coil request is one of the two that
/// the function takes.
pub open spec fn coil_value_ok(value: u16) -> bool {
    value == 0x0000 || value == 0xFF00
}

/// Write Single Coil: the request is echoed; an exception when the value is
/// neither 0x0000 nor 0xFF00.
pub open spec fn write_single_coil_reply(pdu: Seq<u8>) -> Seq<u8> {
    if pdu.len() < 5 {
        failure_reply(pdu)
    } else if coil_value_ok(word_of(pdu[3], pdu[4])) {
        pdu
    } else {
        exception_pdu(pdu[0], ILLEGAL_DATA_ADDRESS)
    }
}

/// Write Single Coil: the coil is on after 0xFF00 and off after 0x0000.
pub open spec fn write_single_coil_effect(bank: DatabankView, pdu: Seq<u8>) -> DatabankView {
    if pdu.len() >= 5 && coil_value_ok(word_of(pdu[3], pdu[4])) {
        DatabankView {
            coils: write_range(
                bank.coils,
                word_of(pdu[1], pdu[2]),
                seq![word_of(pdu[3], pdu[4]) == 0xFF00],
            ),
            ..bank
        }
    } else {
        bank
    }
}

/// Write Single Register: the request is echoed.
pub open spec fn write_single_register_reply(pdu: Seq<u8>) -> Seq<u8> {
    if pdu.len() < 5 {
        failure_reply(pdu)
    } else {
        pdu
    }
}

/// Write Single Register: the register holds the value.
pub open spec fn write_single_register_effect(bank: DatabankView, pdu: Seq<u8>) -> DatabankView {
    if pdu.len() >= 5 {
        DatabankView {
            holding_registers: write_range(
                bank.holding_registers,
                word_of(pdu[1], pdu[2]),
                seq![word_of(pdu[3], pdu[4])],
            ),
            ..bank
        }
    } else {
        bank
    }
}

/// Whether a Write Multiple Coils request carries the bytes for the coils
/// it counts.
pub open spec fn coils_request_is_complete(pdu: Seq<u8>) -> bool {
    pdu.len() >= 6 && word_of(pdu[3], pdu[4]) <= 8 * (pdu.len() - 6)
}

/// The coils that a Write Multiple Coils request carries.
pub open spec fn coils_of_request(pdu: Seq<u8>) -> Seq<bool> {
    unpack_bits(pdu.subrange(6, pdu.len() as int), word_of(pdu[3], pdu[4]) as nat)
}

/// Write Multiple Coils: function code, start and count are echoed; an
/// exception when the range is not accepted.
pub open spec fn write_multiple_coils_reply(pdu: Seq<u8>) -> Seq<u8> {
    if !coils_request_is_complete(pdu) {
        failure_reply(pdu)
    } else if range_ok(word_of(pdu[1], pdu[2]), word_of(pdu[3], pdu[4]) as int) {
        pdu.subrange(0, 5)
    } else {
        exception_pdu(pdu[0], ILLEGAL_DATA_ADDRESS)
    }
}

/// Write Multiple Coils: the coils of the range hold the flags sent.
pub open spec fn write_multiple_coils_effect(bank: DatabankView, pdu: Seq<u8>) -> DatabankView {
    if coils_request_is_complete(pdu) {
        DatabankView {
            coils: write_range(bank.coils, word_of(pdu[1], pdu[2]), coils_of_request(pdu)),
            ..bank
        }
    } else {
        bank
    }
}

/// The registers that a request carries from byte `from` of its data unit
/// on.
pub open spec fn registers_of_request(pdu: Seq<u8>, from: int) -> Seq<u16> {
    bytes_to_words(pdu.subrange(from, pdu.len() as int))
}

/// Write Multiple Registers: function code, start and count are echoed; an
/// exception when the registers sent do not fit the address space from the
/// start address, or none are sent.
pub open spec fn write_multiple_registers_reply(pdu: Seq<u8>) -> Seq<u8> {
    if pdu.len() < 6 {
        failure_reply(pdu)
    } else if range_ok(word_of(pdu[1], pdu[2]), registers_of_request(pdu, 6).len() as int) {
        pdu.subrange(0, 5)
    } else {
        exception_pdu(pdu[0], ILLEGAL_DATA_ADDRESS)
    }
}

/// Write Multiple Registers: the registers from the start address hold the
/// words sent.
pub open spec fn write_multiple_registers_effect(bank: DatabankView, pdu: Seq<u8>) -> DatabankView {
    if pdu.len() >= 6 {
        DatabankView {
            holding_registers: write_range(
                bank.holding_registers,
                word_of(pdu[1], pdu[2]),
                registers_of_request(pdu, 6),
            ),
            ..bank
        }
    } else {
        bank
    }
}

/// What a register holds after a mask write.
pub open spec fn masked(current: u16, and_mask: u16, or_mask: u16) -> u16 {
    (current & and_mask) | or_mask
}

/// Mask Write Register: the request is echoed.
pub open spec fn mask_write_register_reply(pdu: Seq<u8>) -> Seq<u8> {
    if pdu.len() < 7 {
        failure_reply(pdu)
    } else {
        pdu
    }
}

/// Mask Write Register: the register is and-ed with the first mask and
/// or-ed with the second.
pub open spec fn mask_write_register_effect(bank: DatabankView, pdu: Seq<u8>) -> DatabankView {
    if pdu.len() >= 7 {
        let address = word_of(pdu[1], pdu[2]);
        DatabankView {
            holding_registers: write_range(
                bank.holding_registers,
                address,
                seq![
                    masked(
                        bank.holding_registers[address as int],
                        word_of(pdu[3], pdu[4]),
                        word_of(pdu[5], pdu[6]),
                    ),
                ],
            ),
            ..bank
        }
    } else {
        bank
    }
}

/// Read/Write Multiple Registers: the registers sent are written from the
/// write address, if they fit.
pub open spec fn read_write_multiple_registers_effect(bank: DatabankView, pdu: Seq<u8>) -> DatabankView {
    if pdu.len() >= 10 {
        DatabankView {
            holding_registers: write_range(
                bank.holding_registers,
                word_of(pdu[5], pdu[6]),
                registers_of_request(pdu, 10),
            ),
            ..bank
        }
    } else {
        bank
    }
}

/// Read/Write Multiple Registers: the answer is that of a read of the read
/// range, made after the write.
pub open spec fn read_write_multiple_registers_reply(bank: DatabankView, pdu: Seq<u8>) -> Seq<u8> {
    if pdu.len() < 10 {
        failure_reply(pdu)
    } else {
        words_reply(pdu, read_write_multiple_registers_effect(bank, pdu).holding_registers)
    }
}

/// The data unit that answers a request.
pub open spec fn handle_reply(bank: DatabankView, pdu: Seq<u8>) -> Seq<u8> {
    if pdu.len() == 0 {
        failure_reply(pdu)
    } else if pdu[0] == 0x01 {
        bits_reply(pdu, bank.coils)
    } else if pdu[0] == 0x02 {
        bits_reply(pdu, bank.inputs)
    } else if pdu[0] == 0x03 {
        words_reply(pdu, bank.holding_registers)
    } else if pdu[0] == 0x04 {
        words_reply(pdu, bank.input_registers)
    } else if pdu[0] == 0x05 {
        write_single_coil_reply(pdu)
    } else if pdu[0] == 0x06 {
        write_single_register_reply(pdu)
    } else if pdu[0] == 0x0F {
        write_multiple_coils_reply(pdu)
    } else if pdu[0] == 0x10 {
        write_multiple_registers_reply(pdu)
    } else if pdu[0] == 0x16 {
        mask_write_register_reply(pdu)
    } else if pdu[0] == 0x17 {
        read_write_multiple_registers_reply(bank, pdu)
    } else {
        not_implemented_reply(pdu)
    }
}

/// The databank after a request.
pub open spec fn handle_effect(bank: DatabankView, pdu: Seq<u8>) -> DatabankView {
    if pdu.len() == 0 {
        bank
    } else if pdu[0] == 0x05 {
        write_single_coil_effect(bank, pdu)
    } else if pdu[0] == 0x06 {
        write_single_register_effect(bank, pdu)
    } else if pdu[0] == 0x0F {
        write_multiple_coils_effect(bank, pdu)
    } else if pdu[0] == 0x10 {
        write_multiple_registers_effect(bank, pdu)
    } else if pdu[0] == 0x16 {
        mask_write_register_effect(bank, pdu)
    } else if pdu[0] == 0x17 {
        read_write_multiple_registers_effect(bank, pdu)
    } else {
        bank
    }
}

/// Whether a data unit has every field that its function reads. A request
/// that has not is answered with a server device failure.
pub open spec fn request_is_complete(pdu: Seq<u8>) -> bool {
    if pdu.len() == 0 {
        false
    } else if 0x01 <= pdu[0] <= 0x06 {
        pdu.len() >= 5
    } else if pdu[0] == 0x0F {
        coils_request_is_complete(pdu)
    } else if pdu[0] == 0x10 {
        pdu.len() >= 6
    } else if pdu[0] == 0x16 {
        pdu.len() >= 7
    } else if pdu[0] == 0x17 {
        pdu.len() >= 10
    } else {
        true
    }
}

/// The word at bytes `at` and `at + 1` of a data unit.
fn word_at(pdu: &Vec<u8>, at: usize) -> (word: u16)
    requires
        at + 1 < pdu.len(),
    ensures
        word == word_of(pdu@[at as int], pdu@[at + 1]),
{
    Utils::u8_to_u16(pdu[at], pdu[at + 1])
}

/// Whether `count` flags fit into `bytes` bytes.
fn bits_fit(count: u16, bytes: usize) -> (fit: bool)
    ensures
        fit == (count <= 8 * bytes),
{
    bytes >= 8192 || count as usize <= 8 * bytes
}

/// The frame that answers `request` with the data unit `pdu`.
fn respond(request: Frame, pdu: Vec<u8>) -> (response: Frame)
    ensures
        response@ == frame_with_pdu(request@, pdu@),
{
    let mut response = request;
    response.set_pdu(pdu);
    response
}

/// The frame that answers `request` with an exception.
fn respond_exception(request: Frame, function_code: u8, code: u8) -> (response: Frame)
    ensures
        response@ == frame_with_pdu(request@, exception_pdu(function_code, code)),
{
    let mut pdu: Vec<u8> = Vec::new();
    pdu.push(mark_exception(function_code));
    pdu.push(code);
    assert(pdu@ =~= exception_pdu(function_code, code));
    respond(request, pdu)
}

/// The data unit that answers a read of flags.
fn reply_with_bits(request: Frame, data: Vec<bool>) -> (response: Frame)
    requires
        request@.pdu.len() > 0,
    ensures
        response@ == frame_with_pdu(
            request@,
            if data@.len() > 0 {
                seq![request@.pdu[0], byte_count(pack_bits(data@).len())] + pack_bits(data@)
            } else {
                exception_pdu(request@.pdu[0], ILLEGAL_DATA_ADDRESS)
            },
        ),
{
    let function_code: u8 = request.pdu_ref().get_function_code();
    if data.len() > 0 {
        let out: Vec<u8> = Utils::bools_to_bytes(data);
        let mut pdu: Vec<u8> = Vec::new();
        pdu.push(function_code);
        pdu.push((out.len() % 256) as u8);
        append_bytes(&mut pdu, out.as_slice());
        assert(pdu@ =~= seq![function_code, byte_count(out@.len())] + out@);
        respond(request, pdu)
    } else {
        respond_exception(request, function_code, ILLEGAL_DATA_ADDRESS)
    }
}

/// The data unit that answers a read of registers.
fn reply_with_words(request: Frame, data: Vec<u16>) -> (response: Frame)
    requires
        request@.pdu.len() > 0,
    ensures
        response@ == frame_with_pdu(
            request@,
            if data@.len() > 0 {
                seq![request@.pdu[0], byte_count(words_to_bytes(data@).len())] + words_to_bytes(
                    data@,
                )
            } else {
                exception_pdu(request@.pdu[0], ILLEGAL_DATA_ADDRESS)
            },
        ),
{
    let function_code: u8 = request.pdu_ref().get_function_code();
    if data.len() > 0 {
        let out: Vec<u8> = Utils::u16_vec_to_u8_vec(data);
        let mut pdu: Vec<u8> = Vec::new();
        pdu.push(function_code);
        pdu.push((out.len() % 256) as u8);
        append_bytes(&mut pdu, out.as_slice());
        assert(pdu@ =~= seq![function_code, byte_count(out@.len())] + out@);
        respond(request, pdu)
    } else {
        respond_exception(request, function_code, ILLEGAL_DATA_ADDRESS)
    }
}

/// Answers requests against a databank that it owns.
pub struct RequestHandler {
    pub databank: ModbusDatabank,
}

impl RequestHandler {
    /// A handler that answers from `databank`.
    pub fn new(databank: ModbusDatabank) -> (handler: Self)
        ensures
            handler.databank == databank,
    {
        Self { databank }
    }

    /// Answers a request and applies it to the databank. The answer keeps
    /// the header of the request but for the length field, which is set to
    /// match the answer.
    pub fn handle(&mut self, request: Frame) -> (response: Frame)
        requires
            old(self).databank.wf(),
        ensures
            final(self).databank.wf(),
            final(self).databank@ == handle_effect(old(self).databank@, request@.pdu),
            response@ == frame_with_pdu(
                request@,
                handle_reply(old(self).databank@, request@.pdu),
            ),
    {
        if request.pdu_ref().to_bytes().len() == 0 {
            return RequestHandler::server_device_failure(request);
        }
        let function_code: u8 = request.pdu_ref().get_function_code();
        if function_code == 0x01 {
            self.read_coils(request)
        } else if function_code == 0x02 {
            self.read_discrete_inputs(request)
        } else if function_code == 0x03 {
            self.read_holding_registers(request)
        } else if function_code == 0x04 {
            self.read_input_registers(request)
        } else if function_code == 0x05 {
            self.write_single_coil(request)
        } else if function_code == 0x06 {
            self.write_single_register(request)
        } else if function_code == 0x0F {
            self.write_multiple_coils(request)
        } else if function_code == 0x10 {
            self.write_multiple_registers(request)
        } else if function_code == 0x16 {
            self.mask_write_register(request)
        } else if function_code == 0x17 {
            self.read_write_multiple_registers(request)
        } else {
            RequestHandler::function_not_implemented(request)
        }
    }

    /// Whether the request has every field that its function reads.
    pub fn is_complete(request: &Frame) -> (complete: bool)
        ensures
            complete == request_is_complete(request@.pdu),
    {
        let pdu: &Vec<u8> = request.pdu_ref().to_bytes();
        let len: usize = pdu.len();
        if len == 0 {
            return false;
        }
        let function_code: u8 = pdu[0];
        if 0x01 <= function_code && function_code <= 0x06 {
            len >= 5
        } else if function_code == 0x0F {
            len >= 6 && bits_fit(word_at(pdu, 3), len - 6)
        } else if function_code == 0x10 {
            len >= 6
        } else if function_code == 0x16 {
            len >= 7
        } else if function_code == 0x17 {
            len >= 10
        } else {
            true
        }
    }

    /// The answer to a request for a function that the server does not
    /// have: exception 1.
    pub fn function_not_implemented(request: Frame) -> (response: Frame)
        ensures
            response@ == frame_with_pdu(request@, not_implemented_reply(request@.pdu)),
    {
        let function_code: u8 = RequestHandler::function_code(&request);
        respond_exception(request, function_code, ILLEGAL_FUNCTION)
    }

    /// The answer to a request that the server cannot make sense of:
    /// exception 4.
    pub fn server_device_failure(request: Frame) -> (response: Frame)
        ensures
            response@ == frame_with_pdu(request@, failure_reply(request@.pdu)),
    {
        let function_code: u8 = RequestHandler::function_code(&request);
        respond_exception(request, function_code, SERVER_DEVICE_FAILURE)
    }

    /// The function code of a request, 0 if its data unit is empty.
    fn function_code(request: &Frame) -> (code: u8)
        ensures
            code == function_code_of(request@.pdu),
    {
        let pdu: &Vec<u8> = request.pdu_ref().to_bytes();
        if pdu.len() > 0 {
            pdu[0]
        } else {
            0
        }
    }

    /// Read Coils.
    pub fn read_coils(&self, request: Frame) -> (response: Frame)
        requires
            self.databank.wf(),
        ensures
            response@ == frame_with_pdu(request@, bits_reply(request@.pdu, self.databank@.coils)),
    {
        let pdu: &Vec<u8> = request.pdu_ref().to_bytes();
        if pdu.len() < 5 {
            return RequestHandler::server_device_failure(request);
        }
        let start_address: u16 = word_at(pdu, 1);
        let count: u16 = word_at(pdu, 3);
        let data: Vec<bool> = self.databank.read_coils(start_address, count);
        reply_with_bits(request, data)
    }

    /// Read Discrete Inputs.
    pub fn read_discrete_inputs(&self, request: Frame) -> (response: Frame)
        requires
            self.databank.wf(),
        ensures
            response@ == frame_with_pdu(
                request@,
                bits_reply(request@.pdu, self.databank@.inputs),
            ),
    {
        let pdu: &Vec<u8> = request.pdu_ref().to_bytes();
        if pdu.len() < 5 {
            return RequestHandler::server_device_failure(request);
        }
        let start_address: u16 = word_at(pdu, 1);
        let count: u16 = word_at(pdu, 3);
        let data: Vec<bool> = self.databank.read_discrete_inputs(start_address, count);
        reply_with_bits(request, data)
    }

    /// Read Holding Registers.
    pub fn read_holding_registers(&self, request: Frame) -> (response: Frame)
        requires
            self.databank.wf(),
        ensures
            response@ == frame_with_pdu(
                request@,
                words_reply(request@.pdu, self.databank@.holding_registers),
            ),
    {
        let pdu: &Vec<u8> = request.pdu_ref().to_bytes();
        if pdu.len() < 5 {
            return RequestHandler::server_device_failure(request);
        }
        let start_address: u16 = word_at(pdu, 1);
        let count: u16 = word_at(pdu, 3);
        let data: Vec<u16> = self.databank.read_holding_registers(start_address, count);
        reply_with_words(request, data)
    }

    /// Read Input Registers.
    pub fn read_input_registers(&self, request: Frame) -> (response: Frame)
        requires
            self.databank.wf(),
        ensures
            response@ == frame_with_pdu(
                request@,
                words_reply(request@.pdu, self.databank@.input_registers),
            ),
    {
        let pdu: &Vec<u8> = request.pdu_ref().to_bytes();
        if pdu.len() < 5 {
            return RequestHandler::server_device_failure(request);
        }
        let start_address: u16 = word_at(pdu, 1);
        let count: u16 = word_at(pdu, 3);
        let data: Vec<u16> = self.databank.read_input_registers(start_address, count);
        reply_with_words(request, data)
    }

    /// Write Single Coil.
    pub fn write_single_coil(&mut self, request: Frame) -> (response: Frame)
        requires
            old(self).databank.wf(),
        ensures
            final(self).databank.wf(),
            final(self).databank@ == write_single_coil_effect(old(self).databank@, request@.pdu),
            response@ == frame_with_pdu(request@, write_single_coil_reply(request@.pdu)),
    {
        let pdu: &Vec<u8> = request.pdu_ref().to_bytes();
        if pdu.len() < 5 {
            return RequestHandler::server_device_failure(request);
        }
        let address: u16 = word_at(pdu, 1);
        let value: u16 = word_at(pdu, 3);
        if value == 0x0000 || value == 0xFF00 {
            let mut coil: Vec<bool> = Vec::new();
            coil.push(value == 0xFF00);
            assert(coil@ =~= seq![value == 0xFF00]);
            self.databank.write_coils(address, coil);
            let echo: Vec<u8> = copy_range(pdu.as_slice(), 0, pdu.len());
            assert(echo@ =~= pdu@);
            respond(request, echo)
        } else {
            let function_code: u8 = pdu[0];
            respond_exception(request, function_code, ILLEGAL_DATA_ADDRESS)
        }
    }

    /// Write Single Register.
    pub fn write_single_register(&mut self, request: Frame) -> (response: Frame)
        requires
            old(self).databank.wf(),
        ensures
            final(self).databank.wf(),
            final(self).databank@ == write_single_register_effect(
                old(self).databank@,
                request@.pdu,
            ),
            response@ == frame_with_pdu(request@, write_single_register_reply(request@.pdu)),
    {
        let pdu: &Vec<u8> = request.pdu_ref().to_bytes();
        if pdu.len() < 5 {
            return RequestHandler::server_device_failure(request);
        }
        let address: u16 = word_at(pdu, 1);
        let value: u16 = word_at(pdu, 3);
        let mut register: Vec<u16> = Vec::new();
        register.push(value);
        assert(register@ =~= seq![value]);
        self.databank.write_holding_registers(address, register);
        let echo: Vec<u8> = copy_range(pdu.as_slice(), 0, pdu.len());
        assert(echo@ =~= pdu@);
        respond(request, echo)
    }

    /// Write Multiple Coils.
    pub fn write_multiple_coils(&mut self, request: Frame) -> (response: Frame)
        requires
            old(self).databank.wf(),
        ensures
            final(self).databank.wf(),
            final(self).databank@ == write_multiple_coils_effect(
                old(self).databank@,
                request@.pdu,
            ),
            response@ == frame_with_pdu(request@, write_multiple_coils_reply(request@.pdu)),
    {
        let pdu: &Vec<u8> = request.pdu_ref().to_bytes();
        if pdu.len() < 6 {
            return RequestHandler::server_device_failure(request);
        }
        let start_address: u16 = word_at(pdu, 1);
        let count: u16 = word_at(pdu, 3);
        if !bits_fit(count, pdu.len() - 6) {
            return RequestHandler::server_device_failure(request);
        }
        let packed: Vec<u8> = copy_range(pdu.as_slice(), 6, pdu.len());
        let in_data: Vec<bool> = Utils::bytes_to_bools(packed, count as usize);
        let function_code: u8 = pdu[0];
        if self.databank.write_coils(start_address, in_data) {
            let echo: Vec<u8> = copy_range(pdu.as_slice(), 0, 5);
            respond(request, echo)
        } else {
            respond_exception(request, function_code, ILLEGAL_DATA_ADDRESS)
        }
    }

    /// Write Multiple Registers.
    pub fn write_multiple_registers(&mut self, request: Frame) -> (response: Frame)
        requires
            old(self).databank.wf(),
        ensures
            final(self).databank.wf(),
            final(self).databank@ == write_multiple_registers_effect(
                old(self).databank@,
                request@.pdu,
            ),
            response@ == frame_with_pdu(request@, write_multiple_registers_reply(request@.pdu)),
    {
        let pdu: &Vec<u8> = request.pdu_ref().to_bytes();
        if pdu.len() < 6 {
            return RequestHandler::server_device_failure(request);
        }
        let start_address: u16 = word_at(pdu, 1);
        let raw: Vec<u8> = copy_range(pdu.as_slice(), 6, pdu.len());
        let in_data: Vec<u16> = Utils::u8_vec_to_u16_vec(raw);
        let function_code: u8 = pdu[0];
        if self.databank.write_holding_registers(start_address, in_data) {
            let echo: Vec<u8> = copy_range(pdu.as_slice(), 0, 5);
            respond(request, echo)
        } else {
            respond_exception(request, function_code, ILLEGAL_DATA_ADDRESS)
        }
    }

    /// Mask Write Register.
    pub fn mask_write_register(&mut self, request: Frame) -> (response: Frame)
        requires
            old(self).databank.wf(),
        ensures
            final(self).databank.wf(),
            final(self).databank@ == mask_write_register_effect(old(self).databank@, request@.pdu),
            response@ == frame_with_pdu(request@, mask_write_register_reply(request@.pdu)),
    {
        let pdu: &Vec<u8> = request.pdu_ref().to_bytes();
        if pdu.len() < 7 {
            return RequestHandler::server_device_failure(request);
        }
        let address: u16 = word_at(pdu, 1);
        let and_mask: u16 = word_at(pdu, 3);
        let or_mask: u16 = word_at(pdu, 5);
        let current: Vec<u16> = self.databank.read_holding_registers(address, 1);
        let mut register: Vec<u16> = Vec::new();
        register.push((current[0] & and_mask) | or_mask);
        assert(register@ =~= seq![
            masked(old(self).databank@.holding_registers[address as int], and_mask, or_mask),
        ]);
        self.databank.write_holding_registers(address, register);
        let echo: Vec<u8> = copy_range(pdu.as_slice(), 0, pdu.len());
        assert(echo@ =~= pdu@);
        respond(request, echo)
    }

    /// Read/Write Multiple Registers.
    pub fn read_write_multiple_registers(&mut self, request: Frame) -> (response: Frame)
        requires
            old(self).databank.wf(),
        ensures
            final(self).databank.wf(),
            final(self).databank@ == read_write_multiple_registers_effect(
                old(self).databank@,
                request@.pdu,
            ),
            response@ == frame_with_pdu(
                request@,
                read_write_multiple_registers_reply(old(self).databank@, request@.pdu),
            ),
    {
        let pdu: &Vec<u8> = request.pdu_ref().to_bytes();
        if pdu.len() < 10 {
            return RequestHandler::server_device_failure(request);
        }
        let read_start_address: u16 = word_at(pdu, 1);
        let quantity_to_read: u16 = word_at(pdu, 3);
        let write_start_address: u16 = word_at(pdu, 5);
        let raw: Vec<u8> = copy_range(pdu.as_slice(), 10, pdu.len());
        let write_register_data: Vec<u16> = Utils::u8_vec_to_u16_vec(raw);
        self.databank.write_holding_registers(write_start_address, write_register_data);
        let read_register_data: Vec<u16> = self.databank.read_holding_registers(
            read_start_address,
            quantity_to_read,
        );
        reply_with_words(request, read_register_data)
    }
}

/// Every answer carries the transaction id, the protocol id and the unit id
/// of its request: setting a data unit changes the length field of the
/// header and nothing else.
pub proof fn lemma_reply_echoes_header(request: FrameView, reply: Seq<u8>)
    requires
        request.mbap.len() == 7,
    ensures
        frame_with_pdu(request, reply).pdu == reply,
        frame_with_pdu(request, reply).mbap.len() == 7,
        header_transaction_id(frame_with_pdu(request, reply).mbap) == header_transaction_id(
            request.mbap,
        ),
        header_protocol_id(frame_with_pdu(request, reply).mbap) == header_protocol_id(
            request.mbap,
        ),
        header_unit_id(frame_with_pdu(request, reply).mbap) == header_unit_id(request.mbap),
        crate::mbap::header_length(frame_with_pdu(request, reply).mbap)
            == crate::frame::length_field(reply.len()),
{
    let length = crate::frame::length_field(reply.len());
    assert(word_of(crate::utils::high_byte(length), crate::utils::low_byte(length)) == length);
}

/// After a mask write, the register reads as its old value and-ed with the
/// first mask and or-ed with the second.
pub proof fn lemma_mask_write_then_read(bank: DatabankView, pdu: Seq<u8>)
    requires
        databank_is_wf(bank),
        pdu.len() >= 7,
    ensures
        read_range(
            mask_write_register_effect(bank, pdu).holding_registers,
            word_of(pdu[1], pdu[2]),
            1,
        ) == seq![
            masked(
                bank.holding_registers[word_of(pdu[1], pdu[2]) as int],
                word_of(pdu[3], pdu[4]),
                word_of(pdu[5], pdu[6]),
            ),
        ],
{
    let address = word_of(pdu[1], pdu[2]);
    let value = masked(
        bank.holding_registers[address as int],
        word_of(pdu[3], pdu[4]),
        word_of(pdu[5], pdu[6]),
    );
    crate::modbus_databank::lemma_read_after_write(bank.holding_registers, address, seq![value]);
}

/// A request leaves a well-formed databank well formed.
pub proof fn lemma_handle_keeps_wf(bank: DatabankView, pdu: Seq<u8>)
    requires
        databank_is_wf(bank),
    ensures
        databank_is_wf(handle_effect(bank, pdu)),
{
}

/// Coils written are the coils read: after a Write Multiple Coils request
/// that is accepted, a Read Coils request for the same range is answered
/// with the flags that were written, packed.
pub proof fn lemma_written_coils_are_read(bank: DatabankView, written: Seq<u8>, read: Seq<u8>)
    requires
        databank_is_wf(bank),
        coils_request_is_complete(written),
        range_ok(word_of(written[1], written[2]), word_of(written[3], written[4]) as int),
        read.len() >= 5,
        word_of(read[1], read[2]) == word_of(written[1], written[2]),
        word_of(read[3], read[4]) == word_of(written[3], written[4]),
    ensures
        bits_reply(read, write_multiple_coils_effect(bank, written).coils) == seq![
            read[0],
            byte_count(pack_bits(coils_of_request(written)).len()),
        ] + pack_bits(coils_of_request(written)),
{
    crate::modbus_databank::lemma_read_after_write(
        bank.coils,
        word_of(written[1], written[2]),
        coils_of_request(written),
    );
}

/// Registers written are the registers read: after a Write Multiple
/// Registers request that is accepted, a Read Holding Registers request for
/// the range that was written is answered with the words that were sent.
pub proof fn lemma_written_registers_are_read(bank: DatabankView, written: Seq<u8>, read: Seq<u8>)
    requires
        databank_is_wf(bank),
        written.len() >= 6,
        range_ok(word_of(written[1], written[2]), registers_of_request(written, 6).len() as int),
        registers_of_request(written, 6).len() <= 65535,
        read.len() >= 5,
        word_of(read[1], read[2]) == word_of(written[1], written[2]),
        word_of(read[3], read[4]) as int == registers_of_request(written, 6).len(),
    ensures
        words_reply(read, write_multiple_registers_effect(bank, written).holding_registers)
            == seq![
            read[0],
            byte_count(words_to_bytes(registers_of_request(written, 6)).len()),
        ] + words_to_bytes(registers_of_request(written, 6)),
{
    crate::modbus_databank::lemma_read_after_write(
        bank.holding_registers,
        word_of(written[1], written[2]),
        registers_of_request(written, 6),
    );
}

} // verus!
