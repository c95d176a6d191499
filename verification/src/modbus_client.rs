//! The client side of Modbus: the requests a client sends and what it
//! makes of the responses.
//!
//! A response counts only if its frame is valid and carries the function
//! code of the request; anything else is taken as no answer.

use vstd::prelude::*;
use crate::byte_order::{append_bytes, copy_range};
use crate::frame::{
    default_frame, frame_decode, frame_is_valid, frame_with_pdu, lemma_frame_with_pdu_valid, Frame,
    FrameView,
};
use crate::utils::{
    bytes_to_words, high_byte, low_byte, pack_bits, unpack_bits, words_to_bytes, Utils,
};

verus! {

/// The most registers that one read may ask for.
pub const MAX_REGISTER_COUNT: u16 = 125;

/// The frame of a request with the given data unit: the default header
/// with the length field set.
pub open spec fn request_frame(pdu: Seq<u8>) -> FrameView {
    frame_with_pdu(default_frame(), pdu)
}

/// The data unit of a request that names an address and a word: a read of
/// `word` units from `address`, or a write of `word` to `address`.
pub open spec fn address_request(function_code: u8, address: u16, word: u16) -> Seq<u8> {
    seq![function_code, high_byte(address), low_byte(address), high_byte(word), low_byte(word)]
}

/// The word that Write Single Coil sends for a status.
pub open spec fn coil_word(status: bool) -> u16 {
    if status {
        0xFF00
    } else {
        0x0000
    }
}

/// The data unit of a request that writes several units: function code,
/// start address, the number of units and the number of bytes (each cut to
/// the width of its field), then the bytes.
pub open spec fn block_request(function_code: u8, start: u16, units: nat, bytes: Seq<u8>) -> Seq<u8> {
    seq![
        function_code,
        high_byte(start),
        low_byte(start),
        high_byte((units % 65536) as u16),
        low_byte((units % 65536) as u16),
        (bytes.len() % 256) as u8,
    ] + bytes
}

/// Whether a response answers a request with this function code: its frame
/// is valid and carries the same code.
pub open spec fn response_matches(response: FrameView, function_code: u8) -> bool {
    frame_is_valid(response) && response.pdu.len() > 0 && response.pdu[0] == function_code
}

/// The flags that a response to a read of `count` flags carries; none if
/// the response does not answer the request or is too short for them.
pub open spec fn bits_of_response(bytes: Seq<u8>, function_code: u8, count: u16) -> Seq<bool> {
    let response = frame_decode(bytes);
    if response_matches(response, function_code) && response.pdu.len() >= 2 && count <= 8 * (
    response.pdu.len() - 2) {
        unpack_bits(response.pdu.subrange(2, response.pdu.len() as int), count as nat)
    } else {
        Seq::empty()
    }
}

/// The registers that a response to a read carries; none if the response
/// does not answer the request.
pub open spec fn registers_of_response(bytes: Seq<u8>, function_code: u8) -> Seq<u16> {
    let response = frame_decode(bytes);
    if response_matches(response, function_code) && response.pdu.len() >= 2 {
        bytes_to_words(response.pdu.subrange(2, response.pdu.len() as int))
    } else {
        Seq::empty()
    }
}

/// The frame of a request with the given data unit.
fn request_with(pdu: Vec<u8>) -> (request: Frame)
    ensures
        request@ == request_frame(pdu@),
        pdu@.len() <= 65534 ==> frame_is_valid(request@),
{
    let mut request: Frame = Frame::default();
    proof {
        assert(crate::utils::word_of(0, 0) == 0);
        if pdu@.len() <= 65534 {
            lemma_frame_with_pdu_valid(default_frame(), pdu@);
        }
    }
    request.set_pdu(pdu);
    request
}

/// The request that names an address and a word.
fn address_request_frame(function_code: u8, address: u16, word: u16) -> (request: Frame)
    ensures
        request@ == request_frame(address_request(function_code, address, word)),
        frame_is_valid(request@),
{
    let place: [u8; 2] = Utils::u16_to_u8(address);
    let value: [u8; 2] = Utils::u16_to_u8(word);
    let mut pdu: Vec<u8> = Vec::new();
    pdu.push(function_code);
    pdu.push(place[0]);
    pdu.push(place[1]);
    pdu.push(value[0]);
    pdu.push(value[1]);
    assert(pdu@ =~= address_request(function_code, address, word));
    request_with(pdu)
}

/// The request that writes several units.
fn block_request_frame(function_code: u8, start: u16, units: usize, bytes: Vec<u8>) -> (request:
    Frame)
    ensures
        request@ == request_frame(block_request(function_code, start, units as nat, bytes@)),
        bytes@.len() <= 65528 ==> frame_is_valid(request@),
{
    let place: [u8; 2] = Utils::u16_to_u8(start);
    let quantity: [u8; 2] = Utils::u16_to_u8((units % 65536) as u16);
    let mut pdu: Vec<u8> = Vec::new();
    pdu.push(function_code);
    pdu.push(place[0]);
    pdu.push(place[1]);
    pdu.push(quantity[0]);
    pdu.push(quantity[1]);
    pdu.push((bytes.len() % 256) as u8);
    append_bytes(&mut pdu, bytes.as_slice());
    assert(pdu@ =~= block_request(function_code, start, units as nat, bytes@));
    request_with(pdu)
}

/// The request to read `count` coils from `start_address`.
pub fn read_coils_request(start_address: u16, count: u16) -> (request: Frame)
    ensures
        request@ == request_frame(address_request(0x01, start_address, count)),
        frame_is_valid(request@),
{
    address_request_frame(0x01, start_address, count)
}

/// The request to read `count` discrete inputs from `start_address`.
pub fn read_discrete_inputs_request(start_address: u16, count: u16) -> (request: Frame)
    ensures
        request@ == request_frame(address_request(0x02, start_address, count)),
        frame_is_valid(request@),
{
    address_request_frame(0x02, start_address, count)
}

/// The request to read `count` holding registers from `start_address`.
pub fn read_holding_registers_request(start_address: u16, count: u16) -> (request: Frame)
    requires
        count <= MAX_REGISTER_COUNT,
    ensures
        request@ == request_frame(address_request(0x03, start_address, count)),
        frame_is_valid(request@),
{
    address_request_frame(0x03, start_address, count)
}

/// The request to read `count` input registers from `start_address`.
pub fn read_input_registers_request(start_address: u16, count: u16) -> (request: Frame)
    requires
        count <= MAX_REGISTER_COUNT,
    ensures
        request@ == request_frame(address_request(0x04, start_address, count)),
        frame_is_valid(request@),
{
    address_request_frame(0x04, start_address, count)
}

/// The request to switch the coil at `address` on or off.
pub fn write_single_coil_request(address: u16, status: bool) -> (request: Frame)
    ensures
        request@ == request_frame(address_request(0x05, address, coil_word(status))),
        frame_is_valid(request@),
{
    let word: u16 = if status {
        0xFF00
    } else {
        0x0000
    };
    address_request_frame(0x05, address, word)
}

/// The request to write `value` to the holding register at `address`.
pub fn write_single_register_request(address: u16, value: u16) -> (request: Frame)
    ensures
        request@ == request_frame(address_request(0x06, address, value)),
        frame_is_valid(request@),
{
    address_request_frame(0x06, address, value)
}

/// The request to write coils from `start_address`.
pub fn write_multiple_coils_request(start_address: u16, values: Vec<bool>) -> (request: Frame)
    ensures
        request@ == request_frame(
            block_request(0x0F, start_address, values@.len(), pack_bits(values@)),
        ),
        values@.len() <= 65535 ==> frame_is_valid(request@),
{
    let units: usize = values.len();
    let bytes: Vec<u8> = Utils::bools_to_bytes(values);
    block_request_frame(0x0F, start_address, units, bytes)
}

/// The request to write holding registers from `start_address`.
pub fn write_multiple_registers_request(start_address: u16, values: Vec<u16>) -> (request: Frame)
    ensures
        request@ == request_frame(
            block_request(0x10, start_address, values@.len(), words_to_bytes(values@)),
        ),
        values@.len() <= 32764 ==> frame_is_valid(request@),
{
    let units: usize = values.len();
    let bytes: Vec<u8> = Utils::u16_vec_to_u8_vec(values);
    block_request_frame(0x10, start_address, units, bytes)
}

/// Whether the bytes received answer a request with this function code.
pub fn write_response(response: Vec<u8>, function_code: u8) -> (ok: bool)
    ensures
        ok == response_matches(frame_decode(response@), function_code),
{
    let frame: Frame = Frame::from_bytes(response);
    frame.is_valid() && frame.pdu_ref().to_bytes().len() > 0 && frame.pdu_ref().get_function_code()
        == function_code
}

/// The flags in the bytes received in answer to a read of `count` flags.
pub fn bits_response(response: Vec<u8>, function_code: u8, count: u16) -> (bits: Vec<bool>)
    ensures
        bits@ == bits_of_response(response@, function_code, count),
{
    let frame: Frame = Frame::from_bytes(response);
    let pdu: &Vec<u8> = frame.pdu_ref().to_bytes();
    if !(frame.is_valid() && pdu.len() > 0 && pdu[0] == function_code) || pdu.len() < 2 {
        return Vec::new();
    }
    let room: usize = pdu.len() - 2;
    if !(room >= 8192 || count as usize <= 8 * room) {
        return Vec::new();
    }
    let packed: Vec<u8> = copy_range(pdu.as_slice(), 2, pdu.len());
    Utils::bytes_to_bools(packed, count as usize)
}

/// The registers in the bytes received in answer to a read.
pub fn registers_response(response: Vec<u8>, function_code: u8) -> (registers: Vec<u16>)
    ensures
        registers@ == registers_of_response(response@, function_code),
{
    let frame: Frame = Frame::from_bytes(response);
    let pdu: &Vec<u8> = frame.pdu_ref().to_bytes();
    if !(frame.is_valid() && pdu.len() > 0 && pdu[0] == function_code) || pdu.len() < 2 {
        return Vec::new();
    }
    let raw: Vec<u8> = copy_range(pdu.as_slice(), 2, pdu.len());
    Utils::u8_vec_to_u16_vec(raw)
}

/// The frame in the bytes received in answer to a request sent as it
/// came; the default frame unless there are more bytes than a header.
pub fn raw_response(response: Vec<u8>) -> (frame: Frame)
    ensures
        frame@ == if response@.len() > 7 {
            frame_decode(response@)
        } else {
            default_frame()
        },
{
    if response.len() > 7 {
        Frame::from_bytes(response)
    } else {
        Frame::default()
    }
}

/// Every request is valid and survives the wire: the frame of a request
/// whose data unit fits the length field is valid, and decoding its bytes
/// gives it back.
pub proof fn lemma_request_roundtrip(pdu: Seq<u8>)
    requires
        pdu.len() <= 65534,
    ensures
        frame_is_valid(request_frame(pdu)),
        frame_decode(crate::frame::frame_encode(request_frame(pdu))) == request_frame(pdu),
{
    assert(crate::utils::word_of(0, 0) == 0);
    lemma_frame_with_pdu_valid(default_frame(), pdu);
    crate::frame::lemma_frame_roundtrip(request_frame(pdu));
}

} // verus!
