use protocol_handlers::data_packet::{DataPacket, DataType};
use protocol_handlers::frame::Frame;
use protocol_handlers::mbap::Mbap;
use protocol_handlers::pdu::Pdu;
use protocol_handlers::utils::Utils;

#[test]
fn word_from_two_bytes_is_big_endian() {
    assert_eq!(Utils::u8_to_u16(0x12, 0x34), 0x1234);
    assert_eq!(Utils::u8_to_u16(0x00, 0xFF), 0x00FF);
    assert_eq!(Utils::u8_to_u16(0xFF, 0x00), 0xFF00);
    assert_eq!(Utils::u8_to_u16(0xFF, 0xFF), 0xFFFF);
}

#[test]
fn word_splits_into_high_then_low() {
    assert_eq!(Utils::u16_to_u8(0x1234), [0x12, 0x34]);
    assert_eq!(Utils::u16_to_u8(0x00FF), [0x00, 0xFF]);
    assert_eq!(Utils::u16_to_u8(0), [0, 0]);
    assert_eq!(Utils::u16_to_u8(0xFFFF), [0xFF, 0xFF]);
}

#[test]
fn bytes_pair_up_into_words() {
    assert_eq!(Utils::u8_vec_to_u16_vec(vec![0x01, 0x02, 0x03, 0x04]), vec![0x0102, 0x0304]);
    assert_eq!(Utils::u8_vec_to_u16_vec(vec![]), Vec::<u16>::new());
}

#[test]
fn odd_trailing_byte_is_a_word_of_its_own() {
    assert_eq!(Utils::u8_vec_to_u16_vec(vec![0x01, 0x02, 0x7F]), vec![0x0102, 0x007F]);
    assert_eq!(Utils::u8_vec_to_u16_vec(vec![0x09]), vec![0x0009]);
}

#[test]
fn words_become_big_endian_bytes() {
    assert_eq!(Utils::u16_vec_to_u8_vec(vec![0x0102, 0xA0B0]), vec![0x01, 0x02, 0xA0, 0xB0]);
    assert_eq!(Utils::u16_vec_to_u8_vec(vec![]), Vec::<u8>::new());
}

#[test]
fn words_survive_bytes() {
    let words: Vec<u16> = vec![0, 1, 255, 256, 0x1234, 0xFFFF];
    assert_eq!(Utils::u8_vec_to_u16_vec(Utils::u16_vec_to_u8_vec(words.clone())), words);
}

#[test]
fn flags_pack_least_significant_bit_first() {
    assert_eq!(Utils::bools_to_bytes(vec![true]), vec![0b0000_0001]);
    assert_eq!(Utils::bools_to_bytes(vec![false, true]), vec![0b0000_0010]);
    assert_eq!(
        Utils::bools_to_bytes(vec![true, false, false, false, false, false, false, true]),
        vec![0b1000_0001]
    );
    assert_eq!(Utils::bools_to_bytes(vec![]), Vec::<u8>::new());
}

#[test]
fn flags_past_a_byte_start_the_next() {
    let mut flags = vec![false; 8];
    flags.push(true);
    assert_eq!(Utils::bools_to_bytes(flags), vec![0x00, 0x01]);
    assert_eq!(Utils::bools_to_bytes(vec![true; 16]), vec![0xFF, 0xFF]);
}

#[test]
fn seventeen_alternating_flags_fill_three_bytes() {
    let flags: Vec<bool> = (0..17).map(|i| i % 2 == 0).collect();
    assert_eq!(Utils::bools_to_bytes(flags), vec![0b0101_0101, 0b0101_0101, 0b0000_0001]);
}

#[test]
fn bytes_unpack_to_the_number_of_flags_asked() {
    assert_eq!(
        Utils::bytes_to_bools(vec![0b0000_0101], 3),
        vec![true, false, true]
    );
    assert_eq!(Utils::bytes_to_bools(vec![0xFF, 0x01], 9), vec![true; 9]);
    assert_eq!(Utils::bytes_to_bools(vec![0xFF], 0), Vec::<bool>::new());
    assert_eq!(Utils::bytes_to_bools(vec![0x80], 8), vec![false, false, false, false, false, false, false, true]);
}

#[test]
fn flags_survive_packing() {
    for len in 0..40usize {
        let flags: Vec<bool> = (0..len).map(|i| (i * 7 + len) % 3 == 0).collect();
        let packed = Utils::bools_to_bytes(flags.clone());
        assert_eq!(packed.len(), (len + 7) / 8);
        assert_eq!(Utils::bytes_to_bools(packed, len), flags);
    }
}

#[test]
fn pdu_reads_its_parts() {
    let pdu = Pdu::from_bytes(vec![0x03, 0x00, 0x10, 0x00, 0x02]);
    assert_eq!(pdu.to_bytes(), &vec![0x03, 0x00, 0x10, 0x00, 0x02]);
    assert_eq!(pdu.get_function_code(), 0x03);
    assert_eq!(pdu.get_function_data(), vec![0x00, 0x10, 0x00, 0x02]);
    assert!(!pdu.is_exception());
}

#[test]
fn pdu_default_is_two_zero_bytes() {
    assert_eq!(Pdu::default().to_bytes(), &vec![0u8, 0u8]);
}

#[test]
fn pdu_exception_sets_the_top_bit() {
    let mut pdu = Pdu::from_bytes(vec![0x03, 0x00, 0x10, 0x00, 0x02]);
    pdu.build_exception(0x03, 0x02);
    assert_eq!(pdu.to_bytes(), &vec![0x83, 0x02]);
    assert!(pdu.is_exception());
    assert_eq!(pdu.get_exception(), 0x02);
    let mut short = Pdu::from_bytes(vec![]);
    short.build_exception(0x90, 0x01);
    assert_eq!(short.to_bytes(), &vec![0x90, 0x01]);
}

#[test]
fn pdu_extend_appends() {
    let mut pdu = Pdu::from_bytes(vec![0x17]);
    pdu.extend(vec![0x02]);
    pdu.extend(vec![0xAB, 0xCD]);
    assert_eq!(pdu.to_bytes(), &vec![0x17, 0x02, 0xAB, 0xCD]);
}

#[test]
fn mbap_reads_its_fields_big_endian() {
    let mbap = Mbap::from_bytes(vec![0x12, 0x34, 0x00, 0x00, 0x00, 0x06, 0x11, 0x99]);
    assert_eq!(mbap.to_bytes(), vec![0x12, 0x34, 0x00, 0x00, 0x00, 0x06, 0x11]);
    assert_eq!(mbap.get_transaction_id(), 0x1234);
    assert_eq!(mbap.get_protocol_id(), 0);
    assert_eq!(mbap.get_length(), 6);
    assert_eq!(mbap.get_unit_id(), 0x11);
    assert!(mbap.is_valid());
}

#[test]
fn mbap_with_another_protocol_is_invalid() {
    let mbap = Mbap::from_bytes(vec![0, 1, 0, 1, 0, 6, 1]);
    assert_eq!(mbap.get_protocol_id(), 1);
    assert!(!mbap.is_valid());
}

#[test]
fn mbap_setters_write_their_field_only() {
    let mut mbap = Mbap::default();
    assert_eq!(mbap.to_bytes(), vec![0u8; 7]);
    mbap.set_transaction_id(0xABCD);
    assert_eq!(mbap.to_bytes(), vec![0xAB, 0xCD, 0, 0, 0, 0, 0]);
    mbap.set_protocol_id(0x0102);
    assert_eq!(mbap.to_bytes(), vec![0xAB, 0xCD, 0x01, 0x02, 0, 0, 0]);
    mbap.set_length(0x0304);
    assert_eq!(mbap.to_bytes(), vec![0xAB, 0xCD, 0x01, 0x02, 0x03, 0x04, 0]);
    mbap.set_unit_id(0x7F);
    assert_eq!(mbap.to_bytes(), vec![0xAB, 0xCD, 0x01, 0x02, 0x03, 0x04, 0x7F]);
    assert_eq!(mbap.get_transaction_id(), 0xABCD);
    assert_eq!(mbap.get_length(), 0x0304);
    assert_eq!(mbap.get_unit_id(), 0x7F);
}

#[test]
fn frame_survives_the_wire() {
    let bytes = vec![0x00, 0x01, 0x00, 0x00, 0x00, 0x06, 0x01, 0x05, 0x00, 0x03, 0xFF, 0x00];
    let mut frame = Frame::from_bytes(bytes.clone());
    assert!(frame.is_valid());
    assert_eq!(frame.to_bytes(), bytes);
    assert_eq!(frame.mbap().get_transaction_id(), 1);
    assert_eq!(frame.mbap().get_unit_id(), 1);
    assert_eq!(frame.pdu().get_function_code(), 0x05);
    assert_eq!(frame.pdu().to_bytes(), &vec![0x05, 0x00, 0x03, 0xFF, 0x00]);
    assert_eq!(Frame::from_bytes(frame.to_bytes()).to_bytes(), bytes);
}

#[test]
fn frame_shorter_than_a_header_is_the_default() {
    for len in 0..7usize {
        let mut frame = Frame::from_bytes(vec![0xAA; len]);
        assert!(!frame.is_valid());
        assert_eq!(frame.mbap().to_bytes(), vec![0u8; 7]);
        assert_eq!(frame.pdu().to_bytes(), &Vec::<u8>::new());
    }
    let mut default = Frame::default();
    assert!(!default.is_valid());
    assert_eq!(default.to_bytes(), vec![0u8; 7]);
    assert_eq!(default.pdu().to_bytes().len(), 0);
}

#[test]
fn frame_validity_needs_matching_length_and_protocol_zero() {
    assert!(Frame::from_bytes(vec![0, 1, 0, 0, 0, 3, 1, 0x83, 0x02]).is_valid());
    assert!(!Frame::from_bytes(vec![0, 1, 0, 0, 0, 4, 1, 0x83, 0x02]).is_valid());
    assert!(!Frame::from_bytes(vec![0, 1, 0, 0, 0, 2, 1, 0x83, 0x02]).is_valid());
    assert!(!Frame::from_bytes(vec![0, 1, 0, 1, 0, 3, 1, 0x83, 0x02]).is_valid());
    assert!(Frame::from_bytes(vec![0, 1, 0, 0, 0, 1, 1]).is_valid());
    assert!(!Frame::from_bytes(vec![0, 1, 0, 0, 0, 0, 1]).is_valid());
}

#[test]
fn frame_parts_can_be_changed_in_place() {
    let mut frame = Frame::default();
    *frame.pdu() = Pdu::from_bytes(vec![0x01, 0x00, 0x00, 0x00, 0x08]);
    assert!(!frame.is_valid());
    frame.mbap().set_length(6);
    assert!(frame.is_valid());
    assert_eq!(frame.to_bytes(), vec![0, 0, 0, 0, 0, 6, 0, 0x01, 0x00, 0x00, 0x00, 0x08]);
}

#[test]
fn frame_set_pdu_sets_the_length_field() {
    let mut frame = Frame::from_bytes(vec![0x00, 0x07, 0x00, 0x00, 0x00, 0x06, 0x09, 1, 2, 3, 4, 5]);
    frame.set_pdu(vec![0x83, 0x02]);
    assert_eq!(frame.to_bytes(), vec![0x00, 0x07, 0x00, 0x00, 0x00, 0x03, 0x09, 0x83, 0x02]);
    assert!(frame.is_valid());
    frame.set_pdu(vec![0u8; 65535]);
    assert_eq!(frame.mbap().get_length(), 0);
    assert!(!frame.is_valid());
    frame.set_pdu(vec![0u8; 65534]);
    assert_eq!(frame.mbap().get_length(), 65535);
    assert!(frame.is_valid());
}

#[test]
fn packet_survives_the_wire() {
    let types = [
        (DataType::ModbusCommand, 0u8),
        (DataType::CoilValue, 1),
        (DataType::InputValue, 2),
        (DataType::HoldingRegisterValue, 3),
        (DataType::InputRegisterValue, 4),
        (DataType::Undefined, 255),
    ];
    for (datatype, code) in types {
        let packet = DataPacket::new(datatype, vec![0x00, 0x03, 0x01], 0xBEEF);
        let bytes = packet.to_bytes();
        assert_eq!(bytes, vec![code, 0xBE, 0xEF, 0x00, 0x03, 0x01]);
        let back = DataPacket::from_bytes(bytes);
        assert_eq!(back.datatype, datatype);
        assert_eq!(back.get_id(), 0xBEEF);
        assert_eq!(back.get_value(), &vec![0x00, 0x03, 0x01]);
    }
}

#[test]
fn packet_with_empty_value_survives_the_wire() {
    let packet = DataPacket::new(DataType::CoilValue, vec![], 7);
    assert_eq!(packet.to_bytes(), vec![1, 0, 7]);
    let back = DataPacket::from_bytes(vec![1, 0, 7]);
    assert_eq!(back.datatype, DataType::CoilValue);
    assert_eq!(back.id, 7);
    assert!(back.value.is_empty());
}

#[test]
fn packet_shorter_than_three_bytes_is_undefined() {
    for bytes in [vec![], vec![1u8], vec![1u8, 2u8]] {
        let packet = DataPacket::from_bytes(bytes);
        assert_eq!(packet.datatype, DataType::Undefined);
        assert_eq!(packet.id, 0);
        assert!(packet.value.is_empty());
    }
    let default = DataPacket::default();
    assert_eq!(default.datatype, DataType::Undefined);
    assert_eq!(default.id, 0);
    assert!(default.value.is_empty());
}

#[test]
fn packet_with_unknown_type_byte_is_undefined() {
    for code in [5u8, 6, 100, 254, 255] {
        let packet = DataPacket::from_bytes(vec![code, 0x01, 0x02, 0x09]);
        assert_eq!(packet.datatype, DataType::Undefined);
        assert_eq!(packet.id, 0x0102);
        assert_eq!(packet.value, vec![0x09]);
    }
}
