use protocol_handlers::buffer::Buffer;
use protocol_handlers::ring::{
    consume, frame_message, message_length, publish, ring_for, take_message, wire_copies,
    PublishOutcome, MAX_MESSAGE_SIZE,
};

#[test]
fn buffer_is_a_queue() {
    let mut buffer = Buffer::new();
    assert!(buffer.is_empty());
    buffer.add(vec![1, 2]);
    buffer.add(vec![3]);
    assert!(!buffer.is_empty());
    assert_eq!(buffer.data(), &vec![vec![1, 2], vec![3]]);
    assert_eq!(buffer.latest(), &vec![1, 2]);
    buffer.clean();
    assert_eq!(buffer.latest(), &vec![3]);
    buffer.clean();
    assert!(buffer.is_empty());
    assert!(buffer.data().is_empty());
}

#[test]
fn message_is_framed_with_its_length() {
    assert_eq!(frame_message(&[]), Some(vec![0, 0, 0, 0]));
    assert_eq!(frame_message(&[9, 8, 7]), Some(vec![0, 0, 0, 3, 9, 8, 7]));
    let long = vec![0xAB; 0x0102_03];
    let framed = frame_message(&long).unwrap();
    assert_eq!(&framed[..4], &[0x00, 0x01, 0x02, 0x03]);
    assert_eq!(&framed[4..], &long[..]);
}

#[test]
fn message_longer_than_the_limit_is_not_framed() {
    assert!(frame_message(&vec![0u8; MAX_MESSAGE_SIZE]).is_some());
    assert!(frame_message(&vec![0u8; MAX_MESSAGE_SIZE + 1]).is_none());
}

#[test]
fn front_message_is_taken_whole() {
    let mut buffer = vec![0xEE; 6];
    let available = [vec![0, 0, 0, 3, 9, 8, 7], vec![0, 0, 0, 1, 5]].concat();
    assert_eq!(take_message(&available, &mut buffer), (3, 7));
    assert_eq!(buffer, vec![9, 8, 7, 0xEE, 0xEE, 0xEE]);
    assert_eq!(take_message(&available[7..], &mut buffer), (1, 5));
    assert_eq!(buffer, vec![5, 8, 7, 0xEE, 0xEE, 0xEE]);
}

#[test]
fn incomplete_message_is_left() {
    let mut buffer = vec![0xEE; 4];
    assert_eq!(take_message(&[], &mut buffer), (0, 0));
    assert_eq!(take_message(&[0, 0, 0], &mut buffer), (0, 0));
    assert_eq!(take_message(&[0, 0, 0, 2, 1], &mut buffer), (0, 0));
    assert_eq!(take_message(&[0xFF, 0xFF, 0xFF, 0xFF, 1, 2], &mut buffer), (0, 0));
    assert_eq!(buffer, vec![0xEE; 4]);
}

#[test]
fn empty_message_is_consumed() {
    let mut buffer = vec![0xEE; 4];
    assert_eq!(take_message(&[0, 0, 0, 0, 7], &mut buffer), (0, 4));
    assert_eq!(buffer, vec![0xEE; 4]);
}

#[test]
fn message_longer_than_the_buffer_is_dropped() {
    let mut buffer = vec![0xEE; 2];
    assert_eq!(take_message(&[0, 0, 0, 3, 1, 2, 3], &mut buffer), (0, 7));
    assert_eq!(buffer, vec![0xEE; 2]);
    let mut exact = vec![0xEE; 3];
    assert_eq!(take_message(&[0, 0, 0, 3, 1, 2, 3], &mut exact), (3, 7));
    assert_eq!(exact, vec![1, 2, 3]);
}

#[test]
fn ring_hands_messages_over_in_order() {
    let (mut writer, mut reader) = ring_for(1).unwrap();
    let mut buffer = vec![0u8; 300];
    assert_eq!(consume(&mut reader, &mut buffer), 0);
    assert_eq!(publish(&mut writer, &[1, 2, 3]), PublishOutcome::Published);
    assert_eq!(publish(&mut writer, &[4, 5]), PublishOutcome::Published);
    assert_eq!(consume(&mut reader, &mut buffer), 3);
    assert_eq!(&buffer[..3], &[1, 2, 3]);
    assert_eq!(consume(&mut reader, &mut buffer), 2);
    assert_eq!(&buffer[..3], &[4, 5, 3]);
    assert_eq!(consume(&mut reader, &mut buffer), 0);
    assert_eq!(&buffer[..3], &[4, 5, 3]);
}

#[test]
fn ring_refuses_what_is_too_long_and_reports_when_full() {
    let (mut writer, mut reader) = ring_for(1).unwrap();
    assert_eq!(publish(&mut writer, &vec![0u8; MAX_MESSAGE_SIZE + 1]), PublishOutcome::TooLong);
    let half = vec![7u8; MAX_MESSAGE_SIZE / 2];
    assert_eq!(publish(&mut writer, &half), PublishOutcome::Published);
    assert_eq!(publish(&mut writer, &half), PublishOutcome::Full);
    let mut buffer = vec![0u8; MAX_MESSAGE_SIZE];
    assert_eq!(consume(&mut reader, &mut buffer), MAX_MESSAGE_SIZE / 2);
    assert_eq!(&buffer[..MAX_MESSAGE_SIZE / 2], &half[..]);
    assert_eq!(consume(&mut reader, &mut buffer), 0);
}

#[test]
fn ring_capacity_must_fit_one_buffer() {
    assert!(ring_for(usize::MAX / MAX_MESSAGE_SIZE + 1).is_none());
    assert!(ring_for(isize::MAX as usize / MAX_MESSAGE_SIZE + 1).is_none());
    assert!(ring_for(usize::MAX).is_none());
    assert!(ring_for(0).is_some());
}

#[test]
fn ring_without_room_takes_no_message() {
    let (mut writer, mut reader) = ring_for(0).unwrap();
    assert_eq!(writer.get_capacity(), 0);
    assert_eq!(publish(&mut writer, &[1]), PublishOutcome::TooLong);
    assert_eq!(publish(&mut writer, &[]), PublishOutcome::TooLong);
    let mut buffer = vec![0u8; 8];
    assert_eq!(consume(&mut reader, &mut buffer), 0);
}

#[test]
fn ring_holds_the_greatest_size_times_the_element_count() {
    for count in [0usize, 1, 2, 3] {
        let (writer, _reader) = ring_for(count).unwrap();
        assert_eq!(writer.get_capacity(), count * MAX_MESSAGE_SIZE);
    }
}

#[test]
fn message_that_the_ring_can_never_hold_is_too_long() {
    let (mut writer, mut reader) = ring_for(1).unwrap();
    let mut buffer = vec![0u8; MAX_MESSAGE_SIZE];
    assert_eq!(publish(&mut writer, &vec![1u8; MAX_MESSAGE_SIZE]), PublishOutcome::TooLong);
    assert_eq!(publish(&mut writer, &vec![1u8; MAX_MESSAGE_SIZE - 3]), PublishOutcome::TooLong);
    assert_eq!(consume(&mut reader, &mut buffer), 0);
    let fitting = vec![2u8; MAX_MESSAGE_SIZE - 4];
    assert_eq!(publish(&mut writer, &fitting), PublishOutcome::Published);
    assert_eq!(writer.get_capacity(), MAX_MESSAGE_SIZE);
    assert_eq!(consume(&mut reader, &mut buffer), MAX_MESSAGE_SIZE - 4);
    assert_eq!(&buffer[..MAX_MESSAGE_SIZE - 4], &fitting[..]);
    let (mut wide, _reader) = ring_for(2).unwrap();
    assert_eq!(publish(&mut wide, &vec![1u8; MAX_MESSAGE_SIZE]), PublishOutcome::Published);
    assert_eq!(publish(&mut wide, &vec![1u8; MAX_MESSAGE_SIZE + 1]), PublishOutcome::TooLong);
}

#[test]
fn length_field_is_read_most_significant_byte_first() {
    assert_eq!(message_length(&[0, 0, 0, 0]), 0);
    assert_eq!(message_length(&[0, 0, 1, 2, 9, 9]), 258);
    assert_eq!(message_length(&[0x01, 0x02, 0x03, 0x04]), 0x0102_0304);
    assert_eq!(message_length(&[0xFF, 0xFF, 0xFF, 0xFF]), 0xFFFF_FFFF);
    let framed = frame_message(&[7u8; 300]).unwrap();
    assert_eq!(message_length(&framed), 300);
}

#[test]
fn each_message_goes_out_once_more_than_the_resend_count() {
    assert_eq!(wire_copies(0), 1);
    assert_eq!(wire_copies(1), 2);
    assert_eq!(wire_copies(255), 256);
}
