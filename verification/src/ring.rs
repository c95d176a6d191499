//! Messages on the byte ring between a handler and the carrier.
//!
//! The ring is a single-producer single-consumer buffer of bytes. A message
//! goes into it as one contiguous piece: four bytes that hold its length,
//! most significant first, and then its bytes. The reader takes one message
//! at a time off the front.

use vstd::prelude::*;
use crate::byte_order::append_bytes;

verus! {

/// The longest message that the ring takes.
pub const MAX_MESSAGE_SIZE: usize = 1_048_576;

/// How long, in milliseconds, a reader waits before it looks into an empty
/// ring again.
pub const POLL_INTERVAL_MS: u64 = 10;

/// `spsc_bip_buffer::BipBufferWriter`: the writing end of a ring. Proofs see
/// nothing of what is inside it.
#[verifier::external_type_specification]
#[verifier::external_body]
pub struct ExBipBufferWriter(spsc_bip_buffer::BipBufferWriter);

/// `spsc_bip_buffer::BipBufferReader`: the reading end of a ring. Proofs see
/// nothing of what is inside it.
#[verifier::external_type_specification]
#[verifier::external_body]
pub struct ExBipBufferReader(spsc_bip_buffer::BipBufferReader);

/// The number of bytes that the ring behind a writer was made to hold. It
/// is fixed when the ring is made (`bip_buffer_with_len` builds the ring
/// over a vector of that many bytes) and nothing changes it afterwards.
pub uninterp spec fn ring_capacity(writer: spsc_bip_buffer::BipBufferWriter) -> nat;

/// The writing end of a ring, together with the number of bytes that the
/// ring holds.
pub struct RingWriter {
    writer: spsc_bip_buffer::BipBufferWriter,
    capacity: usize,
}

/// How an attempt to publish a message ended.
#[derive(Clone, Copy, PartialEq, Eq, Debug, Structural)]
pub enum PublishOutcome {
    /// The message is in the ring.
    Published,
    /// The ring has no contiguous room for the message now.
    Full,
    /// The message is longer than the ring takes: longer than the greatest
    /// size of a message, or, with its length field, longer than the ring.
    TooLong,
}

/// The four bytes that hold a length, most significant first.
pub open spec fn length_field(len: nat) -> Seq<u8> {
    seq![
        ((len / 16777216) % 256) as u8,
        ((len / 65536) % 256) as u8,
        ((len / 256) % 256) as u8,
        (len % 256) as u8,
    ]
}

/// The length that the first four of some bytes hold.
pub open spec fn length_of_field(bytes: Seq<u8>) -> nat {
    (bytes[0] as nat) * 16777216 + (bytes[1] as nat) * 65536 + (bytes[2] as nat) * 256
        + bytes[3] as nat
}

/// A message as it lies in the ring: its length, then its bytes.
pub open spec fn framed(message: Seq<u8>) -> Seq<u8> {
    length_field(message.len()) + message
}

/// Whether a ring of `capacity` bytes takes a message of `len` bytes at
/// all: the message is not longer than the greatest size, and with its
/// length field it is not longer than the ring.
pub open spec fn ring_takes(capacity: nat, len: nat) -> bool {
    len <= MAX_MESSAGE_SIZE && 4 + len <= capacity
}

/// The message at the front of the readable bytes, if all of it is there.
pub open spec fn front_message(available: Seq<u8>) -> Option<Seq<u8>> {
    if available.len() >= 4 && available.len() >= 4 + length_of_field(available) {
        Some(available.subrange(4, 4 + length_of_field(available) as int))
    } else {
        None
    }
}

/// What a reader gets out of the readable bytes: the length of the message
/// delivered, and its buffer afterwards. The message at the front is put at
/// the start of the buffer if it fits; if it does not fit, or no whole
/// message is there, nothing is delivered and the buffer stays as it is.
pub open spec fn delivered(available: Seq<u8>, buffer: Seq<u8>) -> (nat, Seq<u8>) {
    match front_message(available) {
        Some(message) => if message.len() <= buffer.len() {
            (message.len(), message + buffer.subrange(message.len() as int, buffer.len() as int))
        } else {
            (0, buffer)
        },
        None => (0, buffer),
    }
}

/// How many of the readable bytes a reader uses up: the message at the
/// front with its length field, delivered or not.
pub open spec fn used_up(available: Seq<u8>) -> nat {
    match front_message(available) {
        Some(message) => 4 + message.len(),
        None => 0,
    }
}

/// How many messages go onto the carrier for one message off the ring: the
/// message itself and one copy for each resend.
pub open spec fn copies_on_wire(fec_resend_count: u8) -> int {
    fec_resend_count + 1
}

/// `spsc_bip_buffer::bip_buffer_with_len`: the two ends of a new ring that
/// holds `capacity` bytes. The ring allocates its bytes as one vector, which
/// panics above `isize::MAX`; such a capacity is left out.
#[verifier::external_body]
pub(crate) fn ring_with_len(capacity: usize) -> (ends: (
    spsc_bip_buffer::BipBufferWriter,
    spsc_bip_buffer::BipBufferReader,
))
    requires
        capacity <= isize::MAX,
    ensures
        ring_capacity(ends.0) == capacity,
{
    spsc_bip_buffer::bip_buffer_with_len(capacity)
}

/// `BipBufferWriter::reserve`, and on the reservation `copy_from_slice` and
/// `send`: puts the bytes into the ring as one contiguous piece if there is
/// room for them now, and says whether it did. The ring holds as many bytes
/// afterwards as before. `reserve` panics on an empty request, which is
/// left out.
#[verifier::external_body]
pub(crate) fn ring_write(writer: &mut spsc_bip_buffer::BipBufferWriter, bytes: &[u8]) -> (written:
    bool)
    requires
        bytes@.len() > 0,
    ensures
        ring_capacity(*final(writer)) == ring_capacity(*old(writer)),
{
    match writer.reserve(bytes.len()) {
        Some(mut reservation) => {
            reservation.copy_from_slice(bytes);
            reservation.send();
            true
        },
        None => false,
    }
}

/// `BipBufferReader::valid`: the bytes that were written and not yet
/// consumed, as far as they lie in one piece. What they are depends on what
/// the writer has done by now.
#[verifier::external_body]
pub(crate) fn ring_valid<'a>(reader: &'a mut spsc_bip_buffer::BipBufferReader) -> (available: &'a [u8])
{
    reader.valid()
}

/// `BipBufferReader::consume`: marks the first `len` readable bytes as
/// read, if there are that many, and says whether it did.
#[verifier::external_body]
pub(crate) fn ring_consume(reader: &mut spsc_bip_buffer::BipBufferReader, len: usize) -> (consumed:
    bool)
{
    reader.consume(len)
}

impl RingWriter {
    /// The number of bytes that the writer takes its ring to hold.
    pub closed spec fn capacity(&self) -> nat {
        self.capacity as nat
    }

    /// Whether that number is the one that the ring was made with. It is so
    /// of every writer that `ring_for` hands out, and `publish` keeps it
    /// so.
    pub closed spec fn wf(&self) -> bool {
        ring_capacity(self.writer) == self.capacity
    }

    /// The number of bytes that the ring holds.
    pub fn get_capacity(&self) -> (capacity: usize)
        ensures
            capacity == self.capacity(),
    {
        self.capacity
    }
}

/// A ring for `element_count` messages of the greatest size: it holds
/// `element_count` times `MAX_MESSAGE_SIZE` bytes. `None` if that many
/// bytes are more than one buffer in memory can hold.
pub fn ring_for(element_count: usize) -> (ends: Option<
    (RingWriter, spsc_bip_buffer::BipBufferReader),
>)
    ensures
        ends is Some == (element_count * MAX_MESSAGE_SIZE <= isize::MAX),
        ends is Some ==> ends.unwrap().0.wf() && ends.unwrap().0.capacity() == element_count
            * MAX_MESSAGE_SIZE,
{
    if element_count > isize::MAX as usize / MAX_MESSAGE_SIZE {
        return None;
    }
    let capacity: usize = MAX_MESSAGE_SIZE * element_count;
    let (writer, reader) = ring_with_len(capacity);
    Some((RingWriter { writer, capacity }, reader))
}

/// The length that the first four bytes of `field` hold.
pub fn message_length(field: &[u8]) -> (length: usize)
    requires
        field@.len() >= 4,
    ensures
        length == length_of_field(field@),
{
    let length: u64 = (field[0] as u64) * 16777216 + (field[1] as u64) * 65536 + (field[2] as u64)
        * 256 + field[3] as u64;
    length as usize
}

/// The message with its length in front, as it goes into the ring; `None`
/// if the message is longer than the ring takes.
pub fn frame_message(message: &[u8]) -> (bytes: Option<Vec<u8>>)
    ensures
        bytes is Some == (message@.len() <= MAX_MESSAGE_SIZE),
        bytes is Some ==> bytes.unwrap()@ == framed(message@),
{
    let len: usize = message.len();
    if len > MAX_MESSAGE_SIZE {
        return None;
    }
    let mut out: Vec<u8> = Vec::new();
    out.push(((len / 16777216) % 256) as u8);
    out.push(((len / 65536) % 256) as u8);
    out.push(((len / 256) % 256) as u8);
    out.push((len % 256) as u8);
    append_bytes(&mut out, message);
    assert(out@ =~= framed(message@));
    Some(out)
}

/// Takes the message at the front of `available`, if all of it is there.
/// Gives the number of bytes of the message put into `buffer` and the
/// number of bytes to consume from the ring. A message that is longer than
/// `buffer` is consumed and not delivered.
pub fn take_message(available: &[u8], buffer: &mut Vec<u8>) -> (taken: (usize, usize))
    ensures
        (taken.0 as nat, final(buffer)@) == delivered(available@, old(buffer)@),
        taken.1 == used_up(available@),
{
    if available.len() < 4 {
        return (0, 0);
    }
    let room: usize = available.len() - 4;
    let len: usize = message_length(available);
    if len > room {
        return (0, 0);
    }
    if len > buffer.len() {
        return (0, 4 + len);
    }
    let mut index: usize = 0;
    while index < len
        invariant
            index <= len,
            4 + len <= available@.len() <= usize::MAX,
            len <= buffer@.len(),
            buffer@.len() == old(buffer)@.len(),
            buffer@ == available@.subrange(4, 4 + index) + old(buffer)@.subrange(
                index as int,
                old(buffer)@.len() as int,
            ),
        decreases len - index,
    {
        buffer.set(index, available[4 + index]);
        index = index + 1;
        assert(buffer@ =~= available@.subrange(4, 4 + index) + old(buffer)@.subrange(
            index as int,
            old(buffer)@.len() as int,
        ));
    }
    (len, 4 + len)
}

/// Puts a message into the ring, if the ring takes it at all and there is
/// room for it now. Whether there is room depends on what the reader has
/// consumed by now. A message that the ring does not take at all is
/// answered with `TooLong` and never tried.
pub fn publish(writer: &mut RingWriter, message: &[u8]) -> (outcome: PublishOutcome)
    ensures
        outcome == PublishOutcome::TooLong <==> !ring_takes(
            old(writer).capacity(),
            message@.len(),
        ),
        final(writer).capacity() == old(writer).capacity(),
        final(writer).wf() == old(writer).wf(),
{
    if writer.capacity < 4 || message.len() > writer.capacity - 4 {
        return PublishOutcome::TooLong;
    }
    match frame_message(message) {
        None => PublishOutcome::TooLong,
        Some(bytes) => {
            if ring_write(&mut writer.writer, bytes.as_slice()) {
                PublishOutcome::Published
            } else {
                PublishOutcome::Full
            }
        },
    }
}

/// Takes at most one message off the ring into `buffer` and gives its
/// length; 0 if no complete message is there. Which bytes are readable
/// depends on what the writer has done by now; whatever they are, the
/// reader gets out of them what `delivered` says.
pub fn consume(reader: &mut spsc_bip_buffer::BipBufferReader, buffer: &mut Vec<u8>) -> (length:
    usize)
    ensures
        exists|available: Seq<u8>|
            (length as nat, final(buffer)@) == #[trigger] delivered(available, old(buffer)@),
{
    let available: &[u8] = ring_valid(reader);
    let ghost seen = available@;
    let (length, used) = take_message(available, buffer);
    if used > 0 {
        let _ = ring_consume(reader, used);
    }
    assert((length as nat, buffer@) == delivered(seen, old(buffer)@));
    length
}

/// Whatever is readable, the buffer keeps its length, the length delivered
/// fits it, and what lies behind the message delivered is untouched.
pub proof fn lemma_delivered_keeps_the_rest(available: Seq<u8>, buffer: Seq<u8>)
    ensures
        delivered(available, buffer).1.len() == buffer.len(),
        delivered(available, buffer).0 <= buffer.len(),
        delivered(available, buffer).1.subrange(
            delivered(available, buffer).0 as int,
            buffer.len() as int,
        ) == buffer.subrange(delivered(available, buffer).0 as int, buffer.len() as int),
{
    let (length, after) = delivered(available, buffer);
    assert(after.subrange(length as int, buffer.len() as int) =~= buffer.subrange(
        length as int,
        buffer.len() as int,
    ));
}

/// The number of times a message goes onto the carrier, given the number
/// of resends.
pub fn wire_copies(fec_resend_count: u8) -> (copies: u16)
    ensures
        copies == copies_on_wire(fec_resend_count),
{
    fec_resend_count as u16 + 1
}

/// The message at the front of the ring is the one that was framed first:
/// whatever follows it, a framed message is taken off whole.
pub proof fn lemma_front_of_framed(message: Seq<u8>, rest: Seq<u8>)
    requires
        message.len() < 0x1_0000_0000,
    ensures
        front_message(framed(message) + rest) == Some(message),
{
    let len = message.len();
    let bytes = framed(message) + rest;
    assert(bytes[0] == ((len / 16777216) % 256) as u8);
    assert(bytes[1] == ((len / 65536) % 256) as u8);
    assert(bytes[2] == ((len / 256) % 256) as u8);
    assert(bytes[3] == (len % 256) as u8);
    assert(length_of_field(bytes) == len);
    assert(bytes.subrange(4, 4 + len as int) =~= message);
}

} // verus!
