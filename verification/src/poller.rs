//! Read mode on the source side: which addresses to poll, and the packets
//! that carry what a poll returned.
//!
//! The addresses come as text: items separated by commas, each item a
//! decimal address or a range `lo-hi` with both ends included.

use vstd::prelude::*;
use vstd::utf8::encode_utf8;
use crate::data_packet::{DataPacket, DataType, PacketView, PACKET_ID_LIMIT};
use crate::random::random_below;
use crate::utils::{high_byte, low_byte, Utils};

verus! {

/// A run of `count` addresses from `start`.
#[derive(Clone, Copy, PartialEq, Eq, Debug, Structural)]
pub struct AddressRange {
    pub start: u16,
    pub count: u16,
}

/// The byte of the comma that separates items.
pub const ITEM_SEPARATOR: u8 = 44;

/// The byte of the dash between the two ends of a range.
pub const RANGE_SEPARATOR: u8 = 45;

/// Whether a byte is a decimal digit.
pub open spec fn is_digit(byte: u8) -> bool {
    48 <= byte <= 57
}

/// Whether every byte of a text is a decimal digit.
pub open spec fn all_digits(text: Seq<u8>) -> bool {
    forall|i: int| 0 <= i < text.len() ==> is_digit(#[trigger] text[i])
}

/// The number that decimal digits write.
pub open spec fn decimal_value(digits: Seq<u8>) -> int
    decreases digits.len(),
{
    if digits.len() == 0 {
        0
    } else {
        decimal_value(digits.drop_last()) * 10 + (digits.last() - 48)
    }
}

/// The address that a text writes: one or more decimal digits that give a
/// number up to 65535.
pub open spec fn parse_address(text: Seq<u8>) -> Option<u16> {
    if text.len() > 0 && all_digits(text) && decimal_value(text) <= 65535 {
        Some(decimal_value(text) as u16)
    } else {
        None
    }
}

/// The place of the first `byte` in `text`, or the length of `text` if
/// there is none.
pub open spec fn index_of(text: Seq<u8>, byte: u8) -> int
    decreases text.len(),
{
    if text.len() == 0 {
        0
    } else if text[0] == byte {
        0
    } else {
        1 + index_of(text.drop_first(), byte)
    }
}

/// The range that an item writes: a single address, or `lo-hi` with
/// `lo <= hi`, which stands for the `hi - lo + 1` addresses from `lo`. A
/// range of all 65536 addresses cannot be asked for in one request and is
/// no item.
pub open spec fn parse_item(text: Seq<u8>) -> Option<AddressRange> {
    let dash = index_of(text, RANGE_SEPARATOR);
    if dash == text.len() {
        match parse_address(text) {
            Some(start) => Some(AddressRange { start, count: 1 }),
            None => None,
        }
    } else {
        match (
            parse_address(text.subrange(0, dash)),
            parse_address(text.subrange(dash + 1, text.len() as int)),
        ) {
            (Some(low), Some(high)) => if low <= high && high - low + 1 <= 65535 {
                Some(AddressRange { start: low, count: (high - low + 1) as u16 })
            } else {
                None
            },
            _ => None,
        }
    }
}

/// The ranges that a list of one or more items writes.
pub open spec fn parse_items(text: Seq<u8>) -> Option<Seq<AddressRange>>
    decreases text.len(),
{
    let comma = index_of(text, ITEM_SEPARATOR);
    if comma < 0 || comma >= text.len() {
        match parse_item(text) {
            Some(range) => Some(seq![range]),
            None => None,
        }
    } else {
        match (
            parse_item(text.subrange(0, comma)),
            parse_items(text.subrange(comma + 1, text.len() as int)),
        ) {
            (Some(range), Some(rest)) => Some(seq![range] + rest),
            _ => None,
        }
    }
}

/// The ranges that an address list writes. The empty text writes
/// no range at all.
pub open spec fn parse_address_list(text: Seq<u8>) -> Option<Seq<AddressRange>> {
    if text.len() == 0 {
        Some(Seq::empty())
    } else {
        parse_items(text)
    }
}

/// The ranges found so far, followed by those of the rest.
pub open spec fn ranges_then(found: Seq<AddressRange>, rest: Option<Seq<AddressRange>>) -> Option<
    Seq<AddressRange>,
> {
    match rest {
        Some(rest) => Some(found + rest),
        None => None,
    }
}

/// The value of a packet that reports a flag: the address big-endian, then
/// 1 for set and 0 for clear.
pub open spec fn bit_report(address: u16, status: bool) -> Seq<u8> {
    seq![high_byte(address), low_byte(address), if status { 1u8 } else { 0u8 }]
}

/// The value of a packet that reports a register: the address and the
/// register, both big-endian.
pub open spec fn register_report(address: u16, value: u16) -> Seq<u8> {
    seq![high_byte(address), low_byte(address), high_byte(value), low_byte(value)]
}

/// `index_of` is the place before which no byte is `byte`, and at which
/// `byte` stands unless it is the end.
pub proof fn lemma_index_of(text: Seq<u8>, byte: u8, at: int)
    requires
        0 <= at <= text.len(),
        forall|i: int| 0 <= i < at ==> text[i] != byte,
        at < text.len() ==> text[at] == byte,
    ensures
        index_of(text, byte) == at,
    decreases text.len(),
{
    if text.len() > 0 && at > 0 {
        let rest = text.drop_first();
        assert forall|i: int| 0 <= i < at - 1 implies rest[i] != byte by {
            assert(rest[i] == text[i + 1]);
        }
        lemma_index_of(rest, byte, at - 1);
    }
}

/// More digits never write a smaller number.
proof fn lemma_decimal_prefix(digits: Seq<u8>, k: int)
    requires
        0 <= k <= digits.len(),
        all_digits(digits),
    ensures
        0 <= decimal_value(digits.subrange(0, k)) <= decimal_value(digits),
    decreases digits.len() - k,
{
    if k == digits.len() {
        assert(digits.subrange(0, k) =~= digits);
        lemma_decimal_nonnegative(digits);
    } else {
        let shorter = digits.drop_last();
        assert(shorter.subrange(0, k) =~= digits.subrange(0, k));
        assert(all_digits(shorter)) by {
            assert forall|i: int| 0 <= i < shorter.len() implies is_digit(
                #[trigger] shorter[i],
            ) by {
                assert(shorter[i] == digits[i]);
            }
        }
        lemma_decimal_prefix(shorter, k);
        assert(is_digit(digits[digits.len() - 1]));
    }
}

proof fn lemma_decimal_nonnegative(digits: Seq<u8>)
    requires
        all_digits(digits),
    ensures
        0 <= decimal_value(digits),
    decreases digits.len(),
{
    if digits.len() > 0 {
        let shorter = digits.drop_last();
        assert forall|i: int| 0 <= i < shorter.len() implies is_digit(#[trigger] shorter[i]) by {
            assert(shorter[i] == digits[i]);
        }
        lemma_decimal_nonnegative(shorter);
        assert(is_digit(digits[digits.len() - 1]));
    }
}

/// The place of the first `byte` in `text` from `from` up to `to`, or `to`.
fn find_byte(text: &[u8], from: usize, to: usize, byte: u8) -> (at: usize)
    requires
        from <= to <= text@.len(),
    ensures
        from <= at <= to,
        at - from == index_of(text@.subrange(from as int, to as int), byte),
{
    let mut at: usize = from;
    while at < to && text[at] != byte
        invariant
            from <= at <= to <= text@.len(),
            forall|i: int| from <= i < at ==> text@[i] != byte,
        decreases to - at,
    {
        at = at + 1;
    }
    proof {
        lemma_index_of(text@.subrange(from as int, to as int), byte, at - from);
    }
    at
}

/// The address written from `from` up to `to`.
fn parse_decimal(text: &[u8], from: usize, to: usize) -> (address: Option<u16>)
    requires
        from <= to <= text@.len(),
    ensures
        address == parse_address(text@.subrange(from as int, to as int)),
{
    let ghost whole = text@.subrange(from as int, to as int);
    if from == to {
        return None;
    }
    let mut value: u16 = 0;
    let mut pos: usize = from;
    while pos < to
        invariant
            from <= pos <= to <= text@.len(),
            whole == text@.subrange(from as int, to as int),
            all_digits(whole.subrange(0, pos - from)),
            value == decimal_value(whole.subrange(0, pos - from)),
        decreases to - pos,
    {
        let byte: u8 = text[pos];
        let ghost before = whole.subrange(0, pos - from);
        let ghost after = whole.subrange(0, pos - from + 1);
        proof {
            assert(after.drop_last() =~= before);
            assert(after.last() == byte);
        }
        if byte < 48 || byte > 57 {
            assert(!is_digit(whole[pos - from]));
            return None;
        }
        let digit: u16 = (byte - 48) as u16;
        if value > 6553 || (value == 6553 && digit > 5) {
            proof {
                if all_digits(whole) {
                    lemma_decimal_prefix(whole, pos - from + 1);
                }
            }
            return None;
        }
        value = value * 10 + digit;
        pos = pos + 1;
        proof {
            assert forall|i: int| 0 <= i < after.len() implies is_digit(#[trigger] after[i]) by {
                if i < before.len() {
                    assert(after[i] == before[i]);
                }
            }
        }
    }
    proof {
        assert(whole.subrange(0, to - from) =~= whole);
    }
    Some(value)
}

/// The range written from `from` up to `to`.
fn parse_range(text: &[u8], from: usize, to: usize) -> (range: Option<AddressRange>)
    requires
        from <= to <= text@.len(),
    ensures
        range == parse_item(text@.subrange(from as int, to as int)),
{
    let ghost item = text@.subrange(from as int, to as int);
    let dash: usize = find_byte(text, from, to, RANGE_SEPARATOR);
    if dash == to {
        match parse_decimal(text, from, to) {
            Some(start) => Some(AddressRange { start, count: 1 }),
            None => None,
        }
    } else {
        proof {
            assert(item.subrange(0, dash - from) =~= text@.subrange(from as int, dash as int));
            assert(item.subrange(dash - from + 1, item.len() as int) =~= text@.subrange(
                dash + 1,
                to as int,
            ));
        }
        let low: Option<u16> = parse_decimal(text, from, dash);
        let high: Option<u16> = parse_decimal(text, dash + 1, to);
        match (low, high) {
            (Some(low), Some(high)) => {
                if low <= high && high - low < 65535 {
                    Some(AddressRange { start: low, count: high - low + 1 })
                } else {
                    None
                }
            },
            _ => None,
        }
    }
}

/// One step through a list of items: what the whole list writes, given the
/// ranges found before `rest` and the place of the first comma in `rest`.
proof fn lemma_items_step(rest: Seq<u8>, at: int, found: Seq<AddressRange>)
    requires
        at == index_of(rest, ITEM_SEPARATOR),
        0 <= at <= rest.len(),
    ensures
        parse_item(rest.subrange(0, at)) is None ==> ranges_then(found, parse_items(rest))
            is None,
        parse_item(rest.subrange(0, at)) is Some && at == rest.len() ==> ranges_then(
            found,
            parse_items(rest),
        ) == Some(found.push(parse_item(rest.subrange(0, at)).unwrap())),
        parse_item(rest.subrange(0, at)) is Some && at < rest.len() ==> ranges_then(
            found,
            parse_items(rest),
        ) == ranges_then(
            found.push(parse_item(rest.subrange(0, at)).unwrap()),
            parse_items(rest.subrange(at + 1, rest.len() as int)),
        ),
{
    let item = parse_item(rest.subrange(0, at));
    if at == rest.len() {
        assert(rest.subrange(0, at) =~= rest);
        if item is Some {
            assert(found + seq![item.unwrap()] =~= found.push(item.unwrap()));
        }
    } else if item is Some {
        match parse_items(rest.subrange(at + 1, rest.len() as int)) {
            Some(tail) => {
                assert(found + (seq![item.unwrap()] + tail) =~= found.push(item.unwrap()) + tail);
            },
            None => {},
        }
    }
}

/// Parses an address list. `None` means that the text is not one:
/// an item is empty or not decimal, an address is above 65535, or a range
/// runs backwards or spans all 65536 addresses.
pub fn parse_addresses(list: &str) -> (ranges: Option<Vec<AddressRange>>)
    ensures
        match parse_address_list(encode_utf8(list@)) {
            Some(expected) => ranges is Some && ranges.unwrap()@ == expected,
            None => ranges is None,
        },
{
    let text: &[u8] = list.as_bytes();
    let len: usize = text.len();
    let mut out: Vec<AddressRange> = Vec::new();
    if len == 0 {
        return Some(out);
    }
    let mut pos: usize = 0;
    proof {
        assert(text@.subrange(0, len as int) =~= text@);
        match parse_items(text@) {
            Some(all) => {
                assert(out@ + all =~= all);
            },
            None => {},
        }
    }
    loop
        invariant
            len == text@.len(),
            len > 0,
            text@ == encode_utf8(list@),
            pos <= len,
            parse_items(text@) == ranges_then(
                out@,
                parse_items(text@.subrange(pos as int, len as int)),
            ),
        decreases len - pos,
    {
        let ghost rest = text@.subrange(pos as int, len as int);
        let ghost found = out@;
        let comma: usize = find_byte(text, pos, len, ITEM_SEPARATOR);
        proof {
            assert(rest.subrange(0, comma - pos) =~= text@.subrange(pos as int, comma as int));
            if comma < len {
                assert(rest.subrange(comma - pos + 1, rest.len() as int) =~= text@.subrange(
                    comma + 1,
                    len as int,
                ));
            }
            lemma_items_step(rest, comma - pos, found);
        }
        let range: Option<AddressRange> = parse_range(text, pos, comma);
        if range.is_none() {
            return None;
        }
        out.push(range.unwrap());
        if comma == len {
            return Some(out);
        }
        pos = comma + 1;
    }
}

/// The packet that reports the flag at `address`.
pub fn bit_packet(datatype: DataType, address: u16, status: bool, id: u16) -> (packet: DataPacket)
    ensures
        packet@ == (PacketView { datatype, id, value: bit_report(address, status) }),
{
    let place: [u8; 2] = Utils::u16_to_u8(address);
    let mut value: Vec<u8> = Vec::new();
    value.push(place[0]);
    value.push(place[1]);
    value.push(if status { 1 } else { 0 });
    assert(value@ =~= bit_report(address, status));
    DataPacket::new(datatype, value, id)
}

/// The packet that reports the register at `address`.
pub fn register_packet(datatype: DataType, address: u16, register: u16, id: u16) -> (packet:
    DataPacket)
    ensures
        packet@ == (PacketView { datatype, id, value: register_report(address, register) }),
{
    let place: [u8; 2] = Utils::u16_to_u8(address);
    let word: [u8; 2] = Utils::u16_to_u8(register);
    let mut value: Vec<u8> = Vec::new();
    value.push(place[0]);
    value.push(place[1]);
    value.push(word[0]);
    value.push(word[1]);
    assert(value@ =~= register_report(address, register));
    DataPacket::new(datatype, value, id)
}

/// The packets for the flags that a poll from `start` returned: one per
/// flag, in order of address, each with an identifier drawn at random from
/// 0 up to, and without, `PACKET_ID_LIMIT`.
pub fn bit_packets(datatype: DataType, start: u16, statuses: &Vec<bool>) -> (packets: Vec<
    DataPacket,
>)
    requires
        start + statuses@.len() <= 65536,
    ensures
        packets@.len() == statuses@.len(),
        forall|i: int|
            0 <= i < packets@.len() ==> {
                &&& (#[trigger] packets@[i])@.datatype == datatype
                &&& packets@[i]@.value == bit_report((start + i) as u16, statuses@[i])
                &&& packets@[i]@.id < PACKET_ID_LIMIT
            },
{
    let mut out: Vec<DataPacket> = Vec::new();
    let mut index: usize = 0;
    while index < statuses.len()
        invariant
            index <= statuses@.len(),
            start + statuses@.len() <= 65536,
            out@.len() == index,
            forall|i: int|
                0 <= i < out@.len() ==> {
                    &&& (#[trigger] out@[i])@.datatype == datatype
                    &&& out@[i]@.value == bit_report((start + i) as u16, statuses@[i])
                    &&& out@[i]@.id < PACKET_ID_LIMIT
                },
        decreases statuses@.len() - index,
    {
        let address: u16 = (start as usize + index) as u16;
        let id: u16 = random_below(PACKET_ID_LIMIT);
        out.push(bit_packet(datatype, address, statuses[index], id));
        index = index + 1;
    }
    out
}

/// The packets for the registers that a poll from `start` returned: one
/// per register, in order of address, each with an identifier drawn at
/// random from 0 up to, and without, `PACKET_ID_LIMIT`.
pub fn register_packets(datatype: DataType, start: u16, registers: &Vec<u16>) -> (packets: Vec<
    DataPacket,
>)
    requires
        start + registers@.len() <= 65536,
    ensures
        packets@.len() == registers@.len(),
        forall|i: int|
            0 <= i < packets@.len() ==> {
                &&& (#[trigger] packets@[i])@.datatype == datatype
                &&& packets@[i]@.value == register_report((start + i) as u16, registers@[i])
                &&& packets@[i]@.id < PACKET_ID_LIMIT
            },
{
    let mut out: Vec<DataPacket> = Vec::new();
    let mut index: usize = 0;
    while index < registers.len()
        invariant
            index <= registers@.len(),
            start + registers@.len() <= 65536,
            out@.len() == index,
            forall|i: int|
                0 <= i < out@.len() ==> {
                    &&& (#[trigger] out@[i])@.datatype == datatype
                    &&& out@[i]@.value == register_report((start + i) as u16, registers@[i])
                    &&& out@[i]@.id < PACKET_ID_LIMIT
                },
        decreases registers@.len() - index,
    {
        let address: u16 = (start as usize + index) as u16;
        let id: u16 = random_below(PACKET_ID_LIMIT);
        out.push(register_packet(datatype, address, registers[index], id));
        index = index + 1;
    }
    out
}

/// The pause in milliseconds between the start of one poller and the start
/// of the next: a quarter of the delay between requests, so that the
/// packets of the four pollers alternate in the ring.
pub fn stagger_ms(delay_ms: u64) -> (pause: u64)
    ensures
        pause == delay_ms / 4,
{
    delay_ms / 4
}

/// The ranges of one poller and the place of the range that is polled
/// next. The ranges are polled in order, round and round.
pub struct Poller {
    ranges: Vec<AddressRange>,
    next: usize,
}

/// What a poller is: its ranges, and the index of the next one to poll.
pub struct PollerView {
    pub ranges: Seq<AddressRange>,
    pub next: int,
}

impl View for Poller {
    type V = PollerView;

    closed spec fn view(&self) -> PollerView {
        PollerView { ranges: self.ranges@, next: self.next as int }
    }
}

impl Poller {
    #[verifier::type_invariant]
    spec fn next_in_range(self) -> bool {
        self.next == 0 || self.next < self.ranges@.len()
    }

    /// The poller for an address list, starting at its first
    /// range; `None` if the text is no address list.
    pub fn new(list: &str) -> (poller: Option<Self>)
        ensures
            match parse_address_list(encode_utf8(list@)) {
                Some(ranges) => poller is Some && poller.unwrap()@ == (PollerView {
                    ranges,
                    next: 0,
                }),
                None => poller is None,
            },
    {
        match parse_addresses(list) {
            Some(ranges) => Some(Poller { ranges, next: 0 }),
            None => None,
        }
    }

    /// Whether there is anything to poll. A poller made from the empty
    /// text has nothing to poll.
    pub fn is_enabled(&self) -> (enabled: bool)
        ensures
            enabled == (self@.ranges.len() > 0),
    {
        self.ranges.len() > 0
    }

    /// The range to poll now, and moves on to the one after it, from the
    /// last back to the first. `None` if there is nothing to poll.
    pub fn next_range(&mut self) -> (range: Option<AddressRange>)
        ensures
            final(self)@.ranges == old(self)@.ranges,
            old(self)@.ranges.len() == 0 ==> range is None && final(self)@ == old(self)@,
            old(self)@.ranges.len() > 0 ==> {
                &&& 0 <= old(self)@.next < old(self)@.ranges.len()
                &&& range == Some(old(self)@.ranges[old(self)@.next])
                &&& final(self)@.next == if old(self)@.next + 1 < old(self)@.ranges.len() {
                    old(self)@.next + 1
                } else {
                    0
                }
            },
    {
        proof {
            use_type_invariant(&*self);
        }
        if self.ranges.len() == 0 {
            return None;
        }
        let range: AddressRange = self.ranges[self.next];
        if self.next + 1 < self.ranges.len() {
            self.next = self.next + 1;
        } else {
            self.next = 0;
        }
        Some(range)
    }
}

} // verus!
