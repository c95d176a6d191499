//! Integers as bytes in the byte order of the host, and small helpers for
//! moving bytes between vectors.

use vstd::prelude::*;
use vstd::endian::{endianness, Endian};

verus! {

/// The `width` least significant base-256 digits of `value`, least
/// significant first.
pub open spec fn little_endian(value: nat, width: nat) -> Seq<u8>
    decreases width,
{
    if width == 0 {
        Seq::empty()
    } else {
        seq![(value % 256) as u8] + little_endian(value / 256, (width - 1) as nat)
    }
}

/// The number whose base-256 digits, least significant first, are `bytes`.
pub open spec fn little_endian_value(bytes: Seq<u8>) -> nat
    decreases bytes.len(),
{
    if bytes.len() == 0 {
        0
    } else {
        bytes[0] as nat + 256 * little_endian_value(bytes.drop_first())
    }
}

/// 256 to the power `width`: the first value that `width` bytes cannot hold.
pub open spec fn byte_limit(width: nat) -> nat
    decreases width,
{
    if width == 0 {
        1
    } else {
        256 * byte_limit((width - 1) as nat)
    }
}

/// `width` bytes of `value` in the byte order of the host: least
/// significant first on a little-endian host, most significant first on a
/// big-endian one.
pub open spec fn native_bytes(value: nat, width: nat) -> Seq<u8> {
    match endianness() {
        Endian::Little => little_endian(value, width),
        Endian::Big => little_endian(value, width).reverse(),
    }
}

/// The number that `bytes` hold in the byte order of the host.
pub open spec fn native_value(bytes: Seq<u8>) -> nat {
    match endianness() {
        Endian::Little => little_endian_value(bytes),
        Endian::Big => little_endian_value(bytes.reverse()),
    }
}

/// The two's complement of a signed 64-bit integer as an unsigned one.
pub open spec fn offset_bits(offset: i64) -> u64 {
    if offset >= 0 {
        offset as u64
    } else {
        (offset + 0x1_0000_0000_0000_0000) as u64
    }
}

/// The signed 64-bit integer with the given two's complement.
pub open spec fn offset_of_bits(bits: u64) -> i64 {
    if bits < 0x8000_0000_0000_0000 {
        bits as i64
    } else {
        (bits - 0x1_0000_0000_0000_0000) as i64
    }
}

/// Asking for `width` digits gives `width` bytes.
pub proof fn lemma_little_endian_len(value: nat, width: nat)
    ensures
        little_endian(value, width).len() == width,
    decreases width,
{
    if width > 0 {
        lemma_little_endian_len(value / 256, (width - 1) as nat);
    }
}

/// Digits written for a value that fits are read back as that value.
pub proof fn lemma_little_endian_value_of_bytes(value: nat, width: nat)
    requires
        value < byte_limit(width),
    ensures
        little_endian_value(little_endian(value, width)) == value,
    decreases width,
{
    if width > 0 {
        let rest = little_endian(value / 256, (width - 1) as nat);
        let all = little_endian(value, width);
        lemma_little_endian_value_of_bytes(value / 256, (width - 1) as nat);
        assert(all.drop_first() =~= rest);
        assert(all[0] == (value % 256) as u8);
    }
}

/// The value read from bytes is below the limit of their width.
pub proof fn lemma_little_endian_value_bound(bytes: Seq<u8>)
    ensures
        little_endian_value(bytes) < byte_limit(bytes.len()),
    decreases bytes.len(),
{
    if bytes.len() > 0 {
        lemma_little_endian_value_bound(bytes.drop_first());
    }
}

/// Writing the value read from bytes, at their width, gives the bytes.
pub proof fn lemma_little_endian_bytes_of_value(bytes: Seq<u8>)
    ensures
        little_endian(little_endian_value(bytes), bytes.len()) == bytes,
    decreases bytes.len(),
{
    if bytes.len() > 0 {
        let rest = bytes.drop_first();
        lemma_little_endian_bytes_of_value(rest);
        let value = little_endian_value(bytes);
        assert(value % 256 == bytes[0] as nat);
        assert(value / 256 == little_endian_value(rest));
        assert(little_endian(value, bytes.len()) =~= bytes);
    } else {
        assert(little_endian(0, 0) =~= bytes);
    }
}

/// Host-order bytes have the width asked for, and a value that fits the
/// width is read back from them.
pub proof fn lemma_native_roundtrip(value: nat, width: nat)
    requires
        value < byte_limit(width),
    ensures
        native_bytes(value, width).len() == width,
        native_value(native_bytes(value, width)) == value,
{
    lemma_little_endian_len(value, width);
    lemma_little_endian_value_of_bytes(value, width);
    let le = little_endian(value, width);
    assert(le.reverse().reverse() =~= le);
}

/// Bytes read in host order and written again at the same width are
/// unchanged, and the value read fits the width.
pub proof fn lemma_native_bytes_of_value(bytes: Seq<u8>)
    ensures
        native_value(bytes) < byte_limit(bytes.len()),
        native_bytes(native_value(bytes), bytes.len()) == bytes,
{
    lemma_little_endian_value_bound(bytes);
    lemma_little_endian_bytes_of_value(bytes);
    lemma_little_endian_value_bound(bytes.reverse());
    lemma_little_endian_bytes_of_value(bytes.reverse());
    assert(bytes.reverse().reverse() =~= bytes);
}

/// The limits of four and of eight bytes.
pub proof fn lemma_byte_limits()
    ensures
        byte_limit(4) == 0x1_0000_0000,
        byte_limit(8) == 0x1_0000_0000_0000_0000,
{
    reveal_with_fuel(byte_limit, 9);
}

/// A signed offset is recovered from its two's complement.
pub proof fn lemma_offset_roundtrip(offset: i64)
    ensures
        offset_of_bits(offset_bits(offset)) == offset,
{
}

/// Two's complement bits are recovered from the offset they stand for.
pub proof fn lemma_bits_roundtrip(bits: u64)
    ensures
        offset_bits(offset_of_bits(bits)) == bits,
{
}

/// `u32::to_ne_bytes` of std: the four bytes of the value in the byte order
/// of the host.
#[verifier::external_body]
pub(crate) fn u32_to_ne_bytes(value: u32) -> (bytes: [u8; 4])
    ensures
        bytes@ == native_bytes(value as nat, 4),
{
    value.to_ne_bytes()
}

/// `u32::from_ne_bytes` of std: the value that four bytes hold in the byte
/// order of the host.
#[verifier::external_body]
pub(crate) fn u32_from_ne_bytes(bytes: [u8; 4]) -> (value: u32)
    ensures
        value as nat == native_value(bytes@),
{
    u32::from_ne_bytes(bytes)
}

/// `u64::to_ne_bytes` of std: the eight bytes of the value in the byte
/// order of the host.
#[verifier::external_body]
pub(crate) fn u64_to_ne_bytes(value: u64) -> (bytes: [u8; 8])
    ensures
        bytes@ == native_bytes(value as nat, 8),
{
    value.to_ne_bytes()
}

/// `u64::from_ne_bytes` of std: the value that eight bytes hold in the byte
/// order of the host.
#[verifier::external_body]
pub(crate) fn u64_from_ne_bytes(bytes: [u8; 8]) -> (value: u64)
    ensures
        value as nat == native_value(bytes@),
{
    u64::from_ne_bytes(bytes)
}

/// The two's complement of a signed offset.
pub fn bits_of_offset(offset: i64) -> (bits: u64)
    ensures
        bits == offset_bits(offset),
{
    if offset >= 0 {
        offset as u64
    } else {
        let below: u64 = (-(offset + 1)) as u64;
        u64::MAX - below
    }
}

/// The signed offset with the given two's complement.
pub fn offset_from_bits(bits: u64) -> (offset: i64)
    ensures
        offset == offset_of_bits(bits),
{
    if bits < 0x8000_0000_0000_0000 {
        bits as i64
    } else {
        let below: u64 = u64::MAX - bits;
        -(below as i64) - 1
    }
}

/// Appends a slice of bytes to a vector.
pub fn append_bytes(out: &mut Vec<u8>, bytes: &[u8])
    ensures
        final(out)@ == old(out)@ + bytes@,
{
    let mut pos: usize = 0;
    while pos < bytes.len()
        invariant
            pos <= bytes.len(),
            out@ == old(out)@ + bytes@.subrange(0, pos as int),
        decreases bytes.len() - pos,
    {
        out.push(bytes[pos]);
        pos = pos + 1;
        assert(out@ =~= old(out)@ + bytes@.subrange(0, pos as int));
    }
    assert(bytes@.subrange(0, bytes@.len() as int) =~= bytes@);
}

/// Copies the bytes from `start` up to `end` out of a slice.
pub fn copy_range(bytes: &[u8], start: usize, end: usize) -> (out: Vec<u8>)
    requires
        start <= end <= bytes@.len(),
    ensures
        out@ == bytes@.subrange(start as int, end as int),
{
    let mut out: Vec<u8> = Vec::new();
    let mut pos: usize = start;
    while pos < end
        invariant
            start <= pos <= end <= bytes@.len(),
            out@ == bytes@.subrange(start as int, pos as int),
        decreases end - pos,
    {
        out.push(bytes[pos]);
        pos = pos + 1;
        assert(out@ =~= bytes@.subrange(start as int, pos as int));
    }
    out
}

} // verus!
