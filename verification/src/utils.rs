//! Byte, word and bit conversions shared by the Modbus codec.

use vstd::prelude::*;

verus! {

/// Namespace for the conversion helpers.
pub struct Utils {}

/// The 16-bit word whose most significant byte is `high`.
pub open spec fn word_of(high: u8, low: u8) -> u16 {
    (high as int * 256 + low as int) as u16
}

/// Most significant byte of a word.
pub open spec fn high_byte(value: u16) -> u8 {
    (value as int / 256) as u8
}

/// Least significant byte of a word.
pub open spec fn low_byte(value: u16) -> u8 {
    (value as int % 256) as u8
}

/// Big-endian bytes of a sequence of words: two bytes per word, high byte first.
pub open spec fn words_to_bytes(words: Seq<u16>) -> Seq<u8> {
    Seq::new(
        2 * words.len(),
        |i: int|
            if i % 2 == 0 {
                high_byte(words[i / 2])
            } else {
                low_byte(words[i / 2])
            },
    )
}

/// Words read big-endian from `bytes`. A trailing single byte yields a word
/// holding that byte's value.
pub open spec fn bytes_to_words(bytes: Seq<u8>) -> Seq<u16> {
    Seq::new(
        ((bytes.len() + 1) / 2) as nat,
        |i: int|
            if 2 * i + 1 < bytes.len() {
                word_of(bytes[2 * i], bytes[2 * i + 1])
            } else {
                bytes[2 * i] as u16
            },
    )
}

/// Two to the power `k`, for a bit position inside a byte.
pub open spec fn bit_weight(k: int) -> int {
    if k == 0 {
        1
    } else if k == 1 {
        2
    } else if k == 2 {
        4
    } else if k == 3 {
        8
    } else if k == 4 {
        16
    } else if k == 5 {
        32
    } else if k == 6 {
        64
    } else {
        128
    }
}

/// Whether bit `k` (0 is least significant) of `byte` is set.
pub open spec fn bit_is_set(byte: u8, k: int) -> bool {
    (byte as int / bit_weight(k)) % 2 == 1
}

/// Contribution of flag `i` of `bits` to its byte: the weight of its
/// position if the flag exists and is set, otherwise zero.
pub open spec fn flag_value(bits: Seq<bool>, i: int) -> int {
    if 0 <= i < bits.len() && bits[i] {
        bit_weight(i % 8)
    } else {
        0
    }
}

/// Byte `j` of the packing of `bits`: flag `8 * j + k` is bit `k`, missing
/// flags count as clear.
pub open spec fn packed_byte(bits: Seq<bool>, j: int) -> u8 {
    (flag_value(bits, 8 * j) + flag_value(bits, 8 * j + 1) + flag_value(bits, 8 * j + 2)
        + flag_value(bits, 8 * j + 3) + flag_value(bits, 8 * j + 4) + flag_value(bits, 8 * j + 5)
        + flag_value(bits, 8 * j + 6) + flag_value(bits, 8 * j + 7)) as u8
}

/// Least-significant-bit-first packing of flags into bytes, the last byte
/// padded with clear bits.
pub open spec fn pack_bits(bits: Seq<bool>) -> Seq<u8> {
    Seq::new(((bits.len() + 7) / 8) as nat, |j: int| packed_byte(bits, j))
}

/// The first `count` flags stored least-significant-bit-first in `bytes`.
pub open spec fn unpack_bits(bytes: Seq<u8>, count: nat) -> Seq<bool> {
    Seq::new(count, |i: int| bit_is_set(bytes[i / 8], i % 8))
}

impl Utils {
    /// Joins two bytes into a word, `high` being the most significant.
    pub fn u8_to_u16(high: u8, low: u8) -> (word: u16)
        ensures
            word == word_of(high, low),
            word as int == high as int * 256 + low as int,
    {
        let word: u16 = ((high as u16) << 8) | (low as u16);
        assert(word == (high as u16) * 256 + (low as u16)) by (bit_vector)
            requires
                word == ((high as u16) << 8) | (low as u16),
        ;
        word
    }

    /// Splits a word into its high and low byte, in that order.
    pub fn u16_to_u8(value: u16) -> (bytes: [u8; 2])
        ensures
            bytes[0] == high_byte(value),
            bytes[1] == low_byte(value),
    {
        let high: u8 = (value >> 8) as u8;
        let low: u8 = (value & 0xff) as u8;
        assert(high == value / 256) by (bit_vector)
            requires
                high == (value >> 8) as u8,
        ;
        assert(low == value % 256) by (bit_vector)
            requires
                low == (value & 0xff) as u8,
        ;
        [high, low]
    }

    /// Reads big-endian words from bytes; an odd trailing byte becomes a
    /// word of its own.
    pub fn u8_vec_to_u16_vec(values: Vec<u8>) -> (words: Vec<u16>)
        ensures
            words@ == bytes_to_words(values@),
    {
        let mut out: Vec<u16> = Vec::new();
        let len: usize = values.len();
        let count: usize = len / 2 + len % 2;
        let mut index: usize = 0;
        while index < count
            invariant
                len == values.len(),
                count == (len + 1) / 2,
                index <= count,
                out.len() == index,
                forall|i: int| 0 <= i < out.len() ==> out@[i] == #[trigger] bytes_to_words(values@)[i],
            decreases count - index,
        {
            let pos: usize = 2 * index;
            if len - pos >= 2 {
                out.push(Utils::u8_to_u16(values[pos], values[pos + 1]));
            } else {
                out.push(values[pos] as u16);
            }
            index = index + 1;
        }
        assert(out@ =~= bytes_to_words(values@));
        out
    }

    /// Writes each word as two bytes, high byte first.
    pub fn u16_vec_to_u8_vec(values: Vec<u16>) -> (bytes: Vec<u8>)
        ensures
            bytes@ == words_to_bytes(values@),
    {
        let mut out: Vec<u8> = Vec::new();
        let mut pos: usize = 0;
        while pos < values.len()
            invariant
                pos <= values.len(),
                out.len() == 2 * pos,
                forall|i: int| 0 <= i < out.len() ==> out@[i] == #[trigger] words_to_bytes(values@)[i],
            decreases values.len() - pos,
        {
            let pair: [u8; 2] = Utils::u16_to_u8(values[pos]);
            out.push(pair[0]);
            out.push(pair[1]);
            pos = pos + 1;
        }
        assert(out@ =~= words_to_bytes(values@));
        out
    }

    /// Weight of bit position `k` of a byte.
    fn weight(k: usize) -> (w: u8)
        requires
            k < 8,
        ensures
            w as int == bit_weight(k as int),
    {
        if k == 0 {
            1
        } else if k == 1 {
            2
        } else if k == 2 {
            4
        } else if k == 3 {
            8
        } else if k == 4 {
            16
        } else if k == 5 {
            32
        } else if k == 6 {
            64
        } else {
            128
        }
    }

    /// Contribution of the flag `k` places after `base` to the byte that
    /// starts at `base`.
    fn flag_weight(values: &Vec<bool>, base: usize, k: usize) -> (w: u8)
        requires
            base < values.len(),
            base % 8 == 0,
            k < 8,
        ensures
            w as int == flag_value(values@, base + k),
    {
        if k < values.len() - base && values[base + k] {
            Utils::weight(k)
        } else {
            0
        }
    }

    /// Packs flags into bytes, least significant bit first; the unused bits
    /// of the last byte are clear.
    pub fn bools_to_bytes(values: Vec<bool>) -> (bytes: Vec<u8>)
        ensures
            bytes@ == pack_bits(values@),
    {
        let mut out: Vec<u8> = Vec::new();
        let len: usize = values.len();
        let count: usize = len / 8 + if len % 8 == 0 { 0 } else { 1 };
        let mut index: usize = 0;
        while index < count
            invariant
                len == values.len(),
                count == (len + 7) / 8,
                index <= count,
                out.len() == index,
                forall|j: int| 0 <= j < out.len() ==> out@[j] == #[trigger] packed_byte(values@, j),
            decreases count - index,
        {
            let base: usize = 8 * index;
            let b0: u8 = Utils::flag_weight(&values, base, 0);
            let b1: u8 = Utils::flag_weight(&values, base, 1);
            let b2: u8 = Utils::flag_weight(&values, base, 2);
            let b3: u8 = Utils::flag_weight(&values, base, 3);
            let b4: u8 = Utils::flag_weight(&values, base, 4);
            let b5: u8 = Utils::flag_weight(&values, base, 5);
            let b6: u8 = Utils::flag_weight(&values, base, 6);
            let b7: u8 = Utils::flag_weight(&values, base, 7);
            out.push(b0 + b1 + b2 + b3 + b4 + b5 + b6 + b7);
            index = index + 1;
        }
        assert(out@ =~= pack_bits(values@));
        out
    }

    /// Unpacks the first `number_of_bools` flags from bytes packed least
    /// significant bit first.
    pub fn bytes_to_bools(values: Vec<u8>, number_of_bools: usize) -> (bits: Vec<bool>)
        requires
            number_of_bools <= 8 * values.len(),
        ensures
            bits@ == unpack_bits(values@, number_of_bools as nat),
    {
        let mut out: Vec<bool> = Vec::new();
        let mut bit: usize = 0;
        while bit < number_of_bools
            invariant
                bit <= number_of_bools,
                number_of_bools <= 8 * values.len(),
                out.len() == bit,
                forall|i: int| 0 <= i < out.len() ==> out@[i] == bit_is_set(values@[i / 8], i % 8),
            decreases number_of_bools - bit,
        {
            let byte: u8 = values[bit / 8];
            let w: u8 = Utils::weight(bit % 8);
            out.push((byte / w) % 2 == 1);
            bit = bit + 1;
        }
        assert(out@ =~= unpack_bits(values@, number_of_bools as nat));
        out
    }
}

/// Unpacking undoes packing: the flags read back from their packed bytes
/// are the flags that were packed.
pub proof fn lemma_unpack_pack(bits: Seq<bool>)
    ensures
        unpack_bits(pack_bits(bits), bits.len()) == bits,
{
    assert forall|i: int| 0 <= i < bits.len() implies bit_is_set(
        pack_bits(bits)[i / 8],
        i % 8,
    ) == bits[i] by {
        lemma_packed_bit(bits, i / 8, i % 8);
    }
    assert(unpack_bits(pack_bits(bits), bits.len()) =~= bits);
}

/// Bit `k` of packed byte `j` is flag `8 * j + k`, clear where the flag is
/// missing.
pub proof fn lemma_packed_bit(bits: Seq<bool>, j: int, k: int)
    requires
        0 <= j,
        0 <= k < 8,
    ensures
        bit_is_set(packed_byte(bits, j), k) == (8 * j + k < bits.len() && bits[8 * j + k]),
{
    let f0 = flag_value(bits, 8 * j);
    let f1 = flag_value(bits, 8 * j + 1);
    let f2 = flag_value(bits, 8 * j + 2);
    let f3 = flag_value(bits, 8 * j + 3);
    let f4 = flag_value(bits, 8 * j + 4);
    let f5 = flag_value(bits, 8 * j + 5);
    let f6 = flag_value(bits, 8 * j + 6);
    let f7 = flag_value(bits, 8 * j + 7);
    let total = f0 + f1 + f2 + f3 + f4 + f5 + f6 + f7;
    assert(packed_byte(bits, j) as int == total);
    if k == 0 {
        lemma_bit_of_sum(0, f0, f1 + f2 + f3 + f4 + f5 + f6 + f7, 1);
    } else if k == 1 {
        lemma_bit_of_sum(f0, f1, f2 + f3 + f4 + f5 + f6 + f7, 2);
    } else if k == 2 {
        lemma_bit_of_sum(f0 + f1, f2, f3 + f4 + f5 + f6 + f7, 4);
    } else if k == 3 {
        lemma_bit_of_sum(f0 + f1 + f2, f3, f4 + f5 + f6 + f7, 8);
    } else if k == 4 {
        lemma_bit_of_sum(f0 + f1 + f2 + f3, f4, f5 + f6 + f7, 16);
    } else if k == 5 {
        lemma_bit_of_sum(f0 + f1 + f2 + f3 + f4, f5, f6 + f7, 32);
    } else if k == 6 {
        lemma_bit_of_sum(f0 + f1 + f2 + f3 + f4 + f5, f6, f7, 64);
    } else {
        lemma_bit_of_sum(f0 + f1 + f2 + f3 + f4 + f5 + f6, f7, 0, 128);
    }
}

/// In a sum of a part below `w`, a term that is zero or `w`, and a multiple
/// of `2 * w`, the bit of weight `w` is set exactly when the term is `w`.
proof fn lemma_bit_of_sum(low: int, term: int, high: int, w: int)
    requires
        0 < w,
        0 <= low < w,
        term == 0 || term == w,
        0 <= high,
        high % (2 * w) == 0,
    ensures
        ((low + term + high) / w) % 2 == 1 <==> term == w,
{
    let q = high / (2 * w);
    assert(high == (2 * w) * q) by (nonlinear_arith)
        requires
            high % (2 * w) == 0,
            q == high / (2 * w),
            w > 0,
    ;
    if term == 0 {
        assert((low + high) / w == 2 * q) by (nonlinear_arith)
            requires
                high == (2 * w) * q,
                0 <= low < w,
                w > 0,
        ;
    } else {
        assert((low + w + high) / w == 2 * q + 1) by (nonlinear_arith)
            requires
                high == (2 * w) * q,
                0 <= low < w,
                w > 0,
        ;
    }
}

/// Reading words back from their big-endian bytes gives the words.
pub proof fn lemma_words_roundtrip(words: Seq<u16>)
    ensures
        bytes_to_words(words_to_bytes(words)) == words,
{
    assert forall|i: int| 0 <= i < words.len() implies word_of(
        high_byte(words[i]),
        low_byte(words[i]),
    ) == words[i] by {}
    assert(bytes_to_words(words_to_bytes(words)) =~= words);
}

} // verus!
