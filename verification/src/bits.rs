//! Packing of pixel rows into bytes and back.
//!
//! A sprite row is one byte; its most significant bit is the leftmost pixel.

use vstd::arithmetic::div_mod::lemma_fundamental_div_mod_converse;
use vstd::prelude::*;

verus! {

/// The weight of the binary digit that stands `i` places from the left of a
/// byte (`0 <= i < 8`): 128 for the leftmost, 1 for the rightmost.
pub open spec fn weight(i: int) -> int {
    if i == 0 {
        128
    } else if i == 1 {
        64
    } else if i == 2 {
        32
    } else if i == 3 {
        16
    } else if i == 4 {
        8
    } else if i == 5 {
        4
    } else if i == 6 {
        2
    } else {
        1
    }
}

/// The bit of `byte` that stands `i` places from the left (`0 <= i < 8`):
/// position 0 is the most significant bit.
pub open spec fn bit_at(byte: u8, i: int) -> bool {
    (byte as int / weight(i)) % 2 == 1
}

/// The binary digit that a pixel stands for.
pub open spec fn digit(lit: bool) -> nat {
    if lit {
        1
    } else {
        0
    }
}

/// The number that a row of pixels spells when read as binary digits,
/// leftmost pixel first.
pub open spec fn bits_value(bits: Seq<bool>) -> nat
    decreases bits.len(),
{
    if bits.len() == 0 {
        0
    } else {
        2 * bits_value(bits.drop_last()) + digit(bits.last())
    }
}

/// The eight pixels of a row, leftmost first.
pub open spec fn byte_bits(byte: u8) -> Seq<bool> {
    Seq::new(8, |i: int| bit_at(byte, i))
}

/// Appending one binary digit doubles the number and adds the digit; the low
/// eight bits of the result depend only on the low eight bits before.
proof fn lemma_append_digit(bits: Seq<bool>)
    requires
        bits.len() > 0,
    ensures
        bits_value(bits) % 256 == (2 * (bits_value(bits.drop_last()) % 256)) % 256 + digit(
            bits.last(),
        ),
{
    let v = bits_value(bits.drop_last()) as int;
    let b = digit(bits.last()) as int;
    let r = v % 256;
    let t = 2 * r;
    let carry: int = if t >= 256 { 1 } else { 0 };
    assert(v == 256 * (v / 256) + r);
    assert(t % 256 == t - 256 * carry);
    assert(2 * v + b == 256 * (2 * (v / 256) + carry) + (t % 256 + b));
    lemma_fundamental_div_mod_converse(
        2 * v + b,
        256,
        2 * (v / 256) + carry,
        t % 256 + b,
    );
}

/// A row of eight pixels spells the sum of its digits' weights.
proof fn lemma_bits_value_of_row(bits: Seq<bool>)
    requires
        bits.len() == 8,
    ensures
        bits_value(bits) == 128 * digit(bits[0]) + 64 * digit(bits[1]) + 32 * digit(bits[2]) + 16
            * digit(bits[3]) + 8 * digit(bits[4]) + 4 * digit(bits[5]) + 2 * digit(bits[6])
            + digit(bits[7]),
{
    let b7 = bits.drop_last();
    let b6 = b7.drop_last();
    let b5 = b6.drop_last();
    let b4 = b5.drop_last();
    let b3 = b4.drop_last();
    let b2 = b3.drop_last();
    let b1 = b2.drop_last();
    let b0 = b1.drop_last();
    assert(bits_value(b0) == 0);
    assert(bits_value(b1) == digit(bits[0]));
    assert(bits_value(b2) == 2 * bits_value(b1) + digit(bits[1]));
    assert(bits_value(b3) == 2 * bits_value(b2) + digit(bits[2]));
    assert(bits_value(b4) == 2 * bits_value(b3) + digit(bits[3]));
    assert(bits_value(b5) == 2 * bits_value(b4) + digit(bits[4]));
    assert(bits_value(b6) == 2 * bits_value(b5) + digit(bits[5]));
    assert(bits_value(b7) == 2 * bits_value(b6) + digit(bits[6]));
    assert(bits_value(bits) == 2 * bits_value(b7) + digit(bits[7]));
}

/// The binary digits of a sum of weighted digits are those digits.
proof fn lemma_digits_of_sum(d0: u8, d1: u8, d2: u8, d3: u8, d4: u8, d5: u8, d6: u8, d7: u8)
    by (bit_vector)
    requires
        d0 <= 1,
        d1 <= 1,
        d2 <= 1,
        d3 <= 1,
        d4 <= 1,
        d5 <= 1,
        d6 <= 1,
        d7 <= 1,
    ensures
        ({
            let v = 128 * d0 + 64 * d1 + 32 * d2 + 16 * d3 + 8 * d4 + 4 * d5 + 2 * d6 + d7;
            &&& v < 256
            &&& (v / 128) % 2 == d0
            &&& (v / 64) % 2 == d1
            &&& (v / 32) % 2 == d2
            &&& (v / 16) % 2 == d3
            &&& (v / 8) % 2 == d4
            &&& (v / 4) % 2 == d5
            &&& (v / 2) % 2 == d6
            &&& (v / 1) % 2 == d7
        }),
{
}

/// Packing a row of eight pixels loses nothing: each bit of the byte is the
/// pixel at its place.
pub proof fn lemma_pack_keeps_pixels(bits: Seq<bool>)
    requires
        bits.len() == 8,
    ensures
        bits_value(bits) < 256,
        byte_bits(bits_value(bits) as u8) == bits,
{
    lemma_bits_value_of_row(bits);
    lemma_digits_of_sum(
        digit(bits[0]) as u8,
        digit(bits[1]) as u8,
        digit(bits[2]) as u8,
        digit(bits[3]) as u8,
        digit(bits[4]) as u8,
        digit(bits[5]) as u8,
        digit(bits[6]) as u8,
        digit(bits[7]) as u8,
    );
    let v = bits_value(bits) as u8;
    assert(bit_at(v, 0) == bits[0]);
    assert(bit_at(v, 1) == bits[1]);
    assert(bit_at(v, 2) == bits[2]);
    assert(bit_at(v, 3) == bits[3]);
    assert(bit_at(v, 4) == bits[4]);
    assert(bit_at(v, 5) == bits[5]);
    assert(bit_at(v, 6) == bits[6]);
    assert(bit_at(v, 7) == bits[7]);
    assert(byte_bits(v) =~= bits);
}

/// Unpacking a byte and packing the pixels again gives the byte back.
pub proof fn lemma_unpack_then_pack(byte: u8)
    ensures
        bits_value(byte_bits(byte)) == byte,
{
    lemma_bits_value_of_row(byte_bits(byte));
    assert(byte == 128 * ((byte / 128) % 2) + 64 * ((byte / 64) % 2) + 32 * ((byte / 32) % 2) + 16
        * ((byte / 16) % 2) + 8 * ((byte / 8) % 2) + 4 * ((byte / 4) % 2) + 2 * ((byte / 2) % 2)
        + byte % 2) by (bit_vector);
}

/// Shifting a byte right by `k` brings the bit `7 - k` places from the left
/// to the low end.
proof fn lemma_low_bit_of_shift(byte: u8, k: u8)
    requires
        k < 8,
    ensures
        ((byte >> k) & 1 != 0) == bit_at(byte, 7 - k),
        (byte >> k) >> 1 == byte >> ((k + 1) as u8),
{
    assert((byte >> k) >> 1 == byte >> ((k + 1) as u8)) by (bit_vector)
        requires
            k < 8,
    ;
    assert(((byte >> 0u8) & 1 != 0) == ((byte / 1) % 2 == 1) && ((byte >> 1u8) & 1 != 0) == ((byte
        / 2) % 2 == 1) && ((byte >> 2u8) & 1 != 0) == ((byte / 4) % 2 == 1) && ((byte >> 3u8) & 1
        != 0) == ((byte / 8) % 2 == 1) && ((byte >> 4u8) & 1 != 0) == ((byte / 16) % 2 == 1) && ((
    byte >> 5u8) & 1 != 0) == ((byte / 32) % 2 == 1) && ((byte >> 6u8) & 1 != 0) == ((byte / 64) % 2
        == 1) && ((byte >> 7u8) & 1 != 0) == ((byte / 128) % 2 == 1)) by (bit_vector);
}

/// XOR of two bytes is XOR of their pixels, place by place.
pub proof fn lemma_xor_bits(a: u8, b: u8, i: int)
    requires
        0 <= i < 8,
    ensures
        bit_at(a ^ b, i) == (bit_at(a, i) ^ bit_at(b, i)),
{
    assert((((a ^ b) / 128) % 2 == 1) == (((a / 128) % 2 == 1) != ((b / 128) % 2 == 1)) && (((a ^ b)
        / 64) % 2 == 1) == (((a / 64) % 2 == 1) != ((b / 64) % 2 == 1)) && (((a ^ b) / 32) % 2
        == 1) == (((a / 32) % 2 == 1) != ((b / 32) % 2 == 1)) && (((a ^ b) / 16) % 2 == 1) == (((a
        / 16) % 2 == 1) != ((b / 16) % 2 == 1)) && (((a ^ b) / 8) % 2 == 1) == (((a / 8) % 2 == 1)
        != ((b / 8) % 2 == 1)) && (((a ^ b) / 4) % 2 == 1) == (((a / 4) % 2 == 1) != ((b / 4) % 2
        == 1)) && (((a ^ b) / 2) % 2 == 1) == (((a / 2) % 2 == 1) != ((b / 2) % 2 == 1)) && (((a
        ^ b) / 1) % 2 == 1) == (((a / 1) % 2 == 1) != ((b / 1) % 2 == 1))) by (bit_vector);
}

/// The AND of two bytes is nonzero exactly when they share a set bit.
pub proof fn lemma_and_nonzero(a: u8, b: u8)
    ensures
        (a & b != 0) <==> exists|i: int| 0 <= i < 8 && #[trigger] bit_at(a, i) && bit_at(b, i),
{
    assert((a & b != 0) <==> (((a / 128) % 2 == 1 && (b / 128) % 2 == 1) || ((a / 64) % 2 == 1 && (b
        / 64) % 2 == 1) || ((a / 32) % 2 == 1 && (b / 32) % 2 == 1) || ((a / 16) % 2 == 1 && (b
        / 16) % 2 == 1) || ((a / 8) % 2 == 1 && (b / 8) % 2 == 1) || ((a / 4) % 2 == 1 && (b / 4)
        % 2 == 1) || ((a / 2) % 2 == 1 && (b / 2) % 2 == 1) || ((a / 1) % 2 == 1 && (b / 1) % 2
        == 1))) by (bit_vector);
    if a & b != 0 {
        let i: int = if bit_at(a, 0) && bit_at(b, 0) {
            0
        } else if bit_at(a, 1) && bit_at(b, 1) {
            1
        } else if bit_at(a, 2) && bit_at(b, 2) {
            2
        } else if bit_at(a, 3) && bit_at(b, 3) {
            3
        } else if bit_at(a, 4) && bit_at(b, 4) {
            4
        } else if bit_at(a, 5) && bit_at(b, 5) {
            5
        } else if bit_at(a, 6) && bit_at(b, 6) {
            6
        } else {
            7
        };
        assert(0 <= i < 8 && bit_at(a, i) && bit_at(b, i));
    }
}

/// Reads a run of pixels as a binary number, leftmost pixel first, keeping
/// the low eight bits when the run is longer than a byte. A run of exactly
/// eight pixels is the row of the byte.
pub fn pixels_to_byte(pixels: &[bool]) -> (byte: u8)
    ensures
        byte == bits_value(pixels@) % 256,
        pixels@.len() == 8 ==> byte_bits(byte) == pixels@,
{
    let mut byte: u8 = 0;
    let mut idx: usize = 0;
    while idx < pixels.len()
        invariant
            idx <= pixels@.len(),
            byte == bits_value(pixels@.take(idx as int)) % 256,
        decreases pixels@.len() - idx,
    {
        let pixel: bool = pixels[idx];
        let shifted: u8 = byte << 1;
        assert(shifted == (byte * 2) % 256) by (bit_vector)
            requires
                shifted == byte << 1,
        ;
        proof {
            let after = pixels@.take(idx as int + 1);
            assert(after.drop_last() =~= pixels@.take(idx as int));
            lemma_append_digit(after);
        }
        byte = shifted + if pixel { 1u8 } else { 0u8 };
        idx = idx + 1;
    }
    proof {
        assert(pixels@.take(idx as int) =~= pixels@);
        if pixels@.len() == 8 {
            lemma_pack_keeps_pixels(pixels@);
        }
    }
    byte
}

/// Unpacks a byte into its eight pixels, leftmost (most significant) first.
pub fn byte_to_pixels(byte: u8) -> (pixels: [bool; 8])
    ensures
        pixels@ == byte_bits(byte),
{
    let mut rest: u8 = byte;
    let mut pixels: [bool; 8] = [false; 8];
    let mut i: usize = 0;
    assert(byte >> 0u8 == byte) by (bit_vector);
    while i < 8
        invariant
            i <= 8,
            rest == byte >> (i as u8),
            forall|j: int| 8 - i <= j < 8 ==> pixels@[j] == bit_at(byte, j),
        decreases 8 - i,
    {
        proof {
            lemma_low_bit_of_shift(byte, i as u8);
        }
        pixels[7 - i] = (rest & 0x1) != 0;
        rest = rest >> 1;
        i = i + 1;
    }
    assert(pixels@ =~= byte_bits(byte));
    pixels
}

} // verus!
