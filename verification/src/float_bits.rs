//! Properties of 32-bit floats read off their bit patterns.
use vstd::prelude::*;

verus! {

/// Whether a 32-bit float is neither infinite nor a NaN: its exponent is not all ones.
pub open spec fn is_finite(bits: u32) -> bool {
    (bits / 0x80_0000) % 256 != 255
}

/// Whether a 32-bit float is zero, of either sign: all bits but the sign are clear.
pub open spec fn is_zero(bits: u32) -> bool {
    bits % 0x8000_0000 == 0
}

/// Whether a 32-bit float is below zero: the sign is set, and it is neither zero nor a NaN.
pub open spec fn is_below_zero(bits: u32) -> bool {
    bits >= 0x8000_0000 && !is_zero(bits) && bits % 0x8000_0000 <= 0x7f80_0000
}

/// Whether a 32-bit float is neither infinite nor a NaN.
pub fn finite(bits: u32) -> (yes: bool)
    ensures
        yes == is_finite(bits),
{
    (bits / 0x80_0000) % 256 != 255
}

/// Whether a 32-bit float is zero.
pub fn zero(bits: u32) -> (yes: bool)
    ensures
        yes == is_zero(bits),
{
    bits % 0x8000_0000 == 0
}

/// Whether a 32-bit float is below zero.
pub fn below_zero(bits: u32) -> (yes: bool)
    ensures
        yes == is_below_zero(bits),
{
    bits >= 0x8000_0000 && !zero(bits) && bits % 0x8000_0000 <= 0x7f80_0000
}

/// The four bytes of a word, low byte first.
pub open spec fn le_word(word: u32) -> Seq<u8> {
    seq![
        (word % 256) as u8,
        (word / 256 % 256) as u8,
        (word / 65536 % 256) as u8,
        (word / 16777216) as u8,
    ]
}

/// The word that four bytes hold, low byte first.
pub open spec fn word_at(bytes: Seq<u8>, offset: int) -> int {
    bytes[offset] + 256 * bytes[offset + 1] + 65536 * bytes[offset + 2] + 16777216 * bytes[offset
        + 3]
}

/// The word at `offset`, low byte first.
pub fn read_word(bytes: &[u8], offset: usize) -> (word: u32)
    requires
        offset + 4 <= bytes.len(),
    ensures
        word == word_at(bytes@, offset as int),
{
    bytes[offset] as u32 + 256 * bytes[offset + 1] as u32 + 65536 * bytes[offset + 2] as u32
        + 16777216 * bytes[offset + 3] as u32
}

/// A float is its sign, its exponent and its fraction, from the high bits down. It is finite if
/// the exponent is not all ones, zero if exponent and fraction are zero, and below zero if the
/// sign is set and it is neither zero nor a NaN.
pub proof fn float_is_sign_exponent_and_fraction(
    bits: u32,
    sign: int,
    exponent: int,
    fraction: int,
)
    requires
        0 <= sign <= 1,
        0 <= exponent <= 255,
        0 <= fraction < 0x80_0000,
        bits == sign * 0x8000_0000 + exponent * 0x80_0000 + fraction,
    ensures
        is_finite(bits) <==> exponent != 255,
        is_zero(bits) <==> exponent == 0 && fraction == 0,
        is_below_zero(bits) <==> sign == 1 && (exponent != 0 || fraction != 0) && (exponent != 255
            || fraction == 0),
{
}

/// The bytes of a word are those that it is read back from.
pub proof fn written_word_is_read(word: u32, before: Seq<u8>, after: Seq<u8>)
    ensures
        word_at(before + le_word(word) + after, before.len() as int) == word,
        le_word(word).len() == 4,
        le_word(word)[0] as int == word as int % 256,
{
    let bytes = before + le_word(word) + after;
    let at = before.len() as int;
    assert(bytes[at] == le_word(word)[0]);
    assert(bytes[at + 1] == le_word(word)[1]);
    assert(bytes[at + 2] == le_word(word)[2]);
    assert(bytes[at + 3] == le_word(word)[3]);
    let w = word as int;
    assert(w == w % 256 + 256 * (w / 256 % 256) + 65536 * (w / 65536 % 256) + 16777216 * (w
        / 16777216));
}

} // verus!
