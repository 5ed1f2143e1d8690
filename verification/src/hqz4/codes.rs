//! Signed four-bit codes, two to a byte with the first in the low half, and the signs of the
//! transform.
use vstd::prelude::*;

verus! {

/// The largest code.
pub const HQZ4_MAX_LEVEL: i8 = 7;

pub const SPLITMIX_INCREMENT: u64 = 0x9e37_79b9_7f4a_7c15;

pub const SPLITMIX_MULTIPLIER_1: u64 = 0xbf58_476d_1ce4_e5b9;

pub const SPLITMIX_MULTIPLIER_2: u64 = 0x94d0_49bb_1331_11eb;

pub const GROUP_MIX: u64 = 0xd1b5_4a32_d192_ed03;

pub const ELEMENT_MIX: u64 = 0x8cb9_2baa_7f3d_d15b;

/// A four-bit pattern as a signed number.
pub open spec fn signed_nibble(nibble: int) -> int {
    if nibble >= 8 {
        nibble - 16
    } else {
        nibble
    }
}

/// The code at `index`.
pub open spec fn code_at(codes: Seq<u8>, index: int) -> int {
    let byte = codes[index / 2] as int;
    signed_nibble(
        if index % 2 == 0 {
            byte % 16
        } else {
            byte / 16
        },
    )
}

/// The low four bits of a number, as a signed number.
pub open spec fn low_nibble(value: i8) -> int {
    signed_nibble(value as int % 16)
}

/// The code at `index`.
pub fn read_code(codes: &[u8], index: usize) -> (code: i8)
    requires
        index / 2 < codes.len(),
    ensures
        code == code_at(codes@, index as int),
        -8 <= code <= 7,
{
    let byte: u8 = codes[index / 2];
    let nibble: u8 = if index % 2 == 0 {
        byte % 16
    } else {
        byte / 16
    };
    if nibble >= 8 {
        nibble as i8 - 16
    } else {
        nibble as i8
    }
}

/// Replaces the code at `index` by the low four bits of `value`.
pub fn write_code(codes: &mut Vec<u8>, index: usize, value: i8)
    requires
        index / 2 < old(codes).len(),
    ensures
        final(codes).len() == old(codes).len(),
        code_at(final(codes)@, index as int) == low_nibble(value),
        -8 <= value <= 7 ==> code_at(final(codes)@, index as int) == value,
        forall|i: int|
            0 <= i < 2 * old(codes).len() && i != index ==> #[trigger] code_at(final(codes)@, i)
                == code_at(old(codes)@, i),
{
    let nibble: u8 = ((value as i16 + 256) % 16) as u8;
    let at: usize = index / 2;
    let byte: u8 = codes[at];
    assert(nibble as int == value as int % 16);
    if index % 2 == 0 {
        codes.set(at, byte / 16 * 16 + nibble);
    } else {
        codes.set(at, byte % 16 + nibble * 16);
    }
    assert forall|i: int| 0 <= i < 2 * old(codes).len() && i != index implies #[trigger] code_at(
        codes@,
        i,
    ) == code_at(old(codes)@, i) by {
        if i / 2 == at {
            assert(i % 2 != index % 2);
        }
    }
}

/// The mixing step of the sign generator.
pub open spec fn mixed64(state: u64) -> u64 {
    let a = state.wrapping_add(SPLITMIX_INCREMENT);
    let b = (a ^ (a >> 30u64)).wrapping_mul(SPLITMIX_MULTIPLIER_1);
    let c = (b ^ (b >> 27u64)).wrapping_mul(SPLITMIX_MULTIPLIER_2);
    c ^ (c >> 31u64)
}

/// The mixing step of the sign generator.
pub fn splitmix64(state: u64) -> (mixed: u64)
    ensures
        mixed == mixed64(state),
{
    let a: u64 = state.wrapping_add(SPLITMIX_INCREMENT);
    let b: u64 = (a ^ (a >> 30u64)).wrapping_mul(SPLITMIX_MULTIPLIER_1);
    let c: u64 = (b ^ (b >> 27u64)).wrapping_mul(SPLITMIX_MULTIPLIER_2);
    c ^ (c >> 31u64)
}

/// Whether the transform flips the sign of element `index` of input group `group`.
pub open spec fn flips_sign(seed: u64, group: u64, index: u64) -> bool {
    mixed64(seed ^ group.wrapping_mul(GROUP_MIX) ^ index.wrapping_mul(ELEMENT_MIX)) & 1u64 != 0u64
}

/// Whether the transform flips the sign of element `index` of input group `group`.
pub fn sign_is_negative(seed: u64, group: usize, index: usize) -> (negative: bool)
    ensures
        negative == flips_sign(seed, group as u64, index as u64),
{
    let state: u64 = seed ^ (group as u64).wrapping_mul(GROUP_MIX) ^ (index as u64).wrapping_mul(
        ELEMENT_MIX,
    );
    splitmix64(state) & 1u64 != 0u64
}

/// Two codes make up a byte, the first in the low half, each as four bits that count 16 more if
/// the code is negative.
pub proof fn codes_make_up_their_byte(codes: Seq<u8>, i: int)
    ensures
        ({
            let (first, second) = (code_at(codes, 2 * i), code_at(codes, 2 * i + 1));
            &&& -8 <= first <= 7
            &&& -8 <= second <= 7
            &&& codes[i] == (if first < 0 {
                first + 16
            } else {
                first
            }) + 16 * (if second < 0 {
                second + 16
            } else {
                second
            })
        }),
        HQZ4_MAX_LEVEL == 7,
{
}

/// Only the low four bits of a number are kept: what is kept differs from it by a multiple of 16,
/// and a number of four bits is kept as it is.
pub proof fn low_bits_are_kept(value: i8)
    ensures
        -8 <= low_nibble(value) <= 7,
        (value - low_nibble(value)) % 16 == 0,
        -8 <= value <= 7 ==> low_nibble(value) == value,
{
}

/// The mixing step in plain arithmetic on numbers of 64 bits: an offset, then twice an exclusive
/// or with its own high part and a multiplication, and a last exclusive or.
pub proof fn mixing_in_arithmetic(state: u64, a: u64, b: u64, c: u64)
    requires
        a == (state + 11400714819323198485) % 18446744073709551616,
        b == ((a ^ (a / 1073741824)) * 13787848793156543929) % 18446744073709551616,
        c == ((b ^ (b / 134217728)) * 10723151780598845931) % 18446744073709551616,
    ensures
        mixed64(state) == c ^ (c / 2147483648),
{
    assert(a >> 30u64 == a / 1073741824) by (bit_vector);
    assert(b >> 27u64 == b / 134217728) by (bit_vector);
    assert(c >> 31u64 == c / 2147483648) by (bit_vector);
}

/// The sign of an element is flipped if the mix of the seed, the group and the element is odd.
pub proof fn odd_mixes_flip_the_sign(seed: u64, group: u64, index: u64, g: u64, i: u64)
    requires
        g == (group * 15111065706836454659) % 18446744073709551616,
        i == (index * 10140184047280574811) % 18446744073709551616,
    ensures
        flips_sign(seed, group, index) <==> mixed64(seed ^ g ^ i) % 2 == 1,
{
    let mix = mixed64(seed ^ g ^ i);
    assert(mix & 1u64 == mix % 2) by (bit_vector);
}

} // verus!
