//! Fields of bits in 32-bit words.
use vstd::arithmetic::power2::pow2;
use vstd::prelude::*;

verus! {

/// Why GPTQ and AWQ weights are refused.
#[derive(Clone, Copy, Debug, PartialEq, Eq, Structural)]
pub enum GptqError {
    /// The weights are packed for the Marlin kernels.
    Marlin,
    /// There are no zero points.
    NoZeros,
    /// Levels of this width are not supported.
    Bits { bits: usize },
    /// The tensors are neither all matrices nor all stacks of matrices.
    Rank,
    /// The shapes do not go together.
    Shape,
    /// The zero points do not go with the width of the output.
    ZeroShape,
    /// The group of an input element is not there.
    GroupRange { group: usize, groups: usize },
    /// Experts have no bias.
    Bias,
}

/// The widths of levels.
pub open spec fn is_level_width(bits: int) -> bool {
    bits == 2 || bits == 4 || bits == 8
}

/// The number of levels in a word.
pub fn pack_factor(bits: usize) -> (factor: Result<usize, GptqError>)
    ensures
        match factor {
            Ok(f) => is_level_width(bits as int) && f == 32int / bits as int && f * bits == 32,
            Err(e) => !is_level_width(bits as int) && e == (GptqError::Bits { bits }),
        },
{
    if bits == 2 || bits == 4 || bits == 8 {
        Ok(32 / bits)
    } else {
        Err(GptqError::Bits { bits })
    }
}

/// The value of the bits of a word, the sign bit being its highest.
pub open spec fn unsigned(value: i32) -> int {
    if value < 0 {
        value + 0x1_0000_0000
    } else {
        value as int
    }
}

/// The bits of a word as an unsigned number.
pub fn signed_to_u32(value: i32) -> (bits: u32)
    ensures
        bits == unsigned(value),
        value >= 0 ==> bits == value,
        value < 0 ==> bits == value + 0x1_0000_0000,
{
    let bits: u32 = #[verifier::truncate] (value as u32);
    proof {
        assert(value >= 0 ==> value as u32 == value) by (bit_vector);
        assert(value < 0 ==> value as u32 == value + 0x1_0000_0000) by (bit_vector);
    }
    bits
}

/// The number in a field of bits of a word.
pub open spec fn bit_field(packed: i32, offset: nat, bits: nat) -> int {
    unsigned(packed) / (pow2(offset) as int) % (pow2(bits) as int)
}

/// The number in a field of bits of a word.
pub fn unpack_bits(packed: i32, offset: usize, bits: usize) -> (level: u32)
    requires
        offset < 32,
        bits < 32,
    ensures
        level == bit_field(packed, offset as nat, bits as nat),
        level < pow2(bits as nat),
{
    let word: u32 = signed_to_u32(packed);
    let shift: u32 = offset as u32;
    let width: u32 = bits as u32;
    proof {
        vstd::bits::lemma_u32_shr_is_div(word, shift);
        vstd::bits::lemma_u32_pow2_no_overflow(width as nat);
        vstd::bits::lemma_u32_shl_is_mul(1u32, width);
        vstd::bits::lemma_u32_low_bits_mask_is_mod(word >> shift, width as nat);
        vstd::arithmetic::power2::lemma_pow2_pos(width as nat);
    }
    let one: u32 = 1;
    (word >> shift) & ((one << width) - 1)
}

/// A field of a word is what was put there: whatever the bits below and above it are, a level
/// that stands `offset` bits up in a word is read there.
pub proof fn field_is_what_was_put_there(
    packed: i32,
    offset: nat,
    bits: nat,
    below: int,
    level: int,
    above: int,
)
    requires
        0 <= below < pow2(offset),
        0 <= level < pow2(bits),
        (if packed < 0 {
            packed + 0x1_0000_0000
        } else {
            packed as int
        }) == below + pow2(offset) * (level + pow2(bits) * above),
    ensures
        bit_field(packed, offset, bits) == level,
{
    let upper = level + pow2(bits) * above;
    vstd::arithmetic::power2::lemma_pow2_pos(offset);
    vstd::arithmetic::power2::lemma_pow2_pos(bits);
    vstd::arithmetic::div_mod::lemma_fundamental_div_mod_converse(
        unsigned(packed),
        pow2(offset) as int,
        upper,
        below,
    );
    assert(pow2(bits) * above == above * pow2(bits)) by (nonlinear_arith);
    vstd::arithmetic::div_mod::lemma_fundamental_div_mod_converse(
        upper,
        pow2(bits) as int,
        above,
        level,
    );
}

/// The level of a field fits in its width, and the fields of a word fill it.
pub proof fn fields_fill_a_word(bits: nat)
    requires
        is_level_width(bits as int),
    ensures
        (32nat / bits) * bits == 32,
        forall|i: nat| i < 32nat / bits ==> #[trigger] (i * bits) + bits <= 32,
{
    assert forall|i: nat| i < 32nat / bits implies #[trigger] (i * bits) + bits <= 32 by {
        assert(i * bits + bits <= 32) by (nonlinear_arith)
            requires
                i < 32nat / bits,
                bits == 2 || bits == 4 || bits == 8,
        ;
    }
}

/// Levels have two, four or eight bits.
pub proof fn levels_have_few_bits(bits: int)
    ensures
        is_level_width(bits) <==> bits == 2 || bits == 4 || bits == 8,
{
}

} // verus!
