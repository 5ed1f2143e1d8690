//! Fields of a few bits each, packed one after the other, low bits first.
use vstd::arithmetic::power2::pow2;
use vstd::prelude::*;

verus! {

/// The `k`-th bit of a byte.
pub open spec fn byte_bit(byte: u8, k: u8) -> bool {
    (byte >> k) & 1u8 == 1u8
}

/// The `k`-th bit of a word.
pub open spec fn word_bit(word: u32, k: u32) -> bool {
    (word >> k) & 1u32 == 1u32
}

/// The bit at `pos` of a sequence of bytes.
pub open spec fn bit_at(data: Seq<u8>, pos: int) -> bool {
    byte_bit(data[pos / 8], (pos % 8) as u8)
}

proof fn set_byte_bit(byte: u8, k: u8, j: u8)
    requires
        k < 8,
        j < 8,
    ensures
        byte_bit(byte | (1u8 << k), j) == (j == k || byte_bit(byte, j)),
{
    assert(((byte | (1u8 << k)) >> j) & 1u8 == 1u8 <==> (j == k || (byte >> j) & 1u8 == 1u8))
        by (bit_vector)
        requires
            k < 8,
            j < 8,
    ;
}

proof fn set_word_bit(word: u32, bit: u8, k: u32, j: u32)
    requires
        k < 32,
        j < 32,
        bit == 0 || bit == 1,
        !word_bit(word, k),
    ensures
        word_bit(word | ((bit as u32) << k), j) == if j == k {
            bit == 1
        } else {
            word_bit(word, j)
        },
{
    let wide = bit as u32;
    assert(((word | (wide << k)) >> j) & 1u32 == 1u32 <==> if j == k {
        wide == 1
    } else {
        (word >> j) & 1u32 == 1u32
    }) by (bit_vector)
        requires
            k < 32,
            j < 32,
            wide == 0 || wide == 1,
            (word >> k) & 1u32 != 1u32,
    ;
}

proof fn zero_has_no_bits(k: u32)
    ensures
        k < 32 ==> !word_bit(0, k),
{
    assert(k < 32 ==> (0u32 >> k) & 1u32 == 0u32) by (bit_vector);
}

proof fn one_bit_is_zero_or_one(byte: u8, k: u8)
    requires
        k < 8,
    ensures
        (byte >> k) & 1u8 == 0u8 || (byte >> k) & 1u8 == 1u8,
{
    assert((byte >> k) & 1u8 == 0u8 || (byte >> k) & 1u8 == 1u8) by (bit_vector);
}

proof fn equal_bits_equal_high_parts(a: u32, b: u32, n: u32)
    requires
        forall|k: u32| k < 32 ==> #[trigger] word_bit(a, k) == word_bit(b, k),
        n < 32,
    ensures
        a >> n == b >> n,
    decreases 32 - n,
{
    assert(word_bit(a, n) == word_bit(b, n));
    if n == 31 {
        assert(a >> 31u32 == b >> 31u32) by (bit_vector)
            requires
                ((a >> 31u32) & 1u32 == 1u32) == ((b >> 31u32) & 1u32 == 1u32),
        ;
    } else {
        let m = (n + 1) as u32;
        equal_bits_equal_high_parts(a, b, m);
        assert(a >> n == b >> n) by (bit_vector)
            requires
                n < 31,
                m == n + 1,
                a >> m == b >> m,
                ((a >> n) & 1u32 == 1u32) == ((b >> n) & 1u32 == 1u32),
        ;
    }
}

/// Words are equal if their bits are.
pub proof fn equal_bits_equal_words(a: u32, b: u32)
    requires
        forall|k: u32| k < 32 ==> #[trigger] word_bit(a, k) == word_bit(b, k),
    ensures
        a == b,
{
    equal_bits_equal_high_parts(a, b, 0);
    assert(a == b) by (bit_vector)
        requires
            a >> 0u32 == b >> 0u32,
    ;
}

/// Adds the low `bits` bits of `value` to `data` at `bit_offset`, and moves the offset behind
/// them. Bits that are already set stay set.
pub fn push_bits(data: &mut Vec<u8>, bit_offset: &mut usize, value: u32, bits: usize)
    requires
        bits <= 32,
        *old(bit_offset) + bits <= usize::MAX,
        forall|k: u32|
            k < bits && #[trigger] word_bit(value, k) ==> (*old(bit_offset) + k) / 8 < old(
                data,
            ).len(),
    ensures
        *final(bit_offset) == *old(bit_offset) + bits,
        final(data).len() == old(data).len(),
        forall|pos: int|
            0 <= pos < 8 * old(data).len() ==> #[trigger] bit_at(final(data)@, pos) == (bit_at(
                old(data)@,
                pos,
            ) || (*old(bit_offset) <= pos < *old(bit_offset) + bits && word_bit(
                value,
                (pos - *old(bit_offset)) as u32,
            ))),
{
    let ghost before = data@;
    let start: usize = *bit_offset;
    let mut bit: usize = 0;
    while bit < bits
        invariant
            bit <= bits <= 32,
            start + bits <= usize::MAX,
            data.len() == before.len(),
            forall|k: u32|
                k < bits && #[trigger] word_bit(value, k) ==> (start + k) / 8 < before.len(),
            forall|pos: int|
                0 <= pos < 8 * before.len() ==> #[trigger] bit_at(data@, pos) == (bit_at(
                    before,
                    pos,
                ) || (start <= pos < start + bit && word_bit(value, (pos - start) as u32))),
        decreases bits - bit,
    {
        let ghost current = data@;
        let shift: u32 = bit as u32;
        if (value >> shift) & 1 == 1 {
            assert(word_bit(value, shift));
            let pos: usize = start + bit;
            let index: usize = pos / 8;
            let slot: u8 = (pos % 8) as u8;
            let byte: u8 = data[index];
            data.set(index, byte | (1u8 << slot));
            assert forall|p: int| 0 <= p < 8 * before.len() implies #[trigger] bit_at(data@, p)
                == (bit_at(current, p) || p == pos) by {
                if p / 8 == index {
                    set_byte_bit(byte, slot, (p % 8) as u8);
                }
            }
        }
        bit += 1;
        assert forall|p: int| 0 <= p < 8 * before.len() implies #[trigger] bit_at(data@, p) == (
        bit_at(before, p) || (start <= p < start + bit && word_bit(value, (p - start) as u32))) by {
            assert(bit_at(current, p) == (bit_at(before, p) || (start <= p < start + bit - 1
                && word_bit(value, (p - start) as u32))));
        }
    }
    *bit_offset = start + bits;
}

/// Reads fields of a fixed number of bits, one after the other.
pub struct BitReader<'a> {
    pub data: &'a [u8],
    pub bits: usize,
    pub bit_offset: usize,
}

/// The word whose low `bits` bits are those of `data` from `offset` on.
pub open spec fn is_field(word: u32, data: Seq<u8>, offset: int, bits: int) -> bool {
    forall|k: u32|
        k < 32 ==> #[trigger] word_bit(word, k) == (k < bits && bit_at(data, offset + k))
}

impl<'a> BitReader<'a> {
    /// A reader at the start of `data`.
    pub fn new(data: &'a [u8], bits: usize) -> (reader: Self)
        ensures
            reader.data == data,
            reader.bits == bits,
            reader.bit_offset == 0,
    {
        BitReader { data, bits, bit_offset: 0 }
    }

    /// The next field; `None`, with the reader left in place, if the data end before it does.
    pub fn next(&mut self) -> (field: Option<u32>)
        requires
            old(self).bits <= 32,
            old(self).bit_offset + old(self).bits <= usize::MAX,
        ensures
            final(self).data == old(self).data,
            final(self).bits == old(self).bits,
            match field {
                Some(word) => {
                    &&& old(self).bits > 0 ==> (old(self).bit_offset + old(self).bits - 1) / 8
                        < old(self).data.len()
                    &&& is_field(
                        word,
                        old(self).data@,
                        old(self).bit_offset as int,
                        old(self).bits as int,
                    )
                    &&& final(self).bit_offset == old(self).bit_offset + old(self).bits
                },
                None => {
                    &&& old(self).bits > 0
                    &&& (old(self).bit_offset + old(self).bits - 1) / 8 >= old(self).data.len()
                    &&& final(self).bit_offset == old(self).bit_offset
                },
            },
    {
        let mut value: u32 = 0;
        let mut bit: usize = 0;
        proof {
            assert forall|k: u32| k < 32 implies !#[trigger] word_bit(0, k) by {
                zero_has_no_bits(k);
            }
        }
        while bit < self.bits
            invariant
                bit <= self.bits <= 32,
                self.bit_offset + self.bits <= usize::MAX,
                self.data == old(self).data,
                self.bits == old(self).bits,
                self.bit_offset == old(self).bit_offset,
                bit > 0 ==> (self.bit_offset + bit - 1) / 8 < self.data.len(),
                is_field(value, self.data@, self.bit_offset as int, bit as int),
            decreases self.bits - bit,
        {
            let pos: usize = self.bit_offset + bit;
            if pos / 8 >= self.data.len() {
                return None;
            }
            let byte: u8 = self.data[pos / 8];
            let slot: u8 = (pos % 8) as u8;
            let one: u8 = (byte >> slot) & 1u8;
            let shift: u32 = bit as u32;
            proof {
                one_bit_is_zero_or_one(byte, slot);
                assert(!word_bit(value, shift));
                assert forall|k: u32| k < 32 implies #[trigger] word_bit(
                    value | ((one as u32) << shift),
                    k,
                ) == (k < bit + 1 && bit_at(self.data@, self.bit_offset + k)) by {
                    set_word_bit(value, one, shift, k);
                    assert(word_bit(value, k) == (k < bit && bit_at(
                        self.data@,
                        self.bit_offset + k,
                    )));
                }
            }
            value = value | ((one as u32) << shift);
            bit += 1;
        }
        self.bit_offset = self.bit_offset + self.bits;
        Some(value)
    }
}

/// What was pushed into clear bits is read back, and the bits around it stay as they were.
pub proof fn pushed_field_reads_back(
    before: Seq<u8>,
    after: Seq<u8>,
    offset: int,
    value: u32,
    bits: int,
    word: u32,
)
    requires
        0 <= bits <= 32,
        0 <= offset,
        offset + bits <= 8 * before.len(),
        after.len() == before.len(),
        forall|pos: int| offset <= pos < offset + bits ==> !#[trigger] bit_at(before, pos),
        forall|pos: int|
            0 <= pos < 8 * before.len() ==> #[trigger] bit_at(after, pos) == (bit_at(before, pos)
                || (offset <= pos < offset + bits && word_bit(value, (pos - offset) as u32))),
        forall|k: u32| bits <= k < 32 ==> !#[trigger] word_bit(value, k),
        is_field(word, after, offset, bits),
    ensures
        word == value,
        forall|pos: int|
            0 <= pos < 8 * before.len() && !(offset <= pos < offset + bits) ==> #[trigger] bit_at(
                after,
                pos,
            ) == bit_at(before, pos),
{
    assert forall|k: u32| k < 32 implies #[trigger] word_bit(word, k) == word_bit(value, k) by {
        if k < bits {
            assert(bit_at(after, offset + k) == (bit_at(before, offset + k) || word_bit(
                value,
                (offset + k - offset) as u32,
            )));
        } else {
            assert(!word_bit(value, k));
        }
    }
    equal_bits_equal_words(word, value);
}

/// Bits count from the low end: bit `k` of a number is set exactly if its half by `k` halvings is
/// odd, and bit `8 * i + k` of a sequence of bytes is bit `k` of byte `i`.
pub proof fn bits_count_from_the_low_end(data: Seq<u8>, i: int, k: u8, word: u32, j: u32)
    requires
        k < 8,
        j < 32,
    ensures
        bit_at(data, 8 * i + k) <==> (data[i] as nat / pow2(k as nat)) % 2 == 1,
        word_bit(word, j) <==> (word as nat / pow2(j as nat)) % 2 == 1,
{
    let byte = data[i];
    let half = byte >> k;
    let part = word >> j;
    vstd::bits::lemma_u8_shr_is_div(byte, k);
    vstd::bits::lemma_u32_shr_is_div(word, j);
    assert(half & 1u8 == half % 2u8) by (bit_vector);
    assert(part & 1u32 == part % 2u32) by (bit_vector);
    vstd::arithmetic::div_mod::lemma_fundamental_div_mod_converse(8 * i + k, 8, i, k as int);
}

} // verus!
