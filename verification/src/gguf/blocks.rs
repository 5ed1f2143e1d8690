//! Blocks of the types Q4_1 and Q4K, and their products with blocks of 8-bit levels, as far as
//! they are made of integers.
//!
//! The factors of a block are the bit patterns of 16-bit floats.
use crate::float_bits::word_at;
use crate::little_endian::words_of;
use vstd::prelude::*;

verus! {

/// The bytes are not a whole number of blocks.
#[derive(Clone, Copy, Debug, PartialEq, Eq, Structural)]
pub struct BlockLengthError {
    pub len: usize,
    pub block_bytes: usize,
}

/// Bytes of a block of the type Q4_1.
pub const Q4_1_BLOCK_BYTES: usize = 20;

/// Bytes of a block of the type Q4K.
pub const Q4K_BLOCK_BYTES: usize = 144;

/// A block of the type Q4_1: 32 levels of four bits, with a factor and an offset.
#[derive(Clone, Debug)]
pub struct RawQ4_1Block {
    pub d: u16,
    pub m: u16,
    pub qs: Vec<u8>,
}

/// A block of the type Q4K: 256 levels of four bits in eight parts, each with a scale and an
/// offset of six bits, and a factor for the scales and one for the offsets.
#[derive(Clone, Debug)]
pub struct RawQ4KBlock {
    pub d: u16,
    pub dmin: u16,
    pub scales: Vec<u8>,
    pub qs: Vec<u8>,
}

/// The 16-bit number that two bytes hold, low byte first.
pub open spec fn half_at(bytes: Seq<u8>, at: int) -> int {
    bytes[at] + 256 * bytes[at + 1]
}

fn read_half(bytes: &[u8], at: usize) -> (half: u16)
    requires
        at + 2 <= bytes.len(),
    ensures
        half == half_at(bytes@, at as int),
{
    bytes[at] as u16 + 256 * bytes[at + 1] as u16
}

fn copy_bytes(bytes: &[u8], start: usize, end: usize) -> (part: Vec<u8>)
    requires
        start <= end <= bytes.len(),
    ensures
        part@ == bytes@.subrange(start as int, end as int),
{
    let mut part: Vec<u8> = Vec::new();
    let mut i: usize = start;
    while i < end
        invariant
            start <= i <= end <= bytes.len(),
            part@ == bytes@.subrange(start as int, i as int),
        decreases end - i,
    {
        part.push(bytes[i]);
        i += 1;
        assert(part@ =~= bytes@.subrange(start as int, i as int));
    }
    part
}

/// Whether this is block `i` of the bytes.
pub open spec fn is_q4_1_block(raw: Seq<u8>, i: int, block: RawQ4_1Block) -> bool {
    &&& block.d == half_at(raw, 20 * i)
    &&& block.m == half_at(raw, 20 * i + 2)
    &&& block.qs@ == raw.subrange(20 * i + 4, 20 * i + 20)
}

/// Cuts bytes into blocks of the type Q4_1.
pub fn q4_1_blocks_from_raw(raw: &[u8]) -> (blocks: Result<Vec<RawQ4_1Block>, BlockLengthError>)
    ensures
        match blocks {
            Ok(b) => {
                &&& raw@.len() == 20 * b@.len()
                &&& forall|i: int|
                    0 <= i < b@.len() ==> is_q4_1_block(raw@, i, #[trigger] b@[i])
            },
            Err(e) => raw@.len() % 20 != 0 && e == (BlockLengthError {
                len: raw@.len() as usize,
                block_bytes: 20,
            }),
        },
{
    if raw.len() % Q4_1_BLOCK_BYTES != 0 {
        return Err(BlockLengthError { len: raw.len(), block_bytes: Q4_1_BLOCK_BYTES });
    }
    let mut blocks: Vec<RawQ4_1Block> = Vec::new();
    let mut at: usize = 0;
    while at < raw.len()
        invariant
            at <= raw@.len(),
            raw@.len() % 20 == 0,
            at == 20 * blocks@.len(),
            forall|i: int|
                0 <= i < blocks@.len() ==> is_q4_1_block(raw@, i, #[trigger] blocks@[i]),
        decreases raw@.len() - at,
    {
        blocks.push(
            RawQ4_1Block {
                d: read_half(raw, at),
                m: read_half(raw, at + 2),
                qs: copy_bytes(raw, at + 4, at + 20),
            },
        );
        at += Q4_1_BLOCK_BYTES;
    }
    Ok(blocks)
}

/// Whether this is block `i` of the bytes.
pub open spec fn is_q4k_block(raw: Seq<u8>, i: int, block: RawQ4KBlock) -> bool {
    &&& block.d == half_at(raw, 144 * i)
    &&& block.dmin == half_at(raw, 144 * i + 2)
    &&& block.scales@ == raw.subrange(144 * i + 4, 144 * i + 16)
    &&& block.qs@ == raw.subrange(144 * i + 16, 144 * i + 144)
}

/// Cuts bytes into blocks of the type Q4K.
pub fn q4k_blocks_from_raw(raw: &[u8]) -> (blocks: Result<Vec<RawQ4KBlock>, BlockLengthError>)
    ensures
        match blocks {
            Ok(b) => {
                &&& raw@.len() == 144 * b@.len()
                &&& forall|i: int| 0 <= i < b@.len() ==> is_q4k_block(raw@, i, #[trigger] b@[i])
            },
            Err(e) => raw@.len() % 144 != 0 && e == (BlockLengthError {
                len: raw@.len() as usize,
                block_bytes: 144,
            }),
        },
{
    if raw.len() % Q4K_BLOCK_BYTES != 0 {
        return Err(BlockLengthError { len: raw.len(), block_bytes: Q4K_BLOCK_BYTES });
    }
    let mut blocks: Vec<RawQ4KBlock> = Vec::new();
    let mut at: usize = 0;
    while at < raw.len()
        invariant
            at <= raw@.len(),
            raw@.len() % 144 == 0,
            at == 144 * blocks@.len(),
            forall|i: int|
                0 <= i < blocks@.len() ==> is_q4k_block(raw@, i, #[trigger] blocks@[i]),
        decreases raw@.len() - at,
    {
        blocks.push(
            RawQ4KBlock {
                d: read_half(raw, at),
                dmin: read_half(raw, at + 2),
                scales: copy_bytes(raw, at + 4, at + 16),
                qs: copy_bytes(raw, at + 16, at + 144),
            },
        );
        at += Q4K_BLOCK_BYTES;
    }
    Ok(blocks)
}

/// The sum of the products of the low halves of `n` bytes and `n` levels.
pub open spec fn low_dot(qs: Seq<u8>, q_at: int, levels: Seq<i8>, l_at: int, n: nat) -> int
    decreases n,
{
    if n == 0 {
        0
    } else {
        low_dot(qs, q_at, levels, l_at, (n - 1) as nat) + (qs[q_at + n - 1] as int % 16)
            * levels[l_at + n - 1]
    }
}

/// The sum of the products of the high halves of `n` bytes and `n` levels.
pub open spec fn high_dot(qs: Seq<u8>, q_at: int, levels: Seq<i8>, l_at: int, n: nat) -> int
    decreases n,
{
    if n == 0 {
        0
    } else {
        high_dot(qs, q_at, levels, l_at, (n - 1) as nat) + (qs[q_at + n - 1] as int / 16)
            * levels[l_at + n - 1]
    }
}

proof fn level_product_bound(a: int, b: int)
    requires
        0 <= a <= 15,
        -128 <= b <= 127,
    ensures
        -1920 <= a * b <= 1920,
{
    assert(-1920 <= a * b <= 1920) by (nonlinear_arith)
        requires
            0 <= a <= 15,
            -128 <= b <= 127,
    ;
}

fn low_sum(qs: &Vec<u8>, q_at: usize, levels: &Vec<i8>, l_at: usize, n: usize) -> (sum: i32)
    requires
        n <= 32,
        q_at + n <= qs@.len(),
        l_at + n <= levels@.len(),
        q_at + n <= usize::MAX,
        l_at + n <= usize::MAX,
    ensures
        sum == low_dot(qs@, q_at as int, levels@, l_at as int, n as nat),
        -1920 * n <= sum <= 1920 * n,
{
    let mut sum: i32 = 0;
    let mut i: usize = 0;
    while i < n
        invariant
            i <= n <= 32,
            q_at + n <= qs@.len(),
            l_at + n <= levels@.len(),
            q_at + n <= usize::MAX,
            l_at + n <= usize::MAX,
            sum == low_dot(qs@, q_at as int, levels@, l_at as int, i as nat),
            -1920 * i <= sum <= 1920 * i,
        decreases n - i,
    {
        let a: i32 = (qs[q_at + i] % 16) as i32;
        let b: i32 = levels[l_at + i] as i32;
        proof {
            level_product_bound(a as int, b as int);
        }
        sum = sum + a * b;
        i += 1;
    }
    sum
}

fn high_sum(qs: &Vec<u8>, q_at: usize, levels: &Vec<i8>, l_at: usize, n: usize) -> (sum: i32)
    requires
        n <= 32,
        q_at + n <= qs@.len(),
        l_at + n <= levels@.len(),
        q_at + n <= usize::MAX,
        l_at + n <= usize::MAX,
    ensures
        sum == high_dot(qs@, q_at as int, levels@, l_at as int, n as nat),
        -1920 * n <= sum <= 1920 * n,
{
    let mut sum: i32 = 0;
    let mut i: usize = 0;
    while i < n
        invariant
            i <= n <= 32,
            q_at + n <= qs@.len(),
            l_at + n <= levels@.len(),
            q_at + n <= usize::MAX,
            l_at + n <= usize::MAX,
            sum == high_dot(qs@, q_at as int, levels@, l_at as int, i as nat),
            -1920 * i <= sum <= 1920 * i,
        decreases n - i,
    {
        let a: i32 = (qs[q_at + i] / 16) as i32;
        let b: i32 = levels[l_at + i] as i32;
        proof {
            level_product_bound(a as int, b as int);
        }
        sum = sum + a * b;
        i += 1;
    }
    sum
}

/// The sum of the products of the levels of a block of the type Q4_1 and 32 levels of eight
/// bits. The low halves of the bytes are the first 16 levels of the block.
pub fn q4_1_q8_1_sum(block: &RawQ4_1Block, levels: &Vec<i8>) -> (sum: i32)
    requires
        block.qs@.len() == 16,
        levels@.len() == 32,
    ensures
        sum == low_dot(block.qs@, 0, levels@, 0, 16) + high_dot(block.qs@, 0, levels@, 16, 16),
{
    low_sum(&block.qs, 0, levels, 0, 16) + high_sum(&block.qs, 0, levels, 16, 16)
}

/// The sum of `n` levels.
pub open spec fn level_sum(levels: Seq<i8>, at: int, n: nat) -> int
    decreases n,
{
    if n == 0 {
        0
    } else {
        level_sum(levels, at, (n - 1) as nat) + levels[at + n - 1]
    }
}

/// The sum of a block of levels.
pub fn sum_levels(levels: &Vec<i8>, at: usize, n: usize) -> (sum: i32)
    requires
        n <= 256,
        at + n <= levels@.len(),
        at + n <= usize::MAX,
    ensures
        sum == level_sum(levels@, at as int, n as nat),
        -128 * n <= sum <= 127 * n,
{
    let mut sum: i32 = 0;
    let mut i: usize = 0;
    while i < n
        invariant
            i <= n <= 256,
            at + n <= levels@.len(),
            at + n <= usize::MAX,
            sum == level_sum(levels@, at as int, i as nat),
            -128 * i <= sum <= 127 * i,
        decreases n - i,
    {
        sum = sum + levels[at + i] as i32;
        i += 1;
    }
    sum
}

/// A block of the type Q8K without its factor: 256 levels, and the sums of each 16 of them.
#[derive(Clone, Debug)]
pub struct Q8KLevels {
    pub qs: Vec<i8>,
    pub bsums: Vec<i16>,
}

impl Q8KLevels {
    /// The sums are those of the levels.
    pub open spec fn wf(&self) -> bool {
        &&& self.qs@.len() == 256
        &&& self.bsums@.len() == 16
        &&& forall|j: int|
            0 <= j < 16 ==> #[trigger] self.bsums@[j] == level_sum(self.qs@, 16 * j, 16)
    }

    /// A block of these levels.
    pub fn new(qs: Vec<i8>) -> (block: Self)
        requires
            qs@.len() == 256,
        ensures
            block.wf(),
            block.qs@ == qs@,
    {
        let mut bsums: Vec<i16> = Vec::new();
        let mut j: usize = 0;
        while j < 16
            invariant
                j <= 16,
                qs@.len() == 256,
                bsums@.len() == j,
                forall|k: int|
                    0 <= k < j ==> #[trigger] bsums@[k] == level_sum(qs@, 16 * k, 16),
            decreases 16 - j,
        {
            let sum: i32 = sum_levels(&qs, 16 * j, 16);
            bsums.push(sum as i16);
            j += 1;
        }
        Q8KLevels { qs, bsums }
    }
}

/// The scale of a part of a block of the type Q4K, in its packed bytes.
pub open spec fn q4k_scale(packed: Seq<u8>, part: int) -> int {
    if part < 4 {
        packed[part] as int % 64
    } else {
        packed[part + 4] as int % 16 + 16 * (packed[part - 4] as int / 64)
    }
}

/// The offset of a part of a block of the type Q4K, in its packed bytes.
pub open spec fn q4k_min(packed: Seq<u8>, part: int) -> int {
    if part < 4 {
        packed[part + 4] as int % 64
    } else {
        packed[part + 4] as int / 16 + 16 * (packed[part] as int / 64)
    }
}

/// The scales and offsets of the parts of a block of the type Q4K.
pub struct Q4KScales {
    pub scales: Vec<u8>,
    pub mins: Vec<u8>,
}

fn word_byte(word: u32, k: usize) -> (byte: u8)
    requires
        k < 4,
    ensures
        byte == (word >> ((8 * k) as u32)) & 0xff,
{
    let shift: u32 = 8 * k as u32;
    let low: u32 = (word >> shift) & 0xff;
    assert(low <= 255) by (bit_vector)
        requires
            low == (word >> shift) & 0xff,
    ;
    low as u8
}

proof fn masked_bytes(word: u32, b0: u8, b1: u8, b2: u8, b3: u8)
    by (bit_vector)
    requires
        word == b0 + 256 * b1 + 65536 * b2 + 16777216 * b3,
    ensures
        ((word & 0x3f3f3f3f) >> 0u32) & 0xff == b0 % 64,
        ((word & 0x3f3f3f3f) >> 8u32) & 0xff == b1 % 64,
        ((word & 0x3f3f3f3f) >> 16u32) & 0xff == b2 % 64,
        ((word & 0x3f3f3f3f) >> 24u32) & 0xff == b3 % 64,
{
}

proof fn joined_low_bytes(
    low: u32,
    b0: u8,
    b1: u8,
    b2: u8,
    b3: u8,
    top: u32,
    t0: u8,
    t1: u8,
    t2: u8,
    t3: u8,
)
    by (bit_vector)
    requires
        low == b0 + 256 * b1 + 65536 * b2 + 16777216 * b3,
        top == t0 + 256 * t1 + 65536 * t2 + 16777216 * t3,
    ensures
        (((low & 0x0f0f0f0f) | (((top >> 6) & 0x03030303) << 4)) >> 0u32) & 0xff == b0 % 16 + 16 * (
        t0 / 64),
        (((low & 0x0f0f0f0f) | (((top >> 6) & 0x03030303) << 4)) >> 8u32) & 0xff == b1 % 16 + 16 * (
        t1 / 64),
        (((low & 0x0f0f0f0f) | (((top >> 6) & 0x03030303) << 4)) >> 16u32) & 0xff == b2 % 16 + 16
            * (t2 / 64),
        (((low & 0x0f0f0f0f) | (((top >> 6) & 0x03030303) << 4)) >> 24u32) & 0xff == b3 % 16 + 16
            * (t3 / 64),
{
}

proof fn joined_high_bytes(
    high: u32,
    b0: u8,
    b1: u8,
    b2: u8,
    b3: u8,
    top: u32,
    t0: u8,
    t1: u8,
    t2: u8,
    t3: u8,
)
    by (bit_vector)
    requires
        high == b0 + 256 * b1 + 65536 * b2 + 16777216 * b3,
        top == t0 + 256 * t1 + 65536 * t2 + 16777216 * t3,
    ensures
        ((((high >> 4) & 0x0f0f0f0f) | (((top >> 6) & 0x03030303) << 4)) >> 0u32) & 0xff == b0 / 16
            + 16 * (t0 / 64),
        ((((high >> 4) & 0x0f0f0f0f) | (((top >> 6) & 0x03030303) << 4)) >> 8u32) & 0xff == b1 / 16
            + 16 * (t1 / 64),
        ((((high >> 4) & 0x0f0f0f0f) | (((top >> 6) & 0x03030303) << 4)) >> 16u32) & 0xff == b2
            / 16 + 16 * (t2 / 64),
        ((((high >> 4) & 0x0f0f0f0f) | (((top >> 6) & 0x03030303) << 4)) >> 24u32) & 0xff == b3
            / 16 + 16 * (t3 / 64),
{
}

/// Unpacks the scales and offsets of a block of the type Q4K.
pub fn unpack_q4k_scales(packed: &Vec<u8>) -> (unpacked: Q4KScales)
    requires
        packed@.len() == 12,
    ensures
        unpacked.scales@.len() == 8,
        unpacked.mins@.len() == 8,
        forall|j: int|
            0 <= j < 8 ==> #[trigger] unpacked.scales@[j] == q4k_scale(packed@, j),
        forall|j: int| 0 <= j < 8 ==> #[trigger] unpacked.mins@[j] == q4k_min(packed@, j),
{
    let words: Vec<u32> = words_of(packed.as_slice());
    let w0: u32 = words[0];
    let w1: u32 = words[1];
    let w2: u32 = words[2];
    let scales_low: u32 = w0 & 0x3f3f3f3f;
    let scales_high: u32 = (w2 & 0x0f0f0f0f) | (((w0 >> 6) & 0x03030303) << 4);
    let mins_low: u32 = w1 & 0x3f3f3f3f;
    let mins_high: u32 = ((w2 >> 4) & 0x0f0f0f0f) | (((w1 >> 6) & 0x03030303) << 4);
    proof {
        let p = packed@;
        assert(words@[0] == word_at(p, 0));
        assert(words@[1] == word_at(p, 4));
        assert(words@[2] == word_at(p, 8));
        masked_bytes(w0, p[0], p[1], p[2], p[3]);
        masked_bytes(w1, p[4], p[5], p[6], p[7]);
        joined_low_bytes(w2, p[8], p[9], p[10], p[11], w0, p[0], p[1], p[2], p[3]);
        joined_high_bytes(w2, p[8], p[9], p[10], p[11], w1, p[4], p[5], p[6], p[7]);
    }
    let scales: Vec<u8> = vec![
        word_byte(scales_low, 0),
        word_byte(scales_low, 1),
        word_byte(scales_low, 2),
        word_byte(scales_low, 3),
        word_byte(scales_high, 0),
        word_byte(scales_high, 1),
        word_byte(scales_high, 2),
        word_byte(scales_high, 3),
    ];
    let mins: Vec<u8> = vec![
        word_byte(mins_low, 0),
        word_byte(mins_low, 1),
        word_byte(mins_low, 2),
        word_byte(mins_low, 3),
        word_byte(mins_high, 0),
        word_byte(mins_high, 1),
        word_byte(mins_high, 2),
        word_byte(mins_high, 3),
    ];
    Q4KScales { scales, mins }
}

/// The scaled sum of the products of the first `n` pairs of parts of a block of the type Q4K
/// and the levels of a block of the type Q8K. The low halves of 32 bytes are one part, the high
/// halves the next.
pub open spec fn q4k_dot(packed: Seq<u8>, qs: Seq<u8>, levels: Seq<i8>, n: nat) -> int
    decreases n,
{
    if n == 0 {
        0
    } else {
        let j = n - 1;
        q4k_dot(packed, qs, levels, j as nat) + q4k_scale(packed, 2 * j) * low_dot(
            qs,
            32 * j,
            levels,
            64 * j,
            32,
        ) + q4k_scale(packed, 2 * j + 1) * high_dot(qs, 32 * j, levels, 64 * j + 32, 32)
    }
}

/// The sum of the products of the first `n` offsets of a block of the type Q4K and the sums of
/// the levels that they belong to.
pub open spec fn q4k_min_dot(packed: Seq<u8>, bsums: Seq<i16>, n: nat) -> int
    decreases n,
{
    if n == 0 {
        0
    } else {
        let j = n - 1;
        q4k_min_dot(packed, bsums, j as nat) + q4k_min(packed, j) * (bsums[2 * j] + bsums[2 * j
            + 1])
    }
}

/// The two integers of a product of blocks: what the factor of the scales, and what the factor
/// of the offsets is multiplied with.
#[derive(Clone, Copy, Debug, PartialEq, Eq, Structural)]
pub struct BlockSums {
    pub scaled: i32,
    pub offset: i32,
}

/// The integers of the product of a block of the type Q4K and one of the type Q8K.
pub fn q4k_q8k_sums(block: &RawQ4KBlock, levels: &Q8KLevels) -> (sums: BlockSums)
    requires
        block.scales@.len() == 12,
        block.qs@.len() == 128,
        levels.wf(),
    ensures
        sums.scaled == q4k_dot(block.scales@, block.qs@, levels.qs@, 4),
        sums.offset == q4k_min_dot(block.scales@, levels.bsums@, 8),
{
    let unpacked: Q4KScales = unpack_q4k_scales(&block.scales);
    let mut scaled: i32 = 0;
    let mut j: usize = 0;
    while j < 4
        invariant
            j <= 4,
            block.scales@.len() == 12,
            block.qs@.len() == 128,
            levels.qs@.len() == 256,
            unpacked.scales@.len() == 8,
            forall|k: int|
                0 <= k < 8 ==> #[trigger] unpacked.scales@[k] == q4k_scale(block.scales@, k),
            scaled == q4k_dot(block.scales@, block.qs@, levels.qs@, j as nat),
            -31500000 * j <= scaled <= 31500000 * j,
        decreases 4 - j,
    {
        let low: i32 = low_sum(&block.qs, 32 * j, &levels.qs, 64 * j, 32);
        let high: i32 = high_sum(&block.qs, 32 * j, &levels.qs, 64 * j + 32, 32);
        let low_scale: i32 = unpacked.scales[2 * j] as i32;
        let high_scale: i32 = unpacked.scales[2 * j + 1] as i32;
        proof {
            scaled_bound(low_scale as int, low as int);
            scaled_bound(high_scale as int, high as int);
        }
        scaled = scaled + low_scale * low + high_scale * high;
        j += 1;
    }
    let mut offset: i32 = 0;
    let mut k: usize = 0;
    while k < 8
        invariant
            k <= 8,
            unpacked.mins@.len() == 8,
            levels.bsums@.len() == 16,
            forall|i: int| 0 <= i < 8 ==> #[trigger] unpacked.mins@[i] == q4k_min(block.scales@, i),
            offset == q4k_min_dot(block.scales@, levels.bsums@, k as nat),
            -17000000 * k <= offset <= 17000000 * k,
        decreases 8 - k,
    {
        let min: i32 = unpacked.mins[k] as i32;
        let sum: i32 = levels.bsums[2 * k] as i32 + levels.bsums[2 * k + 1] as i32;
        proof {
            offset_bound(min as int, sum as int);
        }
        offset = offset + min * sum;
        k += 1;
    }
    BlockSums { scaled, offset }
}

proof fn scaled_bound(scale: int, sum: int)
    requires
        0 <= scale <= 255,
        -61440 <= sum <= 61440,
    ensures
        -15700000 <= scale * sum <= 15700000,
{
    assert(-15700000 <= scale * sum <= 15700000) by (nonlinear_arith)
        requires
            0 <= scale <= 255,
            -61440 <= sum <= 61440,
    ;
}

proof fn offset_bound(min: int, sum: int)
    requires
        0 <= min <= 255,
        -65536 <= sum <= 65536,
    ensures
        -17000000 <= min * sum <= 17000000,
{
    assert(-17000000 <= min * sum <= 17000000) by (nonlinear_arith)
        requires
            0 <= min <= 255,
            -65536 <= sum <= 65536,
    ;
}

/// Scales and offsets have six bits.
pub proof fn scales_have_six_bits(packed: Seq<u8>, part: int)
    requires
        packed.len() == 12,
        0 <= part < 8,
    ensures
        0 <= q4k_scale(packed, part) < 64,
        0 <= q4k_min(packed, part) < 64,
{
}

/// Level number `e` of a block of the type Q4_1: the low halves of the bytes, then the high ones.
pub open spec fn q4_1_level(qs: Seq<u8>, e: int) -> int {
    if e < 16 {
        qs[e] as int % 16
    } else {
        qs[e - 16] as int / 16
    }
}

/// Level number `e` of a block of the type Q4K: of each 32 bytes the low halves, then the high
/// ones.
pub open spec fn q4k_level(qs: Seq<u8>, e: int) -> int {
    let byte = qs[32 * (e / 64) + e % 32];
    if e % 64 < 32 {
        byte as int % 16
    } else {
        byte as int / 16
    }
}

/// The sum of `f` over the first `n` numbers.
pub open spec fn sum_of(f: spec_fn(int) -> int, n: nat) -> int
    decreases n,
{
    if n == 0 {
        0
    } else {
        sum_of(f, (n - 1) as nat) + f(n - 1)
    }
}

proof fn low_dot_is_a_sum(
    qs: Seq<u8>,
    q_at: int,
    levels: Seq<i8>,
    l_at: int,
    n: nat,
    f: spec_fn(int) -> int,
    from: nat,
    factor: int,
)
    requires
        forall|i: int|
            0 <= i < n ==> #[trigger] f(from + i) == factor * ((qs[q_at + i] as int % 16)
                * levels[l_at + i]),
    ensures
        sum_of(f, from + n) == sum_of(f, from) + factor * low_dot(qs, q_at, levels, l_at, n),
    decreases n,
{
    if n > 0 {
        let m = (n - 1) as nat;
        low_dot_is_a_sum(qs, q_at, levels, l_at, m, f, from, factor);
        let last = (qs[q_at + m] as int % 16) * levels[l_at + m];
        let before = low_dot(qs, q_at, levels, l_at, m);
        assert(f((from + m) as int) == factor * last);
        assert(factor * (before + last) == factor * before + factor * last) by (nonlinear_arith);
        assert(((from + n) - 1) as nat == from + m);
    } else {
        assert(factor * 0 == 0);
    }
}

proof fn high_dot_is_a_sum(
    qs: Seq<u8>,
    q_at: int,
    levels: Seq<i8>,
    l_at: int,
    n: nat,
    f: spec_fn(int) -> int,
    from: nat,
    factor: int,
)
    requires
        forall|i: int|
            0 <= i < n ==> #[trigger] f(from + i) == factor * ((qs[q_at + i] as int / 16)
                * levels[l_at + i]),
    ensures
        sum_of(f, from + n) == sum_of(f, from) + factor * high_dot(qs, q_at, levels, l_at, n),
    decreases n,
{
    if n > 0 {
        let m = (n - 1) as nat;
        high_dot_is_a_sum(qs, q_at, levels, l_at, m, f, from, factor);
        let last = (qs[q_at + m] as int / 16) * levels[l_at + m];
        let before = high_dot(qs, q_at, levels, l_at, m);
        assert(f((from + m) as int) == factor * last);
        assert(factor * (before + last) == factor * before + factor * last) by (nonlinear_arith);
        assert(((from + n) - 1) as nat == from + m);
    } else {
        assert(factor * 0 == 0);
    }
}

/// The product of a block of the type Q4_1 is the sum of the products of its 32 levels and the
/// levels of the same numbers.
pub proof fn q4_1_product_is_that_of_its_levels(qs: Seq<u8>, levels: Seq<i8>)
    ensures
        low_dot(qs, 0, levels, 0, 16) + high_dot(qs, 0, levels, 16, 16) == sum_of(
            |e: int| q4_1_level(qs, e) * levels[e],
            32,
        ),
{
    let f = |e: int| q4_1_level(qs, e) * levels[e];
    assert(sum_of(f, 0) == 0);
    low_dot_is_a_sum(qs, 0, levels, 0, 16, f, 0, 1);
    high_dot_is_a_sum(qs, 0, levels, 16, 16, f, 16, 1);
}

proof fn q4k_dot_is_a_sum(packed: Seq<u8>, qs: Seq<u8>, levels: Seq<i8>, n: nat)
    requires
        n <= 4,
    ensures
        q4k_dot(packed, qs, levels, n) == sum_of(
            |e: int| q4k_scale(packed, e / 32) * (q4k_level(qs, e) * levels[e]),
            64 * n,
        ),
    decreases n,
{
    let f = |e: int| q4k_scale(packed, e / 32) * (q4k_level(qs, e) * levels[e]);
    if n == 0 {
        assert(sum_of(f, 0) == 0);
    } else {
        let j = n - 1;
        q4k_dot_is_a_sum(packed, qs, levels, j as nat);
        let from = (64 * j) as nat;
        assert forall|i: int| 0 <= i < 32 implies #[trigger] f(from + i) == q4k_scale(packed, 2 * j)
            * ((qs[32 * j + i] as int % 16) * levels[64 * j + i]) by {
            let e = 64 * j + i;
            assert(e / 32 == 2 * j && e / 64 == j && e % 32 == i && e % 64 == i);
        }
        low_dot_is_a_sum(
            qs,
            32 * j,
            levels,
            64 * j,
            32,
            f,
            from,
            q4k_scale(packed, 2 * j),
        );
        let middle = (64 * j + 32) as nat;
        assert forall|i: int| 0 <= i < 32 implies #[trigger] f(middle + i) == q4k_scale(
            packed,
            2 * j + 1,
        ) * ((qs[32 * j + i] as int / 16) * levels[64 * j + 32 + i]) by {
            let e = 64 * j + 32 + i;
            assert(e / 32 == 2 * j + 1 && e / 64 == j && e % 32 == i && e % 64 == 32 + i);
        }
        high_dot_is_a_sum(
            qs,
            32 * j,
            levels,
            64 * j + 32,
            32,
            f,
            middle,
            q4k_scale(packed, 2 * j + 1),
        );
        assert(middle + 32 == 64 * n);
    }
}

/// The scaled product of a block of the type Q4K is the sum, over its 256 levels, of the products
/// of level, the scale of the level's part of 32, and the other level of the same number.
pub proof fn q4k_product_is_that_of_its_levels(packed: Seq<u8>, qs: Seq<u8>, levels: Seq<i8>)
    ensures
        q4k_dot(packed, qs, levels, 4) == sum_of(
            |e: int| q4k_scale(packed, e / 32) * (q4k_level(qs, e) * levels[e]),
            256,
        ),
{
    q4k_dot_is_a_sum(packed, qs, levels, 4);
}

proof fn level_sum_is_a_sum(
    levels: Seq<i8>,
    at: int,
    n: nat,
    f: spec_fn(int) -> int,
    from: nat,
    factor: int,
)
    requires
        forall|i: int| 0 <= i < n ==> #[trigger] f(from + i) == factor * levels[at + i],
    ensures
        sum_of(f, from + n) == sum_of(f, from) + factor * level_sum(levels, at, n),
    decreases n,
{
    if n > 0 {
        let m = (n - 1) as nat;
        level_sum_is_a_sum(levels, at, m, f, from, factor);
        let before = level_sum(levels, at, m);
        let last = levels[at + m] as int;
        assert(f((from + m) as int) == factor * last);
        assert(factor * (before + last) == factor * before + factor * last) by (nonlinear_arith);
        assert(((from + n) - 1) as nat == from + m);
    } else {
        assert(factor * 0 == 0);
    }
}

proof fn q4k_min_dot_is_a_sum(packed: Seq<u8>, block: Q8KLevels, n: nat)
    requires
        block.wf(),
        n <= 8,
    ensures
        q4k_min_dot(packed, block.bsums@, n) == sum_of(
            |e: int| q4k_min(packed, e / 32) * block.qs@[e],
            32 * n,
        ),
    decreases n,
{
    let f = |e: int| q4k_min(packed, e / 32) * block.qs@[e];
    if n == 0 {
        assert(sum_of(f, 0) == 0);
    } else {
        let j = n - 1;
        q4k_min_dot_is_a_sum(packed, block, j as nat);
        let factor = q4k_min(packed, j);
        let from = (32 * j) as nat;
        assert forall|i: int| 0 <= i < 16 implies #[trigger] f(from + i) == factor * block.qs@[32
            * j + i] by {
            assert((32 * j + i) / 32 == j);
        }
        level_sum_is_a_sum(block.qs@, 32 * j, 16, f, from, factor);
        let middle = (32 * j + 16) as nat;
        assert forall|i: int| 0 <= i < 16 implies #[trigger] f(middle + i) == factor * block.qs@[32
            * j + 16 + i] by {
            assert((32 * j + 16 + i) / 32 == j);
        }
        level_sum_is_a_sum(block.qs@, 32 * j + 16, 16, f, middle, factor);
        let (a, b) = (block.bsums@[2 * j] as int, block.bsums@[2 * j + 1] as int);
        assert(a == level_sum(block.qs@, 16 * (2 * j), 16));
        assert(b == level_sum(block.qs@, 16 * (2 * j + 1), 16));
        assert(factor * (a + b) == factor * a + factor * b) by (nonlinear_arith);
        assert(middle + 16 == 32 * n);
    }
}

/// The offset of a product of blocks is the sum, over the 256 levels of the block of the type
/// Q8K, of the products of level and the offset of the level's part of 32.
pub proof fn q4k_offset_is_that_of_its_parts(packed: Seq<u8>, block: Q8KLevels)
    requires
        block.wf(),
    ensures
        q4k_min_dot(packed, block.bsums@, 8) == sum_of(
            |e: int| q4k_min(packed, e / 32) * block.qs@[e],
            256,
        ),
{
    q4k_min_dot_is_a_sum(packed, block, 8);
}

/// How scales and offsets of six bits are packed: the first four of each fill the low six bits of
/// a byte; the low four bits of the others share a byte, the scale in its low half, and their
/// high two bits fill up the bytes of the first four.
pub proof fn packed_scales_are_unpacked(
    packed: Seq<u8>,
    scales: Seq<int>,
    mins: Seq<int>,
    part: int,
)
    requires
        forall|j: int| 0 <= j < 8 ==> 0 <= #[trigger] scales[j] < 64,
        forall|j: int| 0 <= j < 8 ==> 0 <= #[trigger] mins[j] < 64,
        0 <= part < 4,
        packed[part] == scales[part] + 64 * (scales[part + 4] / 16),
        packed[part + 4] == mins[part] + 64 * (mins[part + 4] / 16),
        packed[part + 8] == scales[part + 4] % 16 + 16 * (mins[part + 4] % 16),
    ensures
        q4k_scale(packed, part) == scales[part],
        q4k_scale(packed, part + 4) == scales[part + 4],
        q4k_min(packed, part) == mins[part],
        q4k_min(packed, part + 4) == mins[part + 4],
{
    assert(0 <= scales[part] < 64 && 0 <= scales[part + 4] < 64);
    assert(0 <= mins[part] < 64 && 0 <= mins[part + 4] < 64);
}

/// A block is read from its bytes in order: the factor, the offset or its factor, low byte first,
/// the packed scales if it has any, and the levels.
pub proof fn blocks_are_read_in_order(
    raw: Seq<u8>,
    i: int,
    small: RawQ4_1Block,
    large: RawQ4KBlock,
)
    requires
        0 <= i,
    ensures
        is_q4_1_block(raw, i, small) && 20 * i + 20 <= raw.len() ==> raw.subrange(
            20 * i,
            20 * i + 20,
        ) == seq![
            (small.d % 256) as u8,
            (small.d / 256) as u8,
            (small.m % 256) as u8,
            (small.m / 256) as u8,
        ] + small.qs@,
        is_q4k_block(raw, i, large) && 144 * i + 144 <= raw.len() ==> raw.subrange(
            144 * i,
            144 * i + 144,
        ) == seq![
            (large.d % 256) as u8,
            (large.d / 256) as u8,
            (large.dmin % 256) as u8,
            (large.dmin / 256) as u8,
        ] + large.scales@ + large.qs@,
        Q4_1_BLOCK_BYTES == 20,
        Q4K_BLOCK_BYTES == 144,
{
    if is_q4_1_block(raw, i, small) && 20 * i + 20 <= raw.len() {
        let bytes = raw.subrange(20 * i, 20 * i + 20);
        assert(bytes[0] == raw[20 * i] && bytes[1] == raw[20 * i + 1]);
        assert(bytes[2] == raw[20 * i + 2] && bytes[3] == raw[20 * i + 3]);
        assert(bytes =~= seq![
            (small.d % 256) as u8,
            (small.d / 256) as u8,
            (small.m % 256) as u8,
            (small.m / 256) as u8,
        ] + small.qs@);
    }
    if is_q4k_block(raw, i, large) && 144 * i + 144 <= raw.len() {
        let bytes = raw.subrange(144 * i, 144 * i + 144);
        assert(bytes[0] == raw[144 * i] && bytes[1] == raw[144 * i + 1]);
        assert(bytes[2] == raw[144 * i + 2] && bytes[3] == raw[144 * i + 3]);
        assert(bytes =~= seq![
            (large.d % 256) as u8,
            (large.d / 256) as u8,
            (large.dmin % 256) as u8,
            (large.dmin / 256) as u8,
        ] + large.scales@ + large.qs@);
    }
}

} // verus!
