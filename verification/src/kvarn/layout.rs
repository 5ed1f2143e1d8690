//! Byte layout of KVarN records.
//!
//! A record starts with one status byte. The packed codes follow, then the scales and zero
//! points as 16-bit floats.
use crate::arith::{ceil_div, div_ceil, is_power_of_two, power_of_two};
use vstd::prelude::*;

verus! {

/// Bits of one packed key code.
pub const KVARN_KEY_BITS: usize = 4;

/// Bits of one packed value code.
pub const KVARN_VALUE_BITS: usize = 2;

/// Tokens that one record holds.
pub const KVARN_GROUP: usize = 128;

/// Rounds of the balancing iteration.
pub const KVARN_SINKHORN_ITERS: usize = 16;

/// Status of a record whose rows are still in the tail store.
pub const STATUS_RAW: u8 = 0;

/// Status of a record that holds packed codes.
pub const STATUS_QUANTIZED: u8 = 1;

/// Position of the status byte.
pub const STATUS_OFFSET: usize = 0;

/// Position of the packed codes.
pub const PAYLOAD_OFFSET: usize = 1;

/// Why a KVarN layout is refused.
#[derive(Clone, Copy, Debug, PartialEq, Eq, Structural)]
pub enum KvarnLayoutError {
    /// The block size is not the group size.
    BlockSize { block_size: usize },
    /// The head dimension is not a power of two.
    HeadDimNotPowerOfTwo { head_dim: usize },
    /// The head dimension does not fill whole bytes of value codes.
    HeadDimNotPackable { head_dim: usize },
    /// No head dimension has records of this size.
    KeyRecordBytes { record_bytes: usize },
    /// No head dimension has records of this size.
    ValueRecordBytes { record_bytes: usize },
}

/// What is wrong with a head dimension and block size, the block size first.
pub open spec fn shape_fault(head_dim: usize, block_size: usize) -> Option<KvarnLayoutError> {
    if block_size != KVARN_GROUP {
        Some(KvarnLayoutError::BlockSize { block_size })
    } else if !is_power_of_two(head_dim as nat) {
        Some(KvarnLayoutError::HeadDimNotPowerOfTwo { head_dim })
    } else if head_dim % 4 != 0 {
        Some(KvarnLayoutError::HeadDimNotPackable { head_dim })
    } else {
        None
    }
}

/// Bytes of `rows` rows of `cols` codes of `bits` bits, each row filled up to whole bytes.
pub open spec fn packed_len(rows: int, cols: int, bits: int) -> int {
    rows * ceil_div(cols * bits, 8)
}

/// Bytes of a key record: status, codes, two scales per dimension and one per token.
pub open spec fn key_record_len(head_dim: int, block_size: int) -> int {
    1 + packed_len(head_dim, block_size, 4) + (2 * head_dim + block_size) * 2
}

/// Bytes of a value record: status, codes, one scale per dimension and two per token.
pub open spec fn value_record_len(head_dim: int, block_size: int) -> int {
    1 + packed_len(block_size, head_dim, 2) + (head_dim + 2 * block_size) * 2
}

/// Refuses every block size but the group size.
pub fn validate_block_size(block_size: usize) -> (valid: Result<(), KvarnLayoutError>)
    ensures
        valid == (if block_size != KVARN_GROUP {
            Err::<(), KvarnLayoutError>(KvarnLayoutError::BlockSize { block_size })
        } else {
            Ok::<(), KvarnLayoutError>(())
        }),
{
    if block_size != KVARN_GROUP {
        return Err(KvarnLayoutError::BlockSize { block_size });
    }
    Ok(())
}

/// Refuses head dimensions and block sizes that records cannot hold.
pub fn validate_shape(head_dim: usize, block_size: usize) -> (valid: Result<(), KvarnLayoutError>)
    ensures
        valid == match shape_fault(head_dim, block_size) {
            Some(fault) => Err::<(), KvarnLayoutError>(fault),
            None => Ok::<(), KvarnLayoutError>(()),
        },
{
    validate_block_size(block_size)?;
    if !power_of_two(head_dim) {
        return Err(KvarnLayoutError::HeadDimNotPowerOfTwo { head_dim });
    }
    if head_dim % (8 / KVARN_VALUE_BITS) != 0 {
        return Err(KvarnLayoutError::HeadDimNotPackable { head_dim });
    }
    Ok(())
}

/// Bytes of `rows` rows of `cols` codes of `bits` bits.
pub fn packed_bytes(rows: usize, cols: usize, bits: usize) -> (bytes: usize)
    requires
        cols * bits <= usize::MAX,
        packed_len(rows as int, cols as int, bits as int) <= usize::MAX,
    ensures
        bytes == packed_len(rows as int, cols as int, bits as int),
{
    rows * div_ceil(cols * bits, 8)
}

/// Bytes of the scales of a key record.
pub fn key_scale_bytes(head_dim: usize, block_size: usize) -> (bytes: usize)
    requires
        (2 * head_dim + block_size) * 2 <= usize::MAX,
    ensures
        bytes == (2 * head_dim + block_size) * 2,
{
    (2 * head_dim + block_size) * 2
}

/// Bytes of the scales of a value record.
pub fn value_scale_bytes(head_dim: usize, block_size: usize) -> (bytes: usize)
    requires
        (head_dim + 2 * block_size) * 2 <= usize::MAX,
    ensures
        bytes == (head_dim + 2 * block_size) * 2,
{
    (head_dim + 2 * block_size) * 2
}

/// With the group size as block size, key records grow by 68 bytes per dimension.
pub proof fn key_record_len_is_linear(head_dim: int)
    ensures
        packed_len(head_dim, 128, 4) == 64 * head_dim,
        key_record_len(head_dim, 128) == 257 + 68 * head_dim,
{
    assert(ceil_div(512, 8) == 64);
    assert(head_dim * 64 == 64 * head_dim);
}

/// With the group size as block size and dimensions that fill whole bytes, value records grow
/// by 34 bytes per dimension.
pub proof fn value_record_len_is_linear(head_dim: int)
    requires
        head_dim % 4 == 0,
    ensures
        packed_len(128, head_dim, 2) == 32 * head_dim,
        value_record_len(head_dim, 128) == 513 + 34 * head_dim,
{
    assert(ceil_div(head_dim * 2, 8) == head_dim / 4);
    assert(128 * (head_dim / 4) == 32 * head_dim);
}

/// Bytes of a key record.
pub fn key_record_bytes(head_dim: usize, block_size: usize) -> (bytes: Result<
    usize,
    KvarnLayoutError,
>)
    requires
        shape_fault(head_dim, block_size) is None ==> key_record_len(
            head_dim as int,
            block_size as int,
        ) <= usize::MAX,
    ensures
        match bytes {
            Ok(n) => shape_fault(head_dim, block_size) is None && n == key_record_len(
                head_dim as int,
                block_size as int,
            ),
            Err(fault) => shape_fault(head_dim, block_size) == Some(fault),
        },
{
    validate_shape(head_dim, block_size)?;
    proof {
        key_record_len_is_linear(head_dim as int);
    }
    Ok(
        PAYLOAD_OFFSET + packed_bytes(head_dim, block_size, KVARN_KEY_BITS) + key_scale_bytes(
            head_dim,
            block_size,
        ),
    )
}

/// Bytes of a value record.
pub fn value_record_bytes(head_dim: usize, block_size: usize) -> (bytes: Result<
    usize,
    KvarnLayoutError,
>)
    requires
        shape_fault(head_dim, block_size) is None ==> value_record_len(
            head_dim as int,
            block_size as int,
        ) <= usize::MAX,
    ensures
        match bytes {
            Ok(n) => shape_fault(head_dim, block_size) is None && n == value_record_len(
                head_dim as int,
                block_size as int,
            ),
            Err(fault) => shape_fault(head_dim, block_size) == Some(fault),
        },
{
    validate_shape(head_dim, block_size)?;
    proof {
        value_record_len_is_linear(head_dim as int);
    }
    Ok(
        PAYLOAD_OFFSET + packed_bytes(block_size, head_dim, KVARN_VALUE_BITS) + value_scale_bytes(
            head_dim,
            block_size,
        ),
    )
}

/// Where the parts of a key record start: codes, column scales, zero points, row scales.
pub fn key_offsets(head_dim: usize, block_size: usize) -> (offsets: (usize, usize, usize, usize))
    requires
        block_size * 4 <= usize::MAX,
        key_record_len(head_dim as int, block_size as int) <= usize::MAX,
    ensures
        offsets.0 == 1,
        offsets.1 == 1 + packed_len(head_dim as int, block_size as int, 4),
        offsets.2 == offsets.1 + 2 * head_dim,
        offsets.3 == offsets.2 + 2 * head_dim,
        offsets.3 + 2 * block_size == key_record_len(head_dim as int, block_size as int),
{
    proof {
        vstd::arithmetic::mul::lemma_mul_nonnegative(
            head_dim as int,
            ceil_div(block_size * 4, 8),
        );
    }
    let packed: usize = packed_bytes(head_dim, block_size, KVARN_KEY_BITS);
    let s_col: usize = PAYLOAD_OFFSET + packed;
    let zp: usize = s_col + head_dim * 2;
    let s_row: usize = zp + head_dim * 2;
    (PAYLOAD_OFFSET, s_col, zp, s_row)
}

/// Where the parts of a value record start: codes, column scales, row scales, zero points.
pub fn value_offsets(head_dim: usize, block_size: usize) -> (offsets: (usize, usize, usize, usize))
    requires
        head_dim * 2 <= usize::MAX,
        value_record_len(head_dim as int, block_size as int) <= usize::MAX,
    ensures
        offsets.0 == 1,
        offsets.1 == 1 + packed_len(block_size as int, head_dim as int, 2),
        offsets.2 == offsets.1 + 2 * head_dim,
        offsets.3 == offsets.2 + 2 * block_size,
        offsets.3 + 2 * block_size == value_record_len(head_dim as int, block_size as int),
{
    proof {
        vstd::arithmetic::mul::lemma_mul_nonnegative(
            block_size as int,
            ceil_div(head_dim * 2, 8),
        );
    }
    let packed: usize = packed_bytes(block_size, head_dim, KVARN_VALUE_BITS);
    let s_col: usize = PAYLOAD_OFFSET + packed;
    let s_row: usize = s_col + head_dim * 2;
    let zp: usize = s_row + block_size * 2;
    (PAYLOAD_OFFSET, s_col, s_row, zp)
}

/// The number of dimensions by which key records have this size, whatever it is.
pub open spec fn key_dims_of(record_bytes: int) -> Option<int> {
    if record_bytes >= 257 && (record_bytes - 257) % 68 == 0 {
        Some((record_bytes - 257) / 68)
    } else {
        None
    }
}

/// The number of dimensions by which value records have this size, whatever it is.
pub open spec fn value_dims_of(record_bytes: int) -> Option<int> {
    if record_bytes >= 513 && (record_bytes - 513) % 34 == 0 {
        Some((record_bytes - 513) / 34)
    } else {
        None
    }
}

/// The dimensions that a key record of this size would hold; dimensions that no record may
/// have are given back too.
pub fn k_head_dim_from_record_bytes(record_bytes: usize) -> (dims: Option<usize>)
    ensures
        match dims {
            Some(n) => key_dims_of(record_bytes as int) == Some(n as int),
            None => key_dims_of(record_bytes as int) is None,
        },
{
    let fixed: usize = 1 + 2 * KVARN_GROUP;
    let per_dim: usize = KVARN_GROUP * KVARN_KEY_BITS / 8 + 4;
    if record_bytes < fixed || (record_bytes - fixed) % per_dim != 0 {
        return None;
    }
    Some((record_bytes - fixed) / per_dim)
}

/// The dimensions that a value record of this size would hold; dimensions that no record may
/// have are given back too.
pub fn v_head_dim_from_record_bytes(record_bytes: usize) -> (dims: Option<usize>)
    ensures
        match dims {
            Some(n) => value_dims_of(record_bytes as int) == Some(n as int),
            None => value_dims_of(record_bytes as int) is None,
        },
{
    let fixed: usize = 1 + 4 * KVARN_GROUP;
    let per_dim: usize = KVARN_GROUP * KVARN_VALUE_BITS / 8 + 2;
    if record_bytes < fixed || (record_bytes - fixed) % per_dim != 0 {
        return None;
    }
    Some((record_bytes - fixed) / per_dim)
}

/// What is wrong with key records of a size, for blocks of the group size.
pub open spec fn key_record_fault(record_bytes: usize) -> Option<KvarnLayoutError> {
    match key_dims_of(record_bytes as int) {
        None => Some(KvarnLayoutError::KeyRecordBytes { record_bytes }),
        Some(n) => shape_fault(n as usize, KVARN_GROUP),
    }
}

/// What is wrong with value records of a size, for blocks of the group size.
pub open spec fn value_record_fault(record_bytes: usize) -> Option<KvarnLayoutError> {
    match value_dims_of(record_bytes as int) {
        None => Some(KvarnLayoutError::ValueRecordBytes { record_bytes }),
        Some(n) => shape_fault(n as usize, KVARN_GROUP),
    }
}

/// The head dimension whose key records have this size.
pub fn key_head_dim_from_record_bytes(record_bytes: usize, block_size: usize) -> (dims: Result<
    usize,
    KvarnLayoutError,
>)
    ensures
        match dims {
            Ok(n) => shape_fault(n, block_size) is None && record_bytes == key_record_len(
                n as int,
                block_size as int,
            ),
            Err(fault) => if block_size != KVARN_GROUP {
                fault == (KvarnLayoutError::BlockSize { block_size })
            } else {
                match key_dims_of(record_bytes as int) {
                    None => fault == (KvarnLayoutError::KeyRecordBytes { record_bytes }),
                    Some(n) => shape_fault(n as usize, block_size) == Some(fault),
                }
            },
        },
{
    validate_block_size(block_size)?;
    let head_dim: usize = match k_head_dim_from_record_bytes(record_bytes) {
        Some(head_dim) => head_dim,
        None => {
            return Err(KvarnLayoutError::KeyRecordBytes { record_bytes });
        },
    };
    validate_shape(head_dim, block_size)?;
    proof {
        key_record_len_is_linear(head_dim as int);
    }
    Ok(head_dim)
}

/// The head dimension whose value records have this size.
pub fn value_head_dim_from_record_bytes(record_bytes: usize, block_size: usize) -> (dims: Result<
    usize,
    KvarnLayoutError,
>)
    ensures
        match dims {
            Ok(n) => shape_fault(n, block_size) is None && record_bytes == value_record_len(
                n as int,
                block_size as int,
            ),
            Err(fault) => if block_size != KVARN_GROUP {
                fault == (KvarnLayoutError::BlockSize { block_size })
            } else {
                match value_dims_of(record_bytes as int) {
                    None => fault == (KvarnLayoutError::ValueRecordBytes { record_bytes }),
                    Some(n) => shape_fault(n as usize, block_size) == Some(fault),
                }
            },
        },
{
    validate_block_size(block_size)?;
    let head_dim: usize = match v_head_dim_from_record_bytes(record_bytes) {
        Some(head_dim) => head_dim,
        None => {
            return Err(KvarnLayoutError::ValueRecordBytes { record_bytes });
        },
    };
    validate_shape(head_dim, block_size)?;
    proof {
        value_record_len_is_linear(head_dim as int);
    }
    Ok(head_dim)
}

/// Where the record of a block and head starts.
pub open spec fn record_start(block: int, head: int, num_heads: int, record_bytes: int) -> int {
    (block * num_heads + head) * record_bytes
}

/// Where the record of a block and head starts.
pub fn record_offset(block: usize, head: usize, num_heads: usize, record_bytes: usize) -> (offset:
    usize)
    requires
        block * num_heads + head <= usize::MAX,
        record_start(block as int, head as int, num_heads as int, record_bytes as int)
            <= usize::MAX,
    ensures
        offset == record_start(block as int, head as int, num_heads as int, record_bytes as int),
{
    proof {
        vstd::arithmetic::mul::lemma_mul_nonnegative(block as int, num_heads as int);
    }
    (block * num_heads + head) * record_bytes
}

/// The size of a key record tells the head dimension: what `key_record_bytes` gives for a
/// valid head dimension, `key_head_dim_from_record_bytes` turns back into it.
pub proof fn key_record_size_tells_head_dim(head_dim: usize)
    requires
        shape_fault(head_dim, KVARN_GROUP) is None,
    ensures
        key_dims_of(key_record_len(head_dim as int, KVARN_GROUP as int)) == Some(head_dim as int),
{
    key_record_len_is_linear(head_dim as int);
}

/// The size of a value record tells the head dimension: what `value_record_bytes` gives for a
/// valid head dimension, `value_head_dim_from_record_bytes` turns back into it.
pub proof fn value_record_size_tells_head_dim(head_dim: usize)
    requires
        shape_fault(head_dim, KVARN_GROUP) is None,
    ensures
        value_dims_of(value_record_len(head_dim as int, KVARN_GROUP as int)) == Some(
            head_dim as int,
        ),
{
    value_record_len_is_linear(head_dim as int);
}

/// The records of a cache lie inside it, one after the other, in the order of their blocks and,
/// within a block, of their heads.
pub proof fn records_fill_the_cache(
    num_blocks: int,
    num_heads: int,
    record_bytes: int,
    block: int,
    head: int,
)
    requires
        0 <= block < num_blocks,
        0 <= head < num_heads,
        0 <= record_bytes,
    ensures
        0 <= record_start(block, head, num_heads, record_bytes),
        record_start(block, head, num_heads, record_bytes) + record_bytes <= num_blocks * num_heads
            * record_bytes,
        record_start(block, head + 1, num_heads, record_bytes) == record_start(
            block,
            head,
            num_heads,
            record_bytes,
        ) + record_bytes,
        record_start(block + 1, 0, num_heads, record_bytes) == record_start(
            block,
            num_heads,
            num_heads,
            record_bytes,
        ),
{
    assert(0 <= (block * num_heads + head) * record_bytes) by (nonlinear_arith)
        requires
            0 <= block,
            0 <= head < num_heads,
            0 <= record_bytes,
    ;
    assert((block * num_heads + head) + 1 <= num_blocks * num_heads) by (nonlinear_arith)
        requires
            0 <= block < num_blocks,
            0 <= head < num_heads,
    ;
    let index = block * num_heads + head;
    assert((index + 1) * record_bytes == index * record_bytes + record_bytes)
        by (nonlinear_arith);
    assert((index + 1) * record_bytes <= (num_blocks * num_heads) * record_bytes)
        by (nonlinear_arith)
        requires
            index + 1 <= num_blocks * num_heads,
            0 <= record_bytes,
    ;
    assert((block + 1) * num_heads == block * num_heads + num_heads) by (nonlinear_arith);
}

/// The records of two different places of a cache do not overlap.
pub proof fn records_are_disjoint(
    num_heads: int,
    record_bytes: int,
    block_a: int,
    head_a: int,
    block_b: int,
    head_b: int,
)
    requires
        0 <= block_a,
        0 <= block_b,
        0 <= head_a < num_heads,
        0 <= head_b < num_heads,
        0 <= record_bytes,
        (block_a, head_a) != (block_b, head_b),
    ensures
        ({
            let a = record_start(block_a, head_a, num_heads, record_bytes);
            let b = record_start(block_b, head_b, num_heads, record_bytes);
            a + record_bytes <= b || b + record_bytes <= a
        }),
{
    let a = block_a * num_heads + head_a;
    let b = block_b * num_heads + head_b;
    assert(a != b) by {
        if a == b {
            assert(block_a == block_b) by (nonlinear_arith)
                requires
                    block_a * num_heads + head_a == block_b * num_heads + head_b,
                    0 <= head_a < num_heads,
                    0 <= head_b < num_heads,
            ;
        }
    }
    if a < b {
        assert(a * record_bytes + record_bytes <= b * record_bytes) by (nonlinear_arith)
            requires
                a + 1 <= b,
                0 <= record_bytes,
        ;
    } else {
        assert(b * record_bytes + record_bytes <= a * record_bytes) by (nonlinear_arith)
            requires
                b + 1 <= a,
                0 <= record_bytes,
        ;
    }
}

/// Records are had exactly by blocks of 128 tokens and head dimensions that are powers of two of
/// at least four; a wrong block size is named before a wrong dimension.
pub proof fn shapes_that_have_records(head_dim: usize, block_size: usize)
    ensures
        shape_fault(head_dim, block_size) is None <==> block_size == 128 && is_power_of_two(
            head_dim as nat,
        ) && head_dim >= 4,
        block_size != 128 <==> shape_fault(head_dim, block_size) == Some(
            KvarnLayoutError::BlockSize { block_size },
        ),
        block_size == 128 ==> (!is_power_of_two(head_dim as nat) <==> shape_fault(
            head_dim,
            block_size,
        ) == Some(KvarnLayoutError::HeadDimNotPowerOfTwo { head_dim })),
{
    let d = head_dim as nat;
    if is_power_of_two(d) && d >= 4 {
        assert(is_power_of_two(d / 2));
    }
    if is_power_of_two(d) && d < 4 {
        assert(d % 4 != 0);
    }
}

/// A size is taken for the dimension whose records have it, and for no other.
pub proof fn record_size_is_taken_for_its_dimension(record_bytes: int, dims: int)
    ensures
        dims >= 0 ==> (key_dims_of(record_bytes) == Some(dims) <==> record_bytes == 257 + 68
            * dims),
        dims >= 0 ==> (value_dims_of(record_bytes) == Some(dims) <==> record_bytes == 513 + 34
            * dims),
        key_dims_of(record_bytes) is Some ==> key_dims_of(record_bytes)->0 >= 0,
        value_dims_of(record_bytes) is Some ==> value_dims_of(record_bytes)->0 >= 0,
{
}

/// Sizes of records are refused exactly if no dimension that has records has them.
pub proof fn record_sizes_that_are_taken(record_bytes: usize, dims: usize)
    ensures
        record_bytes == 257 + 68 * dims ==> key_record_fault(record_bytes) == shape_fault(
            dims,
            128,
        ),
        record_bytes == 513 + 34 * dims ==> value_record_fault(record_bytes) == shape_fault(
            dims,
            128,
        ),
        key_record_fault(record_bytes) is None ==> record_bytes == 257 + 68 * (
        key_dims_of(record_bytes as int)->0) && shape_fault(
            key_dims_of(record_bytes as int)->0 as usize,
            128,
        ) is None,
        value_record_fault(record_bytes) is None ==> record_bytes == 513 + 34 * (
        value_dims_of(record_bytes as int)->0) && shape_fault(
            value_dims_of(record_bytes as int)->0 as usize,
            128,
        ) is None,
{
    record_size_is_taken_for_its_dimension(record_bytes as int, dims as int);
}

/// Codes are packed row by row, and no row has a byte more than its codes take: keys have a row
/// of 4-bit codes for each dimension, values a row of 2-bit codes for each token. The rest of a
/// record are a status and 16-bit floats.
pub proof fn records_have_no_spare_bytes(head_dim: int, block_size: int)
    requires
        head_dim >= 0,
        block_size >= 0,
    ensures
        2 * (key_record_len(head_dim, block_size) - 1 - 4 * head_dim - 2 * block_size) == head_dim
            * (block_size + block_size % 2),
        4 * (value_record_len(head_dim, block_size) - 1 - 2 * head_dim - 4 * block_size)
            == block_size * (head_dim + (4 - head_dim % 4) % 4),
        KVARN_KEY_BITS == 4,
        KVARN_VALUE_BITS == 2,
        KVARN_GROUP == 128,
        STATUS_RAW == 0,
        STATUS_QUANTIZED == 1,
        STATUS_OFFSET == 0,
        PAYLOAD_OFFSET == 1,
{
    let key_row = ceil_div(block_size * 4, 8);
    let value_row = ceil_div(head_dim * 2, 8);
    assert(2 * key_row == block_size + block_size % 2);
    assert(4 * value_row == head_dim + (4 - head_dim % 4) % 4);
    assert(2 * (head_dim * key_row) == head_dim * (2 * key_row)) by (nonlinear_arith);
    assert(4 * (block_size * value_row) == block_size * (4 * value_row)) by (nonlinear_arith);
}

/// Records stand one after the other, head by head and then block by block.
pub proof fn records_stand_head_by_head(
    block: int,
    head: int,
    num_heads: int,
    record_bytes: int,
)
    ensures
        record_start(0, 0, num_heads, record_bytes) == 0,
        record_start(block, head + 1, num_heads, record_bytes) == record_start(
            block,
            head,
            num_heads,
            record_bytes,
        ) + record_bytes,
        record_start(block + 1, 0, num_heads, record_bytes) == record_start(
            block,
            num_heads,
            num_heads,
            record_bytes,
        ),
{
    assert((0 * num_heads + 0) * record_bytes == 0) by (nonlinear_arith);
    assert((block * num_heads + (head + 1)) * record_bytes == (block * num_heads + head)
        * record_bytes + record_bytes) by (nonlinear_arith);
    assert((block + 1) * num_heads == block * num_heads + num_heads) by (nonlinear_arith);
}

} // verus!
