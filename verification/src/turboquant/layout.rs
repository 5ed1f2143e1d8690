//! Byte layout of TurboQuant rows and caches.
//!
//! A row starts with two 32-bit floats, the norm of the vector and the norm of what the codes
//! leave over. The three-bit codes follow, then one sign bit per dimension.
use crate::arith::{ceil_div, div_ceil, is_power_of_two, power_of_two};
use vstd::prelude::*;

verus! {

/// Bits that a dimension takes in all.
pub const TURBOQUANT_BITS: usize = 4;

/// Bits of one code.
pub const MSE_BITS: usize = 3;

/// Bytes of one norm.
pub const NORM_BYTES: usize = 4;

/// Why a TurboQuant layout is refused.
#[derive(Clone, Copy, Debug, PartialEq, Eq, Structural)]
pub enum TurboLayoutError {
    /// The head dimension is not a power of two.
    HeadDimNotPowerOfTwo { head_dim: usize },
    /// A row has no room for its norms.
    RowTooShort { row_bytes: usize },
    /// No head dimension has rows of this size.
    RowBytes { row_bytes: usize },
}

/// Bytes of the codes of a row.
pub open spec fn code_len(head_dim: int) -> int {
    ceil_div(head_dim * 3, 8)
}

/// Bytes of the signs of a row.
pub open spec fn sign_len(head_dim: int) -> int {
    ceil_div(head_dim, 8)
}

/// Bytes of a row.
pub open spec fn row_len(head_dim: int) -> int {
    8 + code_len(head_dim) + sign_len(head_dim)
}

/// Bytes of a row of any dimension.
pub fn row_bytes_unchecked(head_dim: usize) -> (bytes: usize)
    requires
        head_dim * 3 <= usize::MAX,
        row_len(head_dim as int) <= usize::MAX,
    ensures
        bytes == row_len(head_dim as int),
{
    2 * NORM_BYTES + div_ceil(head_dim * MSE_BITS, 8) + div_ceil(head_dim, 8)
}

/// Bytes of a row; refuses dimensions that are not a power of two.
pub fn row_bytes(head_dim: usize) -> (bytes: Result<usize, TurboLayoutError>)
    requires
        is_power_of_two(head_dim as nat) ==> head_dim * 3 <= usize::MAX && row_len(
            head_dim as int,
        ) <= usize::MAX,
    ensures
        match bytes {
            Ok(n) => is_power_of_two(head_dim as nat) && n == row_len(head_dim as int),
            Err(fault) => !is_power_of_two(head_dim as nat) && fault
                == (TurboLayoutError::HeadDimNotPowerOfTwo { head_dim }),
        },
{
    if !power_of_two(head_dim) {
        return Err(TurboLayoutError::HeadDimNotPowerOfTwo { head_dim });
    }
    Ok(row_bytes_unchecked(head_dim))
}

/// What is wrong with rows of this size, at four bits per dimension.
pub open spec fn row_size_fault(row_bytes_len: usize) -> Option<TurboLayoutError> {
    let dim = 2 * (row_bytes_len - 8);
    if row_bytes_len < 4 {
        Some(TurboLayoutError::RowTooShort { row_bytes: row_bytes_len })
    } else if !is_power_of_two(dim as nat) {
        Some(TurboLayoutError::HeadDimNotPowerOfTwo { head_dim: dim as usize })
    } else if row_len(dim) != row_bytes_len {
        Some(TurboLayoutError::RowBytes { row_bytes: row_bytes_len })
    } else {
        None
    }
}

/// Whether rows of this size are too short for one norm or have room for both, and can be counted
/// in bits.
pub open spec fn row_size_is_readable(row_bytes_len: usize) -> bool {
    !(4 <= row_bytes_len < 8) && row_bytes_len * 8 <= usize::MAX
}

/// The head dimension that four bits per dimension give for rows of this size.
pub fn head_dim_from_row_bytes(row_bytes_len: usize) -> (dims: Result<usize, TurboLayoutError>)
    requires
        row_size_is_readable(row_bytes_len),
    ensures
        match dims {
            Ok(n) => {
                &&& row_size_fault(row_bytes_len) is None
                &&& row_bytes_len >= 8
                &&& n == 2 * (row_bytes_len - 8)
            },
            Err(fault) => row_size_fault(row_bytes_len) == Some(fault),
        },
{
    if row_bytes_len < NORM_BYTES {
        return Err(TurboLayoutError::RowTooShort { row_bytes: row_bytes_len });
    }
    let packed_bytes: usize = row_bytes_len - 2 * NORM_BYTES;
    let dim: usize = (packed_bytes * 8) / TURBOQUANT_BITS;
    assert(dim == 2 * packed_bytes);
    let bytes: usize = row_bytes(dim)?;
    if bytes != row_bytes_len {
        return Err(TurboLayoutError::RowBytes { row_bytes: row_bytes_len });
    }
    Ok(dim)
}

/// The powers of two below `limit` have rows of another size.
pub open spec fn no_dim_below(row_bytes_len: int, limit: int) -> bool {
    forall|d: nat|
        #[trigger] is_power_of_two(d) && d < limit ==> row_len(d as int) != row_bytes_len
}

proof fn next_power_of_two(n: nat, d: nat)
    requires
        is_power_of_two(n),
        is_power_of_two(d),
        n < d,
    ensures
        2 * n <= d,
    decreases n,
{
    if n > 1 {
        next_power_of_two(n / 2, d / 2);
    }
}

/// The smallest power of two whose rows have this size.
pub fn smallest_head_dim_from_row_bytes(row_bytes_len: usize) -> (dims: Result<
    usize,
    TurboLayoutError,
>)
    requires
        row_bytes_len * 24 <= usize::MAX,
    ensures
        match dims {
            Ok(n) => {
                &&& row_bytes_len >= 8
                &&& is_power_of_two(n as nat)
                &&& row_len(n as int) == row_bytes_len
                &&& no_dim_below(row_bytes_len as int, n as int)
            },
            Err(TurboLayoutError::RowTooShort { row_bytes: n }) => row_bytes_len < 8 && n
                == row_bytes_len,
            Err(TurboLayoutError::RowBytes { row_bytes: n }) => {
                &&& row_bytes_len >= 8
                &&& n == row_bytes_len
                &&& forall|d: nat| #[trigger]
                    is_power_of_two(d) ==> row_len(d as int) != row_bytes_len
            },
            Err(_) => false,
        },
{
    if row_bytes_len < 2 * NORM_BYTES {
        return Err(TurboLayoutError::RowTooShort { row_bytes: row_bytes_len });
    }
    let packed_bytes: usize = row_bytes_len - 2 * NORM_BYTES;
    let max_dim: usize = packed_bytes * 8;
    let mut dim: usize = 1;
    while dim <= max_dim
        invariant
            row_bytes_len * 24 <= usize::MAX,
            8 <= row_bytes_len,
            max_dim == 8 * (row_bytes_len - 8),
            is_power_of_two(dim as nat),
            no_dim_below(row_bytes_len as int, dim as int),
        decreases 2 * max_dim + 1 - dim,
    {
        let expected: usize = row_bytes_unchecked(dim);
        if expected == row_bytes_len {
            return Ok(dim);
        }
        proof {
            assert forall|d: nat|
                #[trigger] is_power_of_two(d) && d < 2 * dim implies row_len(d as int)
                != row_bytes_len by {
                if d > dim {
                    next_power_of_two(dim as nat, d);
                }
            }
        }
        dim = dim * 2;
    }
    assert forall|d: nat| #[trigger] is_power_of_two(d) implies row_len(d as int)
        != row_bytes_len by {
        if d >= dim {
            assert(sign_len(d as int) * 8 >= d);
        }
    }
    Err(TurboLayoutError::RowBytes { row_bytes: row_bytes_len })
}

/// With eight dimensions or more, a dimension takes half a byte.
pub proof fn row_len_is_linear(head_dim: int)
    requires
        head_dim % 8 == 0,
    ensures
        row_len(head_dim) == 8 + head_dim / 2,
{
}

/// The size of a row tells the head dimension, for every power of two from eight on.
pub proof fn row_size_tells_head_dim(head_dim: nat)
    requires
        is_power_of_two(head_dim),
        head_dim >= 8,
    ensures
        row_len(head_dim as int) == 8 + head_dim / 2,
        2 * (row_len(head_dim as int) - 8) == head_dim,
        no_dim_below(row_len(head_dim as int), head_dim as int),
{
    assert(head_dim % 8 == 0) by {
        assert(is_power_of_two(head_dim / 2));
        assert(is_power_of_two(head_dim / 2 / 2));
    }
    row_len_is_linear(head_dim as int);
    assert forall|d: nat| #[trigger] is_power_of_two(d) && d < head_dim implies row_len(d as int)
        != row_len(head_dim as int) by {
        next_power_of_two(d, head_dim);
        if d < 8 {
            assert(row_len(d as int) <= 11) by {
                assert(d == 1 || d == 2 || d == 4) by {
                    if d == 3 || d == 5 || d == 7 || d == 0 {
                        assert(!is_power_of_two(d));
                    }
                    if d == 6 {
                        assert(!is_power_of_two(3));
                        assert(!is_power_of_two(d));
                    }
                }
            }
        } else {
            assert(d % 8 == 0) by {
                assert(is_power_of_two(d / 2));
                assert(is_power_of_two(d / 2 / 2));
            }
            row_len_is_linear(d as int);
        }
    }
}

/// Where a row of a cache starts.
pub open spec fn row_start(
    block: int,
    head: int,
    block_offset: int,
    num_heads: int,
    block_size: int,
    row_bytes: int,
) -> int {
    ((block * num_heads + head) * block_size + block_offset) * row_bytes
}

/// A row lies inside its cache.
pub proof fn row_is_inside(
    block: int,
    head: int,
    block_offset: int,
    num_blocks: int,
    num_heads: int,
    block_size: int,
    row_bytes: int,
)
    requires
        0 <= block < num_blocks,
        0 <= head < num_heads,
        0 <= block_offset < block_size,
        0 <= row_bytes,
    ensures
        0 <= block * num_heads + head < num_blocks * num_heads,
        0 <= (block * num_heads + head) * block_size + block_offset < num_blocks * num_heads
            * block_size,
        0 <= row_start(block, head, block_offset, num_heads, block_size, row_bytes),
        row_start(block, head, block_offset, num_heads, block_size, row_bytes) + row_bytes
            <= num_blocks * num_heads * block_size * row_bytes,
{
    let place = block * num_heads + head;
    assert(0 <= place && place + 1 <= num_blocks * num_heads) by (nonlinear_arith)
        requires
            place == block * num_heads + head,
            0 <= block < num_blocks,
            0 <= head < num_heads,
    ;
    let places = num_blocks * num_heads;
    let row = place * block_size + block_offset;
    assert(0 <= row && row + 1 <= places * block_size) by (nonlinear_arith)
        requires
            row == place * block_size + block_offset,
            0 <= place,
            place + 1 <= places,
            0 <= block_offset < block_size,
    ;
    let rows = places * block_size;
    assert(0 <= row * row_bytes && row * row_bytes + row_bytes <= rows * row_bytes)
        by (nonlinear_arith)
        requires
            0 <= row,
            row + 1 <= rows,
            0 <= row_bytes,
    ;
}

/// The rows of two different places of a cache do not overlap.
pub proof fn rows_are_disjoint(
    num_heads: int,
    block_size: int,
    row_bytes: int,
    a: (int, int, int),
    b: (int, int, int),
)
    requires
        0 <= a.0,
        0 <= b.0,
        0 <= a.1 < num_heads,
        0 <= b.1 < num_heads,
        0 <= a.2 < block_size,
        0 <= b.2 < block_size,
        0 <= row_bytes,
        a != b,
    ensures
        ({
            let x = row_start(a.0, a.1, a.2, num_heads, block_size, row_bytes);
            let y = row_start(b.0, b.1, b.2, num_heads, block_size, row_bytes);
            x + row_bytes <= y || y + row_bytes <= x
        }),
{
    let place_a = a.0 * num_heads + a.1;
    let place_b = b.0 * num_heads + b.1;
    let row_a = place_a * block_size + a.2;
    let row_b = place_b * block_size + b.2;
    assert(row_a != row_b) by {
        if row_a == row_b {
            assert(place_a == place_b) by (nonlinear_arith)
                requires
                    place_a * block_size + a.2 == place_b * block_size + b.2,
                    0 <= a.2 < block_size,
                    0 <= b.2 < block_size,
            ;
            assert(a.0 == b.0) by (nonlinear_arith)
                requires
                    a.0 * num_heads + a.1 == b.0 * num_heads + b.1,
                    0 <= a.1 < num_heads,
                    0 <= b.1 < num_heads,
            ;
        }
    }
    if row_a < row_b {
        assert(row_a * row_bytes + row_bytes <= row_b * row_bytes) by (nonlinear_arith)
            requires
                row_a + 1 <= row_b,
                0 <= row_bytes,
        ;
    } else {
        assert(row_b * row_bytes + row_bytes <= row_a * row_bytes) by (nonlinear_arith)
            requires
                row_b + 1 <= row_a,
                0 <= row_bytes,
        ;
    }
}

/// Where a row of a cache starts.
pub fn row_offset(
    block: usize,
    head: usize,
    block_offset: usize,
    num_heads: usize,
    block_size: usize,
    row_bytes: usize,
) -> (offset: usize)
    requires
        block * num_heads + head <= usize::MAX,
        (block * num_heads + head) * block_size + block_offset <= usize::MAX,
        row_start(
            block as int,
            head as int,
            block_offset as int,
            num_heads as int,
            block_size as int,
            row_bytes as int,
        ) <= usize::MAX,
    ensures
        offset == row_start(
            block as int,
            head as int,
            block_offset as int,
            num_heads as int,
            block_size as int,
            row_bytes as int,
        ),
{
    proof {
        vstd::arithmetic::mul::lemma_mul_nonnegative(block as int, num_heads as int);
        vstd::arithmetic::mul::lemma_mul_nonnegative(
            block * num_heads + head,
            block_size as int,
        );
    }
    ((block * num_heads + head) * block_size + block_offset) * row_bytes
}

/// Where rows of a cache stand: the first row of all at its beginning, the rows of a head one
/// after the other, the heads of a block one after the other, and then the next block.
pub proof fn rows_stand_token_by_token(
    block: int,
    head: int,
    block_offset: int,
    num_heads: int,
    block_size: int,
    row_bytes: int,
)
    ensures
        row_start(0, 0, 0, num_heads, block_size, row_bytes) == 0,
        row_start(block, head, block_offset + 1, num_heads, block_size, row_bytes) == row_start(
            block,
            head,
            block_offset,
            num_heads,
            block_size,
            row_bytes,
        ) + row_bytes,
        row_start(block, head + 1, 0, num_heads, block_size, row_bytes) == row_start(
            block,
            head,
            block_size,
            num_heads,
            block_size,
            row_bytes,
        ),
        row_start(block + 1, 0, block_offset, num_heads, block_size, row_bytes) == row_start(
            block,
            num_heads,
            block_offset,
            num_heads,
            block_size,
            row_bytes,
        ),
{
    let place = block * num_heads + head;
    assert(((0 * num_heads + 0) * block_size + 0) * row_bytes == 0) by (nonlinear_arith);
    assert((place * block_size + (block_offset + 1)) * row_bytes == (place * block_size
        + block_offset) * row_bytes + row_bytes) by (nonlinear_arith);
    assert((place + 1) * block_size == place * block_size + block_size) by (nonlinear_arith);
    assert((block + 1) * num_heads == block * num_heads + num_heads) by (nonlinear_arith);
}

/// A row has two norms of four bytes each, three bits for the code and one for the sign of each
/// dimension, and no byte more than these take.
pub proof fn rows_have_no_spare_bytes(head_dim: int)
    requires
        head_dim >= 0,
    ensures
        3 * head_dim <= 8 * code_len(head_dim) < 3 * head_dim + 8,
        head_dim <= 8 * sign_len(head_dim) < head_dim + 8,
        row_len(head_dim) == 4 + 4 + code_len(head_dim) + sign_len(head_dim),
        MSE_BITS == 3,
        NORM_BYTES == 4,
        TURBOQUANT_BITS == 4,
{
}

/// The size of the rows of a dimension is taken for that dimension, for every power of two from
/// eight on; whatever size is taken is that of the rows of its dimension.
pub proof fn row_size_is_taken_for_its_dimension(head_dim: nat, row_bytes: usize)
    ensures
        is_power_of_two(head_dim) && head_dim >= 8 && row_bytes == row_len(head_dim as int)
            ==> row_size_fault(row_bytes) is None && 2 * (row_bytes - 8) == head_dim,
        row_size_fault(row_bytes) is None ==> is_power_of_two((2 * (row_bytes - 8)) as nat)
            && row_len(2 * (row_bytes - 8)) == row_bytes,
        row_bytes < 4 <==> row_size_fault(row_bytes) == Some(
            TurboLayoutError::RowTooShort { row_bytes },
        ),
{
    if is_power_of_two(head_dim) && head_dim >= 8 {
        row_size_tells_head_dim(head_dim);
    }
}

} // verus!
