//! TurboQuant rows and the cache that holds them.
use crate::arith::{div_ceil, is_power_of_two};
use crate::bytes::{copy_range, splice, spliced, spliced_reads_back};
use crate::dtype::DType;
use crate::float_bits::{finite, is_finite, is_zero, le_word, read_word, word_at, zero};
use crate::tensor::TensorDesc;
use crate::turboquant::bits::{
    bit_at, byte_bit, equal_bits_equal_words, is_field, push_bits, word_bit, BitReader,
};
use crate::turboquant::layout::{
    code_len, head_dim_from_row_bytes, row_bytes, row_is_inside, row_len, row_offset,
    row_size_fault, row_size_is_readable, row_start, rows_are_disjoint, sign_len, TurboLayoutError,
    MSE_BITS, NORM_BYTES,
};
use vstd::prelude::*;

verus! {

/// Why a TurboQuant cache operation is refused.
#[derive(Clone, Copy, Debug, PartialEq, Eq, Structural)]
pub enum TurboError {
    /// A cache is not a rank-four tensor of bytes.
    NotTurboCache,
    /// The keys or values do not have rank three.
    InputRank,
    /// Keys and values differ in tokens or heads.
    InputMismatch,
    /// The caches differ in blocks, heads or block size, or have other heads than the input.
    CacheMismatch,
    /// The head dimension or row size has no layout.
    Layout(TurboLayoutError),
    /// The rows of the caches have another size than the input asks for.
    RowSize { key: usize, value: usize },
    /// A row has another length than its dimension asks for.
    RowLength { got: usize, expected: usize },
    /// There are not as many slots as tokens.
    SlotCount { slots: usize, tokens: usize },
}

/// Whether a norm can scale anything: it is neither zero nor infinite nor a NaN.
pub open spec fn is_usable(norm: u32) -> bool {
    !is_zero(norm) && is_finite(norm)
}

/// Whether a norm can scale anything.
pub fn usable(norm: u32) -> (yes: bool)
    ensures
        yes == is_usable(norm),
{
    !zero(norm) && finite(norm)
}

/// The hash from which the sign of a dimension is taken.
pub open spec fn sign_hash(index: u32) -> u32 {
    let a = index.wrapping_add(0x9E3779B9u32);
    let b = (a ^ (a >> 15u32)).wrapping_mul(0x85EBCA6Bu32);
    let c = (b ^ (b >> 13u32)).wrapping_mul(0xC2B2AE35u32);
    c ^ (c >> 16u32)
}

/// Whether the sign of a dimension is minus. Only the low 32 bits of the index count.
pub fn deterministic_sign_is_negative(index: usize) -> (negative: bool)
    ensures
        negative == (sign_hash(index as u32) & 1u32 != 0u32),
{
    let a: u32 = (index as u32).wrapping_add(0x9E3779B9u32);
    let b: u32 = (a ^ (a >> 15u32)).wrapping_mul(0x85EBCA6Bu32);
    let c: u32 = (b ^ (b >> 13u32)).wrapping_mul(0xC2B2AE35u32);
    (c ^ (c >> 16u32)) & 1u32 != 0u32
}

/// The bytes hold the low three bits of each code, one after the other, and nothing else.
pub open spec fn holds_codes(bytes: Seq<u8>, codes: Seq<u32>) -> bool {
    forall|pos: int|
        0 <= pos < 8 * bytes.len() ==> #[trigger] bit_at(bytes, pos) == (pos < 3 * codes.len()
            && word_bit(codes[pos / 3], (pos % 3) as u32))
}

/// The bytes hold one bit per sign, one after the other, and nothing else.
pub open spec fn holds_signs(bytes: Seq<u8>, signs: Seq<bool>) -> bool {
    forall|pos: int|
        0 <= pos < 8 * bytes.len() ==> #[trigger] bit_at(bytes, pos) == (pos < signs.len()
            && signs[pos])
}

/// The bytes are all zero.
pub open spec fn all_zero(bytes: Seq<u8>) -> bool {
    forall|i: int| 0 <= i < bytes.len() ==> #[trigger] bytes[i] == 0
}

/// The part of a row that holds the codes.
pub open spec fn code_part(row: Seq<u8>, dim: int) -> Seq<u8> {
    row.subrange(8, 8 + code_len(dim))
}

/// The part of a row that holds the signs.
pub open spec fn sign_part(row: Seq<u8>, dim: int) -> Seq<u8> {
    row.subrange(8 + code_len(dim), row_len(dim))
}

proof fn zero_byte_has_no_bits(k: u8)
    ensures
        k < 8 ==> !byte_bit(0, k),
{
    assert(k < 8 ==> (0u8 >> k) & 1u8 == 0u8) by (bit_vector);
}

proof fn zero_bytes_have_no_bits(bytes: Seq<u8>)
    requires
        all_zero(bytes),
    ensures
        forall|pos: int| 0 <= pos < 8 * bytes.len() ==> !#[trigger] bit_at(bytes, pos),
{
    assert forall|pos: int| 0 <= pos < 8 * bytes.len() implies !#[trigger] bit_at(bytes, pos) by {
        zero_byte_has_no_bits((pos % 8) as u8);
        assert(bytes[pos / 8] == 0);
    }
}

/// The codes of a row, packed at three bits each.
fn pack_codes(codes: &Vec<u32>, len: usize) -> (bytes: Vec<u8>)
    requires
        3 * codes.len() <= 8 * len,
        3 * codes.len() <= usize::MAX,
    ensures
        bytes.len() == len,
        holds_codes(bytes@, codes@),
{
    let mut bytes: Vec<u8> = vec![0u8; len];
    let mut offset: usize = 0;
    let mut i: usize = 0;
    proof {
        zero_bytes_have_no_bits(bytes@);
    }
    while i < codes.len()
        invariant
            i <= codes.len(),
            offset == 3 * i,
            bytes.len() == len,
            3 * codes.len() <= 8 * len,
            3 * codes.len() <= usize::MAX,
            forall|pos: int|
                0 <= pos < 8 * len ==> #[trigger] bit_at(bytes@, pos) == (pos < 3 * i && word_bit(
                    codes@[pos / 3],
                    (pos % 3) as u32,
                )),
        decreases codes.len() - i,
    {
        let ghost before = bytes@;
        push_bits(&mut bytes, &mut offset, codes[i], MSE_BITS);
        i += 1;
        assert forall|pos: int| 0 <= pos < 8 * len implies #[trigger] bit_at(bytes@, pos) == (pos
            < 3 * i && word_bit(codes@[pos / 3], (pos % 3) as u32)) by {
            assert(bit_at(before, pos) == (pos < 3 * (i - 1) && word_bit(
                codes@[pos / 3],
                (pos % 3) as u32,
            )));
            if 3 * (i - 1) <= pos < 3 * i {
                assert(pos / 3 == i - 1);
                assert(pos - 3 * (i - 1) == pos % 3);
            }
        }
    }
    bytes
}

/// The signs of a row, packed at one bit each.
fn pack_signs(signs: &Vec<bool>, len: usize) -> (bytes: Vec<u8>)
    requires
        signs.len() <= 8 * len,
    ensures
        bytes.len() == len,
        holds_signs(bytes@, signs@),
{
    let mut bytes: Vec<u8> = vec![0u8; len];
    let mut offset: usize = 0;
    let mut i: usize = 0;
    proof {
        zero_bytes_have_no_bits(bytes@);
    }
    while i < signs.len()
        invariant
            i <= signs.len(),
            offset == i,
            bytes.len() == len,
            signs.len() <= 8 * len,
            forall|pos: int|
                0 <= pos < 8 * len ==> #[trigger] bit_at(bytes@, pos) == (pos < i && signs@[pos]),
        decreases signs.len() - i,
    {
        let ghost before = bytes@;
        let bit: u32 = if signs[i] {
            1
        } else {
            0
        };
        push_bits(&mut bytes, &mut offset, bit, 1);
        proof {
            assert((1u32 >> 0u32) & 1u32 == 1u32 && (0u32 >> 0u32) & 1u32 == 0u32)
                by (bit_vector);
        }
        i += 1;
        assert forall|pos: int| 0 <= pos < 8 * len implies #[trigger] bit_at(bytes@, pos) == (pos
            < i && signs@[pos]) by {
            assert(bit_at(before, pos) == (pos < i - 1 && signs@[pos]));
        }
    }
    bytes
}

fn push_word(row: &mut Vec<u8>, word: u32)
    ensures
        final(row)@ == old(row)@ + le_word(word),
{
    row.push((word % 256) as u8);
    row.push((word / 256 % 256) as u8);
    row.push((word / 65536 % 256) as u8);
    row.push((word / 16777216) as u8);
    assert(row@ =~= old(row)@ + le_word(word));
}

proof fn word_reads_back(front: Seq<u8>, word: u32, rest: Seq<u8>)
    ensures
        word_at(front + le_word(word) + rest, front.len() as int) == word,
{
    let all = front + le_word(word) + rest;
    let n = front.len() as int;
    assert(all[n] == le_word(word)[0]);
    assert(all[n + 1] == le_word(word)[1]);
    assert(all[n + 2] == le_word(word)[2]);
    assert(all[n + 3] == le_word(word)[3]);
}

/// The four parts of a row are where the layout says.
proof fn row_parts(dim: int, norm: u32, residual_norm: u32, codes: Seq<u8>, signs: Seq<u8>)
    requires
        0 <= dim,
        codes.len() == code_len(dim),
        signs.len() == sign_len(dim),
    ensures
        ({
            let row = le_word(norm) + le_word(residual_norm) + codes + signs;
            &&& row.len() == row_len(dim)
            &&& word_at(row, 0) == norm
            &&& word_at(row, 4) == residual_norm
            &&& code_part(row, dim) == codes
            &&& sign_part(row, dim) == signs
        }),
{
    let row = le_word(norm) + le_word(residual_norm) + codes + signs;
    word_reads_back(Seq::empty(), norm, le_word(residual_norm) + codes + signs);
    assert(row =~= Seq::<u8>::empty() + le_word(norm) + (le_word(residual_norm) + codes + signs));
    word_reads_back(le_word(norm), residual_norm, codes + signs);
    assert(row =~= le_word(norm) + le_word(residual_norm) + (codes + signs));
    assert(code_part(row, dim) =~= codes);
    assert(sign_part(row, dim) =~= signs);
}

/// Lays out the row of a vector.
///
/// A norm that cannot scale anything leaves the rest of the row zero. A residual norm that
/// cannot scale anything leaves the signs zero.
pub fn assemble_row(
    dim: usize,
    norm: u32,
    codes: &Vec<u32>,
    residual_norm: u32,
    signs: &Vec<bool>,
) -> (row: Result<Vec<u8>, TurboError>)
    requires
        dim * 3 <= usize::MAX,
        row_len(dim as int) <= usize::MAX,
        is_usable(norm) ==> codes.len() == dim,
        is_usable(norm) && is_usable(residual_norm) ==> signs.len() == dim,
    ensures
        match row {
            Ok(bytes) => {
                &&& is_power_of_two(dim as nat)
                &&& bytes.len() == row_len(dim as int)
                &&& word_at(bytes@, 0) == norm
                &&& if is_usable(norm) {
                    &&& word_at(bytes@, 4) == residual_norm
                    &&& holds_codes(code_part(bytes@, dim as int), codes@)
                    &&& if is_usable(residual_norm) {
                        holds_signs(sign_part(bytes@, dim as int), signs@)
                    } else {
                        all_zero(sign_part(bytes@, dim as int))
                    }
                } else {
                    all_zero(bytes@.skip(4))
                }
            },
            Err(e) => !is_power_of_two(dim as nat) && e == TurboError::Layout(
                TurboLayoutError::HeadDimNotPowerOfTwo { head_dim: dim },
            ),
        },
{
    let len: usize = match row_bytes(dim) {
        Ok(len) => len,
        Err(fault) => {
            return Err(TurboError::Layout(fault));
        },
    };
    let mut row: Vec<u8> = Vec::new();
    push_word(&mut row, norm);
    if !usable(norm) {
        let rest_len: usize = len - NORM_BYTES;
        let mut rest: Vec<u8> = vec![0u8; rest_len];
        let ghost tail = rest@;
        row.append(&mut rest);
        proof {
            word_reads_back(Seq::empty(), norm, tail);
            assert(row@ =~= Seq::<u8>::empty() + le_word(norm) + tail);
            assert(row@.skip(4) =~= tail);
        }
        return Ok(row);
    }
    let mse_bytes: usize = div_ceil(dim * MSE_BITS, 8);
    let sign_bytes: usize = div_ceil(dim, 8);
    push_word(&mut row, residual_norm);
    let mut packed: Vec<u8> = pack_codes(codes, mse_bytes);
    let ghost code_bytes = packed@;
    row.append(&mut packed);
    let mut tail: Vec<u8> = if usable(residual_norm) {
        pack_signs(signs, sign_bytes)
    } else {
        vec![0u8; sign_bytes]
    };
    let ghost tail_bytes = tail@;
    row.append(&mut tail);
    proof {
        row_parts(dim as int, norm, residual_norm, code_bytes, tail_bytes);
        assert(row@ =~= le_word(norm) + le_word(residual_norm) + code_bytes + tail_bytes);
    }
    Ok(row)
}

/// What a row says of its vector.
pub struct RowCodes {
    pub norm: u32,
    pub residual_norm: u32,
    pub codes: Vec<u32>,
    pub signs: Option<Vec<bool>>,
}

/// Reads a row. A row whose norm cannot scale anything stands for the zero vector and gives
/// `None`; signs are read only if the residual norm can scale them.
pub fn read_row(row: &Vec<u8>, dim: usize) -> (parts: Result<Option<RowCodes>, TurboError>)
    requires
        dim * 3 <= usize::MAX,
        row_len(dim as int) <= usize::MAX,
    ensures
        match parts {
            Ok(read) => {
                &&& is_power_of_two(dim as nat)
                &&& row.len() == row_len(dim as int)
                &&& match read {
                    None => !is_usable(word_at(row@, 0) as u32),
                    Some(r) => {
                        &&& is_usable(r.norm)
                        &&& r.norm == word_at(row@, 0)
                        &&& r.residual_norm == word_at(row@, 4)
                        &&& r.codes.len() == dim
                        &&& forall|i: int|
                            0 <= i < dim ==> is_field(
                                #[trigger] r.codes@[i],
                                code_part(row@, dim as int),
                                3 * i,
                                3,
                            )
                        &&& r.signs is Some == is_usable(r.residual_norm)
                        &&& r.signs matches Some(signs) ==> signs.len() == dim && forall|i: int|
                            0 <= i < dim ==> #[trigger] signs@[i] == bit_at(
                                sign_part(row@, dim as int),
                                i,
                            )
                    },
                }
            },
            Err(TurboError::Layout(fault)) => !is_power_of_two(dim as nat) && fault
                == (TurboLayoutError::HeadDimNotPowerOfTwo { head_dim: dim }),
            Err(TurboError::RowLength { got, expected }) => {
                &&& is_power_of_two(dim as nat)
                &&& got == row.len()
                &&& expected == row_len(dim as int)
                &&& got != expected
            },
            Err(_) => false,
        },
{
    let len: usize = match row_bytes(dim) {
        Ok(len) => len,
        Err(fault) => {
            return Err(TurboError::Layout(fault));
        },
    };
    if row.len() != len {
        return Err(TurboError::RowLength { got: row.len(), expected: len });
    }
    let norm: u32 = read_word(row.as_slice(), 0);
    if !usable(norm) {
        return Ok(None);
    }
    let residual_norm: u32 = read_word(row.as_slice(), NORM_BYTES);
    let mse_bytes: usize = div_ceil(dim * MSE_BITS, 8);
    let sign_bytes: usize = div_ceil(dim, 8);
    let code_bytes: Vec<u8> = copy_range(row, 2 * NORM_BYTES, mse_bytes);
    let sign_bits: Vec<u8> = copy_range(row, 2 * NORM_BYTES + mse_bytes, sign_bytes);
    assert(code_bytes@ == code_part(row@, dim as int));
    assert(sign_bits@ == sign_part(row@, dim as int));
    let mut reader: BitReader = BitReader::new(code_bytes.as_slice(), MSE_BITS);
    let mut codes: Vec<u32> = Vec::new();
    let mut i: usize = 0;
    while i < dim
        invariant
            i <= dim,
            dim * 3 <= usize::MAX,
            reader.bits == 3,
            reader.bit_offset == 3 * i,
            reader.data@ == code_bytes@,
            3 * dim <= 8 * code_bytes.len(),
            codes.len() == i,
            forall|k: int|
                0 <= k < i ==> is_field(#[trigger] codes@[k], code_bytes@, 3 * k, 3),
        decreases dim - i,
    {
        match reader.next() {
            Some(code) => {
                codes.push(code);
            },
            None => {
                assert(false);
            },
        }
        i += 1;
    }
    if !usable(residual_norm) {
        return Ok(Some(RowCodes { norm, residual_norm, codes, signs: None }));
    }
    let mut sign_reader: BitReader = BitReader::new(sign_bits.as_slice(), 1);
    let mut signs: Vec<bool> = Vec::new();
    let mut j: usize = 0;
    while j < dim
        invariant
            j <= dim,
            sign_reader.bits == 1,
            sign_reader.bit_offset == j,
            sign_reader.data@ == sign_bits@,
            dim <= 8 * sign_bits.len(),
            signs.len() == j,
            forall|k: int| 0 <= k < j ==> #[trigger] signs@[k] == bit_at(sign_bits@, k),
        decreases dim - j,
    {
        match sign_reader.next() {
            Some(bit) => {
                proof {
                    assert(word_bit(bit, 0) == bit_at(sign_bits@, j + 0));
                    assert(word_bit(bit, 0) == (bit == 1)) by {
                        assert forall|k: u32| k < 32 implies #[trigger] word_bit(bit, k) == (k == 0
                            && bit_at(sign_bits@, j as int)) by {}
                        if bit_at(sign_bits@, j as int) {
                            assert forall|k: u32| k < 32 implies #[trigger] word_bit(bit, k)
                                == word_bit(1, k) by {
                                assert(k < 32 ==> ((1u32 >> k) & 1u32 == 1u32) == (k == 0))
                                    by (bit_vector);
                            }
                            equal_bits_equal_words(bit, 1);
                        } else {
                            assert((1u32 >> 0u32) & 1u32 == 1u32) by (bit_vector);
                        }
                    }
                }
                signs.push(bit == 1);
            },
            None => {
                assert(false);
            },
        }
        j += 1;
    }
    Ok(Some(RowCodes { norm, residual_norm, codes, signs: Some(signs) }))
}

/// A row gives back what it was laid out from: the norms, every code below eight, and the
/// signs.
pub proof fn row_reads_back(
    dim: int,
    row: Seq<u8>,
    codes: Seq<u32>,
    signs: Seq<bool>,
    read_codes: Seq<u32>,
    read_signs: Seq<bool>,
)
    requires
        0 <= dim,
        row.len() == row_len(dim),
        codes.len() == dim,
        signs.len() == dim,
        forall|i: int| 0 <= i < dim ==> #[trigger] codes[i] < 8,
        holds_codes(code_part(row, dim), codes),
        holds_signs(sign_part(row, dim), signs),
        read_codes.len() == dim,
        read_signs.len() == dim,
        forall|i: int|
            0 <= i < dim ==> is_field(#[trigger] read_codes[i], code_part(row, dim), 3 * i, 3),
        forall|i: int|
            0 <= i < dim ==> #[trigger] read_signs[i] == bit_at(sign_part(row, dim), i),
    ensures
        read_codes == codes,
        read_signs == signs,
{
    let bytes = code_part(row, dim);
    assert forall|i: int| 0 <= i < dim implies read_codes[i] == codes[i] by {
        let code = codes[i];
        assert forall|k: u32| k < 32 implies #[trigger] word_bit(read_codes[i], k) == word_bit(
            code,
            k,
        ) by {
            if k < 3 {
                let pos = 3 * i + k;
                assert(bit_at(bytes, pos) == (pos < 3 * codes.len() && word_bit(
                    codes[pos / 3],
                    (pos % 3) as u32,
                )));
                assert(pos / 3 == i && pos % 3 == k);
            } else {
                assert(code < 8 && 3 <= k < 32 ==> (code >> k) & 1u32 == 0u32) by (bit_vector);
            }
        }
        equal_bits_equal_words(read_codes[i], code);
    }
    assert(read_codes =~= codes);
    assert(read_signs =~= signs);
}

/// Whether a tensor can be a TurboQuant cache.
pub open spec fn is_turbo(dtype: DType, rank: int) -> bool {
    dtype == DType::U8 && rank == 4
}

/// Whether a tensor can be a TurboQuant cache.
pub fn is_turboquant_cache(cache: &TensorDesc) -> (yes: bool)
    ensures
        yes == is_turbo(cache.dtype, cache.dims.len() as int),
        yes <==> cache.dtype == DType::U8 && cache.dims@.len() == 4,
{
    cache.dtype == DType::U8 && cache.dims.len() == 4
}

/// The shapes that writing rows works with.
#[derive(Clone, Copy, Debug, PartialEq, Eq, Structural)]
pub struct TurboReshapeShape {
    pub num_tokens: usize,
    pub num_heads: usize,
    pub num_blocks: usize,
    pub block_size: usize,
    pub k_head_dim: usize,
    pub v_head_dim: usize,
    pub k_row_bytes: usize,
    pub v_row_bytes: usize,
}

/// What is wrong with the tensors of a write before their rows are looked at: the kind of the
/// caches first, then the inputs, then how both go together.
pub open spec fn turbo_reshape_fault_before_rows(
    key: TensorDesc,
    value: TensorDesc,
    key_cache: TensorDesc,
    value_cache: TensorDesc,
) -> Option<TurboError> {
    let k = key.dims@;
    let v = value.dims@;
    let kc = key_cache.dims@;
    let vc = value_cache.dims@;
    if !is_turbo(key_cache.dtype, kc.len() as int) || !is_turbo(
        value_cache.dtype,
        vc.len() as int,
    ) {
        Some(TurboError::NotTurboCache)
    } else if k.len() != 3 || v.len() != 3 {
        Some(TurboError::InputRank)
    } else if (k[0], k[1]) != (v[0], v[1]) {
        Some(TurboError::InputMismatch)
    } else if (kc[0], kc[1], kc[2]) != (vc[0], vc[1], vc[2]) || kc[1] != k[1] {
        Some(TurboError::CacheMismatch)
    } else {
        None
    }
}

/// What is wrong with the tensors of a write, in the order in which it is looked at.
pub open spec fn turbo_reshape_fault(
    key: TensorDesc,
    value: TensorDesc,
    key_cache: TensorDesc,
    value_cache: TensorDesc,
) -> Option<TurboError> {
    let k = key.dims@[2];
    let v = value.dims@[2];
    let kc = key_cache.dims@[3];
    let vc = value_cache.dims@[3];
    let not_power = |dim: usize|
        TurboError::Layout(TurboLayoutError::HeadDimNotPowerOfTwo { head_dim: dim });
    let before = turbo_reshape_fault_before_rows(key, value, key_cache, value_cache);
    if before is Some {
        before
    } else if !is_power_of_two(k as nat) {
        Some(not_power(k))
    } else if !is_power_of_two(v as nat) {
        Some(not_power(v))
    } else if kc != row_len(k as int) || vc != row_len(v as int) {
        Some(TurboError::RowSize { key: kc, value: vc })
    } else {
        None
    }
}

/// Whether the rows of these dimensions can be counted in a `usize`, up to the first dimension
/// that has none.
pub open spec fn rows_are_countable(k: usize, v: usize) -> bool {
    is_power_of_two(k as nat) ==> {
        &&& k * 3 <= usize::MAX
        &&& row_len(k as int) <= usize::MAX
        &&& is_power_of_two(v as nat) ==> v * 3 <= usize::MAX && row_len(v as int) <= usize::MAX
    }
}

/// Checks the tensors of a write and gives the shapes it works with.
pub fn check_turbo_reshape(
    key: &TensorDesc,
    value: &TensorDesc,
    key_cache: &TensorDesc,
    value_cache: &TensorDesc,
) -> (shape: Result<TurboReshapeShape, TurboError>)
    requires
        turbo_reshape_fault_before_rows(*key, *value, *key_cache, *value_cache) is None
            ==> rows_are_countable(key.dims@[2], value.dims@[2]),
    ensures
        match shape {
            Ok(s) => {
                &&& turbo_reshape_fault(*key, *value, *key_cache, *value_cache) is None
                &&& s.num_tokens == key.dims@[0]
                &&& s.num_heads == key.dims@[1]
                &&& s.num_blocks == key_cache.dims@[0]
                &&& s.block_size == key_cache.dims@[2]
                &&& s.k_head_dim == key.dims@[2]
                &&& s.v_head_dim == value.dims@[2]
                &&& s.k_row_bytes == key_cache.dims@[3]
                &&& s.v_row_bytes == value_cache.dims@[3]
            },
            Err(e) => turbo_reshape_fault(*key, *value, *key_cache, *value_cache) == Some(e),
        },
{
    if !is_turboquant_cache(key_cache) || !is_turboquant_cache(value_cache) {
        return Err(TurboError::NotTurboCache);
    }
    if key.dims.len() != 3 || value.dims.len() != 3 {
        return Err(TurboError::InputRank);
    }
    let num_tokens: usize = key.dims[0];
    let num_heads: usize = key.dims[1];
    if num_tokens != value.dims[0] || num_heads != value.dims[1] {
        return Err(TurboError::InputMismatch);
    }
    let num_blocks: usize = key_cache.dims[0];
    let block_size: usize = key_cache.dims[2];
    if num_blocks != value_cache.dims[0] || key_cache.dims[1] != value_cache.dims[1] || block_size
        != value_cache.dims[2] || key_cache.dims[1] != num_heads {
        return Err(TurboError::CacheMismatch);
    }
    let k_head_dim: usize = key.dims[2];
    let v_head_dim: usize = value.dims[2];
    let key_bytes: usize = match row_bytes(k_head_dim) {
        Ok(bytes) => bytes,
        Err(fault) => {
            return Err(TurboError::Layout(fault));
        },
    };
    let value_bytes: usize = match row_bytes(v_head_dim) {
        Ok(bytes) => bytes,
        Err(fault) => {
            return Err(TurboError::Layout(fault));
        },
    };
    let k_row_bytes: usize = key_cache.dims[3];
    let v_row_bytes: usize = value_cache.dims[3];
    if k_row_bytes != key_bytes || v_row_bytes != value_bytes {
        return Err(TurboError::RowSize { key: k_row_bytes, value: v_row_bytes });
    }
    Ok(
        TurboReshapeShape {
            num_tokens,
            num_heads,
            num_blocks,
            block_size,
            k_head_dim,
            v_head_dim,
            k_row_bytes,
            v_row_bytes,
        },
    )
}

/// Checks that there is a slot for each token.
pub fn check_turbo_slots(slots: usize, tokens: usize) -> (valid: Result<(), TurboError>)
    ensures
        valid == if slots == tokens {
            Ok::<(), TurboError>(())
        } else {
            Err(TurboError::SlotCount { slots, tokens })
        },
{
    if slots == tokens {
        Ok(())
    } else {
        Err(TurboError::SlotCount { slots, tokens })
    }
}

/// The shapes that a gather works with.
#[derive(Clone, Copy, Debug, PartialEq, Eq, Structural)]
pub struct TurboGatherShape {
    pub num_blocks: usize,
    pub num_heads: usize,
    pub block_size: usize,
    pub k_head_dim: usize,
    pub v_head_dim: usize,
    pub k_row_bytes: usize,
    pub v_row_bytes: usize,
}

/// What is wrong with the caches of a gather before their rows are looked at.
pub open spec fn turbo_caches_fault(key_cache: TensorDesc, value_cache: TensorDesc) -> Option<
    TurboError,
> {
    let kc = key_cache.dims@;
    let vc = value_cache.dims@;
    if !is_turbo(key_cache.dtype, kc.len() as int) || !is_turbo(
        value_cache.dtype,
        vc.len() as int,
    ) {
        Some(TurboError::NotTurboCache)
    } else if (kc[0], kc[1], kc[2]) != (vc[0], vc[1], vc[2]) {
        Some(TurboError::CacheMismatch)
    } else {
        None
    }
}

/// What is wrong with the caches of a gather, in the order in which it is looked at.
pub open spec fn turbo_gather_fault(key_cache: TensorDesc, value_cache: TensorDesc) -> Option<
    TurboError,
> {
    match turbo_caches_fault(key_cache, value_cache) {
        Some(fault) => Some(fault),
        None => match row_size_fault(key_cache.dims@[3]) {
            Some(fault) => Some(TurboError::Layout(fault)),
            None => match row_size_fault(value_cache.dims@[3]) {
                Some(fault) => Some(TurboError::Layout(fault)),
                None => None,
            },
        },
    }
}

/// Checks the caches of a gather and gives the shapes it works with.
pub fn check_turbo_gather(key_cache: &TensorDesc, value_cache: &TensorDesc) -> (shape: Result<
    TurboGatherShape,
    TurboError,
>)
    requires
        turbo_caches_fault(*key_cache, *value_cache) is None ==> {
            &&& row_size_is_readable(key_cache.dims@[3])
            &&& row_size_fault(key_cache.dims@[3]) is None ==> row_size_is_readable(
                value_cache.dims@[3],
            )
        },
    ensures
        match shape {
            Ok(s) => {
                let kc = key_cache.dims@;
                let vc = value_cache.dims@;
                &&& turbo_gather_fault(*key_cache, *value_cache) is None
                &&& (s.num_blocks, s.num_heads, s.block_size) == (kc[0], kc[1], kc[2])
                &&& (s.k_row_bytes, s.v_row_bytes) == (kc[3], vc[3])
                &&& s.k_head_dim == 2 * (kc[3] - 8)
                &&& s.v_head_dim == 2 * (vc[3] - 8)
            },
            Err(e) => turbo_gather_fault(*key_cache, *value_cache) == Some(e),
        },
{
    if !is_turboquant_cache(key_cache) || !is_turboquant_cache(value_cache) {
        return Err(TurboError::NotTurboCache);
    }
    let num_blocks: usize = key_cache.dims[0];
    let num_heads: usize = key_cache.dims[1];
    let block_size: usize = key_cache.dims[2];
    if num_blocks != value_cache.dims[0] || num_heads != value_cache.dims[1] || block_size
        != value_cache.dims[2] {
        return Err(TurboError::CacheMismatch);
    }
    let k_row_bytes: usize = key_cache.dims[3];
    let v_row_bytes: usize = value_cache.dims[3];
    let k_head_dim: usize = match head_dim_from_row_bytes(k_row_bytes) {
        Ok(dims) => dims,
        Err(fault) => {
            return Err(TurboError::Layout(fault));
        },
    };
    let v_head_dim: usize = match head_dim_from_row_bytes(v_row_bytes) {
        Ok(dims) => dims,
        Err(fault) => {
            return Err(TurboError::Layout(fault));
        },
    };
    Ok(
        TurboGatherShape {
            num_blocks,
            num_heads,
            block_size,
            k_head_dim,
            v_head_dim,
            k_row_bytes,
            v_row_bytes,
        },
    )
}

/// The bytes of a cache: its rows one after the other.
pub struct RowCache {
    pub num_blocks: usize,
    pub num_heads: usize,
    pub block_size: usize,
    pub row_bytes: usize,
    pub data: Vec<u8>,
}

impl RowCache {
    /// The cache holds all its rows.
    pub open spec fn wf(&self) -> bool {
        &&& self.row_bytes > 0
        &&& self.data.len() == self.num_blocks * self.num_heads * self.block_size * self.row_bytes
    }

    /// Whether a token of a block and head has a row.
    pub open spec fn has(&self, block: int, head: int, block_offset: int) -> bool {
        &&& 0 <= block < self.num_blocks
        &&& 0 <= head < self.num_heads
        &&& 0 <= block_offset < self.block_size
    }

    /// Where a row starts.
    pub open spec fn start(&self, block: int, head: int, block_offset: int) -> int {
        row_start(
            block,
            head,
            block_offset,
            self.num_heads as int,
            self.block_size as int,
            self.row_bytes as int,
        )
    }

    /// The row of a token of a block and head.
    pub open spec fn row(&self, block: int, head: int, block_offset: int) -> Seq<u8> {
        let start = self.start(block, head, block_offset);
        self.data@.subrange(start, start + self.row_bytes)
    }

    fn offset_of(&self, block: usize, head: usize, block_offset: usize) -> (offset: usize)
        requires
            self.wf(),
            self.has(block as int, head as int, block_offset as int),
        ensures
            offset == self.start(block as int, head as int, block_offset as int),
            offset + self.row_bytes <= self.data.len(),
    {
        proof {
            row_is_inside(
                block as int,
                head as int,
                block_offset as int,
                self.num_blocks as int,
                self.num_heads as int,
                self.block_size as int,
                self.row_bytes as int,
            );
            let place = block * self.num_heads + head;
            let row = place * self.block_size + block_offset;
            assert(place <= row) by (nonlinear_arith)
                requires
                    row == place * self.block_size + block_offset,
                    0 <= place,
                    1 <= self.block_size,
            ;
            assert(row <= row * self.row_bytes) by (nonlinear_arith)
                requires
                    0 <= row,
                    1 <= self.row_bytes,
            ;
        }
        row_offset(
            block,
            head,
            block_offset,
            self.num_heads,
            self.block_size,
            self.row_bytes,
        )
    }

    /// A copy of a row.
    pub fn read(&self, block: usize, head: usize, block_offset: usize) -> (row: Vec<u8>)
        requires
            self.wf(),
            self.has(block as int, head as int, block_offset as int),
        ensures
            row@ == self.row(block as int, head as int, block_offset as int),
            row.len() == self.row_bytes,
    {
        let start: usize = self.offset_of(block, head, block_offset);
        copy_range(&self.data, start, self.row_bytes)
    }

    /// Overwrites a row.
    pub fn write_row(&mut self, block: usize, head: usize, block_offset: usize, row: &Vec<u8>)
        requires
            old(self).wf(),
            old(self).has(block as int, head as int, block_offset as int),
            row.len() == old(self).row_bytes,
        ensures
            final(self).wf(),
            final(self).num_blocks == old(self).num_blocks,
            final(self).num_heads == old(self).num_heads,
            final(self).block_size == old(self).block_size,
            final(self).row_bytes == old(self).row_bytes,
            final(self).data@ == spliced(
                old(self).data@,
                old(self).start(block as int, head as int, block_offset as int),
                row@,
            ),
            final(self).row(block as int, head as int, block_offset as int) == row@,
    {
        let start: usize = self.offset_of(block, head, block_offset);
        splice(&mut self.data, start, row);
        assert(self.row(block as int, head as int, block_offset as int) =~= row@);
    }
}

/// Writing one row leaves every other row as it was.
pub proof fn writing_a_row_keeps_the_others(
    before: RowCache,
    place: (int, int, int),
    row: Seq<u8>,
    other: (int, int, int),
)
    requires
        before.wf(),
        before.has(place.0, place.1, place.2),
        before.has(other.0, other.1, other.2),
        place != other,
        row.len() == before.row_bytes,
    ensures
        ({
            let start = before.start(other.0, other.1, other.2);
            spliced(before.data@, before.start(place.0, place.1, place.2), row).subrange(
                start,
                start + before.row_bytes,
            ) == before.row(other.0, other.1, other.2)
        }),
{
    row_is_inside(
        place.0,
        place.1,
        place.2,
        before.num_blocks as int,
        before.num_heads as int,
        before.block_size as int,
        before.row_bytes as int,
    );
    row_is_inside(
        other.0,
        other.1,
        other.2,
        before.num_blocks as int,
        before.num_heads as int,
        before.block_size as int,
        before.row_bytes as int,
    );
    rows_are_disjoint(
        before.num_heads as int,
        before.block_size as int,
        before.row_bytes as int,
        place,
        other,
    );
    spliced_reads_back(
        before.data@,
        before.start(place.0, place.1, place.2),
        row,
        before.start(other.0, other.1, other.2),
        before.row_bytes as int,
    );
}

/// Codes and signs stand in the order of the dimensions: bit `j` of code `i` is bit `3 * i + j` of
/// the bytes behind the two norms, and sign `i` is bit `i` of the bytes behind those. What is
/// left of the last byte of each is clear.
pub proof fn codes_and_signs_stand_in_order(
    row: Seq<u8>,
    dim: int,
    codes: Seq<u32>,
    signs: Seq<bool>,
    i: int,
    j: int,
)
    requires
        0 <= i < dim,
        0 <= j < 3,
        row.len() == row_len(dim),
        codes.len() == dim,
        signs.len() == dim,
        holds_codes(code_part(row, dim), codes),
        holds_signs(sign_part(row, dim), signs),
    ensures
        bit_at(row, 64 + 3 * i + j) == word_bit(codes[i], j as u32),
        bit_at(row, 64 + 8 * code_len(dim) + i) == signs[i],
        forall|pos: int|
            3 * dim <= pos < 8 * code_len(dim) ==> !#[trigger] bit_at(code_part(row, dim), pos),
        forall|pos: int|
            dim <= pos < 8 * sign_len(dim) ==> !#[trigger] bit_at(sign_part(row, dim), pos),
{
    let pos = 3 * i + j;
    assert(0 <= pos < 8 * code_part(row, dim).len());
    assert(bit_at(code_part(row, dim), pos) == word_bit(codes[pos / 3], (pos % 3) as u32));
    assert(code_part(row, dim)[pos / 8] == row[8 + pos / 8]);
    assert((64 + pos) / 8 == 8 + pos / 8 && (64 + pos) % 8 == pos % 8);
    assert(0 <= i < 8 * sign_part(row, dim).len());
    assert(bit_at(sign_part(row, dim), i) == signs[i]);
    let at = 8 + code_len(dim);
    assert(sign_part(row, dim)[i / 8] == row[at + i / 8]);
    assert((8 * at + i) / 8 == at + i / 8 && (8 * at + i) % 8 == i % 8);
}

/// The hash of a dimension in plain arithmetic on numbers of 32 bits: an offset, then twice an
/// exclusive or with its own high part and a multiplication, and a last exclusive or.
pub proof fn sign_hash_in_arithmetic(index: u32, a: u32, b: u32, c: u32)
    requires
        a == (index + 2654435769) % 4294967296,
        b == ((a ^ (a / 32768)) * 2246822507) % 4294967296,
        c == ((b ^ (b / 8192)) * 3266489909) % 4294967296,
    ensures
        sign_hash(index) == c ^ (c / 65536),
{
    assert(a >> 15u32 == a / 32768) by (bit_vector);
    assert(b >> 13u32 == b / 8192) by (bit_vector);
    assert(c >> 16u32 == c / 65536) by (bit_vector);
}

/// A norm scales something if its exponent is not all ones, and exponent and fraction are not
/// both zero.
pub proof fn norms_that_scale(norm: u32, sign: int, exponent: int, fraction: int)
    requires
        0 <= sign <= 1,
        0 <= exponent <= 255,
        0 <= fraction < 0x80_0000,
        norm == sign * 0x8000_0000 + exponent * 0x80_0000 + fraction,
    ensures
        is_usable(norm) <==> exponent != 255 && (exponent != 0 || fraction != 0),
{
}

/// Rows are written exactly if both caches are tensors of bytes of rank four that have equal
/// blocks, heads and block sizes, keys and values have equal tokens and the heads of the caches,
/// head dimensions are powers of two, and each cache has rows of the size of its own dimension.
pub proof fn writes_fit_their_caches(
    key: TensorDesc,
    value: TensorDesc,
    key_cache: TensorDesc,
    value_cache: TensorDesc,
)
    requires
        key.dims@.len() == 3,
        value.dims@.len() == 3,
        key_cache.dims@.len() == 4,
        value_cache.dims@.len() == 4,
    ensures
        turbo_reshape_fault(key, value, key_cache, value_cache) is None <==> {
            &&& key_cache.dtype == DType::U8 && value_cache.dtype == DType::U8
            &&& key.dims@[0] == value.dims@[0]
            &&& key.dims@[1] == value.dims@[1]
            &&& key.dims@[1] == key_cache.dims@[1]
            &&& key_cache.dims@.take(3) == value_cache.dims@.take(3)
            &&& is_power_of_two(key.dims@[2] as nat)
            &&& is_power_of_two(value.dims@[2] as nat)
            &&& key_cache.dims@[3] == row_len(key.dims@[2] as int)
            &&& value_cache.dims@[3] == row_len(value.dims@[2] as int)
        },
{
    let (kc, vc) = (key_cache.dims@, value_cache.dims@);
    assert(kc.take(3)[0] == kc[0] && kc.take(3)[1] == kc[1] && kc.take(3)[2] == kc[2]);
    assert(vc.take(3)[0] == vc[0] && vc.take(3)[1] == vc[1] && vc.take(3)[2] == vc[2]);
    assert(kc.take(3) == vc.take(3) <==> kc.take(3) =~= vc.take(3));
}

/// Rows are gathered exactly if both caches are tensors of bytes of rank four that differ in the
/// size of their rows at most, and each size is taken for a dimension.
pub proof fn gathers_fit_their_caches(key_cache: TensorDesc, value_cache: TensorDesc)
    requires
        key_cache.dims@.len() == 4,
        value_cache.dims@.len() == 4,
    ensures
        turbo_gather_fault(key_cache, value_cache) is None <==> {
            &&& key_cache.dtype == DType::U8 && value_cache.dtype == DType::U8
            &&& key_cache.dims@.take(3) == value_cache.dims@.take(3)
            &&& row_size_fault(key_cache.dims@[3]) is None
            &&& row_size_fault(value_cache.dims@[3]) is None
        },
{
    let (kc, vc) = (key_cache.dims@, value_cache.dims@);
    assert(kc.take(3)[0] == kc[0] && kc.take(3)[1] == kc[1] && kc.take(3)[2] == kc[2]);
    assert(vc.take(3)[0] == vc[0] && vc.take(3)[1] == vc[1] && vc.take(3)[2] == vc[2]);
    assert(kc.take(3) == vc.take(3) <==> kc.take(3) =~= vc.take(3));
}

/// A cache of rows is a tensor of bytes with one dimension each for blocks, heads, tokens and the
/// bytes of a row.
pub proof fn row_caches_are_bytes(dtype: DType, blocks: usize, heads: usize, tokens: usize, bytes: usize)
    ensures
        is_turbo(dtype, seq![blocks, heads, tokens, bytes].len() as int) <==> dtype == DType::U8,
        !is_turbo(dtype, seq![blocks, heads, tokens].len() as int),
{
}

/// Rows of other sizes than the heads ask for are refused with both sizes, the keys' first; heads
/// whose dimension is no power of two are refused with it.
pub proof fn wrong_rows_are_named(
    key: TensorDesc,
    value: TensorDesc,
    key_cache: TensorDesc,
    value_cache: TensorDesc,
)
    ensures
        turbo_reshape_fault(key, value, key_cache, value_cache) matches Some(
            TurboError::RowSize { key: k, value: v },
        ) ==> {
            &&& k == key_cache.dims@[3]
            &&& v == value_cache.dims@[3]
            &&& k != row_len(key.dims@[2] as int) || v != row_len(value.dims@[2] as int)
        },
        turbo_reshape_fault(key, value, key_cache, value_cache) matches Some(
            TurboError::Layout(TurboLayoutError::HeadDimNotPowerOfTwo { head_dim }),
        ) ==> {
            &&& !is_power_of_two(head_dim as nat)
            &&& head_dim == key.dims@[2] || is_power_of_two(key.dims@[2] as nat) && head_dim
                == value.dims@[2]
        },
{
}

} // verus!
