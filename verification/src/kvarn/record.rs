//! KVarN records: codes packed low bits first, scales as little-endian 16-bit patterns.
use crate::kvarn::layout::{
    key_offsets, key_record_len, key_record_len_is_linear, shape_fault, value_offsets,
    value_record_len, value_record_len_is_linear, KvarnLayoutError, KVARN_GROUP, KVARN_KEY_BITS,
    KVARN_VALUE_BITS, STATUS_QUANTIZED,
};
use vstd::prelude::*;

verus! {

/// Two four-bit codes in one byte, the first in the low half.
pub open spec fn nibble_pair(low: u8, high: u8) -> u8 {
    (low + 16 * high) as u8
}

/// Four two-bit codes in one byte, the first in the lowest bits.
pub open spec fn crumb_quad(a: u8, b: u8, c: u8, d: u8) -> u8 {
    (a + 4 * b + 16 * c + 64 * d) as u8
}

/// Four-bit codes packed two to a byte.
pub open spec fn packed_nibbles(codes: Seq<u8>) -> Seq<u8> {
    Seq::new(codes.len() / 2, |k: int| nibble_pair(codes[2 * k], codes[2 * k + 1]))
}

/// Two-bit codes packed four to a byte.
pub open spec fn packed_crumbs(codes: Seq<u8>) -> Seq<u8> {
    Seq::new(
        codes.len() / 4,
        |k: int| crumb_quad(codes[4 * k], codes[4 * k + 1], codes[4 * k + 2], codes[4 * k + 3]),
    )
}

/// 16-bit patterns as bytes, low byte first.
pub open spec fn le_halves(halves: Seq<u16>) -> Seq<u8> {
    Seq::new(
        halves.len() * 2,
        |k: int|
            if k % 2 == 0 {
                (halves[k / 2] % 256) as u8
            } else {
                (halves[k / 2] / 256) as u8
            },
    )
}

/// The 16-bit pattern at `offset`.
pub open spec fn half_at(bytes: Seq<u8>, offset: int) -> int {
    bytes[offset] + 256 * bytes[offset + 1]
}

/// The `slot`-th four-bit code of a byte.
pub open spec fn nibble_of(byte: u8, slot: int) -> int {
    if slot == 0 {
        byte as int % 16
    } else {
        byte as int / 16
    }
}

/// The `slot`-th two-bit code of a byte.
pub open spec fn crumb_of(byte: u8, slot: int) -> int {
    if slot == 0 {
        byte as int % 4
    } else if slot == 1 {
        byte as int / 4 % 4
    } else if slot == 2 {
        byte as int / 16 % 4
    } else {
        byte as int / 64
    }
}

/// A quantized key record. The codes come dimension by dimension.
pub open spec fn key_record(
    codes: Seq<u8>,
    s_col: Seq<u16>,
    zero_points: Seq<u16>,
    s_row: Seq<u16>,
) -> Seq<u8> {
    seq![STATUS_QUANTIZED] + packed_nibbles(codes) + le_halves(s_col) + le_halves(zero_points)
        + le_halves(s_row)
}

/// A quantized value record. The codes come token by token.
pub open spec fn value_record(
    codes: Seq<u8>,
    s_col: Seq<u16>,
    s_row: Seq<u16>,
    zero_points: Seq<u16>,
) -> Seq<u8> {
    seq![STATUS_QUANTIZED] + packed_crumbs(codes) + le_halves(s_col) + le_halves(s_row)
        + le_halves(zero_points)
}

/// Whether every code is below `limit`.
pub open spec fn codes_below(codes: Seq<u8>, limit: u8) -> bool {
    forall|i: int| 0 <= i < codes.len() ==> #[trigger] codes[i] < limit
}

/// Appends 16-bit patterns, low byte first.
pub fn push_halves(out: &mut Vec<u8>, halves: &Vec<u16>)
    ensures
        final(out)@ == old(out)@ + le_halves(halves@),
{
    let ghost before = out@;
    let mut i: usize = 0;
    while i < halves.len()
        invariant
            i <= halves.len(),
            out@ == before + le_halves(halves@.take(i as int)),
        decreases halves.len() - i,
    {
        let half: u16 = halves[i];
        out.push((half % 256) as u8);
        out.push((half / 256) as u8);
        i += 1;
        assert(out@ =~= before + le_halves(halves@.take(i as int)));
    }
    assert(halves@.take(i as int) =~= halves@);
}

/// Appends four-bit codes, two to a byte.
pub fn push_nibbles(out: &mut Vec<u8>, codes: &Vec<u8>)
    requires
        codes_below(codes@, 16),
    ensures
        final(out)@ == old(out)@ + packed_nibbles(codes@),
{
    let ghost before = out@;
    let pairs: usize = codes.len() / 2;
    let mut k: usize = 0;
    while k < pairs
        invariant
            k <= pairs,
            pairs == codes.len() / 2,
            codes_below(codes@, 16),
            out@ == before + packed_nibbles(codes@).take(k as int),
        decreases pairs - k,
    {
        let low: u8 = codes[2 * k];
        let high: u8 = codes[2 * k + 1];
        out.push(low + 16 * high);
        k += 1;
        assert(out@ =~= before + packed_nibbles(codes@).take(k as int));
    }
    assert(packed_nibbles(codes@).take(k as int) =~= packed_nibbles(codes@));
}

/// Appends two-bit codes, four to a byte.
pub fn push_crumbs(out: &mut Vec<u8>, codes: &Vec<u8>)
    requires
        codes_below(codes@, 4),
    ensures
        final(out)@ == old(out)@ + packed_crumbs(codes@),
{
    let ghost before = out@;
    let quads: usize = codes.len() / 4;
    let mut k: usize = 0;
    while k < quads
        invariant
            k <= quads,
            quads == codes.len() / 4,
            codes_below(codes@, 4),
            out@ == before + packed_crumbs(codes@).take(k as int),
        decreases quads - k,
    {
        let a: u8 = codes[4 * k];
        let b: u8 = codes[4 * k + 1];
        let c: u8 = codes[4 * k + 2];
        let d: u8 = codes[4 * k + 3];
        out.push(a + 4 * b + 16 * c + 64 * d);
        k += 1;
        assert(out@ =~= before + packed_crumbs(codes@).take(k as int));
    }
    assert(packed_crumbs(codes@).take(k as int) =~= packed_crumbs(codes@));
}

/// Lays out a quantized key record from its codes, scales and zero points.
pub fn assemble_key_record(
    codes: &Vec<u8>,
    s_col: &Vec<u16>,
    zero_points: &Vec<u16>,
    s_row: &Vec<u16>,
    head_dim: usize,
    block_size: usize,
) -> (record: Result<Vec<u8>, KvarnLayoutError>)
    requires
        codes.len() == head_dim * block_size,
        codes_below(codes@, 16),
        s_col.len() == head_dim,
        zero_points.len() == head_dim,
        s_row.len() == block_size,
    ensures
        match record {
            Ok(bytes) => {
                &&& shape_fault(head_dim, block_size) is None
                &&& bytes@ == key_record(codes@, s_col@, zero_points@, s_row@)
                &&& bytes.len() == key_record_len(head_dim as int, block_size as int)
            },
            Err(fault) => shape_fault(head_dim, block_size) == Some(fault),
        },
{
    crate::kvarn::layout::validate_shape(head_dim, block_size)?;
    proof {
        key_record_len_is_linear(head_dim as int);
        assert(codes.len() == head_dim * 128);
    }
    let mut out: Vec<u8> = Vec::new();
    out.push(STATUS_QUANTIZED);
    assert(out@ =~= seq![STATUS_QUANTIZED]);
    push_nibbles(&mut out, codes);
    push_halves(&mut out, s_col);
    push_halves(&mut out, zero_points);
    push_halves(&mut out, s_row);
    Ok(out)
}

/// Lays out a quantized value record from its codes, scales and zero points.
pub fn assemble_value_record(
    codes: &Vec<u8>,
    s_col: &Vec<u16>,
    s_row: &Vec<u16>,
    zero_points: &Vec<u16>,
    head_dim: usize,
    block_size: usize,
) -> (record: Result<Vec<u8>, KvarnLayoutError>)
    requires
        codes.len() == block_size * head_dim,
        codes_below(codes@, 4),
        s_col.len() == head_dim,
        s_row.len() == block_size,
        zero_points.len() == block_size,
    ensures
        match record {
            Ok(bytes) => {
                &&& shape_fault(head_dim, block_size) is None
                &&& bytes@ == value_record(codes@, s_col@, s_row@, zero_points@)
                &&& bytes.len() == value_record_len(head_dim as int, block_size as int)
            },
            Err(fault) => shape_fault(head_dim, block_size) == Some(fault),
        },
{
    crate::kvarn::layout::validate_shape(head_dim, block_size)?;
    proof {
        value_record_len_is_linear(head_dim as int);
        assert(codes.len() == 128 * head_dim);
    }
    let mut out: Vec<u8> = Vec::new();
    out.push(STATUS_QUANTIZED);
    assert(out@ =~= seq![STATUS_QUANTIZED]);
    push_crumbs(&mut out, codes);
    push_halves(&mut out, s_col);
    push_halves(&mut out, s_row);
    push_halves(&mut out, zero_points);
    Ok(out)
}

/// The 16-bit pattern at `offset`, low byte first.
pub fn read_half(bytes: &[u8], offset: usize) -> (half: u16)
    requires
        offset + 1 < bytes.len(),
    ensures
        half == half_at(bytes@, offset as int),
{
    bytes[offset] as u16 + 256 * bytes[offset + 1] as u16
}

/// What a quantized key record says of one token: its code, column scale and zero point in
/// each dimension, and its row scale.
pub struct KeyRowCodes {
    pub codes: Vec<u8>,
    pub s_col: Vec<u16>,
    pub zero_points: Vec<u16>,
    pub s_row: u16,
}

/// What a quantized value record says of one token: its code and column scale in each
/// dimension, its row scale and its zero point.
pub struct ValueRowCodes {
    pub codes: Vec<u8>,
    pub s_col: Vec<u16>,
    pub s_row: u16,
    pub zero_point: u16,
}

/// Reads one token out of a quantized key record.
pub fn read_key_row(
    record: &[u8],
    head_dim: usize,
    token: usize,
) -> (row: KeyRowCodes)
    requires
        shape_fault(head_dim, KVARN_GROUP) is None,
        record.len() == key_record_len(head_dim as int, KVARN_GROUP as int),
        token < KVARN_GROUP,
    ensures
        row.codes.len() == head_dim,
        row.s_col.len() == head_dim,
        row.zero_points.len() == head_dim,
        forall|dim: int|
            0 <= dim < head_dim ==> {
                &&& #[trigger] row.codes@[dim] == nibble_of(
                    record@[1 + dim * 64 + token as int / 2],
                    token as int % 2,
                )
                &&& row.s_col@[dim] == half_at(record@, 1 + 64 * head_dim + 2 * dim)
                &&& row.zero_points@[dim] == half_at(record@, 1 + 66 * head_dim + 2 * dim)
            },
        row.s_row == half_at(record@, 1 + 68 * head_dim + 2 * token),
{
    proof {
        key_record_len_is_linear(head_dim as int);
    }
    let (packed_offset, s_col_offset, zp_offset, s_row_offset) = key_offsets(head_dim, KVARN_GROUP);
    let pack: usize = 8 / KVARN_KEY_BITS;
    let row_packed_bytes: usize = KVARN_GROUP / pack;
    let s_row: u16 = read_half(record, s_row_offset + token * 2);
    let mut codes: Vec<u8> = Vec::new();
    let mut s_col: Vec<u16> = Vec::new();
    let mut zero_points: Vec<u16> = Vec::new();
    let mut dim: usize = 0;
    while dim < head_dim
        invariant
            dim <= head_dim,
            pack == 2,
            row_packed_bytes == 64,
            packed_offset == 1,
            s_col_offset == 1 + 64 * head_dim,
            zp_offset == 1 + 66 * head_dim,
            record.len() == 257 + 68 * head_dim,
            token < 128,
            codes.len() == dim,
            s_col.len() == dim,
            zero_points.len() == dim,
            forall|d: int|
                0 <= d < dim ==> {
                    &&& #[trigger] codes@[d] == nibble_of(
                        record@[1 + d * 64 + token as int / 2],
                        token as int % 2,
                    )
                    &&& s_col@[d] == half_at(record@, 1 + 64 * head_dim + 2 * d)
                    &&& zero_points@[d] == half_at(record@, 1 + 66 * head_dim + 2 * d)
                },
        decreases head_dim - dim,
    {
        assert(dim * row_packed_bytes == dim * 64 && dim * row_packed_bytes + 64 <= 64 * head_dim)
            by (nonlinear_arith)
            requires
                row_packed_bytes == 64,
                dim + 1 <= head_dim,
        ;
        let byte: u8 = record[packed_offset + dim * row_packed_bytes + token / pack];
        assert(byte == record@[1 + dim * 64 + token as int / 2]);
        let code: u8 = if token % pack == 0 {
            byte % 16
        } else {
            byte / 16
        };
        codes.push(code);
        s_col.push(read_half(record, s_col_offset + dim * 2));
        zero_points.push(read_half(record, zp_offset + dim * 2));
        dim += 1;
    }
    assert(dim == head_dim);
    let row: KeyRowCodes = KeyRowCodes { codes, s_col, zero_points, s_row };
    assert forall|d: int| 0 <= d < head_dim implies {
        &&& #[trigger] row.codes@[d] == nibble_of(
            record@[1 + d * 64 + token as int / 2],
            token as int % 2,
        )
        &&& row.s_col@[d] == half_at(record@, 1 + 64 * head_dim + 2 * d)
        &&& row.zero_points@[d] == half_at(record@, 1 + 66 * head_dim + 2 * d)
    } by {
        assert(row.codes@[d] == codes@[d]);
    }
    row
}

/// Reads one token out of a quantized value record.
pub fn read_value_row(
    record: &[u8],
    head_dim: usize,
    token: usize,
) -> (row: ValueRowCodes)
    requires
        shape_fault(head_dim, KVARN_GROUP) is None,
        record.len() == value_record_len(head_dim as int, KVARN_GROUP as int),
        token < KVARN_GROUP,
    ensures
        row.codes.len() == head_dim,
        row.s_col.len() == head_dim,
        forall|dim: int|
            0 <= dim < head_dim ==> {
                &&& #[trigger] row.codes@[dim] == crumb_of(
                    record@[1 + token * (head_dim as int / 4) + dim / 4],
                    dim % 4,
                )
                &&& row.s_col@[dim] == half_at(record@, 1 + 32 * head_dim + 2 * dim)
            },
        row.s_row == half_at(record@, 1 + 34 * head_dim + 2 * token),
        row.zero_point == half_at(record@, 1 + 34 * head_dim + 256 + 2 * token),
{
    proof {
        value_record_len_is_linear(head_dim as int);
    }
    let (packed_offset, s_col_offset, s_row_offset, zp_offset) = value_offsets(
        head_dim,
        KVARN_GROUP,
    );
    let pack: usize = 8 / KVARN_VALUE_BITS;
    let row_packed_bytes: usize = head_dim / pack;
    let s_row: u16 = read_half(record, s_row_offset + token * 2);
    let zero_point: u16 = read_half(record, zp_offset + token * 2);
    proof {
        assert(token * (head_dim as int / 4) + head_dim as int / 4 <= 32 * head_dim)
            by (nonlinear_arith)
            requires
                token + 1 <= 128,
                head_dim % 4 == 0,
        ;
    }
    let mut codes: Vec<u8> = Vec::new();
    let mut s_col: Vec<u16> = Vec::new();
    let mut dim: usize = 0;
    while dim < head_dim
        invariant
            dim <= head_dim,
            head_dim % 4 == 0,
            pack == 4,
            row_packed_bytes == head_dim / 4,
            packed_offset == 1,
            s_col_offset == 1 + 32 * head_dim,
            record.len() == 513 + 34 * head_dim,
            token < 128,
            token * (head_dim as int / 4) + head_dim as int / 4 <= 32 * head_dim,
            codes.len() == dim,
            s_col.len() == dim,
            forall|d: int|
                0 <= d < dim ==> {
                    &&& #[trigger] codes@[d] == crumb_of(
                        record@[1 + token * (head_dim as int / 4) + d / 4],
                        d % 4,
                    )
                    &&& s_col@[d] == half_at(record@, 1 + 32 * head_dim + 2 * d)
                },
        decreases head_dim - dim,
    {
        let byte: u8 = record[packed_offset + token * row_packed_bytes + dim / pack];
        let slot: usize = dim % pack;
        let code: u8 = if slot == 0 {
            byte % 4
        } else if slot == 1 {
            byte / 4 % 4
        } else if slot == 2 {
            byte / 16 % 4
        } else {
            byte / 64
        };
        codes.push(code);
        s_col.push(read_half(record, s_col_offset + dim * 2));
        dim += 1;
    }
    ValueRowCodes { codes, s_col, s_row, zero_point }
}

/// A quantized key record gives back what it was laid out from: the code of every dimension
/// and token, the two scales and the zero point.
pub proof fn key_record_reads_back(
    codes: Seq<u8>,
    s_col: Seq<u16>,
    zero_points: Seq<u16>,
    s_row: Seq<u16>,
    head_dim: int,
    dim: int,
    token: int,
)
    requires
        codes.len() == head_dim * 128,
        codes_below(codes, 16),
        s_col.len() == head_dim,
        zero_points.len() == head_dim,
        s_row.len() == 128,
        0 <= dim < head_dim,
        0 <= token < 128,
    ensures
        ({
            let record = key_record(codes, s_col, zero_points, s_row);
            &&& record[0] == STATUS_QUANTIZED
            &&& nibble_of(record[1 + dim * 64 + token / 2], token % 2) == codes[dim * 128 + token]
            &&& half_at(record, 1 + 64 * head_dim + 2 * dim) == s_col[dim]
            &&& half_at(record, 1 + 66 * head_dim + 2 * dim) == zero_points[dim]
            &&& half_at(record, 1 + 68 * head_dim + 2 * token) == s_row[token]
        }),
{
    let record = key_record(codes, s_col, zero_points, s_row);
    let k = dim * 64 + token / 2;
    assert(0 <= k < codes.len() / 2);
    assert(record[1 + k] == packed_nibbles(codes)[k]);
    assert(codes[2 * k] < 16 && codes[2 * k + 1] < 16);
    assert(record[1 + 64 * head_dim + 2 * dim] == le_halves(s_col)[2 * dim]);
    assert(record[1 + 64 * head_dim + 2 * dim + 1] == le_halves(s_col)[2 * dim + 1]);
    assert(record[1 + 66 * head_dim + 2 * dim] == le_halves(zero_points)[2 * dim]);
    assert(record[1 + 66 * head_dim + 2 * dim + 1] == le_halves(zero_points)[2 * dim + 1]);
    assert(record[1 + 68 * head_dim + 2 * token] == le_halves(s_row)[2 * token]);
    assert(record[1 + 68 * head_dim + 2 * token + 1] == le_halves(s_row)[2 * token + 1]);
}

/// A quantized value record gives back what it was laid out from: the code of every token and
/// dimension, the two scales and the zero point.
pub proof fn value_record_reads_back(
    codes: Seq<u8>,
    s_col: Seq<u16>,
    s_row: Seq<u16>,
    zero_points: Seq<u16>,
    head_dim: int,
    token: int,
    dim: int,
)
    requires
        head_dim % 4 == 0,
        codes.len() == 128 * head_dim,
        codes_below(codes, 4),
        s_col.len() == head_dim,
        s_row.len() == 128,
        zero_points.len() == 128,
        0 <= dim < head_dim,
        0 <= token < 128,
    ensures
        ({
            let record = value_record(codes, s_col, s_row, zero_points);
            &&& record[0] == STATUS_QUANTIZED
            &&& crumb_of(record[1 + token * (head_dim / 4) + dim / 4], dim % 4) == codes[token
                * head_dim + dim]
            &&& half_at(record, 1 + 32 * head_dim + 2 * dim) == s_col[dim]
            &&& half_at(record, 1 + 34 * head_dim + 2 * token) == s_row[token]
            &&& half_at(record, 1 + 34 * head_dim + 256 + 2 * token) == zero_points[token]
        }),
{
    let record = value_record(codes, s_col, s_row, zero_points);
    let k = token * (head_dim / 4) + dim / 4;
    let quarter = head_dim / 4;
    assert(head_dim == 4 * quarter);
    assert(4 * k + dim % 4 == token * head_dim + dim) by (nonlinear_arith)
        requires
            k == token * quarter + dim / 4,
            head_dim == 4 * quarter,
    ;
    assert(0 <= k < codes.len() / 4) by (nonlinear_arith)
        requires
            k == token * quarter + dim / 4,
            codes.len() == 128 * head_dim,
            head_dim == 4 * quarter,
            0 <= token < 128,
            0 <= dim < head_dim,
    ;
    assert(record[1 + k] == packed_crumbs(codes)[k]);
    assert(codes[4 * k] < 4 && codes[4 * k + 1] < 4 && codes[4 * k + 2] < 4 && codes[4 * k + 3]
        < 4);
    assert(record[1 + 32 * head_dim + 2 * dim] == le_halves(s_col)[2 * dim]);
    assert(record[1 + 32 * head_dim + 2 * dim + 1] == le_halves(s_col)[2 * dim + 1]);
    assert(record[1 + 34 * head_dim + 2 * token] == le_halves(s_row)[2 * token]);
    assert(record[1 + 34 * head_dim + 2 * token + 1] == le_halves(s_row)[2 * token + 1]);
    assert(record[1 + 34 * head_dim + 256 + 2 * token] == le_halves(zero_points)[2 * token]);
    assert(record[1 + 34 * head_dim + 256 + 2 * token + 1] == le_halves(zero_points)[2 * token
        + 1]);
}

/// The bytes of a quantized key record: a status of one, then for each dimension a byte for each
/// two tokens with the earlier one in the low half, then the column scales, the zero points and
/// the row scales, low byte first.
pub proof fn key_record_bytes_are_its_parts(
    codes: Seq<u8>,
    s_col: Seq<u16>,
    zero_points: Seq<u16>,
    s_row: Seq<u16>,
    head_dim: int,
    dim: int,
    pair: int,
    token: int,
)
    requires
        codes.len() == head_dim * 128,
        codes_below(codes, 16),
        s_col.len() == head_dim,
        zero_points.len() == head_dim,
        s_row.len() == 128,
        0 <= dim < head_dim,
        0 <= pair < 64,
        0 <= token < 128,
    ensures
        ({
            let record = key_record(codes, s_col, zero_points, s_row);
            let scales = 1 + 64 * head_dim;
            &&& record.len() == 257 + 68 * head_dim
            &&& record[0] == 1
            &&& record[1 + 64 * dim + pair] == codes[128 * dim + 2 * pair] + 16 * codes[128 * dim
                + 2 * pair + 1]
            &&& record[scales + 2 * dim] + 256 * record[scales + 2 * dim + 1] == s_col[dim]
            &&& record[scales + 2 * head_dim + 2 * dim] + 256 * record[scales + 2 * head_dim + 2
                * dim + 1] == zero_points[dim]
            &&& record[scales + 4 * head_dim + 2 * token] + 256 * record[scales + 4 * head_dim + 2
                * token + 1] == s_row[token]
        }),
{
    let record = key_record(codes, s_col, zero_points, s_row);
    key_record_reads_back(codes, s_col, zero_points, s_row, head_dim, dim, token);
    let k = 64 * dim + pair;
    assert(record[1 + k] == packed_nibbles(codes)[k]);
    assert(codes[2 * k] < 16 && codes[2 * k + 1] < 16);
}

/// The bytes of a quantized value record: a status of one, then for each token a byte for each
/// four dimensions with the earliest one in the lowest bits, then the column scales, the row
/// scales and the zero points, low byte first.
pub proof fn value_record_bytes_are_its_parts(
    codes: Seq<u8>,
    s_col: Seq<u16>,
    s_row: Seq<u16>,
    zero_points: Seq<u16>,
    quarter: int,
    token: int,
    quad: int,
    dim: int,
)
    requires
        codes.len() == 128 * (4 * quarter),
        codes_below(codes, 4),
        s_col.len() == 4 * quarter,
        s_row.len() == 128,
        zero_points.len() == 128,
        0 <= token < 128,
        0 <= quad < quarter,
        0 <= dim < 4 * quarter,
    ensures
        ({
            let record = value_record(codes, s_col, s_row, zero_points);
            let first = token * (4 * quarter) + 4 * quad;
            let scales = 1 + 128 * quarter;
            &&& record.len() == 513 + 136 * quarter
            &&& record[0] == 1
            &&& record[1 + token * quarter + quad] == codes[first] + 4 * codes[first + 1] + 16
                * codes[first + 2] + 64 * codes[first + 3]
            &&& record[scales + 2 * dim] + 256 * record[scales + 2 * dim + 1] == s_col[dim]
            &&& record[scales + 8 * quarter + 2 * token] + 256 * record[scales + 8 * quarter + 2
                * token + 1] == s_row[token]
            &&& record[scales + 8 * quarter + 256 + 2 * token] + 256 * record[scales + 8 * quarter
                + 256 + 2 * token + 1] == zero_points[token]
        }),
{
    let record = value_record(codes, s_col, s_row, zero_points);
    value_record_reads_back(codes, s_col, s_row, zero_points, 4 * quarter, token, dim);
    let k = token * quarter + quad;
    assert(4 * k == token * (4 * quarter) + 4 * quad) by (nonlinear_arith)
        requires
            k == token * quarter + quad,
    ;
    assert(0 <= k < 128 * quarter) by (nonlinear_arith)
        requires
            k == token * quarter + quad,
            0 <= token < 128,
            0 <= quad < quarter,
    ;
    assert(record[1 + k] == packed_crumbs(codes)[k]);
    assert(codes[4 * k] < 4 && codes[4 * k + 1] < 4 && codes[4 * k + 2] < 4 && codes[4 * k + 3]
        < 4);
}

/// The codes that are read from a byte make it up, the first one in the lowest bits, and so do
/// the bytes of a 16-bit pattern.
pub proof fn codes_make_up_their_byte(byte: u8, bytes: Seq<u8>, at: int)
    ensures
        byte == nibble_of(byte, 0) + 16 * nibble_of(byte, 1),
        0 <= nibble_of(byte, 0) < 16,
        0 <= nibble_of(byte, 1) < 16,
        byte == crumb_of(byte, 0) + 4 * crumb_of(byte, 1) + 16 * crumb_of(byte, 2) + 64 * crumb_of(
            byte,
            3,
        ),
        forall|slot: int| 0 <= slot < 4 ==> 0 <= #[trigger] crumb_of(byte, slot) < 4,
        half_at(bytes, at) % 256 == bytes[at],
        half_at(bytes, at) / 256 == bytes[at + 1],
{
}

} // verus!
