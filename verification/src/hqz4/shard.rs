//! Cutting matrices into parts that are decoded on their own.
use crate::hqz4::codes::code_at;
use crate::hqz4::tensor::{
    layout_fault, layout_facts, parts_fault, Hqz4Config, Hqz4Error, Hqz4Tensor,
};
use crate::float_bits::is_zero;
use vstd::prelude::*;

verus! {

/// What is wrong with a cut, in the order in which it is looked at. The whole of a dimension
/// can always be had.
pub open spec fn shard_fault(full: Hqz4Tensor, dim: usize, start: usize, len: usize) -> Option<
    Hqz4Error,
> {
    let size = if dim == 0 {
        full.rows
    } else {
        full.cols
    };
    let gs = full.group_size as int;
    if dim > 1 {
        Some(Hqz4Error::ShardDim { dim })
    } else if start + len > usize::MAX {
        Some(Hqz4Error::ShardOverflow)
    } else if start + len > size {
        Some(Hqz4Error::ShardRange { dim, start, end: (start + len) as usize, size })
    } else if start == 0 && len == size {
        None
    } else if dim == 1 && (start as int % gs != 0 || len as int % gs != 0) {
        Some(
            Hqz4Error::ShardAlignment {
                start,
                end: (start + len) as usize,
                group_size: full.group_size,
            },
        )
    } else if len == 0 {
        Some(Hqz4Error::EmptyMatrix)
    } else {
        None
    }
}

/// Whether `part` is the rows of `full` from `start` on.
pub open spec fn is_row_shard(full: Hqz4Tensor, part: Hqz4Tensor, start: int, len: int) -> bool {
    &&& part.rows == len
    &&& part.cols == full.cols
    &&& part.group_size == full.group_size
    &&& part.group_offset == full.group_offset
    &&& part.seed == full.seed
    &&& forall|r: int, c: int|
        0 <= r < len && 0 <= c < full.cols ==> #[trigger] part.code(r, c) == full.code(
            start + r,
            c,
        )
    &&& forall|r: int, g: int|
        0 <= r < len && 0 <= g < full.groups() ==> #[trigger] part.scale(r, g) == full.scale(
            start + r,
            g,
        )
}

/// Whether `part` is the columns of `full` from `start` on. Its groups keep the places that they
/// have in the whole.
pub open spec fn is_column_shard(full: Hqz4Tensor, part: Hqz4Tensor, start: int, len: int) -> bool {
    let first = start / full.group_size as int;
    &&& part.rows == full.rows
    &&& part.cols == len
    &&& part.group_size == full.group_size
    &&& part.group_offset == full.group_offset + first
    &&& part.seed == full.seed
    &&& forall|r: int, c: int|
        0 <= r < full.rows && 0 <= c < len ==> #[trigger] part.code(r, c) == full.code(
            r,
            start + c,
        )
    &&& forall|r: int, g: int|
        0 <= r < full.rows && 0 <= g < part.groups() ==> #[trigger] part.scale(r, g)
            == full.scale(r, first + g)
}

/// Codes that lie in equal bytes are equal.
proof fn equal_bytes_equal_codes(full: Seq<u8>, part: Seq<u8>, from: int, to: int, count: int)
    requires
        from % 2 == 0,
        to % 2 == 0,
        count % 2 == 0,
        0 <= from,
        0 <= to,
        forall|b: int| 0 <= b < count / 2 ==> #[trigger] part[to / 2 + b] == full[from / 2 + b],
    ensures
        forall|j: int| 0 <= j < count ==> #[trigger] code_at(part, to + j) == code_at(full, from + j),
{
    assert forall|j: int| 0 <= j < count implies #[trigger] code_at(part, to + j) == code_at(
        full,
        from + j,
    ) by {
        assert((to + j) / 2 == to / 2 + j / 2);
        assert((from + j) / 2 == from / 2 + j / 2);
        assert((to + j) % 2 == (from + j) % 2);
        assert(part[to / 2 + j / 2] == full[from / 2 + j / 2]);
    }
}

/// Where an element lies: its row and column give back its index.
proof fn split_index(i: int, width: int, count: int)
    requires
        0 < width,
        0 <= i < count * width,
    ensures
        0 <= i / width < count,
        0 <= i % width < width,
        i == (i / width) * width + i % width,
{
    vstd::arithmetic::div_mod::lemma_fundamental_div_mod(i, width);
    let q = i / width;
    assert(i == q * width + i % width) by (nonlinear_arith)
        requires
            i == width * q + i % width,
    ;
    assert(0 <= q < count) by (nonlinear_arith)
        requires
            i == q * width + i % width,
            0 <= i % width < width,
            0 <= i < count * width,
    ;
}

/// The group of an element: groups do not reach over the end of a row.
proof fn group_of_element(row: int, col: int, groups: int, gs: int)
    requires
        0 <= row,
        0 < gs,
        0 <= col < groups * gs,
    ensures
        (row * (groups * gs) + col) / gs == row * groups + col / gs,
        0 <= col / gs < groups,
{
    split_index(col, gs, groups);
    let q = col / gs;
    let r = col % gs;
    assert(row * (groups * gs) + col == (row * groups + q) * gs + r) by (nonlinear_arith)
        requires
            col == q * gs + r,
    ;
    vstd::arithmetic::div_mod::lemma_fundamental_div_mod_converse(
        row * (groups * gs) + col,
        gs,
        row * groups + q,
        r,
    );
}

/// A valid matrix holds the rules element by element.
proof fn valid_element(full: Hqz4Tensor, row: int, col: int)
    requires
        full.wf(),
        0 <= row < full.rows,
        0 <= col < full.cols,
    ensures
        0 <= row * full.cols + col < full.rows * full.cols,
        full.code(row, col) >= -7,
        is_zero(full.scale(row, col / full.group_size as int)) ==> full.code(row, col) == 0,
{
    layout_facts(full.rows, full.cols, full.group_size);
    let i = row * full.cols + col;
    assert(0 <= i < full.rows * full.cols) by (nonlinear_arith)
        requires
            i == row * full.cols + col,
            0 <= row < full.rows,
            0 <= col < full.cols,
    ;
    group_of_element(row, col, full.groups(), full.group_size as int);
    assert(code_at(full.codes@, i) >= -7);
    assert(i / full.group_size as int == row * full.groups() + col / full.group_size as int);
}

/// Parts that hold the elements of a valid matrix, row by row, are valid.
proof fn part_is_valid(
    full: Hqz4Tensor,
    rows: usize,
    cols: usize,
    group_offset: usize,
    scales: Seq<u32>,
    codes: Seq<u8>,
    first_row: int,
    first_col: int,
)
    requires
        full.wf(),
        layout_fault(rows, cols, full.group_size) is None,
        group_offset + cols as int / full.group_size as int <= usize::MAX,
        0 <= first_row,
        first_row + rows <= full.rows,
        0 <= first_col,
        first_col + cols <= full.cols,
        first_col % full.group_size as int == 0,
        scales.len() == rows * (cols as int / full.group_size as int),
        codes.len() == rows * cols / 2,
        forall|r: int, c: int|
            0 <= r < rows && 0 <= c < cols ==> #[trigger] code_at(codes, r * cols + c)
                == full.code(first_row + r, first_col + c),
        forall|r: int, g: int|
            0 <= r < rows && 0 <= g < cols as int / full.group_size as int ==> scales[#[trigger] (r
                * (cols as int / full.group_size as int) + g)] == full.scale(
                first_row + r,
                first_col / full.group_size as int + g,
            ),
    ensures
        parts_fault(rows, cols, full.group_size, group_offset, scales, codes) is None,
{
    let gs = full.group_size as int;
    let groups = cols as int / gs;
    let first_group = first_col / gs;
    layout_facts(rows, cols, full.group_size);
    layout_facts(full.rows, full.cols, full.group_size);
    vstd::arithmetic::div_mod::lemma_fundamental_div_mod(first_col, gs);
    assert(first_col == first_group * gs) by (nonlinear_arith)
        requires
            first_col == gs * first_group,
    ;
    assert(0 <= first_group && first_group + groups <= full.groups()) by (nonlinear_arith)
        requires
            first_col == first_group * gs,
            first_col + cols <= full.cols,
            0 <= first_col,
            cols == groups * gs,
            full.cols == full.groups() * gs,
            gs >= 1,
    ;
    assert forall|k: int| 0 <= k < scales.len() implies crate::float_bits::is_finite(
        #[trigger] scales[k],
    ) && !crate::float_bits::is_below_zero(scales[k]) by {
        split_index(k, groups, rows as int);
        let r = k / groups;
        let g = k % groups;
        assert(scales[r * groups + g] == full.scale(first_row + r, first_group + g));
        let at = (first_row + r) * full.groups() + (first_group + g);
        assert(0 <= at < full.scales.len()) by (nonlinear_arith)
            requires
                at == (first_row + r) * full.groups() + (first_group + g),
                0 <= first_row,
                0 <= r,
                first_row + r + 1 <= full.rows,
                0 <= first_group + g < full.groups(),
                full.scales.len() == full.rows * full.groups(),
        ;
        assert(crate::float_bits::is_finite(full.scales@[at]));
    }
    assert forall|i: int| 0 <= i < rows * cols implies #[trigger] code_at(codes, i) >= -7 && (
    is_zero(scales[i / gs]) ==> code_at(codes, i) == 0) by {
        split_index(i, cols as int, rows as int);
        let r = i / cols as int;
        let c = i % cols as int;
        assert(code_at(codes, r * cols + c) == full.code(first_row + r, first_col + c));
        valid_element(full, first_row + r, first_col + c);
        group_of_element(r, c, groups, gs);
        assert(scales[r * groups + c / gs] == full.scale(first_row + r, first_group + c / gs));
        assert((first_col + c) / gs == first_group + c / gs) by {
            split_index(c, gs, groups);
            assert(first_col + c == (first_group + c / gs) * gs + c % gs) by (nonlinear_arith)
                requires
                    first_col == first_group * gs,
                    c == (c / gs) * gs + c % gs,
            ;
            vstd::arithmetic::div_mod::lemma_fundamental_div_mod_converse(
                first_col + c,
                gs,
                first_group + c / gs,
                c % gs,
            );
        }
    }
}

fn push_bytes(out: &mut Vec<u8>, data: &Vec<u8>, start: usize, count: usize)
    requires
        start + count <= data.len(),
    ensures
        final(out)@ == old(out)@ + data@.subrange(start as int, start + count),
{
    let ghost before = out@;
    let mut i: usize = 0;
    while i < count
        invariant
            i <= count,
            start + count <= data.len(),
            out@ == before + data@.subrange(start as int, start + i),
        decreases count - i,
    {
        out.push(data[start + i]);
        i += 1;
        assert(out@ =~= before + data@.subrange(start as int, start + i));
    }
}

fn push_words(out: &mut Vec<u32>, data: &Vec<u32>, start: usize, count: usize)
    requires
        start + count <= data.len(),
    ensures
        final(out)@ == old(out)@ + data@.subrange(start as int, start + count),
{
    let ghost before = out@;
    let mut i: usize = 0;
    while i < count
        invariant
            i <= count,
            start + count <= data.len(),
            out@ == before + data@.subrange(start as int, start + i),
        decreases count - i,
    {
        out.push(data[start + i]);
        i += 1;
        assert(out@ =~= before + data@.subrange(start as int, start + i));
    }
}

impl Hqz4Tensor {
    fn copy(&self) -> (copy: Self)
        ensures
            copy.rows == self.rows,
            copy.cols == self.cols,
            copy.group_size == self.group_size,
            copy.group_offset == self.group_offset,
            copy.seed == self.seed,
            copy.scales@ == self.scales@,
            copy.codes@ == self.codes@,
    {
        Hqz4Tensor {
            rows: self.rows,
            cols: self.cols,
            group_size: self.group_size,
            group_offset: self.group_offset,
            seed: self.seed,
            scales: self.scales.clone(),
            codes: self.codes.clone(),
        }
    }

    fn shard_rows(&self, start: usize, len: usize) -> (part: Result<Self, Hqz4Error>)
        requires
            self.wf(),
            start + len <= self.rows,
            0 < len,
        ensures
            part matches Ok(p) && p.wf() && is_row_shard(*self, p, start as int, len as int),
    {
        let groups: usize = self.cols / self.group_size;
        let bytes: usize = self.cols / 2;
        let ghost gs = self.group_size as int;
        proof {
            layout_facts(self.rows, self.cols, self.group_size);
            let half = self.cols as int / 2;
            assert(self.cols == 2 * half);
            assert(start * half + len * half <= self.rows * half && start * half >= 0 && len * half
                >= 0) by (nonlinear_arith)
                requires
                    start + len <= self.rows,
                    half >= 0,
                    start >= 0,
                    len >= 0,
            ;
            assert(self.rows * self.cols == 2 * (self.rows * half)) by (nonlinear_arith)
                requires
                    self.cols == 2 * half,
            ;
            assert(start * groups + len * groups <= self.rows * groups && start * groups >= 0 && len
                * groups >= 0) by (nonlinear_arith)
                requires
                    start + len <= self.rows,
                    groups >= 0,
                    start >= 0,
                    len >= 0,
            ;
            assert(len * self.cols == 2 * (len * half)) by (nonlinear_arith)
                requires
                    self.cols == 2 * half,
            ;
        }
        let mut codes: Vec<u8> = Vec::new();
        let mut scales: Vec<u32> = Vec::new();
        push_bytes(&mut codes, &self.codes, start * bytes, len * bytes);
        push_words(&mut scales, &self.scales, start * groups, len * groups);
        assert(codes@ =~= self.codes@.subrange(start * bytes, start * bytes + len * bytes));
        assert(scales@ =~= self.scales@.subrange(start * groups, start * groups + len * groups));
        proof {
            assert(start * self.cols == 2 * (start * bytes)) by (nonlinear_arith)
                requires
                    self.cols == 2 * bytes,
            ;
            assert forall|b: int| 0 <= b < (len * self.cols) / 2 implies #[trigger] codes@[0int / 2
                + b] == self.codes@[(start * self.cols) / 2 + b] by {}
            equal_bytes_equal_codes(
                self.codes@,
                codes@,
                start * self.cols,
                0,
                len * self.cols,
            );
            assert forall|r: int, c: int|
                0 <= r < len && 0 <= c < self.cols implies #[trigger] code_at(
                codes@,
                r * self.cols + c,
            ) == self.code(start + r, 0 + c) by {
                let j = r * self.cols + c;
                assert(0 <= j < len * self.cols) by (nonlinear_arith)
                    requires
                        j == r * self.cols + c,
                        0 <= r < len,
                        0 <= c < self.cols,
                ;
                assert(code_at(codes@, 0 + j) == code_at(self.codes@, start * self.cols + j));
                assert(start * self.cols + j == (start + r) * self.cols + c) by (nonlinear_arith)
                    requires
                        j == r * self.cols + c,
                ;
            }
            assert forall|r: int, g: int|
                0 <= r < len && 0 <= g < self.groups() implies scales@[#[trigger] (r
                * self.groups() + g)] == self.scale(start + r, 0int / gs + g) by {
                let k = r * self.groups() + g;
                assert(0 <= k < len * self.groups()) by (nonlinear_arith)
                    requires
                        k == r * self.groups() + g,
                        0 <= r < len,
                        0 <= g < self.groups(),
                ;
                assert(start * self.groups() + k == (start + r) * self.groups() + g)
                    by (nonlinear_arith)
                    requires
                        k == r * self.groups() + g,
                ;
            }
            assert(len * self.cols <= self.rows * self.cols) by (nonlinear_arith)
                requires
                    len <= self.rows,
                    self.cols >= 0,
            ;
            part_is_valid(
                *self,
                len,
                self.cols,
                self.group_offset,
                scales@,
                codes@,
                start as int,
                0,
            );
        }
        let cfg: Hqz4Config = Hqz4Config { group_size: self.group_size, seed: self.seed };
        let part = Hqz4Tensor::from_parts_at_group_offset(
            (len, self.cols),
            cfg,
            self.group_offset,
            scales,
            codes,
        );
        part
    }

    fn shard_columns(&self, start: usize, len: usize) -> (part: Result<Self, Hqz4Error>)
        requires
            self.wf(),
            start + len <= self.cols,
            start as int % self.group_size as int == 0,
            len as int % self.group_size as int == 0,
            0 < len,
        ensures
            part matches Ok(p) && p.wf() && is_column_shard(*self, p, start as int, len as int),
    {
        let ghost gs = self.group_size as int;
        proof {
            layout_facts(self.rows, self.cols, self.group_size);
            vstd::arithmetic::div_mod::lemma_fundamental_div_mod(start as int, gs);
            vstd::arithmetic::div_mod::lemma_fundamental_div_mod(len as int, gs);
        }
        let groups: usize = self.cols / self.group_size;
        let shard_groups: usize = len / self.group_size;
        let first_group: usize = start / self.group_size;
        let ghost half_len = len as int / 2;
        proof {
            assert(start == first_group * gs && len == shard_groups * gs) by (nonlinear_arith)
                requires
                    start as int == gs * first_group,
                    len as int == gs * shard_groups,
            ;
            let half = gs / 2;
            assert(gs == 2 * half);
            assert(start == 2 * (first_group * half) && len == 2 * (shard_groups * half))
                by (nonlinear_arith)
                requires
                    start == first_group * gs,
                    len == shard_groups * gs,
                    gs == 2 * half,
            ;
            assert(first_group + shard_groups <= groups) by (nonlinear_arith)
                requires
                    start == first_group * gs,
                    len == shard_groups * gs,
                    start + len <= self.cols,
                    self.cols == groups * gs,
                    gs >= 1,
            ;
            assert(shard_groups >= 1) by (nonlinear_arith)
                requires
                    len == shard_groups * gs,
                    len >= 1,
                    gs >= 1,
            ;
        }
        let mut codes: Vec<u8> = Vec::new();
        let mut scales: Vec<u32> = Vec::new();
        let mut row: usize = 0;
        while row < self.rows
            invariant
                row <= self.rows,
                self.wf(),
                gs == self.group_size,
                half_len == len as int / 2,
                len == 2 * half_len,
                start as int % 2 == 0,
                self.cols as int % 2 == 0,
                (self.rows * self.cols) % 2 == 0,
                start + len <= self.cols,
                groups == self.groups(),
                first_group + shard_groups <= groups,
                self.rows * self.cols <= usize::MAX,
                self.rows * groups <= usize::MAX,
                self.codes.len() == self.rows * self.cols / 2,
                self.scales.len() == self.rows * groups,
                codes.len() == row * half_len,
                scales.len() == row * shard_groups,
                forall|r: int, c: int|
                    0 <= r < row && 0 <= c < len ==> #[trigger] code_at(codes@, r * len + c)
                        == self.code(r, start + c),
                forall|r: int, g: int|
                    0 <= r < row && 0 <= g < shard_groups ==> scales@[#[trigger] (r * shard_groups
                        + g)] == self.scale(r, first_group + g),
            decreases self.rows - row,
        {
            let ghost codes_before = codes@;
            let ghost scales_before = scales@;
            let ghost from = row * self.cols + start;
            proof {
                assert(0 <= from && from + len <= self.rows * self.cols) by (nonlinear_arith)
                    requires
                        from == row * self.cols + start,
                        row + 1 <= self.rows,
                        start + len <= self.cols,
                        0 <= start,
                        0 <= row,
                ;
                let half_cols = self.cols as int / 2;
                assert(row * self.cols == 2 * (row * half_cols)) by (nonlinear_arith)
                    requires
                        self.cols == 2 * half_cols,
                ;
                assert(from % 2 == 0);
                assert(from / 2 + half_len <= self.codes.len());
                assert(0 <= row * groups && row * groups + first_group + shard_groups <= self.rows
                    * groups) by (nonlinear_arith)
                    requires
                        row + 1 <= self.rows,
                        first_group + shard_groups <= groups,
                        0 <= row,
                ;
            }
            let code_start: usize = (row * self.cols + start) / 2;
            push_bytes(&mut codes, &self.codes, code_start, len / 2);
            let scale_start: usize = row * groups + first_group;
            push_words(&mut scales, &self.scales, scale_start, shard_groups);
            proof {
                let to = row * len;
                assert(to == 2 * (row * half_len)) by (nonlinear_arith)
                    requires
                        to == row * len,
                        len == 2 * half_len,
                ;
                assert(to >= 0) by (nonlinear_arith)
                    requires
                        to == row * len,
                ;
                assert forall|b: int| 0 <= b < len as int / 2 implies #[trigger] codes@[to / 2 + b]
                    == self.codes@[from / 2 + b] by {
                    assert(codes@[codes_before.len() + b] == self.codes@.subrange(
                        code_start as int,
                        code_start + len as int / 2,
                    )[b]);
                }
                equal_bytes_equal_codes(self.codes@, codes@, from, to, len as int);
                assert forall|r: int, c: int|
                    0 <= r < row + 1 && 0 <= c < len implies #[trigger] code_at(
                    codes@,
                    r * len + c,
                ) == self.code(r, start + c) by {
                    if r == row {
                        assert(code_at(codes@, to + c) == code_at(self.codes@, from + c));
                        assert(row * self.cols + (start + c) == from + c);
                    } else {
                        let j = r * len + c;
                        assert(0 <= j < to) by (nonlinear_arith)
                            requires
                                j == r * len + c,
                                to == row * len,
                                0 <= r,
                                r + 1 <= row,
                                0 <= c < len,
                        ;
                        assert(codes@[j / 2] == codes_before[j / 2]);
                        assert(code_at(codes_before, j) == self.code(r, start + c));
                    }
                }
                assert forall|r: int, g: int|
                    0 <= r < row + 1 && 0 <= g < shard_groups implies scales@[#[trigger] (r
                    * shard_groups + g)] == self.scale(r, first_group + g) by {
                    let k = r * shard_groups + g;
                    if r == row {
                        assert(scales@[k] == self.scales@[scale_start + g]);
                        assert(row * self.groups() + (first_group + g) == scale_start + g);
                    } else {
                        assert(0 <= k < scales_before.len()) by (nonlinear_arith)
                            requires
                                k == r * shard_groups + g,
                                scales_before.len() == row * shard_groups,
                                0 <= r,
                                r + 1 <= row,
                                0 <= g < shard_groups,
                        ;
                        assert(scales@[k] == scales_before[k]);
                        assert(scales_before[r * shard_groups + g] == self.scale(
                            r,
                            first_group + g,
                        ));
                    }
                }
                assert((row + 1) * half_len == row * half_len + half_len) by (nonlinear_arith);
                assert((row + 1) * shard_groups == row * shard_groups + shard_groups)
                    by (nonlinear_arith);
            }
            row += 1;
        }
        let group_offset: usize = self.group_offset + first_group;
        proof {
            assert(self.rows * len == 2 * (self.rows * half_len)) by (nonlinear_arith)
                requires
                    len == 2 * half_len,
            ;
            assert(self.rows * len <= self.rows * self.cols) by (nonlinear_arith)
                requires
                    len <= self.cols,
                    self.rows >= 0,
            ;
            part_is_valid(*self, self.rows, len, group_offset, scales@, codes@, 0, start as int);
        }
        let cfg: Hqz4Config = Hqz4Config { group_size: self.group_size, seed: self.seed };
        Hqz4Tensor::from_parts_at_group_offset(
            (self.rows, len),
            cfg,
            group_offset,
            scales,
            codes,
        )
    }

    /// The rows (`dim` 0) or columns (`dim` 1) from `start` on.
    ///
    /// A part of a valid matrix is valid. Its elements, scales and signs are those of the whole.
    pub fn shard(&self, dim: usize, start: usize, len: usize) -> (part: Result<Self, Hqz4Error>)
        requires
            self.wf(),
        ensures
            match part {
                Ok(p) => {
                    &&& shard_fault(*self, dim, start, len) is None
                    &&& p.wf()
                    &&& if dim == 0 {
                        is_row_shard(*self, p, start as int, len as int)
                    } else {
                        is_column_shard(*self, p, start as int, len as int)
                    }
                },
                Err(e) => shard_fault(*self, dim, start, len) == Some(e),
            },
    {
        if dim > 1 {
            return Err(Hqz4Error::ShardDim { dim });
        }
        let size: usize = if dim == 0 {
            self.rows
        } else {
            self.cols
        };
        let end: usize = match start.checked_add(len) {
            Some(end) => end,
            None => {
                return Err(Hqz4Error::ShardOverflow);
            },
        };
        if end > size {
            return Err(Hqz4Error::ShardRange { dim, start, end, size });
        }
        proof {
            layout_facts(self.rows, self.cols, self.group_size);
        }
        if start == 0 && len == size {
            return Ok(self.copy());
        }
        if dim == 0 {
            if len == 0 {
                return Err(Hqz4Error::EmptyMatrix);
            }
            return self.shard_rows(start, len);
        }
        if start % self.group_size != 0 || len % self.group_size != 0 {
            return Err(Hqz4Error::ShardAlignment { start, end, group_size: self.group_size });
        }
        if len == 0 {
            return Err(Hqz4Error::EmptyMatrix);
        }
        self.shard_columns(start, len)
    }
}

/// The transform flips the same signs in a part as in the whole: a part of the columns does not
/// start the sequence of signs anew.
pub proof fn column_shard_keeps_signs(full: Hqz4Tensor, part: Hqz4Tensor, start: int, len: int, col: int)
    requires
        full.wf(),
        is_column_shard(full, part, start, len),
        start % full.group_size as int == 0,
        0 <= start,
        0 <= col < len,
    ensures
        part.flips(col) == full.flips(start + col),
{
    let gs = full.group_size as int;
    let first = start / gs;
    vstd::arithmetic::div_mod::lemma_fundamental_div_mod(start, gs);
    vstd::arithmetic::div_mod::lemma_fundamental_div_mod(col, gs);
    assert(start + col == (first + col / gs) * gs + col % gs) by (nonlinear_arith)
        requires
            start == gs * first,
            col == gs * (col / gs) + col % gs,
    ;
    vstd::arithmetic::div_mod::lemma_fundamental_div_mod_converse(
        start + col,
        gs,
        first + col / gs,
        col % gs,
    );
}

/// A part of a part is a part of the whole.
pub proof fn column_shards_compose(
    full: Hqz4Tensor,
    outer: Hqz4Tensor,
    inner: Hqz4Tensor,
    outer_start: int,
    outer_len: int,
    inner_start: int,
    inner_len: int,
)
    requires
        full.wf(),
        is_column_shard(full, outer, outer_start, outer_len),
        is_column_shard(outer, inner, inner_start, inner_len),
        outer_start % full.group_size as int == 0,
        inner_start % full.group_size as int == 0,
        0 <= outer_start,
        0 <= inner_start,
        0 <= inner_len,
        inner_len % full.group_size as int == 0,
        outer_len % full.group_size as int == 0,
        inner_start + inner_len <= outer_len,
    ensures
        is_column_shard(full, inner, outer_start + inner_start, inner_len),
{
    let gs = full.group_size as int;
    let a = outer_start / gs;
    let b = inner_start / gs;
    let n = inner_len / gs;
    let m = outer_len / gs;
    vstd::arithmetic::div_mod::lemma_fundamental_div_mod(outer_start, gs);
    vstd::arithmetic::div_mod::lemma_fundamental_div_mod(inner_start, gs);
    vstd::arithmetic::div_mod::lemma_fundamental_div_mod(inner_len, gs);
    vstd::arithmetic::div_mod::lemma_fundamental_div_mod(outer_len, gs);
    assert(outer_start + inner_start == (a + b) * gs) by (nonlinear_arith)
        requires
            outer_start == gs * a,
            inner_start == gs * b,
    ;
    vstd::arithmetic::div_mod::lemma_fundamental_div_mod_converse(
        outer_start + inner_start,
        gs,
        a + b,
        0,
    );
    assert(b + n <= m) by (nonlinear_arith)
        requires
            inner_start == gs * b,
            inner_len == gs * n,
            outer_len == gs * m,
            inner_start + inner_len <= outer_len,
            gs >= 1,
    ;
    assert(b >= 0) by (nonlinear_arith)
        requires
            inner_start == gs * b,
            0 <= inner_start,
            gs >= 1,
    ;
    assert forall|r: int, c: int|
        0 <= r < full.rows && 0 <= c < inner_len implies #[trigger] inner.code(r, c) == full.code(
        r,
        outer_start + inner_start + c,
    ) by {
        assert(inner.code(r, c) == outer.code(r, inner_start + c));
        assert(outer.code(r, inner_start + c) == full.code(r, outer_start + (inner_start + c)));
    }
    assert forall|r: int, g: int|
        0 <= r < full.rows && 0 <= g < inner.groups() implies #[trigger] inner.scale(r, g)
        == full.scale(r, (a + b) + g) by {
        assert(inner.scale(r, g) == outer.scale(r, b + g));
        assert(outer.scale(r, b + g) == full.scale(r, a + (b + g)));
    }
}

/// Rows of rows are rows of the whole.
pub proof fn row_shards_compose(
    full: Hqz4Tensor,
    outer: Hqz4Tensor,
    inner: Hqz4Tensor,
    outer_start: int,
    outer_len: int,
    inner_start: int,
    inner_len: int,
)
    requires
        is_row_shard(full, outer, outer_start, outer_len),
        is_row_shard(outer, inner, inner_start, inner_len),
        0 <= inner_start,
        inner_start + inner_len <= outer_len,
    ensures
        is_row_shard(full, inner, outer_start + inner_start, inner_len),
{
    assert forall|r: int, c: int|
        0 <= r < inner_len && 0 <= c < full.cols implies #[trigger] inner.code(r, c) == full.code(
        outer_start + inner_start + r,
        c,
    ) by {
        assert(inner.code(r, c) == outer.code(inner_start + r, c));
        assert(outer.code(inner_start + r, c) == full.code(outer_start + (inner_start + r), c));
    }
    assert forall|r: int, g: int|
        0 <= r < inner_len && 0 <= g < full.groups() implies #[trigger] inner.scale(r, g)
        == full.scale(outer_start + inner_start + r, g) by {
        assert(inner.scale(r, g) == outer.scale(inner_start + r, g));
        assert(outer.scale(inner_start + r, g) == full.scale(outer_start + (inner_start + r), g));
    }
}

/// A cut is made exactly if it is along one of the two dimensions, inside the matrix, and either
/// the whole of it or not empty and, along the columns, made of whole groups.
pub proof fn cuts_are_made_along_whole_groups(
    full: Hqz4Tensor,
    dim: usize,
    start: usize,
    len: usize,
)
    requires
        full.wf(),
    ensures
        shard_fault(full, dim, start, len) is None <==> {
            let size = if dim == 0 {
                full.rows
            } else {
                full.cols
            };
            &&& dim == 0 || dim == 1
            &&& start + len <= size
            &&& (start == 0 && len == size) || (len > 0 && (dim == 1 ==> (exists|a: int|
                start == #[trigger] (a * full.group_size)) && (exists|b: int|
                len == #[trigger] (b * full.group_size))))
        },
{
    layout_facts(full.rows, full.cols, full.group_size);
    multiples_have_no_rest(start as int, full.group_size as int);
    multiples_have_no_rest(len as int, full.group_size as int);
}

proof fn multiples_have_no_rest(n: int, size: int)
    requires
        size > 0,
    ensures
        n % size == 0 <==> exists|a: int| n == #[trigger] (a * size),
{
    vstd::arithmetic::div_mod::lemma_fundamental_div_mod(n, size);
    let a = n / size;
    if n % size == 0 {
        assert(n == a * size) by (nonlinear_arith)
            requires
                n == size * a,
        ;
    }
    if exists|a: int| n == #[trigger] (a * size) {
        let b = choose|b: int| n == #[trigger] (b * size);
        vstd::arithmetic::div_mod::lemma_fundamental_div_mod_converse(n, size, b, 0);
    }
}

/// A part has the elements, scales and signs of the whole at its place: rows keep their columns
/// and groups, columns their rows, and the groups of a part that begins behind `first` groups
/// are counted on from there.
pub proof fn parts_keep_elements_scales_and_signs(
    full: Hqz4Tensor,
    part: Hqz4Tensor,
    start: int,
    len: int,
    first: int,
    r: int,
    c: int,
    g: int,
)
    requires
        full.wf(),
        0 <= r < part.rows,
        0 <= c < part.cols,
        0 <= g < part.groups(),
    ensures
        is_row_shard(full, part, start, len) ==> {
            &&& part.rows == len
            &&& part.cols == full.cols
            &&& part.code(r, c) == full.code(start + r, c)
            &&& part.scale(r, g) == full.scale(start + r, g)
            &&& part.flips(c) == full.flips(c)
            &&& part.group_offset == full.group_offset
        },
        is_column_shard(full, part, start, len) && start == first * full.group_size && 0 <= start
            ==> {
            &&& part.rows == full.rows
            &&& part.cols == len
            &&& part.code(r, c) == full.code(r, start + c)
            &&& part.scale(r, g) == full.scale(r, first + g)
            &&& part.flips(c) == full.flips(start + c)
            &&& part.group_offset == full.group_offset + first
            &&& part.group_size == full.group_size
            &&& part.seed == full.seed
        },
{
    layout_facts(full.rows, full.cols, full.group_size);
    if is_column_shard(full, part, start, len) && start == first * full.group_size && 0 <= start {
        let gs = full.group_size as int;
        vstd::arithmetic::div_mod::lemma_fundamental_div_mod_converse(start, gs, first, 0);
        column_shard_keeps_signs(full, part, start, len, c);
    }
}

/// A cut that cannot be made is named with where it starts and ends, and with what it had to fit.
pub proof fn wrong_cuts_are_named(full: Hqz4Tensor, dim: usize, start: usize, len: usize)
    ensures
        shard_fault(full, dim, start, len) == Some(Hqz4Error::ShardDim { dim }) <==> dim != 0 && dim
            != 1,
        shard_fault(full, dim, start, len) == Some(Hqz4Error::ShardOverflow) <==> dim <= 1 && start
            + len > usize::MAX,
        shard_fault(full, dim, start, len) matches Some(
            Hqz4Error::ShardRange { dim: d, start: s, end, size },
        ) ==> {
            &&& d == dim && s == start && end == start + len
            &&& dim == 0 ==> size == full.rows
            &&& dim == 1 ==> size == full.cols
            &&& end > size
        },
        shard_fault(full, dim, start, len) matches Some(
            Hqz4Error::ShardAlignment { start: s, end, group_size },
        ) ==> dim == 1 && s == start && end == start + len && group_size == full.group_size,
{
}

} // verus!
