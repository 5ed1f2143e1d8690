//! Matrices of codes, with one scale for each row and input group.
//!
//! The scales are the bit patterns of 32-bit floats.
use crate::arith::{is_power_of_two, power_of_two};
use crate::float_bits::{below_zero, finite, is_below_zero, is_finite, is_zero, zero};
use crate::hqz4::codes::{code_at, flips_sign, read_code, HQZ4_MAX_LEVEL};
use vstd::prelude::*;

verus! {

/// The version of the layout in files. A file of this version may hold its scales at 16 or at 32
/// bits.
pub const HQZ4_SCHEMA_VERSION: u32 = 1;

/// Bits of one code.
pub const HQZ4_BITS: usize = 4;

pub const HQZ4_DEFAULT_GROUP_SIZE: usize = 128;

pub const HQZ4_LAYOUT_ROW_MAJOR_NIBBLES: u8 = 0;

pub const HQZ4_TRANSFORM_SHARED_RHT: u8 = 0;

/// The width of the input groups and the seed of their signs.
#[derive(Clone, Copy, Debug, PartialEq, Eq, Structural)]
pub struct Hqz4Config {
    pub group_size: usize,
    pub seed: u64,
}

impl Default for Hqz4Config {
    fn default() -> (config: Self)
        ensures
            config.group_size == HQZ4_DEFAULT_GROUP_SIZE,
            config.seed == 0,
    {
        Hqz4Config { group_size: HQZ4_DEFAULT_GROUP_SIZE, seed: 0 }
    }
}

/// Why an HQZ4 operation is refused.
#[derive(Clone, Copy, Debug, PartialEq, Eq, Structural)]
pub enum Hqz4Error {
    EmptyMatrix,
    GroupSize { group_size: usize },
    Width { cols: usize, group_size: usize },
    ElementOverflow,
    GroupOffsetOverflow,
    ScaleCountOverflow,
    ScaleCount { got: usize, expected: usize },
    ScaleValue,
    CodeLength { got: usize, expected: usize },
    ReservedCode,
    ZeroScaleCodes,
    WeightLength { got: usize, rows: usize, cols: usize },
    NonFiniteWeight,
    GroupScale { row: usize, group: usize },
    Row { row: usize, rows: usize },
    ActivationLength { got: usize, cols: usize },
    NonFiniteActivation,
    ShardDim { dim: usize },
    ShardOverflow,
    ShardRange { dim: usize, start: usize, end: usize, size: usize },
    ShardAlignment { start: usize, end: usize, group_size: usize },
}

impl Hqz4Error {
    /// What the error says, without its numbers.
    pub open spec fn text(self) -> Seq<char> {
        match self {
            Hqz4Error::EmptyMatrix => "HQZ4 matrices must have non-zero dimensions."@,
            Hqz4Error::GroupSize { .. } =>
                "HQZ4 group size must be a power of two of at least 2."@,
            Hqz4Error::Width { .. } => "HQZ4 input width must be divisible by group size."@,
            Hqz4Error::ElementOverflow => "HQZ4 element count overflow."@,
            Hqz4Error::GroupOffsetOverflow => "HQZ4 group offset overflow."@,
            Hqz4Error::ScaleCountOverflow => "HQZ4 scale count overflow."@,
            Hqz4Error::ScaleCount { .. } => "HQZ4 scale count does not match expected count."@,
            Hqz4Error::ScaleValue => "HQZ4 scales must be finite and non-negative."@,
            Hqz4Error::CodeLength { .. } => "HQZ4 code length does not match expected length."@,
            Hqz4Error::ReservedCode => "HQZ4 code payload contains the reserved -8 level."@,
            Hqz4Error::ZeroScaleCodes => "HQZ4 zero-scale group contains non-zero codes."@,
            Hqz4Error::WeightLength { .. } => "HQZ4 weight length does not match shape."@,
            Hqz4Error::NonFiniteWeight => "HQZ4 weights must be finite."@,
            Hqz4Error::GroupScale { .. } =>
                "HQZ4 group scale is outside the finite F32 range."@,
            Hqz4Error::Row { .. } => "HQZ4 row is outside row count."@,
            Hqz4Error::ActivationLength { .. } =>
                "HQZ4 activation length does not match input width."@,
            Hqz4Error::NonFiniteActivation => "HQZ4 activations must be finite."@,
            Hqz4Error::ShardDim { .. } => "HQZ4 can only shard dimensions 0 or 1."@,
            Hqz4Error::ShardOverflow => "HQZ4 shard range overflow."@,
            Hqz4Error::ShardRange { .. } => "HQZ4 shard range exceeds the dimension."@,
            Hqz4Error::ShardAlignment { .. } => "HQZ4 input shard must align to group size."@,
        }
    }

    /// What the error says, without its numbers.
    pub fn message(&self) -> (message: &'static str)
        ensures
            message@ == self.text(),
    {
        match self {
            Hqz4Error::EmptyMatrix => "HQZ4 matrices must have non-zero dimensions.",
            Hqz4Error::GroupSize { .. } => "HQZ4 group size must be a power of two of at least 2.",
            Hqz4Error::Width { .. } => "HQZ4 input width must be divisible by group size.",
            Hqz4Error::ElementOverflow => "HQZ4 element count overflow.",
            Hqz4Error::GroupOffsetOverflow => "HQZ4 group offset overflow.",
            Hqz4Error::ScaleCountOverflow => "HQZ4 scale count overflow.",
            Hqz4Error::ScaleCount { .. } => "HQZ4 scale count does not match expected count.",
            Hqz4Error::ScaleValue => "HQZ4 scales must be finite and non-negative.",
            Hqz4Error::CodeLength { .. } => "HQZ4 code length does not match expected length.",
            Hqz4Error::ReservedCode => "HQZ4 code payload contains the reserved -8 level.",
            Hqz4Error::ZeroScaleCodes => "HQZ4 zero-scale group contains non-zero codes.",
            Hqz4Error::WeightLength { .. } => "HQZ4 weight length does not match shape.",
            Hqz4Error::NonFiniteWeight => "HQZ4 weights must be finite.",
            Hqz4Error::GroupScale { .. } => "HQZ4 group scale is outside the finite F32 range.",
            Hqz4Error::Row { .. } => "HQZ4 row is outside row count.",
            Hqz4Error::ActivationLength { .. } =>
                "HQZ4 activation length does not match input width.",
            Hqz4Error::NonFiniteActivation => "HQZ4 activations must be finite.",
            Hqz4Error::ShardDim { .. } => "HQZ4 can only shard dimensions 0 or 1.",
            Hqz4Error::ShardOverflow => "HQZ4 shard range overflow.",
            Hqz4Error::ShardRange { .. } => "HQZ4 shard range exceeds the dimension.",
            Hqz4Error::ShardAlignment { .. } => "HQZ4 input shard must align to group size.",
        }
    }
}

/// A matrix of codes with its scales.
#[derive(Clone, Debug)]
pub struct Hqz4Tensor {
    pub rows: usize,
    pub cols: usize,
    pub group_size: usize,
    /// The number of input groups before the first one of this matrix.
    pub group_offset: usize,
    pub seed: u64,
    pub scales: Vec<u32>,
    pub codes: Vec<u8>,
}

/// What is wrong with the shape of a matrix.
pub open spec fn layout_fault(rows: usize, cols: usize, group_size: usize) -> Option<Hqz4Error> {
    if rows == 0 || cols == 0 {
        Some(Hqz4Error::EmptyMatrix)
    } else if group_size < 2 || !is_power_of_two(group_size as nat) {
        Some(Hqz4Error::GroupSize { group_size })
    } else if cols as int % group_size as int != 0 {
        Some(Hqz4Error::Width { cols, group_size })
    } else if rows * cols > usize::MAX {
        Some(Hqz4Error::ElementOverflow)
    } else {
        None
    }
}

/// Checks the shape of a matrix.
pub fn validate_layout(rows: usize, cols: usize, group_size: usize) -> (valid: Result<
    (),
    Hqz4Error,
>)
    ensures
        match valid {
            Ok(_) => layout_fault(rows, cols, group_size) is None,
            Err(e) => layout_fault(rows, cols, group_size) == Some(e),
        },
{
    if rows == 0 || cols == 0 {
        return Err(Hqz4Error::EmptyMatrix);
    }
    if group_size < 2 || !power_of_two(group_size) {
        return Err(Hqz4Error::GroupSize { group_size });
    }
    if cols % group_size != 0 {
        return Err(Hqz4Error::Width { cols, group_size });
    }
    checked_elements(rows, cols)?;
    Ok(())
}

/// The number of elements of a matrix.
pub fn checked_elements(rows: usize, cols: usize) -> (elements: Result<usize, Hqz4Error>)
    ensures
        match elements {
            Ok(n) => n == rows * cols,
            Err(e) => rows * cols > usize::MAX && e == Hqz4Error::ElementOverflow,
        },
{
    match rows.checked_mul(cols) {
        Some(n) => Ok(n),
        None => Err(Hqz4Error::ElementOverflow),
    }
}

/// Whether every scale is finite and not below zero.
pub open spec fn scales_are_valid(scales: Seq<u32>) -> bool {
    forall|i: int|
        0 <= i < scales.len() ==> is_finite(#[trigger] scales[i]) && !is_below_zero(scales[i])
}

/// Whether no code is -8.
pub open spec fn codes_are_valid(codes: Seq<u8>, elements: int) -> bool {
    forall|i: int| 0 <= i < elements ==> #[trigger] code_at(codes, i) >= -7
}

/// Whether the groups with scale zero have no codes but zero.
pub open spec fn zero_groups_are_zero(
    scales: Seq<u32>,
    codes: Seq<u8>,
    elements: int,
    group_size: int,
) -> bool {
    forall|i: int|
        0 <= i < elements && is_zero(scales[i / group_size]) ==> #[trigger] code_at(codes, i) == 0
}

/// What is wrong with the parts of a matrix, in the order in which it is looked at.
pub open spec fn parts_fault(
    rows: usize,
    cols: usize,
    group_size: usize,
    group_offset: usize,
    scales: Seq<u32>,
    codes: Seq<u8>,
) -> Option<Hqz4Error> {
    let groups = cols as int / group_size as int;
    if layout_fault(rows, cols, group_size) is Some {
        layout_fault(rows, cols, group_size)
    } else if group_offset + groups > usize::MAX {
        Some(Hqz4Error::GroupOffsetOverflow)
    } else if scales.len() != rows * groups {
        Some(
            Hqz4Error::ScaleCount {
                got: scales.len() as usize,
                expected: (rows * groups) as usize,
            },
        )
    } else if !scales_are_valid(scales) {
        Some(Hqz4Error::ScaleValue)
    } else if codes.len() != rows * cols / 2 {
        Some(
            Hqz4Error::CodeLength {
                got: codes.len() as usize,
                expected: (rows * cols / 2) as usize,
            },
        )
    } else if !codes_are_valid(codes, rows * cols) {
        Some(Hqz4Error::ReservedCode)
    } else if !zero_groups_are_zero(scales, codes, rows * cols, group_size as int) {
        Some(Hqz4Error::ZeroScaleCodes)
    } else {
        None
    }
}

/// The sizes of a matrix of valid shape go together.
pub proof fn layout_facts(rows: usize, cols: usize, group_size: usize)
    requires
        layout_fault(rows, cols, group_size) is None,
    ensures
        ({
            let groups = cols as int / group_size as int;
            &&& groups >= 1
            &&& cols == groups * group_size
            &&& group_size as int % 2 == 0
            &&& cols as int % 2 == 0
            &&& (rows * cols) % 2 == 0
            &&& rows * groups <= rows * cols
            &&& (rows * groups) * group_size == rows * cols
            &&& rows * cols >= 1
        }),
{
    let gs = group_size as int;
    let groups = cols as int / gs;
    vstd::arithmetic::div_mod::lemma_fundamental_div_mod(cols as int, gs);
    assert(cols == groups * gs) by (nonlinear_arith)
        requires
            cols as int == gs * groups,
    ;
    assert(groups >= 1) by (nonlinear_arith)
        requires
            cols as int == groups * gs,
            cols >= 1,
            gs >= 1,
    ;
    assert(gs % 2 == 0);
    let half = gs / 2;
    assert(cols as int == 2 * (groups * half)) by (nonlinear_arith)
        requires
            cols as int == groups * gs,
            gs == 2 * half,
    ;
    assert(rows * cols == 2 * (rows * (groups * half))) by (nonlinear_arith)
        requires
            cols as int == 2 * (groups * half),
    ;
    assert((rows * groups) * gs == rows * cols) by (nonlinear_arith)
        requires
            cols as int == groups * gs,
    ;
    assert(rows * groups <= rows * cols) by (nonlinear_arith)
        requires
            cols as int == groups * gs,
            gs >= 1,
            groups >= 0,
            rows >= 0,
    ;
    assert(rows * cols >= 1) by (nonlinear_arith)
        requires
            rows >= 1,
            cols >= 1,
    ;
}

fn check_scales(scales: &Vec<u32>) -> (valid: bool)
    ensures
        valid == scales_are_valid(scales@),
{
    let mut i: usize = 0;
    while i < scales.len()
        invariant
            i <= scales.len(),
            forall|j: int|
                0 <= j < i ==> is_finite(#[trigger] scales@[j]) && !is_below_zero(scales@[j]),
        decreases scales.len() - i,
    {
        if !finite(scales[i]) || below_zero(scales[i]) {
            return false;
        }
        i += 1;
    }
    true
}

fn check_codes(codes: &Vec<u8>, elements: usize) -> (valid: bool)
    requires
        elements <= 2 * codes.len(),
    ensures
        valid == codes_are_valid(codes@, elements as int),
{
    let mut i: usize = 0;
    while i < elements
        invariant
            i <= elements,
            elements <= 2 * codes.len(),
            forall|j: int| 0 <= j < i ==> #[trigger] code_at(codes@, j) >= -7,
        decreases elements - i,
    {
        if read_code(codes.as_slice(), i) < -HQZ4_MAX_LEVEL {
            assert(code_at(codes@, i as int) < -7);
            return false;
        }
        i += 1;
    }
    true
}

fn check_zero_groups(
    scales: &Vec<u32>,
    codes: &Vec<u8>,
    elements: usize,
    group_size: usize,
) -> (valid: bool)
    requires
        group_size > 0,
        elements <= 2 * codes.len(),
        scales.len() * group_size == elements,
    ensures
        valid == zero_groups_are_zero(scales@, codes@, elements as int, group_size as int),
{
    let mut group: usize = 0;
    while group < scales.len()
        invariant
            group <= scales.len(),
            group_size > 0,
            elements <= 2 * codes.len(),
            scales.len() * group_size == elements,
            forall|i: int|
                0 <= i < group * group_size && is_zero(scales@[i / group_size as int])
                    ==> #[trigger] code_at(codes@, i) == 0,
        decreases scales.len() - group,
    {
        let ghost done = group * group_size;
        proof {
            assert(done + group_size <= elements && (group + 1) * group_size == done + group_size)
                by (nonlinear_arith)
                requires
                    done == group * group_size,
                    group + 1 <= scales.len(),
                    scales.len() * group_size == elements,
            ;
            assert forall|i: int| done <= i < done + group_size implies #[trigger] (i
                / group_size as int) == group by {
                vstd::arithmetic::div_mod::lemma_fundamental_div_mod_converse(
                    i,
                    group_size as int,
                    group as int,
                    i - done,
                );
            }
        }
        let start: usize = group * group_size;
        if zero(scales[group]) {
            let mut offset: usize = 0;
            while offset < group_size
                invariant
                    offset <= group_size,
                    group_size > 0,
                    start == done,
                    start == group * group_size,
                    group < scales.len(),
                    is_zero(scales@[group as int]),
                    start + group_size <= elements,
                    elements <= 2 * codes.len(),
                    forall|i: int|
                        done <= i < done + group_size ==> #[trigger] (i / group_size as int)
                            == group,
                    forall|i: int|
                        done <= i < done + offset ==> #[trigger] code_at(codes@, i) == 0,
                decreases group_size - offset,
            {
                if read_code(codes.as_slice(), start + offset) != 0 {
                    assert((start + offset) / group_size as int == group);
                    assert(code_at(codes@, start + offset) != 0);
                    return false;
                }
                offset += 1;
            }
        }
        group += 1;
    }
    true
}

/// One row, before the transform is undone: a code for each element, a scale for each group.
pub struct RotatedRow {
    pub codes: Vec<i8>,
    pub scales: Vec<u32>,
}

impl Hqz4Tensor {
    /// The parts of the matrix are as they should be.
    pub open spec fn wf(&self) -> bool {
        parts_fault(
            self.rows,
            self.cols,
            self.group_size,
            self.group_offset,
            self.scales@,
            self.codes@,
        ) is None
    }

    /// The number of input groups.
    pub open spec fn groups(&self) -> int {
        self.cols as int / self.group_size as int
    }

    /// The code of an element.
    pub open spec fn code(&self, row: int, col: int) -> int {
        code_at(self.codes@, row * self.cols + col)
    }

    /// The scale of a row and group.
    pub open spec fn scale(&self, row: int, group: int) -> u32 {
        self.scales@[row * self.groups() + group]
    }

    /// Whether the transform flips the sign of an input element.
    pub open spec fn flips(&self, col: int) -> bool {
        flips_sign(
            self.seed,
            (self.group_offset + col / self.group_size as int) as u64,
            (col % self.group_size as int) as u64,
        )
    }

    /// A matrix from its parts, with no input groups before its first one.
    pub fn from_parts(
        rows: usize,
        cols: usize,
        cfg: Hqz4Config,
        scales: Vec<u32>,
        codes: Vec<u8>,
    ) -> (tensor: Result<Self, Hqz4Error>)
        ensures
            match tensor {
                Ok(t) => {
                    &&& t.wf()
                    &&& (t.rows, t.cols) == (rows, cols)
                    &&& (t.group_size, t.seed) == (cfg.group_size, cfg.seed)
                    &&& t.group_offset == 0
                    &&& t.scales@ == scales@
                    &&& t.codes@ == codes@
                },
                Err(e) => parts_fault(rows, cols, cfg.group_size, 0, scales@, codes@) == Some(e),
            },
    {
        Hqz4Tensor::from_parts_at_group_offset((rows, cols), cfg, 0, scales, codes)
    }

    /// A matrix from its parts.
    pub fn from_parts_at_group_offset(
        shape: (usize, usize),
        cfg: Hqz4Config,
        group_offset: usize,
        scales: Vec<u32>,
        codes: Vec<u8>,
    ) -> (tensor: Result<Self, Hqz4Error>)
        ensures
            match tensor {
                Ok(t) => {
                    &&& t.wf()
                    &&& (t.rows, t.cols) == shape
                    &&& (t.group_size, t.seed) == (cfg.group_size, cfg.seed)
                    &&& t.group_offset == group_offset
                    &&& t.scales@ == scales@
                    &&& t.codes@ == codes@
                },
                Err(e) => parts_fault(
                    shape.0,
                    shape.1,
                    cfg.group_size,
                    group_offset,
                    scales@,
                    codes@,
                ) == Some(e),
            },
    {
        let (rows, cols) = shape;
        validate_layout(rows, cols, cfg.group_size)?;
        proof {
            layout_facts(rows, cols, cfg.group_size);
        }
        let elements: usize = checked_elements(rows, cols)?;
        let groups: usize = cols / cfg.group_size;
        if group_offset.checked_add(groups).is_none() {
            return Err(Hqz4Error::GroupOffsetOverflow);
        }
        let expected_scales: usize = match rows.checked_mul(groups) {
            Some(count) => count,
            None => {
                return Err(Hqz4Error::ScaleCountOverflow);
            },
        };
        if scales.len() != expected_scales {
            return Err(Hqz4Error::ScaleCount { got: scales.len(), expected: expected_scales });
        }
        if !check_scales(&scales) {
            return Err(Hqz4Error::ScaleValue);
        }
        let expected_codes: usize = elements / 2;
        if codes.len() != expected_codes {
            return Err(Hqz4Error::CodeLength { got: codes.len(), expected: expected_codes });
        }
        if !check_codes(&codes, elements) {
            return Err(Hqz4Error::ReservedCode);
        }
        if !check_zero_groups(&scales, &codes, elements, cfg.group_size) {
            return Err(Hqz4Error::ZeroScaleCodes);
        }
        Ok(
            Hqz4Tensor {
                rows,
                cols,
                group_size: cfg.group_size,
                group_offset,
                seed: cfg.seed,
                scales,
                codes,
            },
        )
    }

    /// The number of rows.
    pub fn rows(&self) -> (rows: usize)
        ensures
            rows == self.rows,
    {
        self.rows
    }

    /// The number of columns.
    pub fn cols(&self) -> (cols: usize)
        ensures
            cols == self.cols,
    {
        self.cols
    }

    /// The width of an input group.
    pub fn group_size(&self) -> (group_size: usize)
        ensures
            group_size == self.group_size,
    {
        self.group_size
    }

    /// The number of input groups before the first one of this matrix.
    pub fn group_offset(&self) -> (group_offset: usize)
        ensures
            group_offset == self.group_offset,
    {
        self.group_offset
    }

    /// The seed of the signs.
    pub fn seed(&self) -> (seed: u64)
        ensures
            seed == self.seed,
    {
        self.seed
    }

    /// The scales, row by row.
    pub fn scales(&self) -> (scales: &[u32])
        ensures
            scales@ == self.scales@,
    {
        self.scales.as_slice()
    }

    /// The packed codes, row by row.
    pub fn codes(&self) -> (codes: &[u8])
        ensures
            codes@ == self.codes@,
    {
        self.codes.as_slice()
    }

    /// The codes and scales of one row.
    pub fn rotated_row(&self, row: usize) -> (rotated: Result<RotatedRow, Hqz4Error>)
        requires
            self.wf(),
        ensures
            match rotated {
                Ok(r) => {
                    &&& row < self.rows
                    &&& r.codes.len() == self.cols
                    &&& r.scales.len() == self.groups()
                    &&& forall|col: int|
                        0 <= col < self.cols ==> #[trigger] r.codes@[col] == self.code(
                            row as int,
                            col,
                        )
                    &&& forall|group: int|
                        0 <= group < self.groups() ==> #[trigger] r.scales@[group] == self.scale(
                            row as int,
                            group,
                        )
                },
                Err(e) => row >= self.rows && e == (Hqz4Error::Row { row, rows: self.rows }),
            },
    {
        if row >= self.rows {
            return Err(Hqz4Error::Row { row, rows: self.rows });
        }
        proof {
            layout_facts(self.rows, self.cols, self.group_size);
            assert(row * self.cols + self.cols <= self.rows * self.cols && 0 <= row * self.cols)
                by (nonlinear_arith)
                requires
                    row + 1 <= self.rows,
                    0 <= self.cols,
            ;
            assert(row * self.groups() + self.groups() <= self.rows * self.groups() && 0 <= row
                * self.groups()) by (nonlinear_arith)
                requires
                    row + 1 <= self.rows,
                    0 <= self.groups(),
            ;
        }
        let groups_per_row: usize = self.cols / self.group_size;
        let code_start: usize = row * self.cols;
        let scale_start: usize = row * groups_per_row;
        let mut codes: Vec<i8> = Vec::new();
        let mut col: usize = 0;
        while col < self.cols
            invariant
                col <= self.cols,
                code_start == row * self.cols,
                code_start + self.cols <= 2 * self.codes.len(),
                code_start + self.cols <= usize::MAX,
                codes.len() == col,
                forall|c: int| 0 <= c < col ==> #[trigger] codes@[c] == self.code(row as int, c),
            decreases self.cols - col,
        {
            codes.push(read_code(self.codes.as_slice(), code_start + col));
            col += 1;
        }
        let mut scales: Vec<u32> = Vec::new();
        let mut group: usize = 0;
        while group < groups_per_row
            invariant
                group <= groups_per_row,
                groups_per_row == self.groups(),
                scale_start == row * self.groups(),
                scale_start + groups_per_row <= self.scales.len(),
                scales.len() == group,
                forall|g: int|
                    0 <= g < group ==> #[trigger] scales@[g] == self.scale(row as int, g),
            decreases groups_per_row - group,
        {
            scales.push(self.scales[scale_start + group]);
            group += 1;
        }
        Ok(RotatedRow { codes, scales })
    }

    /// Checks the values of an activation, given as bit patterns.
    pub fn check_activation(&self, activation: &[u32]) -> (valid: Result<(), Hqz4Error>)
        ensures
            match valid {
                Ok(_) => activation.len() == self.cols && forall|i: int|
                    0 <= i < activation.len() ==> is_finite(#[trigger] activation@[i]),
                Err(Hqz4Error::ActivationLength { got, cols }) => {
                    &&& activation.len() != self.cols
                    &&& got == activation.len()
                    &&& cols == self.cols
                },
                Err(Hqz4Error::NonFiniteActivation) => {
                    &&& activation.len() == self.cols
                    &&& exists|i: int|
                        0 <= i < activation.len() && !is_finite(#[trigger] activation@[i])
                },
                Err(_) => false,
            },
    {
        if activation.len() != self.cols {
            return Err(Hqz4Error::ActivationLength { got: activation.len(), cols: self.cols });
        }
        if !all_finite(activation) {
            return Err(Hqz4Error::NonFiniteActivation);
        }
        Ok(())
    }
}

/// Whether all values, given as bit patterns, are finite.
pub fn all_finite(values: &[u32]) -> (yes: bool)
    ensures
        yes == forall|i: int| 0 <= i < values.len() ==> is_finite(#[trigger] values@[i]),
{
    let mut i: usize = 0;
    while i < values.len()
        invariant
            i <= values.len(),
            forall|j: int| 0 <= j < i ==> is_finite(#[trigger] values@[j]),
        decreases values.len() - i,
    {
        if !finite(values[i]) {
            assert(!is_finite(values@[i as int]));
            return false;
        }
        i += 1;
    }
    true
}

/// Checks weights that are to be encoded, given as bit patterns.
pub fn check_weights(weights: &[u32], rows: usize, cols: usize, cfg: Hqz4Config) -> (valid: Result<
    (),
    Hqz4Error,
>)
    ensures
        match valid {
            Ok(_) => {
                &&& layout_fault(rows, cols, cfg.group_size) is None
                &&& weights.len() == rows * cols
                &&& forall|i: int| 0 <= i < weights.len() ==> is_finite(#[trigger] weights@[i])
            },
            Err(Hqz4Error::WeightLength { got, rows: r, cols: c }) => {
                &&& layout_fault(rows, cols, cfg.group_size) is None
                &&& weights.len() != rows * cols
                &&& (got as nat, r, c) == (weights@.len(), rows, cols)
            },
            Err(Hqz4Error::NonFiniteWeight) => {
                &&& layout_fault(rows, cols, cfg.group_size) is None
                &&& weights.len() == rows * cols
                &&& exists|i: int| 0 <= i < weights.len() && !is_finite(#[trigger] weights@[i])
            },
            Err(e) => layout_fault(rows, cols, cfg.group_size) == Some(e),
        },
{
    validate_layout(rows, cols, cfg.group_size)?;
    let elements: usize = checked_elements(rows, cols)?;
    if weights.len() != elements {
        return Err(Hqz4Error::WeightLength { got: weights.len(), rows, cols });
    }
    if !all_finite(weights) {
        return Err(Hqz4Error::NonFiniteWeight);
    }
    Ok(())
}

/// The scale of a group, from the largest magnitude in it and that magnitude over seven, both
/// as bit patterns: zero for a group of zeros.
pub fn group_scale(max_abs: u32, level: u32, row: usize, group: usize) -> (scale: Result<
    u32,
    Hqz4Error,
>)
    ensures
        match scale {
            Ok(s) => if is_zero(max_abs) {
                s == 0
            } else {
                s == level && is_finite(level) && !is_zero(level)
            },
            Err(e) => {
                &&& !is_zero(max_abs)
                &&& !is_finite(level) || is_zero(level)
                &&& e == (Hqz4Error::GroupScale { row, group })
            },
        },
{
    if zero(max_abs) {
        return Ok(0);
    }
    if !finite(level) || zero(level) {
        return Err(Hqz4Error::GroupScale { row, group });
    }
    Ok(level)
}

/// A shape is taken exactly if it has rows and columns, groups of a power of two of at least two
/// that fill the columns, and elements that can be counted.
pub proof fn shapes_have_whole_groups(rows: usize, cols: usize, group_size: usize, groups: int)
    requires
        group_size > 0,
        groups * group_size <= cols < (groups + 1) * group_size,
    ensures
        layout_fault(rows, cols, group_size) is None <==> {
            &&& rows > 0 && cols > 0
            &&& is_power_of_two(group_size as nat) && group_size >= 2
            &&& cols == groups * group_size
            &&& rows * cols <= usize::MAX
        },
{
    let (c, gs) = (cols as int, group_size as int);
    vstd::arithmetic::div_mod::lemma_fundamental_div_mod(c, gs);
    assert(c % gs == 0 <==> c == groups * gs) by (nonlinear_arith)
        requires
            gs > 0,
            c == gs * (c / gs) + c % gs,
            0 <= c % gs < gs,
            groups * gs <= c < (groups + 1) * gs,
    ;
}

/// Parts make a matrix exactly if its shape is taken, its groups can be numbered, each row has a
/// scale for each group, finite and not below zero, there is a byte for each two elements, no
/// code is -8, and the codes of groups with scale zero are zero.
pub proof fn matching_parts_make_a_matrix(
    rows: usize,
    cols: usize,
    group_size: usize,
    group_offset: usize,
    scales: Seq<u32>,
    codes: Seq<u8>,
    groups: int,
)
    requires
        layout_fault(rows, cols, group_size) is None,
        cols == groups * group_size,
    ensures
        parts_fault(rows, cols, group_size, group_offset, scales, codes) is None <==> {
            &&& group_offset + groups <= usize::MAX
            &&& scales.len() == rows * groups
            &&& forall|i: int|
                0 <= i < scales.len() ==> is_finite(#[trigger] scales[i]) && !is_below_zero(
                    scales[i],
                )
            &&& 2 * codes.len() == rows * cols
            &&& forall|i: int| 0 <= i < rows * cols ==> #[trigger] code_at(codes, i) != -8
            &&& forall|group: int, j: int|
                0 <= group < rows * groups && 0 <= j < group_size && is_zero(
                    #[trigger] scales[group],
                ) ==> #[trigger] code_at(codes, group * group_size + j) == 0
        },
{
    let gs = group_size as int;
    let total = rows * cols;
    layout_facts(rows, cols, group_size);
    vstd::arithmetic::div_mod::lemma_fundamental_div_mod_converse(cols as int, gs, groups, 0);
    assert(2 * (total / 2) == total);
    assert(codes_are_valid(codes, total) <==> forall|i: int|
        0 <= i < total ==> #[trigger] code_at(codes, i) != -8) by {
        if forall|i: int| 0 <= i < total ==> #[trigger] code_at(codes, i) != -8 {
            assert forall|i: int| 0 <= i < total implies #[trigger] code_at(codes, i) >= -7 by {
                assert(code_at(codes, i) != -8);
            }
        }
    }
    if zero_groups_are_zero(scales, codes, total, gs) {
        assert forall|group: int, j: int|
            0 <= group < rows * groups && 0 <= j < group_size && is_zero(
                #[trigger] scales[group],
            ) implies #[trigger] code_at(codes, group * group_size + j) == 0 by {
            let i = group * gs + j;
            vstd::arithmetic::div_mod::lemma_fundamental_div_mod_converse(i, gs, group, j);
            assert(0 <= i < total) by (nonlinear_arith)
                requires
                    i == group * gs + j,
                    0 <= group,
                    group + 1 <= rows * groups,
                    0 <= j < gs,
                    (rows * groups) * gs == total,
            ;
        }
    } else {
        let i = choose|i: int|
            0 <= i < total && is_zero(scales[i / gs]) && #[trigger] code_at(codes, i) != 0;
        let (group, j) = (i / gs, i % gs);
        vstd::arithmetic::div_mod::lemma_fundamental_div_mod(i, gs);
        assert(i == group * gs + j) by (nonlinear_arith)
            requires
                i == gs * group + j,
        ;
        assert(0 <= group < rows * groups) by (nonlinear_arith)
            requires
                i == group * gs + j,
                0 <= i < total,
                0 <= j < gs,
                (rows * groups) * gs == total,
        ;
        assert(is_zero(scales[group]) && code_at(codes, group * group_size + j) != 0);
    }
}

/// Codes and scales stand row by row: two columns of a row share a byte, the first in its low
/// half, and each row has a scale for each of its groups. Signs are those of the groups counted
/// from the offset.
pub proof fn rows_stand_one_after_the_other(
    tensor: Hqz4Tensor,
    row: int,
    pair: int,
    group: int,
    i: int,
    groups: int,
)
    requires
        tensor.wf(),
        tensor.cols == groups * tensor.group_size,
        0 <= row < tensor.rows,
        0 <= pair,
        2 * pair < tensor.cols,
        0 <= group < groups,
        0 <= i < tensor.group_size,
    ensures
        tensor.codes@[row * (tensor.cols as int / 2) + pair] as int == tensor.code(row, 2 * pair)
            % 16 + 16 * (tensor.code(row, 2 * pair + 1) % 16),
        tensor.scale(row, group) == tensor.scales@[row * groups + group],
        tensor.flips(group * tensor.group_size + i) == flips_sign(
            tensor.seed,
            (tensor.group_offset + group) as u64,
            i as u64,
        ),
{
    let gs = tensor.group_size as int;
    let cols = tensor.cols as int;
    layout_facts(tensor.rows, tensor.cols, tensor.group_size);
    vstd::arithmetic::div_mod::lemma_fundamental_div_mod_converse(cols, gs, groups, 0);
    vstd::arithmetic::div_mod::lemma_fundamental_div_mod_converse(group * gs + i, gs, group, i);
    let half = cols / 2;
    assert(cols == 2 * half);
    let byte = row * half + pair;
    assert(row * cols + 2 * pair == 2 * byte) by (nonlinear_arith)
        requires
            cols == 2 * half,
            byte == row * half + pair,
    ;
    crate::hqz4::codes::codes_make_up_their_byte(tensor.codes@, byte);
}

/// What the files and the transform are about.
pub proof fn layout_numbers()
    ensures
        HQZ4_SCHEMA_VERSION == 1,
        HQZ4_BITS == 4,
        HQZ4_DEFAULT_GROUP_SIZE == 128,
        HQZ4_LAYOUT_ROW_MAJOR_NIBBLES == 0,
        HQZ4_TRANSFORM_SHARED_RHT == 0,
{
}

/// Each error says what it is about.
pub proof fn errors_say_what_they_are_about(error: Hqz4Error)
    ensures
        error is EmptyMatrix ==> error.text() == "HQZ4 matrices must have non-zero dimensions."@,
        error is GroupSize ==> error.text() == "HQZ4 group size must be a power of two of at least 2."@,
        error is Width ==> error.text() == "HQZ4 input width must be divisible by group size."@,
        error is ElementOverflow ==> error.text() == "HQZ4 element count overflow."@,
        error is GroupOffsetOverflow ==> error.text() == "HQZ4 group offset overflow."@,
        error is ScaleCountOverflow ==> error.text() == "HQZ4 scale count overflow."@,
        error is ScaleCount ==> error.text() == "HQZ4 scale count does not match expected count."@,
        error is ScaleValue ==> error.text() == "HQZ4 scales must be finite and non-negative."@,
        error is CodeLength ==> error.text() == "HQZ4 code length does not match expected length."@,
        error is ReservedCode ==> error.text() == "HQZ4 code payload contains the reserved -8 level."@,
        error is ZeroScaleCodes ==> error.text() == "HQZ4 zero-scale group contains non-zero codes."@,
        error is WeightLength ==> error.text() == "HQZ4 weight length does not match shape."@,
        error is NonFiniteWeight ==> error.text() == "HQZ4 weights must be finite."@,
        error is GroupScale ==> error.text() == "HQZ4 group scale is outside the finite F32 range."@,
        error is Row ==> error.text() == "HQZ4 row is outside row count."@,
        error is ActivationLength ==> error.text() == "HQZ4 activation length does not match input width."@,
        error is NonFiniteActivation ==> error.text() == "HQZ4 activations must be finite."@,
        error is ShardDim ==> error.text() == "HQZ4 can only shard dimensions 0 or 1."@,
        error is ShardOverflow ==> error.text() == "HQZ4 shard range overflow."@,
        error is ShardRange ==> error.text() == "HQZ4 shard range exceeds the dimension."@,
        error is ShardAlignment ==> error.text() == "HQZ4 input shard must align to group size."@,
{
}

/// A wrong shape is named with what is wrong of it.
pub proof fn wrong_shapes_are_named(rows: usize, cols: usize, group_size: usize)
    ensures
        layout_fault(rows, cols, group_size) == Some(Hqz4Error::EmptyMatrix) <==> rows == 0 || cols
            == 0,
        layout_fault(rows, cols, group_size) matches Some(Hqz4Error::GroupSize { group_size: g })
            ==> g == group_size && (g < 2 || !is_power_of_two(g as nat)),
        layout_fault(rows, cols, group_size) matches Some(
            Hqz4Error::Width { cols: c, group_size: g },
        ) ==> c == cols && g == group_size && c as int % g as int != 0,
        layout_fault(rows, cols, group_size) == Some(Hqz4Error::ElementOverflow) ==> rows * cols
            > usize::MAX,
{
}

} // verus!
