//! Launches of the HQZ4 CUDA kernels.
use crate::arith::{is_power_of_two, power_of_two};
use crate::dtype::DType;
use crate::tensor::{checked_count, count_elements, first_fault, with_last};
use vstd::prelude::*;

verus! {

/// The kernels' number for 16-bit outputs.
pub const HQZ4_CUDA_F16: u32 = 0;

/// The kernels' number for 32-bit outputs.
pub const HQZ4_CUDA_F32: u32 = 1;

/// The most threads that a block of a kernel has.
pub const CUDA_MAX_BLOCK_THREADS: usize = 1024;

/// A device: whether it is a CUDA device, and which one it is.
#[derive(Clone, Copy, Debug, PartialEq, Eq, Structural)]
pub struct DeviceTag {
    pub cuda: bool,
    pub id: usize,
}

/// What a launch reads of a tensor.
#[derive(Clone, Debug)]
pub struct KernelTensor {
    pub dtype: DType,
    pub dims: Vec<usize>,
    pub contiguous: bool,
    pub device: DeviceTag,
}

/// The shape and signs of an encoded matrix.
#[derive(Clone, Copy, Debug, PartialEq, Eq, Structural)]
pub struct MatrixShape {
    pub rows: usize,
    pub cols: usize,
    pub group_size: usize,
    pub group_offset: usize,
    pub seed: u64,
}

/// Why a launch is refused.
#[derive(Clone, Copy, Debug, PartialEq, Eq, Structural)]
pub enum KernelError {
    /// The kernels were not compiled.
    NotCompiled,
    /// A tensor is not on a CUDA device.
    NotOnCuda,
    /// A tensor is not contiguous.
    NotContiguous,
    /// The tensors have other element types than the kernels take.
    Dtypes,
    /// The kernels do not take activations, or give outputs, of this type.
    Dtype { dtype: DType },
    /// The group size is no power of two that a block of threads can hold.
    GroupSize { group_size: usize },
    /// The width is not a multiple of the group size.
    Width { cols: usize, group_size: usize },
    /// A tensor has another rank than the kernels take.
    Rank,
    /// The input is not as wide as the matrix.
    InputWidth { width: usize, cols: usize },
    /// The packed codes have another shape than the matrix.
    WeightShape,
    /// The scales have another shape than the matrix.
    ScaleShape,
    /// The input has no rows, or rows that are not complete.
    InputRows,
    /// A size does not fit in a `usize`.
    SizeOverflow,
    /// A size does not fit in the 32 bits of a launch.
    LaunchLimit { value: usize },
    /// The tensors are on different devices.
    DeviceMismatch,
    /// The tensors do not fit each other.
    ShapeMismatch,
    /// The shape of the source does not go with the activation.
    SourceShape,
    /// There is no matrix to multiply with.
    NoWeights,
    /// Gate and up projection differ in width.
    GateUpRows,
}

/// A size that has to fit in the 32 bits of a launch.
pub open spec fn limit_fault(value: usize) -> Option<KernelError> {
    if value <= u32::MAX {
        None
    } else {
        Some(KernelError::LaunchLimit { value })
    }
}

/// A size as a launch takes it.
pub fn checked_u32(value: usize) -> (narrow: Result<u32, KernelError>)
    ensures
        match narrow {
            Ok(n) => limit_fault(value) is None && n == value,
            Err(e) => limit_fault(value) == Some(e),
        },
{
    if value <= u32::MAX as usize {
        Ok(value as u32)
    } else {
        Err(KernelError::LaunchLimit { value })
    }
}

/// A product that has to fit in a `usize`.
pub open spec fn product_fault(a: usize, b: int) -> Option<KernelError> {
    if a * b <= usize::MAX {
        None
    } else {
        Some(KernelError::SizeOverflow)
    }
}

fn checked_product(a: usize, b: usize) -> (product: Result<usize, KernelError>)
    ensures
        match product {
            Ok(n) => product_fault(a, b as int) is None && n == a * b,
            Err(e) => product_fault(a, b as int) == Some(e),
        },
{
    match a.checked_mul(b) {
        Some(n) => Ok(n),
        None => Err(KernelError::SizeOverflow),
    }
}

/// Whether a shape is that of a matrix.
pub open spec fn is_matrix(dims: Seq<usize>, rows: int, cols: int) -> bool {
    dims.len() == 2 && dims[0] == rows && dims[1] == cols
}

/// Whether a shape is that of a matrix.
pub fn has_matrix_shape(dims: &Vec<usize>, rows: usize, cols: usize) -> (yes: bool)
    ensures
        yes == is_matrix(dims@, rows as int, cols as int),
{
    dims.len() == 2 && dims[0] == rows && dims[1] == cols
}

/// The group sizes that a block of threads can hold.
pub open spec fn is_kernel_group(group_size: usize) -> bool {
    4 <= group_size <= 1024 && is_power_of_two(group_size as nat)
}

fn fits_kernel_group(group_size: usize) -> (yes: bool)
    ensures
        yes == is_kernel_group(group_size),
{
    group_size >= 4 && group_size <= CUDA_MAX_BLOCK_THREADS && power_of_two(group_size)
}

/// The kernels' number for an input type.
pub open spec fn input_code(dtype: DType) -> Option<u32> {
    match dtype {
        DType::F16 => Some(HQZ4_CUDA_F16),
        DType::F32 => Some(HQZ4_CUDA_F32),
        _ => None,
    }
}

fn code_of_input(dtype: DType) -> (code: Result<u32, KernelError>)
    ensures
        match code {
            Ok(c) => input_code(dtype) == Some(c),
            Err(e) => input_code(dtype) is None && e == (KernelError::Dtype { dtype }),
        },
{
    match dtype {
        DType::F16 => Ok(HQZ4_CUDA_F16),
        DType::F32 => Ok(HQZ4_CUDA_F32),
        _ => Err(KernelError::Dtype { dtype }),
    }
}

/// The kernels' number for an output that goes with a source: sources of the type BF16 get
/// 16-bit outputs that are converted afterwards.
pub open spec fn output_code(dtype: DType) -> Option<u32> {
    match dtype {
        DType::F16 | DType::BF16 => Some(HQZ4_CUDA_F16),
        DType::F32 => Some(HQZ4_CUDA_F32),
        _ => None,
    }
}

fn code_of_output(dtype: DType) -> (code: Result<u32, KernelError>)
    ensures
        match code {
            Ok(c) => output_code(dtype) == Some(c),
            Err(e) => output_code(dtype) is None && e == (KernelError::Dtype { dtype }),
        },
{
    match dtype {
        DType::F16 | DType::BF16 => Ok(HQZ4_CUDA_F16),
        DType::F32 => Ok(HQZ4_CUDA_F32),
        _ => Err(KernelError::Dtype { dtype }),
    }
}

/// The tensors of a matrix product or an embedding lookup.
pub struct MatmulInputs {
    pub input: KernelTensor,
    pub weight: KernelTensor,
    pub scales: KernelTensor,
}

/// The rows that the input of a matrix product has.
pub open spec fn input_rows(input: Seq<usize>, cols: usize) -> int {
    checked_count(input)->0 as int / cols as int
}

impl MatmulInputs {
    /// What is wrong with the tensors of a matrix product before the rows of the input are
    /// counted.
    pub open spec fn layout_fault_before_rows(&self, matrix: MatrixShape) -> Option<KernelError> {
        let gs = matrix.group_size;
        let input = self.input.dims@;
        if !(self.input.contiguous && self.weight.contiguous && self.scales.contiguous) {
            Some(KernelError::NotContiguous)
        } else if self.weight.dtype != DType::U8 || self.scales.dtype != DType::F32 {
            Some(KernelError::Dtypes)
        } else if !is_kernel_group(gs) {
            Some(KernelError::GroupSize { group_size: gs })
        } else if matrix.cols as int % gs as int != 0 {
            Some(KernelError::Width { cols: matrix.cols, group_size: gs })
        } else if input.len() == 0 {
            Some(KernelError::Rank)
        } else if input.last() != matrix.cols {
            Some(KernelError::InputWidth { width: input.last(), cols: matrix.cols })
        } else if !is_matrix(self.weight.dims@, matrix.rows as int, matrix.cols as int / 2) {
            Some(KernelError::WeightShape)
        } else if !is_matrix(
            self.scales.dims@,
            matrix.rows as int,
            matrix.cols as int / gs as int,
        ) {
            Some(KernelError::ScaleShape)
        } else {
            None
        }
    }

    /// What is wrong with the tensors of a matrix product.
    pub open spec fn layout_fault(&self, matrix: MatrixShape) -> Option<KernelError> {
        first_fault(
            self.layout_fault_before_rows(matrix),
            if checked_count(self.input.dims@)->0 as int % matrix.cols as int != 0 {
                Some(KernelError::InputRows)
            } else {
                None
            },
        )
    }

    /// Whether the rows of the input can be counted: its elements fit in a `usize`, and the
    /// matrix has columns.
    pub open spec fn rows_are_countable(&self, matrix: MatrixShape) -> bool {
        matrix.cols > 0 && checked_count(self.input.dims@) is Some
    }

    /// Checks the tensors of a matrix product; gives the rows of the input and the shape of the
    /// output.
    pub fn validate_layouts(&self, matrix: MatrixShape) -> (shape: Result<
        (usize, Vec<usize>),
        KernelError,
    >)
        requires
            self.layout_fault_before_rows(matrix) is None ==> self.rows_are_countable(matrix),
        ensures
            match shape {
                Ok(s) => {
                    &&& self.layout_fault(matrix) is None
                    &&& s.0 == input_rows(self.input.dims@, matrix.cols)
                    &&& s.1@ == self.input.dims@.drop_last().push(matrix.rows)
                },
                Err(e) => self.layout_fault(matrix) == Some(e),
            },
    {
        if !(self.input.contiguous && self.weight.contiguous && self.scales.contiguous) {
            return Err(KernelError::NotContiguous);
        }
        if self.weight.dtype != DType::U8 || self.scales.dtype != DType::F32 {
            return Err(KernelError::Dtypes);
        }
        if !fits_kernel_group(matrix.group_size) {
            return Err(KernelError::GroupSize { group_size: matrix.group_size });
        }
        if matrix.cols % matrix.group_size != 0 {
            return Err(KernelError::Width { cols: matrix.cols, group_size: matrix.group_size });
        }
        let rank: usize = self.input.dims.len();
        if rank == 0 {
            return Err(KernelError::Rank);
        }
        let width: usize = self.input.dims[rank - 1];
        if width != matrix.cols {
            return Err(KernelError::InputWidth { width, cols: matrix.cols });
        }
        if !has_matrix_shape(&self.weight.dims, matrix.rows, matrix.cols / 2) {
            return Err(KernelError::WeightShape);
        }
        if !has_matrix_shape(&self.scales.dims, matrix.rows, matrix.cols / matrix.group_size) {
            return Err(KernelError::ScaleShape);
        }
        assert(self.input.dims@.take(rank as int) =~= self.input.dims@);
        let elements: usize = match count_elements(&self.input.dims, rank) {
            Some(elements) => elements,
            None => {
                return Err(KernelError::SizeOverflow);
            },
        };
        if elements % matrix.cols != 0 {
            return Err(KernelError::InputRows);
        }
        Ok((elements / matrix.cols, with_last(&self.input.dims, matrix.rows)))
    }
}

/// What the matrix product is launched with.
#[derive(Clone, Debug)]
pub struct MatmulPlan {
    pub quantized_elements: usize,
    pub activation_scale_elements: usize,
    pub output_elements: usize,
    pub output_dims: Vec<usize>,
    pub m: u32,
    pub n: u32,
    pub k: u32,
    pub group_size: u32,
    pub group_offset: u64,
    pub seed: u64,
    pub dtype_code: u32,
}

/// The faults of the sizes of a launch, in the order in which they are looked at.
pub open spec fn sizes_fault(
    m: usize,
    matrix: MatrixShape,
) -> Option<KernelError> {
    let groups = matrix.cols as int / matrix.group_size as int;
    first_fault(
        product_fault(m, matrix.cols as int),
        first_fault(
            product_fault(m, groups),
            first_fault(
                product_fault(m, matrix.rows as int),
                first_fault(
                    limit_fault(m),
                    first_fault(
                        limit_fault(matrix.rows),
                        first_fault(limit_fault(matrix.cols), limit_fault(matrix.group_size)),
                    ),
                ),
            ),
        ),
    )
}

impl MatmulInputs {
    /// What keeps the kernels from a matrix product, whatever the shapes are.
    pub open spec fn support_fault(&self, compiled: bool) -> Option<KernelError> {
        if !(self.input.device.cuda && self.weight.device.cuda && self.scales.device.cuda) {
            Some(KernelError::NotOnCuda)
        } else if !compiled {
            Some(KernelError::NotCompiled)
        } else if input_code(self.input.dtype) is None {
            Some(KernelError::Dtype { dtype: self.input.dtype })
        } else {
            None
        }
    }

    /// What is wrong with a matrix product of activations that are not quantized yet.
    pub open spec fn matmul_fault(&self, matrix: MatrixShape, compiled: bool) -> Option<
        KernelError,
    > {
        first_fault(
            self.support_fault(compiled),
            first_fault(
                self.layout_fault(matrix),
                sizes_fault(input_rows(self.input.dims@, matrix.cols) as usize, matrix),
            ),
        )
    }

    /// Plans a matrix product of activations that are not quantized yet.
    pub fn plan_matmul(&self, matrix: MatrixShape, compiled: bool) -> (plan: Result<
        MatmulPlan,
        KernelError,
    >)
        requires
            self.support_fault(compiled) is None && self.layout_fault_before_rows(matrix) is None
                ==> self.rows_are_countable(matrix),
        ensures
            match plan {
                Ok(p) => {
                    let m = input_rows(self.input.dims@, matrix.cols);
                    &&& self.matmul_fault(matrix, compiled) is None
                    &&& p.quantized_elements == m * matrix.cols
                    &&& p.activation_scale_elements == m * (matrix.cols as int
                        / matrix.group_size as int)
                    &&& p.output_elements == m * matrix.rows
                    &&& p.output_dims@ == self.input.dims@.drop_last().push(matrix.rows)
                    &&& p.m == m
                    &&& p.n == matrix.rows
                    &&& p.k == matrix.cols
                    &&& p.group_size == matrix.group_size
                    &&& p.group_offset == matrix.group_offset
                    &&& p.seed == matrix.seed
                    &&& input_code(self.input.dtype) == Some(p.dtype_code)
                    &&& p.dtype_code == HQZ4_CUDA_F16 <==> self.input.dtype == DType::F16
                    &&& p.dtype_code == HQZ4_CUDA_F32 <==> self.input.dtype == DType::F32
                },
                Err(e) => self.matmul_fault(matrix, compiled) == Some(e),
            },
    {
        if !(self.input.device.cuda && self.weight.device.cuda && self.scales.device.cuda) {
            return Err(KernelError::NotOnCuda);
        }
        if !compiled {
            return Err(KernelError::NotCompiled);
        }
        let dtype_code: u32 = code_of_input(self.input.dtype)?;
        let (m, output_dims) = self.validate_layouts(matrix)?;
        let quantized_elements: usize = checked_product(m, matrix.cols)?;
        let activation_scale_elements: usize = checked_product(
            m,
            matrix.cols / matrix.group_size,
        )?;
        let output_elements: usize = checked_product(m, matrix.rows)?;
        Ok(
            MatmulPlan {
                quantized_elements,
                activation_scale_elements,
                output_elements,
                output_dims,
                m: checked_u32(m)?,
                n: checked_u32(matrix.rows)?,
                k: checked_u32(matrix.cols)?,
                group_size: checked_u32(matrix.group_size)?,
                group_offset: matrix.group_offset as u64,
                seed: matrix.seed,
                dtype_code,
            },
        )
    }
}

/// What an embedding lookup is launched with. No kernel runs if there are no ids.
#[derive(Clone, Copy, Debug, PartialEq, Eq, Structural)]
pub struct EmbeddingPlan {
    pub output_elements: usize,
    pub id_count: u32,
    pub rows: u32,
    pub cols: u32,
    pub group_size: u32,
    pub group_offset: u64,
    pub seed: u64,
    pub dtype_code: u32,
}

/// What comes of an embedding lookup.
#[derive(Clone, Copy, Debug, PartialEq, Eq, Structural)]
pub enum EmbeddingStep {
    /// There are no ids: the output has no rows.
    Empty,
    Launch(EmbeddingPlan),
}

impl MatmulInputs {
    /// What is wrong with an embedding lookup before the ids are counted.
    pub open spec fn embedding_fault_before_ids(
        &self,
        matrix: MatrixShape,
        output_dtype: DType,
        compiled: bool,
    ) -> Option<KernelError> {
        let gs = matrix.group_size;
        let groups = matrix.cols as int / gs as int;
        if !(self.input.device.cuda && self.weight.device.cuda && self.scales.device.cuda) {
            Some(KernelError::NotOnCuda)
        } else if !compiled {
            Some(KernelError::NotCompiled)
        } else if input_code(output_dtype) is None {
            Some(KernelError::Dtype { dtype: output_dtype })
        } else if !(self.input.contiguous && self.weight.contiguous && self.scales.contiguous) {
            Some(KernelError::NotContiguous)
        } else if self.input.dtype != DType::U32 {
            Some(KernelError::Dtype { dtype: self.input.dtype })
        } else if self.weight.dtype != DType::U8 || self.scales.dtype != DType::F32 {
            Some(KernelError::Dtypes)
        } else if !is_kernel_group(gs) || matrix.cols as int % gs as int != 0 {
            Some(KernelError::GroupSize { group_size: gs })
        } else if !is_matrix(self.weight.dims@, matrix.rows as int, matrix.cols as int / 2)
            || !is_matrix(self.scales.dims@, matrix.rows as int, groups) {
            Some(KernelError::ShapeMismatch)
        } else {
            None
        }
    }

    /// What is wrong with an embedding lookup, the input being the ids.
    pub open spec fn embedding_fault(
        &self,
        matrix: MatrixShape,
        output_dtype: DType,
        compiled: bool,
    ) -> Option<KernelError> {
        let groups = matrix.cols as int / matrix.group_size as int;
        let ids = checked_count(self.input.dims@)->0;
        let launch = if ids == 0 {
            None
        } else {
            first_fault(
                limit_fault(ids),
                first_fault(
                    limit_fault(matrix.rows),
                    first_fault(limit_fault(matrix.cols), limit_fault(matrix.group_size)),
                ),
            )
        };
        first_fault(
            self.embedding_fault_before_ids(matrix, output_dtype, compiled),
            first_fault(
                product_fault(ids, groups),
                first_fault(
                    limit_fault((ids * groups) as usize),
                    first_fault(product_fault(ids, matrix.cols as int), launch),
                ),
            ),
        )
    }

    /// Plans an embedding lookup, the input being the ids.
    pub fn plan_embedding(&self, matrix: MatrixShape, output_dtype: DType, compiled: bool) -> (step:
        Result<EmbeddingStep, KernelError>)
        requires
            self.embedding_fault_before_ids(matrix, output_dtype, compiled) is None
                ==> checked_count(self.input.dims@) is Some,
        ensures
            match step {
                Ok(s) => {
                    let ids = checked_count(self.input.dims@)->0;
                    &&& self.embedding_fault(matrix, output_dtype, compiled) is None
                    &&& match s {
                        EmbeddingStep::Empty => ids == 0,
                        EmbeddingStep::Launch(p) => {
                            &&& ids != 0
                            &&& p.output_elements == ids * matrix.cols
                            &&& p.id_count == ids
                            &&& p.rows == matrix.rows
                            &&& p.cols == matrix.cols
                            &&& p.group_size == matrix.group_size
                            &&& p.group_offset == matrix.group_offset
                            &&& p.seed == matrix.seed
                            &&& input_code(output_dtype) == Some(p.dtype_code)
                            &&& p.dtype_code == HQZ4_CUDA_F16 <==> output_dtype == DType::F16
                            &&& p.dtype_code == HQZ4_CUDA_F32 <==> output_dtype == DType::F32
                        },
                    }
                },
                Err(e) => self.embedding_fault(matrix, output_dtype, compiled) == Some(e),
            },
    {
        if !(self.input.device.cuda && self.weight.device.cuda && self.scales.device.cuda) {
            return Err(KernelError::NotOnCuda);
        }
        if !compiled {
            return Err(KernelError::NotCompiled);
        }
        let dtype_code: u32 = code_of_input(output_dtype)?;
        if !(self.input.contiguous && self.weight.contiguous && self.scales.contiguous) {
            return Err(KernelError::NotContiguous);
        }
        if self.input.dtype != DType::U32 {
            return Err(KernelError::Dtype { dtype: self.input.dtype });
        }
        if self.weight.dtype != DType::U8 || self.scales.dtype != DType::F32 {
            return Err(KernelError::Dtypes);
        }
        if !fits_kernel_group(matrix.group_size) || matrix.cols % matrix.group_size != 0 {
            return Err(KernelError::GroupSize { group_size: matrix.group_size });
        }
        let groups: usize = matrix.cols / matrix.group_size;
        if !has_matrix_shape(&self.weight.dims, matrix.rows, matrix.cols / 2)
            || !has_matrix_shape(&self.scales.dims, matrix.rows, groups) {
            return Err(KernelError::ShapeMismatch);
        }
        assert(self.input.dims@.take(self.input.dims.len() as int) =~= self.input.dims@);
        let id_count: usize = match count_elements(&self.input.dims, self.input.dims.len()) {
            Some(count) => count,
            None => {
                return Err(KernelError::SizeOverflow);
            },
        };
        let grid: usize = checked_product(id_count, groups)?;
        checked_u32(grid)?;
        let output_elements: usize = checked_product(id_count, matrix.cols)?;
        if id_count == 0 {
            return Ok(EmbeddingStep::Empty);
        }
        Ok(
            EmbeddingStep::Launch(
                EmbeddingPlan {
                    output_elements,
                    id_count: checked_u32(id_count)?,
                    rows: checked_u32(matrix.rows)?,
                    cols: checked_u32(matrix.cols)?,
                    group_size: checked_u32(matrix.group_size)?,
                    group_offset: matrix.group_offset as u64,
                    seed: matrix.seed,
                    dtype_code,
                },
            ),
        )
    }
}

/// What quantizing an activation is launched with.
#[derive(Clone, Copy, Debug, PartialEq, Eq, Structural)]
pub struct QuantizePlan {
    pub elements: usize,
    pub rows: usize,
    pub width: usize,
    pub groups: usize,
    pub scale_count: usize,
    pub m: u32,
    pub k: u32,
    pub group_size: u32,
    pub group_offset: u64,
    pub seed: u64,
    pub dtype_code: u32,
}

/// Whether a width is made of whole groups; groups of no elements make up no width.
pub open spec fn is_whole_groups(width: usize, group_size: usize) -> bool {
    if group_size == 0 {
        width == 0
    } else {
        width as int % group_size as int == 0
    }
}

/// What is wrong with quantizing an activation before its rows are counted.
pub open spec fn quantize_fault_before_rows(
    input: KernelTensor,
    matrix: MatrixShape,
    compiled: bool,
) -> Option<KernelError> {
    let dims = input.dims@;
    let k = dims.last();
    if !compiled {
        Some(KernelError::NotCompiled)
    } else if !input.device.cuda {
        Some(KernelError::NotOnCuda)
    } else if dims.len() == 0 {
        Some(KernelError::Rank)
    } else if k != matrix.cols || !is_whole_groups(k, matrix.group_size) {
        Some(KernelError::InputWidth { width: k, cols: matrix.cols })
    } else {
        None
    }
}

/// What is wrong with quantizing an activation.
pub open spec fn quantize_fault(
    input: KernelTensor,
    matrix: MatrixShape,
    compiled: bool,
) -> Option<KernelError> {
    let k = matrix.cols;
    let gs = matrix.group_size;
    let elements = checked_count(input.dims@)->0;
    let m = (elements as int / k as int) as usize;
    first_fault(
        quantize_fault_before_rows(input, matrix, compiled),
        if elements == 0 || elements as int % k as int != 0 {
            Some(KernelError::InputRows)
        } else {
            first_fault(
                product_fault(m, k as int / gs as int),
                if input_code(input.dtype) is None {
                    Some(KernelError::Dtype { dtype: input.dtype })
                } else {
                    first_fault(limit_fault(m), first_fault(limit_fault(k), limit_fault(gs)))
                },
            )
        },
    )
}

/// Plans quantizing an activation for an encoded matrix.
pub fn plan_quantize(input: &KernelTensor, matrix: MatrixShape, compiled: bool) -> (plan: Result<
    QuantizePlan,
    KernelError,
>)
    requires
        quantize_fault_before_rows(*input, matrix, compiled) is None ==> checked_count(
            input.dims@,
        ) is Some,
    ensures
        match plan {
            Ok(p) => {
                let k = matrix.cols as int;
                &&& quantize_fault(*input, matrix, compiled) is None
                &&& p.elements == checked_count(input.dims@)->0
                &&& p.rows == p.elements as int / k
                &&& p.width == k
                &&& p.groups == k / matrix.group_size as int
                &&& p.scale_count == p.rows * p.groups
                &&& p.m == p.rows
                &&& p.k == k
                &&& p.group_size == matrix.group_size
                &&& p.group_offset == matrix.group_offset
                &&& p.seed == matrix.seed
                &&& input_code(input.dtype) == Some(p.dtype_code)
                &&& p.dtype_code == HQZ4_CUDA_F16 <==> input.dtype == DType::F16
                &&& p.dtype_code == HQZ4_CUDA_F32 <==> input.dtype == DType::F32
            },
            Err(e) => quantize_fault(*input, matrix, compiled) == Some(e),
        },
{
    if !compiled {
        return Err(KernelError::NotCompiled);
    }
    if !input.device.cuda {
        return Err(KernelError::NotOnCuda);
    }
    let rank: usize = input.dims.len();
    if rank == 0 {
        return Err(KernelError::Rank);
    }
    let k: usize = input.dims[rank - 1];
    let whole: bool = if matrix.group_size == 0 {
        k == 0
    } else {
        k % matrix.group_size == 0
    };
    if k != matrix.cols || !whole {
        return Err(KernelError::InputWidth { width: k, cols: matrix.cols });
    }
    assert(input.dims@.take(rank as int) =~= input.dims@);
    let elements: usize = match count_elements(&input.dims, rank) {
        Some(elements) => elements,
        None => {
            return Err(KernelError::SizeOverflow);
        },
    };
    if elements == 0 || elements % k != 0 {
        return Err(KernelError::InputRows);
    }
    let m: usize = elements / k;
    let groups: usize = k / matrix.group_size;
    let scale_count: usize = checked_product(m, groups)?;
    let dtype_code: u32 = code_of_input(input.dtype)?;
    Ok(
        QuantizePlan {
            elements,
            rows: m,
            width: k,
            groups,
            scale_count,
            m: checked_u32(m)?,
            k: checked_u32(k)?,
            group_size: checked_u32(matrix.group_size)?,
            group_offset: matrix.group_offset as u64,
            seed: matrix.seed,
            dtype_code,
        },
    )
}

/// What is wrong with the shape of the source of an activation of `m` rows and `k` columns.
pub open spec fn source_fault(source: Seq<usize>, m: usize, k: usize) -> Option<KernelError> {
    if source.len() == 0 {
        Some(KernelError::SourceShape)
    } else {
        match checked_count(source.drop_last()) {
            None => Some(KernelError::SizeOverflow),
            Some(rows) => if source.last() != k || rows != m {
                Some(KernelError::SourceShape)
            } else {
                None
            },
        }
    }
}

fn check_source(source: &Vec<usize>, m: usize, k: usize) -> (valid: Result<(), KernelError>)
    ensures
        match valid {
            Ok(_) => source_fault(source@, m, k) is None,
            Err(e) => source_fault(source@, m, k) == Some(e),
        },
{
    let rank: usize = source.len();
    if rank == 0 {
        return Err(KernelError::SourceShape);
    }
    assert(source@.take(rank - 1) =~= source@.drop_last());
    let rows: usize = match count_elements(source, rank - 1) {
        Some(rows) => rows,
        None => {
            return Err(KernelError::SizeOverflow);
        },
    };
    if source[rank - 1] != k || rows != m {
        return Err(KernelError::SourceShape);
    }
    Ok(())
}

/// The tensors of a product with an activation that is quantized already.
pub struct QuantizedInputs {
    pub activation: KernelTensor,
    pub activation_scales: KernelTensor,
    pub source_shape: Vec<usize>,
    pub source_dtype: DType,
}

/// What a product with a quantized activation is launched with.
#[derive(Clone, Debug)]
pub struct QuantizedMatmulPlan {
    pub output_elements: usize,
    pub output_dims: Vec<usize>,
    pub m: u32,
    pub n: u32,
    pub k: u32,
    pub group_size: u32,
    pub dtype_code: u32,
    /// Whether the output is converted to the type of the source afterwards.
    pub convert: bool,
}

impl QuantizedInputs {
    /// What is wrong with a product of a quantized activation and a matrix before the groups of
    /// the activation are counted.
    pub open spec fn matmul_fault_before_groups(
        &self,
        weight: KernelTensor,
        weight_scales: KernelTensor,
        compiled: bool,
    ) -> Option<KernelError> {
        if !compiled {
            Some(KernelError::NotCompiled)
        } else if self.activation.dtype != DType::U8 || self.activation_scales.dtype != DType::F32
            || weight.dtype != DType::U8 || weight_scales.dtype != DType::F32 {
            Some(KernelError::Dtypes)
        } else if !(self.activation.contiguous && self.activation_scales.contiguous
            && weight.contiguous && weight_scales.contiguous) {
            Some(KernelError::NotContiguous)
        } else if self.activation_scales.device != self.activation.device || weight.device
            != self.activation.device || weight_scales.device != self.activation.device {
            Some(KernelError::DeviceMismatch)
        } else if !self.activation.device.cuda {
            Some(KernelError::NotOnCuda)
        } else if self.activation.dims.len() != 2 {
            Some(KernelError::Rank)
        } else {
            None
        }
    }

    /// What is wrong with a product of a quantized activation and a matrix.
    pub open spec fn matmul_fault(
        &self,
        weight: KernelTensor,
        weight_scales: KernelTensor,
        matrix: MatrixShape,
        compiled: bool,
    ) -> Option<KernelError> {
        let (m, k) = (self.activation.dims@[0], self.activation.dims@[1]);
        let n = matrix.rows;
        let groups = k as int / matrix.group_size as int;
        let before = self.matmul_fault_before_groups(weight, weight_scales, compiled);
        if before is Some {
            before
        } else if k != matrix.cols || !is_matrix(self.activation_scales.dims@, m as int, groups)
            || !is_matrix(weight.dims@, n as int, k as int / 2) || !is_matrix(
            weight_scales.dims@,
            n as int,
            groups,
        ) {
            Some(KernelError::ShapeMismatch)
        } else {
            first_fault(
                source_fault(self.source_shape@, m, k),
                first_fault(
                    product_fault(m, n as int),
                    if output_code(self.source_dtype) is None {
                        Some(KernelError::Dtype { dtype: self.source_dtype })
                    } else {
                        first_fault(
                            limit_fault(m),
                            first_fault(
                                limit_fault(n),
                                first_fault(limit_fault(k), limit_fault(matrix.group_size)),
                            ),
                        )
                    },
                ),
            )
        }
    }

    /// Plans a product of a quantized activation and a matrix.
    pub fn plan_matmul(
        &self,
        weight: &KernelTensor,
        weight_scales: &KernelTensor,
        matrix: MatrixShape,
        compiled: bool,
    ) -> (plan: Result<QuantizedMatmulPlan, KernelError>)
        requires
            self.matmul_fault_before_groups(*weight, *weight_scales, compiled) is None
                ==> matrix.group_size > 0,
        ensures
            match plan {
                Ok(p) => {
                    let (m, k) = (self.activation.dims@[0], self.activation.dims@[1]);
                    &&& self.matmul_fault(*weight, *weight_scales, matrix, compiled) is None
                    &&& p.output_elements == m * matrix.rows
                    &&& p.output_dims@ == self.source_shape@.drop_last().push(matrix.rows)
                    &&& p.m == m
                    &&& p.n == matrix.rows
                    &&& p.k == k
                    &&& p.group_size == matrix.group_size
                    &&& output_code(self.source_dtype) == Some(p.dtype_code)
                    &&& p.convert == (self.source_dtype == DType::BF16)
                    &&& p.dtype_code == HQZ4_CUDA_F32 <==> self.source_dtype == DType::F32
                    &&& p.dtype_code == HQZ4_CUDA_F16 <==> self.source_dtype == DType::F16
                        || self.source_dtype == DType::BF16
                },
                Err(e) => self.matmul_fault(*weight, *weight_scales, matrix, compiled) == Some(e),
            },
    {
        if !compiled {
            return Err(KernelError::NotCompiled);
        }
        if self.activation.dtype != DType::U8 || self.activation_scales.dtype != DType::F32
            || weight.dtype != DType::U8 || weight_scales.dtype != DType::F32 {
            return Err(KernelError::Dtypes);
        }
        if !(self.activation.contiguous && self.activation_scales.contiguous && weight.contiguous
            && weight_scales.contiguous) {
            return Err(KernelError::NotContiguous);
        }
        if self.activation_scales.device != self.activation.device || weight.device
            != self.activation.device || weight_scales.device != self.activation.device {
            return Err(KernelError::DeviceMismatch);
        }
        if !self.activation.device.cuda {
            return Err(KernelError::NotOnCuda);
        }
        if self.activation.dims.len() != 2 {
            return Err(KernelError::Rank);
        }
        let m: usize = self.activation.dims[0];
        let k: usize = self.activation.dims[1];
        let n: usize = matrix.rows;
        let groups: usize = k / matrix.group_size;
        if k != matrix.cols || !has_matrix_shape(&self.activation_scales.dims, m, groups)
            || !has_matrix_shape(&weight.dims, n, k / 2) || !has_matrix_shape(
            &weight_scales.dims,
            n,
            groups,
        ) {
            return Err(KernelError::ShapeMismatch);
        }
        check_source(&self.source_shape, m, k)?;
        let output_elements: usize = checked_product(m, n)?;
        let dtype_code: u32 = code_of_output(self.source_dtype)?;
        Ok(
            QuantizedMatmulPlan {
                output_elements,
                output_dims: with_last(&self.source_shape, n),
                m: checked_u32(m)?,
                n: checked_u32(n)?,
                k: checked_u32(k)?,
                group_size: checked_u32(matrix.group_size)?,
                dtype_code,
                convert: self.source_dtype == DType::BF16,
            },
        )
    }
}

/// A matrix on a device, for products that are fused.
pub struct CudaMatrix {
    pub codes: KernelTensor,
    pub scales: KernelTensor,
    pub rows: usize,
    pub cols: usize,
    pub group_size: usize,
}

impl CudaMatrix {
    /// Whether the matrix can be multiplied with an activation of width `k`.
    pub open spec fn fits(&self, k: usize, group_size: usize, device: DeviceTag) -> bool {
        let groups = k as int / group_size as int;
        &&& self.cols == k
        &&& self.group_size == group_size
        &&& self.codes.dtype == DType::U8
        &&& self.scales.dtype == DType::F32
        &&& self.codes.contiguous
        &&& self.scales.contiguous
        &&& is_matrix(self.codes.dims@, self.rows as int, k as int / 2)
        &&& is_matrix(self.scales.dims@, self.rows as int, groups)
        &&& self.codes.device == device
        &&& self.scales.device == device
    }

    fn check(&self, k: usize, group_size: usize, device: DeviceTag) -> (fits: bool)
        requires
            group_size > 0,
        ensures
            fits == self.fits(k, group_size, device),
    {
        self.cols == k && self.group_size == group_size && self.codes.dtype == DType::U8
            && self.scales.dtype == DType::F32 && self.codes.contiguous && self.scales.contiguous
            && has_matrix_shape(&self.codes.dims, self.rows, k / 2) && has_matrix_shape(
            &self.scales.dims,
            self.rows,
            k / group_size,
        ) && self.codes.device == device && self.scales.device == device
    }
}

impl QuantizedInputs {
    /// What is wrong with a product of a quantized activation and several matrices at once.
    pub open spec fn projection_fault(&self, weights: Seq<CudaMatrix>, compiled: bool) -> Option<
        KernelError,
    > {
        let a = self.activation.dims@;
        let (m, k) = (a[0], a[1]);
        let gs = weights[0].group_size;
        let groups = k as int / gs as int;
        if !compiled {
            Some(KernelError::NotCompiled)
        } else if self.activation.dtype != DType::U8 || self.activation_scales.dtype
            != DType::F32 {
            Some(KernelError::Dtypes)
        } else if !(self.activation.contiguous && self.activation_scales.contiguous) {
            Some(KernelError::NotContiguous)
        } else if a.len() != 2 {
            Some(KernelError::Rank)
        } else if weights.len() == 0 {
            Some(KernelError::NoWeights)
        } else if m == 0 || k == 0 || gs == 0 || k as int % gs as int != 0 {
            Some(KernelError::InputRows)
        } else if !is_matrix(self.activation_scales.dims@, m as int, groups) {
            Some(KernelError::ScaleShape)
        } else if exists|i: int|
            0 <= i < weights.len() && !(#[trigger] weights[i]).fits(
                k,
                gs,
                self.activation.device,
            ) {
            Some(KernelError::ShapeMismatch)
        } else if self.activation_scales.device != self.activation.device {
            Some(KernelError::DeviceMismatch)
        } else {
            source_fault(self.source_shape@, m, k)
        }
    }

    /// Checks a product with several matrices at once; gives the rows and columns of the
    /// activation and the group size.
    pub fn validate_multi_projection_inputs(&self, weights: &Vec<CudaMatrix>, compiled: bool) -> (sizes:
        Result<(usize, usize, usize), KernelError>)
        ensures
            match sizes {
                Ok((m, k, group_size)) => {
                    &&& self.projection_fault(weights@, compiled) is None
                    &&& m == self.activation.dims@[0]
                    &&& k == self.activation.dims@[1]
                    &&& group_size == weights@[0].group_size
                },
                Err(e) => self.projection_fault(weights@, compiled) == Some(e),
            },
    {
        if !compiled {
            return Err(KernelError::NotCompiled);
        }
        if self.activation.dtype != DType::U8 || self.activation_scales.dtype != DType::F32 {
            return Err(KernelError::Dtypes);
        }
        if !(self.activation.contiguous && self.activation_scales.contiguous) {
            return Err(KernelError::NotContiguous);
        }
        if self.activation.dims.len() != 2 {
            return Err(KernelError::Rank);
        }
        if weights.len() == 0 {
            return Err(KernelError::NoWeights);
        }
        let m: usize = self.activation.dims[0];
        let k: usize = self.activation.dims[1];
        let group_size: usize = weights[0].group_size;
        if m == 0 || k == 0 || group_size == 0 || k % group_size != 0 {
            return Err(KernelError::InputRows);
        }
        if !has_matrix_shape(&self.activation_scales.dims, m, k / group_size) {
            return Err(KernelError::ScaleShape);
        }
        let mut i: usize = 0;
        while i < weights.len()
            invariant
                i <= weights.len(),
                group_size > 0,
                forall|j: int|
                    0 <= j < i ==> (#[trigger] weights@[j]).fits(
                        k,
                        group_size,
                        self.activation.device,
                    ),
                compiled,
                self.activation.dtype == DType::U8,
                self.activation_scales.dtype == DType::F32,
                self.activation.contiguous,
                self.activation_scales.contiguous,
                self.activation.dims.len() == 2,
                m == self.activation.dims@[0],
                k == self.activation.dims@[1],
                group_size == weights@[0].group_size,
                m != 0,
                k != 0,
                k as int % group_size as int == 0,
                is_matrix(
                    self.activation_scales.dims@,
                    m as int,
                    k as int / group_size as int,
                ),
            decreases weights.len() - i,
        {
            if !weights[i].check(k, group_size, self.activation.device) {
                assert(!weights@[i as int].fits(k, group_size, self.activation.device));
                return Err(KernelError::ShapeMismatch);
            }
            i += 1;
        }
        if self.activation_scales.device != self.activation.device {
            return Err(KernelError::DeviceMismatch);
        }
        check_source(&self.source_shape, m, k)?;
        Ok((m, k, group_size))
    }
}

/// What a fused query, key and value product is launched with.
#[derive(Clone, Debug)]
pub struct QkvPlan {
    pub q_elements: usize,
    pub k_elements: usize,
    pub v_elements: usize,
    pub q_dims: Vec<usize>,
    pub k_dims: Vec<usize>,
    pub v_dims: Vec<usize>,
    pub q_rows: u32,
    pub k_rows: u32,
    pub v_rows: u32,
    pub m: u32,
    pub k: u32,
    pub group_size: u32,
    pub dtype_code: u32,
    /// Whether the outputs are converted to the type of the source afterwards.
    pub convert: bool,
}

/// What a fused gate and up product is launched with.
#[derive(Clone, Debug)]
pub struct GateUpPlan {
    pub output_elements: usize,
    pub output_dims: Vec<usize>,
    pub m: u32,
    pub n: u32,
    pub k: u32,
    pub group_size: u32,
    pub dtype_code: u32,
}

impl QuantizedInputs {
    /// What is wrong with a fused query, key and value product.
    pub open spec fn qkv_fault(&self, weights: Seq<CudaMatrix>, compiled: bool) -> Option<
        KernelError,
    > {
        let (m, k) = (self.activation.dims@[0], self.activation.dims@[1]);
        let (q, key, value) = (weights[0].rows, weights[1].rows, weights[2].rows);
        first_fault(
            self.projection_fault(weights, compiled),
            if output_code(self.source_dtype) is None {
                Some(KernelError::Dtype { dtype: self.source_dtype })
            } else if !self.activation.device.cuda {
                Some(KernelError::NotOnCuda)
            } else {
                first_fault(
                    product_fault(m, q as int),
                    first_fault(
                        product_fault(m, key as int),
                        first_fault(
                            product_fault(m, value as int),
                            first_fault(
                                limit_fault(q),
                                first_fault(
                                    limit_fault(key),
                                    first_fault(
                                        limit_fault(value),
                                        first_fault(
                                            limit_fault(m),
                                            first_fault(
                                                limit_fault(k),
                                                limit_fault(weights[0].group_size),
                                            ),
                                        ),
                                    ),
                                ),
                            ),
                        ),
                    ),
                )
            },
        )
    }

    /// Whether this is the launch of a fused query, key and value product.
    pub open spec fn is_qkv_plan(&self, weights: Seq<CudaMatrix>, p: QkvPlan) -> bool {
        let (m, k) = (self.activation.dims@[0], self.activation.dims@[1]);
        let front = self.source_shape@.drop_last();
        &&& p.q_elements == m * weights[0].rows
        &&& p.k_elements == m * weights[1].rows
        &&& p.v_elements == m * weights[2].rows
        &&& p.q_dims@ == front.push(weights[0].rows)
        &&& p.k_dims@ == front.push(weights[1].rows)
        &&& p.v_dims@ == front.push(weights[2].rows)
        &&& p.q_rows == weights[0].rows
        &&& p.k_rows == weights[1].rows
        &&& p.v_rows == weights[2].rows
        &&& p.m == m
        &&& p.k == k
        &&& p.group_size == weights[0].group_size
        &&& output_code(self.source_dtype) == Some(p.dtype_code)
        &&& p.convert == (self.source_dtype == DType::BF16)
    }

    /// Plans a fused product with the query, key and value matrices, in this order.
    pub fn plan_qkv(&self, weights: &Vec<CudaMatrix>, compiled: bool) -> (plan: Result<
        QkvPlan,
        KernelError,
    >)
        requires
            weights.len() == 3,
        ensures
            match plan {
                Ok(p) => {
                    &&& self.qkv_fault(weights@, compiled) is None
                    &&& self.is_qkv_plan(weights@, p)
                    &&& p.dtype_code == HQZ4_CUDA_F32 <==> self.source_dtype == DType::F32
                    &&& p.dtype_code == HQZ4_CUDA_F16 <==> self.source_dtype == DType::F16
                        || self.source_dtype == DType::BF16
                    &&& (p.q_rows, p.k_rows, p.v_rows) == (
                        weights@[0].rows as u32,
                        weights@[1].rows as u32,
                        weights@[2].rows as u32,
                    )
                    &&& p.q_dims@.last() == weights@[0].rows
                    &&& p.k_dims@.last() == weights@[1].rows
                    &&& p.v_dims@.last() == weights@[2].rows
                    &&& p.q_elements == p.m * weights@[0].rows
                    &&& p.k_elements == p.m * weights@[1].rows
                    &&& p.v_elements == p.m * weights@[2].rows
                },
                Err(e) => self.qkv_fault(weights@, compiled) == Some(e),
            },
    {
        let (m, k, group_size) = self.validate_multi_projection_inputs(weights, compiled)?;
        let dtype_code: u32 = code_of_output(self.source_dtype)?;
        if !self.activation.device.cuda {
            return Err(KernelError::NotOnCuda);
        }
        let q: usize = weights[0].rows;
        let key: usize = weights[1].rows;
        let value: usize = weights[2].rows;
        let q_elements: usize = checked_product(m, q)?;
        let k_elements: usize = checked_product(m, key)?;
        let v_elements: usize = checked_product(m, value)?;
        Ok(
            QkvPlan {
                q_elements,
                k_elements,
                v_elements,
                q_dims: with_last(&self.source_shape, q),
                k_dims: with_last(&self.source_shape, key),
                v_dims: with_last(&self.source_shape, value),
                q_rows: checked_u32(q)?,
                k_rows: checked_u32(key)?,
                v_rows: checked_u32(value)?,
                m: checked_u32(m)?,
                k: checked_u32(k)?,
                group_size: checked_u32(group_size)?,
                dtype_code,
                convert: self.source_dtype == DType::BF16,
            },
        )
    }

    /// What is wrong with a fused gate and up product.
    pub open spec fn gate_up_fault(&self, weights: Seq<CudaMatrix>, compiled: bool) -> Option<
        KernelError,
    > {
        let (m, k) = (self.activation.dims@[0], self.activation.dims@[1]);
        let rows = weights[0].rows;
        first_fault(
            self.projection_fault(weights, compiled),
            if rows != weights[1].rows {
                Some(KernelError::GateUpRows)
            } else if input_code(self.source_dtype) is None {
                Some(KernelError::Dtype { dtype: self.source_dtype })
            } else if !self.activation.device.cuda {
                Some(KernelError::NotOnCuda)
            } else {
                first_fault(
                    product_fault(m, rows as int),
                    first_fault(
                        limit_fault(m),
                        first_fault(
                            limit_fault(rows),
                            first_fault(limit_fault(k), limit_fault(weights[0].group_size)),
                        ),
                    ),
                )
            },
        )
    }

    /// Whether this is the launch of a fused gate and up product.
    pub open spec fn is_gate_up_plan(&self, weights: Seq<CudaMatrix>, p: GateUpPlan) -> bool {
        let (m, k) = (self.activation.dims@[0], self.activation.dims@[1]);
        let rows = weights[0].rows;
        &&& p.output_elements == m * rows
        &&& p.output_dims@ == self.source_shape@.drop_last().push(rows)
        &&& p.m == m
        &&& p.n == rows
        &&& p.k == k
        &&& p.group_size == weights[0].group_size
        &&& input_code(self.source_dtype) == Some(p.dtype_code)
    }

    /// Plans a fused product with a gate and an up matrix, in this order.
    pub fn plan_gate_up(&self, weights: &Vec<CudaMatrix>, compiled: bool) -> (plan: Result<
        GateUpPlan,
        KernelError,
    >)
        requires
            weights.len() == 2,
        ensures
            match plan {
                Ok(p) => {
                    &&& self.gate_up_fault(weights@, compiled) is None
                    &&& self.is_gate_up_plan(weights@, p)
                    &&& p.dtype_code == HQZ4_CUDA_F16 <==> self.source_dtype == DType::F16
                    &&& p.dtype_code == HQZ4_CUDA_F32 <==> self.source_dtype == DType::F32
                    &&& p.n == weights@[0].rows
                    &&& p.n == weights@[1].rows
                    &&& p.output_elements == p.m * p.n
                },
                Err(e) => self.gate_up_fault(weights@, compiled) == Some(e),
            },
    {
        let (m, k, group_size) = self.validate_multi_projection_inputs(weights, compiled)?;
        let rows: usize = weights[0].rows;
        if rows != weights[1].rows {
            return Err(KernelError::GateUpRows);
        }
        let dtype_code: u32 = code_of_input(self.source_dtype)?;
        if !self.activation.device.cuda {
            return Err(KernelError::NotOnCuda);
        }
        let output_elements: usize = checked_product(m, rows)?;
        Ok(
            GateUpPlan {
                output_elements,
                output_dims: with_last(&self.source_shape, rows),
                m: checked_u32(m)?,
                n: checked_u32(rows)?,
                k: checked_u32(k)?,
                group_size: checked_u32(group_size)?,
                dtype_code,
            },
        )
    }

    /// Whether matrices can be fused at all: they all take the activation, in groups of one
    /// size, on its device. `same_rows` asks for equal widths of the outputs too.
    pub open spec fn can_fuse(&self, weights: Seq<CudaMatrix>, same_rows: bool) -> bool {
        &&& self.activation.dims.len() == 2
        &&& forall|i: int|
            0 <= i < weights.len() ==> {
                &&& (#[trigger] weights[i]).cols == self.activation.dims@[1]
                &&& weights[i].group_size == weights[0].group_size
                &&& same_rows ==> weights[i].rows == weights[0].rows
                &&& weights[i].codes.device == self.activation.device
                &&& weights[i].scales.device == self.activation.device
            }
    }

    /// Whether matrices can be fused at all.
    pub fn fusable(&self, weights: &Vec<CudaMatrix>, same_rows: bool) -> (yes: bool)
        ensures
            yes == self.can_fuse(weights@, same_rows),
    {
        if self.activation.dims.len() != 2 {
            return false;
        }
        let mut i: usize = 0;
        while i < weights.len()
            invariant
                i <= weights.len(),
                self.activation.dims.len() == 2,
                forall|j: int|
                    0 <= j < i ==> {
                        &&& (#[trigger] weights@[j]).cols == self.activation.dims@[1]
                        &&& weights@[j].group_size == weights@[0].group_size
                        &&& same_rows ==> weights@[j].rows == weights@[0].rows
                        &&& weights@[j].codes.device == self.activation.device
                        &&& weights@[j].scales.device == self.activation.device
                    },
            decreases weights.len() - i,
        {
            if weights[i].cols != self.activation.dims[1] || weights[i].group_size
                != weights[0].group_size || (same_rows && weights[i].rows != weights[0].rows)
                || weights[i].codes.device != self.activation.device || weights[i].scales.device
                != self.activation.device {
                assert(weights@[i as int].cols == weights@[i as int].cols);
                return false;
            }
            i += 1;
        }
        true
    }

    /// Plans a fused query, key and value product; `None` if the matrices cannot be fused.
    pub fn try_fused_qkv_quantized(&self, weights: &Vec<CudaMatrix>, compiled: bool) -> (plan:
        Result<Option<QkvPlan>, KernelError>)
        requires
            weights.len() == 3,
        ensures
            match plan {
                Ok(None) => !self.can_fuse(weights@, false),
                Ok(Some(p)) => {
                    &&& self.can_fuse(weights@, false)
                    &&& self.qkv_fault(weights@, compiled) is None
                    &&& self.is_qkv_plan(weights@, p)
                },
                Err(e) => self.can_fuse(weights@, false) && self.qkv_fault(weights@, compiled)
                    == Some(e),
            },
    {
        if !self.fusable(weights, false) {
            return Ok(None);
        }
        match self.plan_qkv(weights, compiled) {
            Ok(plan) => Ok(Some(plan)),
            Err(e) => Err(e),
        }
    }

    /// Plans a fused gate and up product; `None` if the matrices cannot be fused.
    pub fn try_fused_silu_gate_up_quantized(&self, weights: &Vec<CudaMatrix>, compiled: bool) -> (plan:
        Result<Option<GateUpPlan>, KernelError>)
        requires
            weights.len() == 2,
        ensures
            match plan {
                Ok(None) => !self.can_fuse(weights@, true),
                Ok(Some(p)) => {
                    &&& self.can_fuse(weights@, true)
                    &&& self.gate_up_fault(weights@, compiled) is None
                    &&& self.is_gate_up_plan(weights@, p)
                },
                Err(e) => self.can_fuse(weights@, true) && self.gate_up_fault(weights@, compiled)
                    == Some(e),
            },
    {
        if !self.fusable(weights, true) {
            return Ok(None);
        }
        match self.plan_gate_up(weights, compiled) {
            Ok(plan) => Ok(Some(plan)),
            Err(e) => Err(e),
        }
    }
}

/// The kernels know two types of buffers: number 0 stands for 16-bit floats and number 1 for
/// 32-bit floats. Outputs for sources of the wide-ranged 16-bit floats are plain 16-bit floats.
pub proof fn kernel_number_tells_the_buffers(dtype: DType)
    ensures
        HQZ4_CUDA_F16 == 0,
        HQZ4_CUDA_F32 == 1,
        input_code(dtype) == Some(0u32) <==> dtype == DType::F16,
        input_code(dtype) == Some(1u32) <==> dtype == DType::F32,
        input_code(dtype) is Some <==> dtype == DType::F16 || dtype == DType::F32,
        output_code(dtype) == Some(0u32) <==> dtype == DType::F16 || dtype == DType::BF16,
        output_code(dtype) == Some(1u32) <==> dtype == DType::F32,
        output_code(dtype) is Some <==> dtype == DType::F16 || dtype == DType::BF16 || dtype
            == DType::F32,
{
}

/// A product of activations is launched exactly if the kernels are there, all tensors are
/// contiguous and on a CUDA device, the activations are 16- or 32-bit floats in rows as wide as
/// the matrix, the codes are bytes with two columns each, the scales 32-bit floats with one for
/// each group, groups are powers of two from 4 to 1024 that fill the width, and the sizes fit.
pub proof fn matmul_is_launched_if_its_tensors_fit(
    inputs: MatmulInputs,
    matrix: MatrixShape,
    compiled: bool,
    m: usize,
    groups: int,
)
    requires
        matrix.cols > 0,
        matrix.group_size > 0,
        checked_count(inputs.input.dims@) is Some,
        m * matrix.cols <= checked_count(inputs.input.dims@)->0 < (m + 1) * matrix.cols,
        groups * matrix.group_size <= matrix.cols < (groups + 1) * matrix.group_size,
    ensures
        inputs.matmul_fault(matrix, compiled) is None <==> {
            &&& compiled
            &&& inputs.input.device.cuda && inputs.weight.device.cuda && inputs.scales.device.cuda
            &&& inputs.input.contiguous && inputs.weight.contiguous && inputs.scales.contiguous
            &&& inputs.input.dtype == DType::F16 || inputs.input.dtype == DType::F32
            &&& inputs.weight.dtype == DType::U8
            &&& inputs.scales.dtype == DType::F32
            &&& is_power_of_two(matrix.group_size as nat) && 4 <= matrix.group_size <= 1024
            &&& groups * matrix.group_size == matrix.cols
            &&& inputs.input.dims@.len() > 0 && inputs.input.dims@.last() == matrix.cols
            &&& m * matrix.cols == checked_count(inputs.input.dims@)->0
            &&& inputs.weight.dims@.len() == 2 && inputs.weight.dims@[0] == matrix.rows
                && inputs.weight.dims@[1] == matrix.cols / 2
            &&& inputs.scales.dims@.len() == 2 && inputs.scales.dims@[0] == matrix.rows
                && inputs.scales.dims@[1] == groups
            &&& m * matrix.rows <= usize::MAX
            &&& m <= u32::MAX && matrix.rows <= u32::MAX && matrix.cols <= u32::MAX
        },
{
    let cols = matrix.cols as int;
    let gs = matrix.group_size as int;
    let count = checked_count(inputs.input.dims@)->0 as int;
    vstd::arithmetic::div_mod::lemma_fundamental_div_mod(cols, gs);
    vstd::arithmetic::div_mod::lemma_fundamental_div_mod(count, cols);
    assert(groups == cols / gs) by (nonlinear_arith)
        requires
            gs > 0,
            cols == gs * (cols / gs) + cols % gs,
            0 <= cols % gs < gs,
            groups * gs <= cols < (groups + 1) * gs,
    ;
    assert(m == count / cols) by (nonlinear_arith)
        requires
            cols > 0,
            count == cols * (count / cols) + count % cols,
            0 <= count % cols < cols,
            m * cols <= count < (m + 1) * cols,
    ;
    assert(gs * groups == groups * gs && cols * m == m * cols) by (nonlinear_arith);
    assert(m * groups <= m * cols && 0 <= m * groups) by (nonlinear_arith)
        requires
            0 <= groups,
            groups * gs <= cols,
            gs >= 1,
    ;
    assert(m * cols <= usize::MAX);
}

/// What quantizing an activation needs: a scale for each group of each row, groups that fill the
/// width, and rows that fill the activation.
pub proof fn quantized_activation_fills_its_groups(
    input: KernelTensor,
    matrix: MatrixShape,
    compiled: bool,
    m: int,
    groups: int,
)
    requires
        quantize_fault(input, matrix, compiled) is None,
        checked_count(input.dims@) is Some,
        m == checked_count(input.dims@)->0 as int / matrix.cols as int,
        groups == matrix.cols as int / matrix.group_size as int,
    ensures
        compiled,
        input.device.cuda,
        input.dims@.last() == matrix.cols,
        input.dtype == DType::F16 || input.dtype == DType::F32,
        matrix.group_size > 0,
        groups * matrix.group_size == matrix.cols,
        m * matrix.cols == checked_count(input.dims@)->0,
        m > 0,
{
    let cols = matrix.cols as int;
    let gs = matrix.group_size as int;
    let count = checked_count(input.dims@)->0 as int;
    let dims = input.dims@;
    if cols == 0 {
        let front = checked_count(dims.drop_last());
        assert(front->0 * dims.last() == 0) by (nonlinear_arith)
            requires
                dims.last() == 0,
        ;
    }
    vstd::arithmetic::div_mod::lemma_fundamental_div_mod(cols, gs);
    vstd::arithmetic::div_mod::lemma_fundamental_div_mod(count, cols);
    assert(gs * groups == groups * gs && cols * m == m * cols) by (nonlinear_arith);
    assert(m > 0) by (nonlinear_arith)
        requires
            m * cols == count,
            count > 0,
            cols > 0,
    ;
}

/// The source of an activation is its rows in some shape: its last dimension is the width, and
/// the others make up the rows.
pub proof fn source_is_the_activation_reshaped(source: Seq<usize>, m: usize, k: usize)
    ensures
        source_fault(source, m, k) is None <==> source.len() > 0 && source.last() == k
            && checked_count(source.drop_last()) == Some(m),
        source_fault(source, m, k) is None ==> source == source.drop_last().push(k),
{
    if source.len() > 0 {
        assert(source =~= source.drop_last().push(source.last()));
    }
}

/// Products with a quantized activation are launched only if activation and matrix go together:
/// equal widths, one scale for each group of each row on both sides, two codes in a byte.
pub proof fn quantized_matmul_fits_its_matrix(
    inputs: QuantizedInputs,
    weight: KernelTensor,
    weight_scales: KernelTensor,
    matrix: MatrixShape,
    compiled: bool,
    groups: int,
)
    requires
        matrix.group_size > 0,
        groups * matrix.group_size <= matrix.cols < (groups + 1) * matrix.group_size,
        inputs.matmul_fault(weight, weight_scales, matrix, compiled) is None,
    ensures
        compiled,
        inputs.activation.device.cuda,
        inputs.activation.device == weight.device,
        inputs.activation.device == weight_scales.device,
        inputs.activation.device == inputs.activation_scales.device,
        inputs.activation.contiguous && inputs.activation_scales.contiguous && weight.contiguous
            && weight_scales.contiguous,
        inputs.activation.dtype == DType::U8 && weight.dtype == DType::U8,
        inputs.activation_scales.dtype == DType::F32 && weight_scales.dtype == DType::F32,
        inputs.activation.dims@.len() == 2,
        inputs.activation.dims@[1] == matrix.cols,
        inputs.activation_scales.dims@ == seq![inputs.activation.dims@[0], groups as usize],
        weight.dims@ == seq![matrix.rows, matrix.cols / 2],
        weight_scales.dims@ == seq![matrix.rows, groups as usize],
        inputs.source_shape@.last() == matrix.cols,
        checked_count(inputs.source_shape@.drop_last()) == Some(inputs.activation.dims@[0]),
{
    let cols = matrix.cols as int;
    let gs = matrix.group_size as int;
    vstd::arithmetic::div_mod::lemma_fundamental_div_mod(cols, gs);
    assert(groups == cols / gs) by (nonlinear_arith)
        requires
            gs > 0,
            cols == gs * (cols / gs) + cols % gs,
            0 <= cols % gs < gs,
            groups * gs <= cols < (groups + 1) * gs,
    ;
    assert(inputs.activation_scales.dims@ =~= seq![inputs.activation.dims@[0], groups as usize]);
    assert(weight.dims@ =~= seq![matrix.rows, matrix.cols / 2]);
    assert(weight_scales.dims@ =~= seq![matrix.rows, groups as usize]);
}

/// Several matrices share one launch only if each takes the activation as it is.
pub proof fn fused_matrices_take_one_activation(
    inputs: QuantizedInputs,
    weights: Seq<CudaMatrix>,
    compiled: bool,
    i: int,
    groups: int,
)
    requires
        inputs.projection_fault(weights, compiled) is None,
        0 <= i < weights.len(),
        groups * weights[0].group_size == inputs.activation.dims@[1],
    ensures
        weights[i].cols == inputs.activation.dims@[1],
        weights[i].group_size == weights[0].group_size,
        weights[i].codes.dtype == DType::U8 && weights[i].scales.dtype == DType::F32,
        weights[i].codes.dims@ == seq![weights[i].rows, inputs.activation.dims@[1] / 2],
        weights[i].scales.dims@ == seq![weights[i].rows, groups as usize],
        weights[i].codes.device == inputs.activation.device,
        weights[i].scales.device == inputs.activation.device,
        inputs.activation_scales.dims@ == seq![inputs.activation.dims@[0], groups as usize],
{
    let k = inputs.activation.dims@[1] as int;
    let gs = weights[0].group_size as int;
    assert(weights[i].fits(
        inputs.activation.dims@[1],
        weights[0].group_size,
        inputs.activation.device,
    ));
    vstd::arithmetic::div_mod::lemma_fundamental_div_mod_converse(k, gs, groups, 0);
    assert(weights[i].codes.dims@ =~= seq![weights[i].rows, inputs.activation.dims@[1] / 2]);
    assert(weights[i].scales.dims@ =~= seq![weights[i].rows, groups as usize]);
    assert(inputs.activation_scales.dims@ =~= seq![inputs.activation.dims@[0], groups as usize]);
}

/// A lookup is launched only for numbers of rows that are 32-bit, into outputs that the kernels
/// know, with two codes in a byte and a scale for each group.
pub proof fn lookup_fits_its_matrix(
    inputs: MatmulInputs,
    matrix: MatrixShape,
    output_dtype: DType,
    compiled: bool,
    groups: int,
)
    requires
        inputs.embedding_fault(matrix, output_dtype, compiled) is None,
        groups * matrix.group_size == matrix.cols,
    ensures
        compiled,
        inputs.input.device.cuda && inputs.weight.device.cuda && inputs.scales.device.cuda,
        inputs.input.dtype == DType::U32,
        inputs.weight.dtype == DType::U8,
        inputs.scales.dtype == DType::F32,
        output_dtype == DType::F16 || output_dtype == DType::F32,
        4 <= matrix.group_size <= 1024,
        inputs.weight.dims@ == seq![matrix.rows, matrix.cols / 2],
        inputs.scales.dims@ == seq![matrix.rows, groups as usize],
        checked_count(inputs.input.dims@)->0 * matrix.cols <= usize::MAX,
{
    vstd::arithmetic::div_mod::lemma_fundamental_div_mod_converse(
        matrix.cols as int,
        matrix.group_size as int,
        groups,
        0,
    );
    assert(inputs.weight.dims@ =~= seq![matrix.rows, matrix.cols / 2]);
    assert(inputs.scales.dims@ =~= seq![matrix.rows, groups as usize]);
}

/// A product with a quantized activation is launched if activation and matrix go together, the
/// output has a type that the kernels give, and the sizes fit.
pub proof fn quantized_matmul_is_launched_if_it_fits(
    inputs: QuantizedInputs,
    weight: KernelTensor,
    weight_scales: KernelTensor,
    matrix: MatrixShape,
    compiled: bool,
    m: usize,
    groups: usize,
)
    requires
        compiled,
        inputs.activation.device.cuda,
        inputs.activation_scales.device == inputs.activation.device && weight.device
            == inputs.activation.device && weight_scales.device == inputs.activation.device,
        inputs.activation.contiguous && inputs.activation_scales.contiguous && weight.contiguous
            && weight_scales.contiguous,
        inputs.activation.dtype == DType::U8 && weight.dtype == DType::U8,
        inputs.activation_scales.dtype == DType::F32 && weight_scales.dtype == DType::F32,
        matrix.group_size > 0,
        matrix.cols == groups * matrix.group_size,
        inputs.activation.dims@ == seq![m, matrix.cols],
        inputs.activation_scales.dims@ == seq![m, groups],
        weight.dims@ == seq![matrix.rows, matrix.cols / 2],
        weight_scales.dims@ == seq![matrix.rows, groups],
        inputs.source_shape@.len() > 0,
        inputs.source_shape@.last() == matrix.cols,
        checked_count(inputs.source_shape@.drop_last()) == Some(m),
    ensures
        inputs.matmul_fault(weight, weight_scales, matrix, compiled) is None <==> {
            &&& m * matrix.rows <= usize::MAX
            &&& inputs.source_dtype == DType::F16 || inputs.source_dtype == DType::BF16
                || inputs.source_dtype == DType::F32
            &&& m <= u32::MAX && matrix.rows <= u32::MAX && matrix.cols <= u32::MAX
                && matrix.group_size <= u32::MAX
        },
{
    vstd::arithmetic::div_mod::lemma_fundamental_div_mod_converse(
        matrix.cols as int,
        matrix.group_size as int,
        groups as int,
        0,
    );
}

/// Several matrices are multiplied at once exactly if the kernels are there, the activation is
/// quantized and has rows and whole groups with a scale each, every matrix takes it as it is, and
/// its source is the activation in some shape.
pub proof fn several_matrices_fit_one_activation(
    inputs: QuantizedInputs,
    weights: Seq<CudaMatrix>,
    compiled: bool,
    groups: int,
)
    requires
        inputs.activation.dims@.len() == 2,
        weights.len() > 0,
        weights[0].group_size > 0,
        groups * weights[0].group_size <= inputs.activation.dims@[1] < (groups + 1)
            * weights[0].group_size,
    ensures
        inputs.projection_fault(weights, compiled) is None <==> {
            let (m, k) = (inputs.activation.dims@[0], inputs.activation.dims@[1]);
            let gs = weights[0].group_size;
            &&& compiled
            &&& inputs.activation.dtype == DType::U8 && inputs.activation_scales.dtype
                == DType::F32
            &&& inputs.activation.contiguous && inputs.activation_scales.contiguous
            &&& m > 0 && k > 0
            &&& k == groups * gs
            &&& inputs.activation_scales.dims@.len() == 2 && inputs.activation_scales.dims@[0]
                == m && inputs.activation_scales.dims@[1] == groups
            &&& forall|i: int|
                0 <= i < weights.len() ==> (#[trigger] weights[i]).fits(
                    k,
                    gs,
                    inputs.activation.device,
                )
            &&& inputs.activation_scales.device == inputs.activation.device
            &&& source_fault(inputs.source_shape@, m, k) is None
        },
{
    let (k, gs) = (inputs.activation.dims@[1] as int, weights[0].group_size as int);
    vstd::arithmetic::div_mod::lemma_fundamental_div_mod(k, gs);
    assert(groups == k / gs && (k % gs == 0 <==> k == groups * gs)) by (nonlinear_arith)
        requires
            gs > 0,
            k == gs * (k / gs) + k % gs,
            0 <= k % gs < gs,
            groups * gs <= k < (groups + 1) * gs,
    ;
}

/// Both fused products need an activation that all their matrices take, on a CUDA device, an
/// output type that the kernels have, and sizes that fit; a gate needs as many rows as its up
/// matrix.
pub proof fn fused_products_are_launched(
    inputs: QuantizedInputs,
    weights: Seq<CudaMatrix>,
    compiled: bool,
)
    ensures
        ({
            let (m, k) = (inputs.activation.dims@[0], inputs.activation.dims@[1]);
            let gs = weights[0].group_size;
            let (a, b, c) = (weights[0].rows, weights[1].rows, weights[2].rows);
            &&& inputs.qkv_fault(weights, compiled) is None <==> {
                &&& inputs.projection_fault(weights, compiled) is None
                &&& inputs.source_dtype == DType::F16 || inputs.source_dtype == DType::BF16
                    || inputs.source_dtype == DType::F32
                &&& inputs.activation.device.cuda
                &&& m * a <= usize::MAX && m * b <= usize::MAX && m * c <= usize::MAX
                &&& a <= u32::MAX && b <= u32::MAX && c <= u32::MAX
                &&& m <= u32::MAX && k <= u32::MAX && gs <= u32::MAX
            }
            &&& inputs.gate_up_fault(weights, compiled) is None <==> {
                &&& inputs.projection_fault(weights, compiled) is None
                &&& a == b
                &&& inputs.source_dtype == DType::F16 || inputs.source_dtype == DType::F32
                &&& inputs.activation.device.cuda
                &&& m * a <= usize::MAX
                &&& m <= u32::MAX && a <= u32::MAX && k <= u32::MAX && gs <= u32::MAX
            }
        }),
{
}

/// Matrices are fused exactly if each takes the width of the activation, on its device and with
/// the groups of the first, and, if that is asked for, has as many rows as the first.
pub proof fn matrices_that_are_fused(
    inputs: QuantizedInputs,
    weights: Seq<CudaMatrix>,
    same_rows: bool,
    i: int,
)
    requires
        inputs.can_fuse(weights, same_rows),
        0 <= i < weights.len(),
    ensures
        inputs.activation.dims@.len() == 2,
        weights[i].cols == inputs.activation.dims@[1],
        weights[i].group_size == weights[0].group_size,
        same_rows ==> weights[i].rows == weights[0].rows,
        weights[i].codes.device == inputs.activation.device,
        weights[i].scales.device == inputs.activation.device,
{
}

/// Matrices that take the width of the activation on its device, with equal groups and rows, are
/// fused.
pub proof fn equal_matrices_are_fused(
    inputs: QuantizedInputs,
    weights: Seq<CudaMatrix>,
    same_rows: bool,
    rows: usize,
    group_size: usize,
)
    requires
        inputs.activation.dims@.len() == 2,
        forall|i: int|
            0 <= i < weights.len() ==> {
                &&& (#[trigger] weights[i]).cols == inputs.activation.dims@[1]
                &&& weights[i].group_size == group_size
                &&& weights[i].rows == rows
                &&& weights[i].codes.device == inputs.activation.device
                &&& weights[i].scales.device == inputs.activation.device
            },
    ensures
        inputs.can_fuse(weights, same_rows),
{
}

/// A lookup is launched exactly if the kernels are there, ids, codes and scales are contiguous
/// tensors of 32-bit numbers, bytes and 32-bit floats on a CUDA device, the output is one of
/// 16- or 32-bit floats, groups are powers of two from 4 to 1024 that fill the width, and the
/// sizes fit; without ids only those of the output have to.
pub proof fn lookup_is_launched_if_it_fits(
    inputs: MatmulInputs,
    matrix: MatrixShape,
    output_dtype: DType,
    compiled: bool,
    ids: usize,
    groups: int,
)
    requires
        matrix.group_size > 0,
        checked_count(inputs.input.dims@) == Some(ids),
        groups * matrix.group_size <= matrix.cols < (groups + 1) * matrix.group_size,
    ensures
        inputs.embedding_fault(matrix, output_dtype, compiled) is None <==> {
            &&& compiled
            &&& inputs.input.device.cuda && inputs.weight.device.cuda && inputs.scales.device.cuda
            &&& inputs.input.contiguous && inputs.weight.contiguous && inputs.scales.contiguous
            &&& output_dtype == DType::F16 || output_dtype == DType::F32
            &&& inputs.input.dtype == DType::U32
            &&& inputs.weight.dtype == DType::U8
            &&& inputs.scales.dtype == DType::F32
            &&& is_power_of_two(matrix.group_size as nat) && 4 <= matrix.group_size <= 1024
            &&& matrix.cols == groups * matrix.group_size
            &&& inputs.weight.dims@.len() == 2 && inputs.weight.dims@[0] == matrix.rows
                && inputs.weight.dims@[1] == matrix.cols / 2
            &&& inputs.scales.dims@.len() == 2 && inputs.scales.dims@[0] == matrix.rows
                && inputs.scales.dims@[1] == groups
            &&& ids * groups <= u32::MAX && ids * groups <= usize::MAX
            &&& ids * matrix.cols <= usize::MAX
            &&& ids == 0 || (ids <= u32::MAX && matrix.rows <= u32::MAX && matrix.cols <= u32::MAX)
        },
{
    let (cols, gs) = (matrix.cols as int, matrix.group_size as int);
    vstd::arithmetic::div_mod::lemma_fundamental_div_mod(cols, gs);
    assert(groups == cols / gs && (cols % gs == 0 <==> cols == groups * gs)) by (nonlinear_arith)
        requires
            gs > 0,
            cols == gs * (cols / gs) + cols % gs,
            0 <= cols % gs < gs,
            groups * gs <= cols < (groups + 1) * gs,
    ;
    assert(0 <= ids * groups) by (nonlinear_arith)
        requires
            0 <= groups,
            0 <= ids,
    ;
}

/// A fused query, key and value product gives three outputs in the shape of the source, as wide
/// as their matrices: as many elements as their dimensions make up. It has a row for each row of
/// the activation, and whole groups in its width.
pub proof fn qkv_outputs_have_their_elements(
    inputs: QuantizedInputs,
    weights: Seq<CudaMatrix>,
    compiled: bool,
    p: QkvPlan,
)
    requires
        inputs.qkv_fault(weights, compiled) is None,
        inputs.is_qkv_plan(weights, p),
    ensures
        checked_count(p.q_dims@) == Some(p.q_elements),
        checked_count(p.k_dims@) == Some(p.k_elements),
        checked_count(p.v_dims@) == Some(p.v_elements),
        p.q_dims@.drop_last() == inputs.source_shape@.drop_last(),
        p.k_dims@.drop_last() == inputs.source_shape@.drop_last(),
        p.v_dims@.drop_last() == inputs.source_shape@.drop_last(),
        p.q_dims@.last() == p.q_rows && p.q_rows == weights[0].rows,
        p.k_dims@.last() == p.k_rows && p.k_rows == weights[1].rows,
        p.v_dims@.last() == p.v_rows && p.v_rows == weights[2].rows,
        inputs.activation.dims@ == seq![p.m as usize, p.k as usize],
        inputs.source_shape@.last() == p.k,
        p.group_size == weights[0].group_size,
        p.k as int % p.group_size as int == 0,
        p.convert <==> inputs.source_dtype == DType::BF16,
{
    let front = inputs.source_shape@.drop_last();
    assert(p.q_dims@.drop_last() =~= front);
    assert(p.k_dims@.drop_last() =~= front);
    assert(p.v_dims@.drop_last() =~= front);
    assert(inputs.activation.dims@ =~= seq![p.m as usize, p.k as usize]);
}

/// A fused gate and up product gives one output in the shape of the source, as wide as its
/// matrices, with as many elements as its dimensions make up.
pub proof fn gate_up_output_has_its_elements(
    inputs: QuantizedInputs,
    weights: Seq<CudaMatrix>,
    compiled: bool,
    p: GateUpPlan,
)
    requires
        inputs.gate_up_fault(weights, compiled) is None,
        inputs.is_gate_up_plan(weights, p),
    ensures
        checked_count(p.output_dims@) == Some(p.output_elements),
        p.output_dims@.drop_last() == inputs.source_shape@.drop_last(),
        p.output_dims@.last() == p.n && p.n == weights[0].rows && p.n == weights[1].rows,
        inputs.activation.dims@ == seq![p.m as usize, p.k as usize],
        inputs.source_shape@.last() == p.k,
        p.group_size == weights[0].group_size,
        p.k as int % p.group_size as int == 0,
{
    assert(p.output_dims@.drop_last() =~= inputs.source_shape@.drop_last());
    assert(inputs.activation.dims@ =~= seq![p.m as usize, p.k as usize]);
}

/// An activation is quantized exactly if the kernels are there, it has the width of the matrix in
/// whole groups and lies on a CUDA device, it has rows of 16- or 32-bit floats, and the sizes fit.
pub proof fn activation_is_quantized_if_it_fits(
    input: KernelTensor,
    matrix: MatrixShape,
    compiled: bool,
    m: usize,
    groups: usize,
)
    requires
        input.dims@.len() > 0,
        matrix.group_size > 0,
        matrix.cols == groups * matrix.group_size,
        matrix.cols > 0,
        input.dims@.last() == matrix.cols,
        checked_count(input.dims@) is Some,
        checked_count(input.dims@)->0 == m * matrix.cols,
        m > 0,
    ensures
        quantize_fault(input, matrix, compiled) is None <==> {
            &&& compiled
            &&& input.device.cuda
            &&& m * groups <= usize::MAX
            &&& input.dtype == DType::F16 || input.dtype == DType::F32
            &&& m <= u32::MAX && matrix.cols <= u32::MAX && matrix.group_size <= u32::MAX
        },
{
    let (cols, gs) = (matrix.cols as int, matrix.group_size as int);
    vstd::arithmetic::div_mod::lemma_fundamental_div_mod_converse(cols, gs, groups as int, 0);
    vstd::arithmetic::div_mod::lemma_fundamental_div_mod_converse(m * cols, cols, m as int, 0);
    assert(m * cols > 0) by (nonlinear_arith)
        requires
            m > 0,
            cols > 0,
    ;
}

/// What is wrong with a product is named with what it is about.
pub proof fn matmul_faults_name_what_is_wrong(
    inputs: MatmulInputs,
    matrix: MatrixShape,
    compiled: bool,
)
    ensures
        ({
            let fault = inputs.matmul_fault(matrix, compiled);
            let on_cuda = inputs.input.device.cuda && inputs.weight.device.cuda
                && inputs.scales.device.cuda;
            &&& fault == Some(KernelError::NotOnCuda) <==> !on_cuda
            &&& fault == Some(KernelError::NotCompiled) <==> on_cuda && !compiled
            &&& fault matches Some(KernelError::GroupSize { group_size }) ==> group_size
                == matrix.group_size
            &&& fault matches Some(KernelError::Width { cols, group_size }) ==> cols == matrix.cols
                && group_size == matrix.group_size
            &&& fault matches Some(KernelError::InputWidth { width, cols }) ==> width
                == inputs.input.dims@.last() && cols == matrix.cols && width != cols
            &&& fault matches Some(KernelError::Dtype { dtype }) ==> dtype == inputs.input.dtype
            &&& fault matches Some(KernelError::LaunchLimit { value }) ==> value > u32::MAX
        }),
{
}

} // verus!
