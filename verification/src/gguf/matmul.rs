//! Products with weights in blocks: which code takes them.
use crate::dtype::DType;
use crate::flags::switched_on;
use crate::gguf::moe::{MoeError, WeightDesc};
use crate::gguf::types::{GgmlDType, QK_K};
use crate::isq::IsqType;
use crate::tensor::{checked_count, count_elements, with_last, Place};
use crate::text::ascii_lower_text;
use vstd::prelude::*;

verus! {

/// What follows from the shapes of a product with weights of the type Q4K.
#[derive(Clone, Debug)]
pub struct Q4KMatmulPlan {
    pub rows: usize,
    pub out_features: usize,
    pub in_features: usize,
    pub blocks_per_row: usize,
    pub out_dims: Vec<usize>,
}

/// Whether weights and input are of the kind that is multiplied without decoding.
pub open spec fn q4k_applies(
    enabled: bool,
    weights: WeightDesc,
    x_on_cpu: bool,
) -> bool {
    enabled && weights.is_q4k_on_cpu() && x_on_cpu && weights.dims@.len() == 2
}

/// Whether the shape of the input is one that is multiplied without decoding.
pub open spec fn q4k_rows_fit(x: Seq<usize>, in_features: usize, max_rows: usize) -> bool {
    &&& x.len() >= 2
    &&& x.last() == in_features
    &&& checked_count(x.drop_last())->0 <= max_rows
}

/// Plans a product with weights of the type Q4K; `None` if other code takes it.
pub fn plan_q4k_matmul(
    enabled: bool,
    weights: &WeightDesc,
    x: &Vec<usize>,
    x_on_cpu: bool,
    max_rows: usize,
) -> (plan: Result<Option<Q4KMatmulPlan>, MoeError>)
    requires
        q4k_applies(enabled, *weights, x_on_cpu) && weights.dims@[1] as int % 256 == 0 && x@.len()
            >= 2 && x@.last() == weights.dims@[1] ==> checked_count(x@.drop_last()) is Some,
    ensures
        ({
            let applies = q4k_applies(enabled, *weights, x_on_cpu);
            let d = weights.dims@;
            match plan {
                Ok(None) => !applies || (d[1] as int % 256 == 0 && !q4k_rows_fit(
                    x@,
                    d[1],
                    max_rows,
                )),
                Ok(Some(p)) => {
                    &&& applies
                    &&& d[1] as int % 256 == 0
                    &&& q4k_rows_fit(x@, d[1], max_rows)
                    &&& p.rows == checked_count(x@.drop_last())->0
                    &&& (p.out_features, p.in_features) == (d[0], d[1])
                    &&& p.blocks_per_row == d[1] as int / 256
                    &&& p.out_dims@ == x@.drop_last().push(d[0])
                },
                Err(e) => applies && d[1] as int % 256 != 0 && e == (MoeError::Alignment {
                    in_features: d[1],
                    block_size: 256,
                }),
            }
        }),
{
    if !enabled || !weights.q4k_on_cpu() || !x_on_cpu || weights.dims.len() != 2 {
        return Ok(None);
    }
    let out_features: usize = weights.dims[0];
    let in_features: usize = weights.dims[1];
    if in_features % QK_K != 0 {
        return Err(MoeError::Alignment { in_features, block_size: QK_K });
    }
    let rank: usize = x.len();
    if rank < 2 || x[rank - 1] != in_features {
        return Ok(None);
    }
    assert(x@.take(rank - 1) =~= x@.drop_last());
    let rows: usize = match count_elements(x, rank - 1) {
        Some(rows) => rows,
        None => {
            return Ok(None);
        },
    };
    if rows > max_rows {
        return Ok(None);
    }
    Ok(
        Some(
            Q4KMatmulPlan {
                rows,
                out_features,
                in_features,
                blocks_per_row: in_features / QK_K,
                out_dims: with_last(x, out_features),
            },
        ),
    )
}

/// Checks that there are as many blocks as the shape asks for.
pub fn check_block_count(blocks: usize, plan: &Q4KMatmulPlan) -> (valid: Result<(), MoeError>)
    requires
        plan.out_features * plan.blocks_per_row <= usize::MAX,
    ensures
        valid == if blocks == plan.out_features * plan.blocks_per_row {
            Ok::<(), MoeError>(())
        } else {
            Err(MoeError::BlockCount { blocks })
        },
{
    if blocks != plan.out_features * plan.blocks_per_row {
        return Err(MoeError::BlockCount { blocks });
    }
    Ok(())
}

/// Whether a CUDA device of a compute capability is older than 7.0.
pub fn is_legacy_capability(major: i32, minor: i32) -> (legacy: bool)
    requires
        i32::MIN <= major * 100 <= i32::MAX,
        i32::MIN <= minor * 10 <= i32::MAX,
        i32::MIN <= major * 100 + minor * 10 <= i32::MAX,
    ensures
        legacy == (major * 100 + minor * 10 < 700),
{
    major * 100 + minor * 10 < 700
}

/// Whether the fast CUDA kernels take weights: they are in blocks of a supported type on a CUDA
/// device, and the kernels are switched on, or not mentioned in the environment
/// (`MISTRALRS_GGUF_FAST_MMVQ`) and the device is not a legacy one.
pub fn uses_fast_mmvq(
    quantized: bool,
    on_cuda: bool,
    supported: bool,
    environment: Option<&str>,
    legacy: bool,
) -> (yes: bool)
    ensures
        yes == (quantized && on_cuda && supported && match environment {
            Some(text) => text@ != "0"@ && ascii_lower_text(text@) != "false"@,
            None => !legacy,
        }),
{
    if !quantized || !on_cuda || !supported {
        return false;
    }
    match environment {
        Some(text) => switched_on(text),
        None => !legacy,
    }
}

/// The most rows that the kernel for single tokens takes.
pub const MMVQ_MAX_BATCH: usize = 8;

/// A fast CUDA kernel.
#[derive(Clone, Copy, Debug, PartialEq, Eq, Structural)]
pub enum FastKernel {
    /// For one to eight rows.
    Mmvq,
    /// For more rows.
    Mmq,
}

/// The kernel for an input, from the number of its rows.
pub open spec fn fast_kernel(rows: int) -> Option<FastKernel> {
    if rows == 0 {
        None
    } else if rows <= 8 {
        Some(FastKernel::Mmvq)
    } else {
        Some(FastKernel::Mmq)
    }
}

/// The rows of an input: the elements of its leading dimensions.
pub open spec fn leading_count(x: Seq<usize>) -> Option<usize> {
    checked_count(
        if x.len() == 0 {
            x
        } else {
            x.drop_last()
        },
    )
}

/// Whether fast CUDA kernels take activations of a type.
pub open spec fn fast_takes(fast: bool, dtype: DType) -> bool {
    fast && (dtype == DType::BF16 || dtype == DType::F16 || dtype == DType::F32)
}

/// The fast CUDA kernel that takes an input, if one does.
pub fn plan_fast_forward(fast: bool, x: &Vec<usize>, x_on_cuda: bool, x_dtype: DType) -> (kernel:
    Option<FastKernel>)
    requires
        fast_takes(fast, x_dtype) && x_on_cuda ==> leading_count(x@) is Some,
    ensures
        kernel == if fast_takes(fast, x_dtype) && x_on_cuda {
            fast_kernel(leading_count(x@)->0 as int)
        } else {
            None
        },
{
    if !fast || !x_on_cuda || !(x_dtype == DType::BF16 || x_dtype == DType::F16 || x_dtype
        == DType::F32) {
        return None;
    }
    let leading: usize = if x.len() == 0 {
        0
    } else {
        x.len() - 1
    };
    proof {
        if x@.len() == 0 {
            assert(x@.take(0) =~= x@);
        } else {
            assert(x@.take(x@.len() - 1) =~= x@.drop_last());
        }
    }
    match count_elements(x, leading) {
        None => None,
        Some(rows) => if rows == 0 {
            None
        } else if rows <= MMVQ_MAX_BATCH {
            Some(FastKernel::Mmvq)
        } else {
            Some(FastKernel::Mmq)
        },
    }
}

/// The type that activations are converted to, if any, before weights are applied.
pub fn quantized_act_type(fast: bool) -> (dtype: Option<DType>)
    ensures
        dtype == if fast {
            None
        } else {
            Some(DType::F32)
        },
{
    if fast {
        None
    } else {
        Some(DType::F32)
    }
}

/// How an input is multiplied with weights.
#[derive(Clone, Copy, Debug, PartialEq, Eq, Structural)]
pub enum ForwardRoute {
    /// By a fast kernel, where the input is.
    Fast { kernel: FastKernel },
    /// By a fast kernel, with the input brought to the weights and the output taken back.
    MovedFast { kernel: FastKernel },
    /// By the general product, with the input brought to the weights and the output taken back.
    Moved,
    /// Where the input is, by the product for blocks in memory or else the general one.
    InPlace,
}

/// How an input is multiplied with weights, from where both are: fast kernels first, then on the
/// device of the weights if that is a CUDA device and the input is elsewhere.
pub fn plan_forward(
    fast: bool,
    weights: Place,
    x: &Vec<usize>,
    x_place: Place,
    x_dtype: DType,
) -> (route: ForwardRoute)
    requires
        fast_takes(fast, x_dtype) && (x_place == Place::Cuda || weights == Place::Cuda)
            ==> leading_count(x@) is Some,
    ensures
        ({
            let kernel = if fast_takes(fast, x_dtype) {
                fast_kernel(leading_count(x@)->0 as int)
            } else {
                None
            };
            route == match kernel {
                Some(kernel) => if x_place == Place::Cuda {
                    ForwardRoute::Fast { kernel }
                } else if weights == Place::Cuda {
                    ForwardRoute::MovedFast { kernel }
                } else {
                    ForwardRoute::InPlace
                },
                None => if weights == Place::Cuda && x_place != Place::Cuda {
                    ForwardRoute::Moved
                } else {
                    ForwardRoute::InPlace
                },
            }
        }),
{
    if let Some(kernel) = plan_fast_forward(fast, x, x_place == Place::Cuda, x_dtype) {
        return ForwardRoute::Fast { kernel };
    }
    if weights == Place::Cuda && x_place != Place::Cuda {
        return match plan_fast_forward(fast, x, true, x_dtype) {
            Some(kernel) => ForwardRoute::MovedFast { kernel },
            None => ForwardRoute::Moved,
        };
    }
    ForwardRoute::InPlace
}

/// Where the experts of a mixture are applied.
#[derive(Clone, Copy, Debug, PartialEq, Eq, Structural)]
pub enum GatherRoute {
    /// By the CUDA kernels.
    Cuda,
    /// In memory, with the input brought there and the output taken back.
    MovedToCpu,
    /// Where the input is.
    InPlace,
}

/// Where the experts of a mixture are applied, from where weights and input are.
pub fn gather_route(weights: Place, x: Place) -> (route: GatherRoute)
    ensures
        route == if weights == Place::Cuda && x == Place::Cuda {
            GatherRoute::Cuda
        } else if weights == Place::Cpu && x != Place::Cpu {
            GatherRoute::MovedToCpu
        } else {
            GatherRoute::InPlace
        },
{
    if weights == Place::Cuda && x == Place::Cuda {
        GatherRoute::Cuda
    } else if weights == Place::Cpu && x != Place::Cpu {
        GatherRoute::MovedToCpu
    } else {
        GatherRoute::InPlace
    }
}

/// What becomes of weights that are quantized again.
#[derive(Clone, Copy, Debug, PartialEq, Eq, Structural)]
pub enum RequantizeStep {
    /// They go to another device, in the type that they have.
    Move,
    /// They are decoded, and stored as 8-bit floats.
    F8Q8,
    /// They are decoded, and quantized to blocks of another type.
    Blocks { dtype: GgmlDType },
}

/// What becomes of weights in blocks that are asked for a quantization; `None` if they cannot
/// have it.
pub fn plan_requantize(isq: Option<IsqType>) -> (step: Option<RequantizeStep>)
    ensures
        step == match isq {
            None => Some(RequantizeStep::Move),
            Some(IsqType::F8Q8) => Some(RequantizeStep::F8Q8),
            Some(isq) => match GgmlDType::of_isq(isq) {
                Some(dtype) => Some(RequantizeStep::Blocks { dtype }),
                None => None,
            },
        },
{
    match isq {
        None => Some(RequantizeStep::Move),
        Some(IsqType::F8Q8) => Some(RequantizeStep::F8Q8),
        Some(isq) => match GgmlDType::from_isq(isq) {
            Some(dtype) => Some(RequantizeStep::Blocks { dtype }),
            None => None,
        },
    }
}

/// A product without decoding is for matrices of the type Q4K and inputs that are both in memory,
/// for rows as wide as the matrix and not too many of them.
pub proof fn products_without_decoding_have_few_rows(
    enabled: bool,
    weights: WeightDesc,
    x_on_cpu: bool,
    front: Seq<usize>,
    width: usize,
    max_rows: usize,
)
    ensures
        q4k_applies(enabled, weights, x_on_cpu) <==> enabled && x_on_cpu && weights.on_cpu
            && weights.quantized && weights.dtype == GgmlDType::Q4K && weights.dims@.len() == 2,
        front.len() > 0 && checked_count(front) is Some ==> (q4k_rows_fit(
            front.push(width),
            width,
            max_rows,
        ) <==> checked_count(front)->0 <= max_rows),
        front.len() > 0 ==> leading_count(front.push(width)) == checked_count(front),
{
    assert(front.push(width).drop_last() =~= front);
}

/// The kernel for single tokens takes up to eight rows, the other any more; without rows there is
/// no kernel. They take floats of 16 and 32 bits.
pub proof fn fast_kernels_share_the_rows(rows: int, fast: bool, dtype: DType)
    requires
        rows >= 0,
    ensures
        fast_kernel(rows) == Some(FastKernel::Mmvq) <==> 1 <= rows <= 8,
        fast_kernel(rows) == Some(FastKernel::Mmq) <==> rows > 8,
        fast_kernel(rows) is None <==> rows == 0,
        MMVQ_MAX_BATCH == 8,
        fast_takes(fast, dtype) <==> fast && (dtype == DType::F16 || dtype == DType::BF16 || dtype
            == DType::F32),
{
}

} // verus!
