//! Mixtures of experts on processors: what the shapes have to be, and what follows from them.
use crate::gguf::types::{GgmlDType, QK_K};
use crate::routing::{gather_fault, gather_shape, GatherShape, RoutingError};
use crate::tensor::first_fault;
use vstd::prelude::*;

verus! {

/// What the code reads of weights.
#[derive(Clone, Debug)]
pub struct WeightDesc {
    /// Whether the weights are in blocks at all.
    pub quantized: bool,
    pub dtype: GgmlDType,
    pub dims: Vec<usize>,
    pub on_cpu: bool,
}

/// Why a mixture of experts is refused.
#[derive(Clone, Copy, Debug, PartialEq, Eq, Structural)]
pub enum MoeError {
    /// The weights are no stack of matrices.
    WeightRank,
    /// The input is not a whole number of blocks wide.
    Alignment { in_features: usize, block_size: usize },
    /// The tokens cannot be routed.
    Routing { error: RoutingError },
    /// The ids do not go with the input.
    IdShape,
    /// The three projections do not go together.
    ShapeMismatch,
    /// The input is no batch of sequences.
    InputRank,
    /// The input is not as wide as the weights.
    Hidden { input: usize, weights: usize },
    /// The ids are no matrix.
    IdRank,
    /// The ids are not those of the tokens.
    IdTokens { ids: usize, tokens: usize },
    /// The weights of the experts have another shape than the ids.
    RouteWeights,
    /// There are not as many blocks as the shape asks for.
    BlockCount { blocks: usize },
}

/// How the experts are applied.
#[derive(Clone, Copy, Debug, PartialEq, Eq, Structural)]
pub enum MoePath {
    Q4_1,
    Q4K,
    /// By decoding the experts first.
    Decoded,
}

/// What follows from the shapes of a mixture.
#[derive(Clone, Copy, Debug, PartialEq, Eq, Structural)]
pub struct IndexedPlan {
    pub shape: GatherShape,
    pub experts: usize,
    pub out_features: usize,
    pub in_features: usize,
    pub blocks_per_row: usize,
    pub expert_bytes: usize,
    pub path: MoePath,
}

/// What is wrong with the shapes of a mixture.
pub open spec fn indexed_fault(
    dtype: GgmlDType,
    dims: Seq<usize>,
    x: Seq<usize>,
    ids: Seq<usize>,
) -> Option<MoeError> {
    let block = dtype.block_elements();
    if dims.len() != 3 {
        Some(MoeError::WeightRank)
    } else if dims[2] as int % block as int != 0 {
        Some(MoeError::Alignment { in_features: dims[2], block_size: block })
    } else if gather_fault(x, ids, dims[2]) is Some {
        Some(MoeError::Routing { error: gather_fault(x, ids, dims[2])->0 })
    } else if ids[0] != x[0] {
        Some(MoeError::IdShape)
    } else {
        None
    }
}

/// How experts of a type are applied to an input.
pub open spec fn moe_path(dtype: GgmlDType, x_on_cpu: bool) -> MoePath {
    if dtype == GgmlDType::Q4_1 && x_on_cpu {
        MoePath::Q4_1
    } else if dtype == GgmlDType::Q4K && x_on_cpu {
        MoePath::Q4K
    } else {
        MoePath::Decoded
    }
}

/// The number of bytes of a matrix in blocks.
pub open spec fn matrix_bytes(dtype: GgmlDType, rows: usize, cols: usize) -> int {
    rows * (cols as int / dtype.block_elements() as int) * dtype.block_bytes()
}

/// Plans a mixture of experts.
pub fn plan_indexed(
    weights: &WeightDesc,
    x: &Vec<usize>,
    ids: &Vec<usize>,
    x_on_cpu: bool,
) -> (plan: Result<IndexedPlan, MoeError>)
    requires
        indexed_fault(weights.dtype, weights.dims@, x@, ids@) is None ==> matrix_bytes(
            weights.dtype,
            weights.dims@[1],
            weights.dims@[2],
        ) <= usize::MAX,
    ensures
        match plan {
            Ok(p) => {
                let d = weights.dims@;
                &&& indexed_fault(weights.dtype, d, x@, ids@) is None
                &&& p.shape.tokens == x@[0]
                &&& p.shape.topk == ids@[1]
                &&& p.shape.x_slots == x@[1]
                &&& (p.experts, p.out_features, p.in_features) == (d[0], d[1], d[2])
                &&& p.blocks_per_row == d[2] as int / weights.dtype.block_elements() as int
                &&& p.expert_bytes == matrix_bytes(weights.dtype, d[1], d[2])
                &&& p.path == moe_path(weights.dtype, x_on_cpu)
            },
            Err(e) => indexed_fault(weights.dtype, weights.dims@, x@, ids@) == Some(e),
        },
{
    if weights.dims.len() != 3 {
        return Err(MoeError::WeightRank);
    }
    let experts: usize = weights.dims[0];
    let out_features: usize = weights.dims[1];
    let in_features: usize = weights.dims[2];
    let block_size: usize = weights.dtype.block_size();
    if in_features % block_size != 0 {
        return Err(MoeError::Alignment { in_features, block_size });
    }
    let shape: GatherShape = match gather_shape(x, ids, in_features) {
        Ok(shape) => shape,
        Err(error) => {
            return Err(MoeError::Routing { error });
        },
    };
    if ids[0] != shape.tokens || ids[1] != shape.topk {
        return Err(MoeError::IdShape);
    }
    let blocks_per_row: usize = in_features / block_size;
    let block_bytes: usize = weights.dtype.type_size();
    proof {
        assert(out_features * blocks_per_row <= out_features * blocks_per_row * block_bytes && 0
            <= out_features * blocks_per_row) by (nonlinear_arith)
            requires
                out_features >= 0,
                blocks_per_row >= 0,
                block_bytes >= 1,
        ;
    }
    let expert_bytes: usize = out_features * blocks_per_row * block_bytes;
    let path: MoePath = if weights.dtype == GgmlDType::Q4_1 && x_on_cpu {
        MoePath::Q4_1
    } else if weights.dtype == GgmlDType::Q4K && x_on_cpu {
        MoePath::Q4K
    } else {
        MoePath::Decoded
    };
    Ok(
        IndexedPlan {
            shape,
            experts,
            out_features,
            in_features,
            blocks_per_row,
            expert_bytes,
            path,
        },
    )
}

impl WeightDesc {
    /// Whether the weights are of the type Q4K and in memory.
    pub open spec fn is_q4k_on_cpu(&self) -> bool {
        self.quantized && self.dtype == GgmlDType::Q4K && self.on_cpu
    }

    /// Whether the weights are of the type Q4K and in memory.
    pub fn q4k_on_cpu(&self) -> (yes: bool)
        ensures
            yes == self.is_q4k_on_cpu(),
    {
        self.quantized && self.dtype == GgmlDType::Q4K && self.on_cpu
    }
}

/// What is wrong with a stack of matrices of the type Q4K.
pub open spec fn q4k_stack_fault(dims: Seq<usize>) -> Option<MoeError> {
    if dims.len() != 3 {
        Some(MoeError::WeightRank)
    } else if dims[2] as int % 256 != 0 {
        Some(MoeError::Alignment { in_features: dims[2], block_size: 256 })
    } else {
        None
    }
}

fn check_q4k_stack(dims: &Vec<usize>) -> (valid: Result<(), MoeError>)
    ensures
        match valid {
            Ok(_) => q4k_stack_fault(dims@) is None,
            Err(e) => q4k_stack_fault(dims@) == Some(e),
        },
{
    if dims.len() != 3 {
        return Err(MoeError::WeightRank);
    }
    if dims[2] % QK_K != 0 {
        return Err(MoeError::Alignment { in_features: dims[2], block_size: QK_K });
    }
    Ok(())
}

/// What is wrong with the shapes of a mixture whose projections are fused before its tokens are
/// counted: the projections first, then the width of the input.
pub open spec fn fused_fault_before_tokens(
    gate: Seq<usize>,
    up: Seq<usize>,
    down: Seq<usize>,
    x: Seq<usize>,
) -> Option<MoeError> {
    first_fault(
        q4k_stack_fault(gate),
        first_fault(
            q4k_stack_fault(up),
            first_fault(
                q4k_stack_fault(down),
                if up[0] != gate[0] || up[1] != gate[1] || up[2] != gate[2] || down[0] != gate[0]
                    || down[1] != gate[2] || down[2] != gate[1] {
                    Some(MoeError::ShapeMismatch)
                } else if x.len() != 3 {
                    Some(MoeError::InputRank)
                } else if x[2] != gate[2] {
                    Some(MoeError::Hidden { input: x[2], weights: gate[2] })
                } else {
                    None
                },
            ),
        ),
    )
}

/// What is wrong with the shapes of a mixture whose projections are fused: what comes before the
/// tokens, then the ids and the weights of the experts.
pub open spec fn fused_fault(
    gate: Seq<usize>,
    up: Seq<usize>,
    down: Seq<usize>,
    x: Seq<usize>,
    route_weights: Seq<usize>,
    ids: Seq<usize>,
) -> Option<MoeError> {
    first_fault(
        fused_fault_before_tokens(gate, up, down, x),
        if ids.len() != 2 {
            Some(MoeError::IdRank)
        } else if ids[0] != x[0] * x[1] {
            Some(MoeError::IdTokens { ids: ids[0], tokens: (x[0] * x[1]) as usize })
        } else if route_weights.len() != 2 || route_weights[0] != x[0] * x[1] || route_weights[1]
            != ids[1] {
            Some(MoeError::RouteWeights)
        } else {
            None
        },
    )
}

/// What follows from the shapes of a mixture whose projections are fused.
#[derive(Clone, Copy, Debug, PartialEq, Eq, Structural)]
pub struct FusedPlan {
    pub experts: usize,
    pub inter: usize,
    pub hidden: usize,
    pub tokens: usize,
    pub topk: usize,
    pub blocks_per_hidden_row: usize,
    pub blocks_per_inter_row: usize,
    pub gate_expert_bytes: usize,
    pub down_expert_bytes: usize,
    pub parallel: bool,
}

/// Plans a mixture whose projections are fused; `None` if the weights are not all of the type
/// Q4K and in memory. `parallel` tells whether the experts of a token may work in parallel.
pub fn plan_fused(
    gate: &WeightDesc,
    up: &WeightDesc,
    down: &WeightDesc,
    x: &Vec<usize>,
    route_weights: &Vec<usize>,
    ids: &Vec<usize>,
    parallel: bool,
) -> (plan: Result<Option<FusedPlan>, MoeError>)
    requires
        gate.is_q4k_on_cpu() && up.is_q4k_on_cpu() && down.is_q4k_on_cpu() ==> {
            &&& fused_fault_before_tokens(gate.dims@, up.dims@, down.dims@, x@) is None ==> x@[0]
                * x@[1] <= usize::MAX
            &&& fused_fault(gate.dims@, up.dims@, down.dims@, x@, route_weights@, ids@) is None
                ==> {
                &&& gate.dims@[1] * (gate.dims@[2] as int / 256) * 144 <= usize::MAX
                &&& down.dims@[1] * (down.dims@[2] as int / 256) * 144 <= usize::MAX
            }
        },
    ensures
        ({
            let usable = gate.is_q4k_on_cpu() && up.is_q4k_on_cpu() && down.is_q4k_on_cpu();
            let fault = fused_fault(
                gate.dims@,
                up.dims@,
                down.dims@,
                x@,
                route_weights@,
                ids@,
            );
            match plan {
                Ok(None) => !usable,
                Ok(Some(p)) => {
                    let (inter, hidden) = (gate.dims@[1], gate.dims@[2]);
                    &&& usable
                    &&& fault is None
                    &&& (p.experts, p.inter, p.hidden) == (gate.dims@[0], inter, hidden)
                    &&& p.tokens == x@[0] * x@[1]
                    &&& p.topk == ids@[1]
                    &&& p.blocks_per_hidden_row == hidden as int / 256
                    &&& p.blocks_per_inter_row == inter as int / 256
                    &&& p.gate_expert_bytes == inter * (hidden as int / 256) * 144
                    &&& p.down_expert_bytes == hidden * (inter as int / 256) * 144
                    &&& p.parallel == (parallel && ids@[1] > 1)
                },
                Err(e) => usable && fault == Some(e),
            }
        }),
{
    if !gate.q4k_on_cpu() || !up.q4k_on_cpu() || !down.q4k_on_cpu() {
        return Ok(None);
    }
    check_q4k_stack(&gate.dims)?;
    check_q4k_stack(&up.dims)?;
    check_q4k_stack(&down.dims)?;
    let experts: usize = gate.dims[0];
    let inter: usize = gate.dims[1];
    let hidden: usize = gate.dims[2];
    if up.dims[0] != experts || up.dims[1] != inter || up.dims[2] != hidden || down.dims[0]
        != experts || down.dims[1] != hidden || down.dims[2] != inter {
        return Err(MoeError::ShapeMismatch);
    }
    if x.len() != 3 {
        return Err(MoeError::InputRank);
    }
    if x[2] != hidden {
        return Err(MoeError::Hidden { input: x[2], weights: hidden });
    }
    let tokens: usize = x[0] * x[1];
    if ids.len() != 2 {
        return Err(MoeError::IdRank);
    }
    if ids[0] != tokens {
        return Err(MoeError::IdTokens { ids: ids[0], tokens });
    }
    let topk: usize = ids[1];
    if route_weights.len() != 2 || route_weights[0] != tokens || route_weights[1] != topk {
        return Err(MoeError::RouteWeights);
    }
    let blocks_per_hidden_row: usize = hidden / QK_K;
    let blocks_per_inter_row: usize = inter / QK_K;
    proof {
        assert(0 <= inter * blocks_per_hidden_row) by (nonlinear_arith)
            requires
                inter >= 0,
                blocks_per_hidden_row >= 0,
        ;
        assert(0 <= hidden * blocks_per_inter_row) by (nonlinear_arith)
            requires
                hidden >= 0,
                blocks_per_inter_row >= 0,
        ;
    }
    let gate_expert_bytes: usize = inter * blocks_per_hidden_row * 144;
    let down_expert_bytes: usize = hidden * blocks_per_inter_row * 144;
    Ok(
        Some(
            FusedPlan {
                experts,
                inter,
                hidden,
                tokens,
                topk,
                blocks_per_hidden_row,
                blocks_per_inter_row,
                gate_expert_bytes,
                down_expert_bytes,
                parallel: parallel && topk > 1,
            },
        ),
    )
}

/// A mixture is planned exactly if its weights are a stack of matrices of whole blocks, the input
/// has rows of their width, one for each token or one for each expert of a token, and each token
/// has its ids.
pub proof fn mixtures_fit_together(
    dtype: GgmlDType,
    dims: Seq<usize>,
    x: Seq<usize>,
    ids: Seq<usize>,
    blocks: int,
)
    requires
        dims.len() == 3,
        x.len() == 3,
        ids.len() == 2,
        blocks * dtype.block_elements() <= dims[2] < (blocks + 1) * dtype.block_elements(),
    ensures
        indexed_fault(dtype, dims, x, ids) is None <==> {
            &&& dims[2] == blocks * dtype.block_elements()
            &&& x[2] == dims[2]
            &&& x[1] == 1 || x[1] == ids[1]
            &&& ids[0] == x[0]
        },
        dims[2] == blocks * dtype.block_elements() ==> matrix_bytes(dtype, dims[1], dims[2])
            == dims[1] * blocks * dtype.block_bytes(),
{
    let block = dtype.block_elements() as int;
    let width = dims[2] as int;
    vstd::arithmetic::div_mod::lemma_fundamental_div_mod(width, block);
    assert(blocks == width / block) by (nonlinear_arith)
        requires
            block > 0,
            width == block * (width / block) + width % block,
            0 <= width % block < block,
            blocks * block <= width < (blocks + 1) * block,
    ;
    assert(block * blocks == blocks * block) by (nonlinear_arith);
}

/// Experts of the two types with products of their own are applied without decoding if the input
/// is in memory; everything else is decoded.
pub proof fn experts_are_decoded_unless_they_have_products(dtype: GgmlDType, x_on_cpu: bool)
    ensures
        moe_path(dtype, x_on_cpu) == MoePath::Q4_1 <==> x_on_cpu && dtype == GgmlDType::Q4_1,
        moe_path(dtype, x_on_cpu) == MoePath::Q4K <==> x_on_cpu && dtype == GgmlDType::Q4K,
        moe_path(dtype, x_on_cpu) == MoePath::Decoded <==> !x_on_cpu || (dtype != GgmlDType::Q4_1
            && dtype != GgmlDType::Q4K),
{
}

/// A fused mixture fits together exactly if gate and up projection have one shape, from the width
/// of the input to the middle, the down projection leads back, with as many experts, both widths
/// are whole blocks, and each token has its ids and as many weights.
pub proof fn fused_mixtures_fit_together(
    gate: Seq<usize>,
    up: Seq<usize>,
    down: Seq<usize>,
    x: Seq<usize>,
    route_weights: Seq<usize>,
    ids: Seq<usize>,
)
    requires
        gate.len() == 3,
        up.len() == 3,
        down.len() == 3,
        x.len() == 3,
        ids.len() == 2,
        route_weights.len() == 2,
    ensures
        fused_fault(gate, up, down, x, route_weights, ids) is None <==> {
            &&& gate[2] as int % 256 == 0 && gate[1] as int % 256 == 0
            &&& up == seq![gate[0], gate[1], gate[2]]
            &&& down == seq![gate[0], gate[2], gate[1]]
            &&& x[2] == gate[2]
            &&& ids[0] == x[0] * x[1]
            &&& route_weights == ids
        },
{
    let (a, b) = (seq![gate[0], gate[1], gate[2]], seq![gate[0], gate[2], gate[1]]);
    assert(up == a <==> up =~= a);
    assert(down == b <==> down =~= b);
    assert(route_weights == ids <==> route_weights =~= ids);
    if up =~= a {
        assert(up[0] == gate[0] && up[1] == gate[1] && up[2] == gate[2]);
    }
    if down =~= b {
        assert(down[0] == gate[0] && down[1] == gate[2] && down[2] == gate[1]);
    }
}

/// What is wrong with a mixture is named with what it is about.
pub proof fn moe_faults_name_what_is_wrong(
    dtype: GgmlDType,
    dims: Seq<usize>,
    gate: Seq<usize>,
    up: Seq<usize>,
    down: Seq<usize>,
    x: Seq<usize>,
    route_weights: Seq<usize>,
    ids: Seq<usize>,
)
    ensures
        indexed_fault(dtype, dims, x, ids) matches Some(
            MoeError::Alignment { in_features, block_size },
        ) ==> in_features == dims[2] && block_size == dtype.block_elements(),
        fused_fault(gate, up, down, x, route_weights, ids) matches Some(
            MoeError::Alignment { in_features, block_size },
        ) ==> block_size == 256 && (in_features == gate[2] || in_features == up[2] || in_features
            == down[2]),
        fused_fault(gate, up, down, x, route_weights, ids) matches Some(
            MoeError::Hidden { input, weights },
        ) ==> x.len() == 3 && input == x[2] && weights == gate[2] && input != weights,
        fused_fault(gate, up, down, x, route_weights, ids) matches Some(
            MoeError::IdTokens { ids: rows, tokens },
        ) ==> x[0] * x[1] <= usize::MAX ==> rows == ids[0] && tokens == x[0] * x[1] && rows
            != tokens,
{
}

} // verus!
