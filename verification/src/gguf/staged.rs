//! Mixtures of experts whose weights stay in memory: the experts that a batch needs are copied
//! to a CUDA device, without those in between.
use crate::gguf::moe::WeightDesc;
use crate::gguf::types::{cuda_staged_dtype_supported, is_staged_dtype, GgmlDType};
use vstd::prelude::*;

verus! {

/// Why experts cannot be staged.
#[derive(Clone, Copy, Debug, PartialEq, Eq, Structural)]
pub enum StagedError {
    /// The weights are no stack of matrices.
    WeightRank,
    /// The input is not a whole number of blocks wide.
    Alignment { in_features: usize, block_size: usize },
    /// The size of an expert does not fit in a `usize`.
    ExpertOverflow,
    /// The size of all experts does not fit in a `usize`.
    TensorOverflow,
    /// There are not as many bytes as the shape asks for.
    DataLength { expected: usize, got: usize },
    /// The size of the experts that are kept does not fit in a `usize`.
    CacheOverflow,
    /// The expert is not there.
    ExpertRange { expert: usize, experts: usize },
    /// The input, the ids and the weights of the experts do not go together.
    RoutingShape,
    /// A tensor that has to be a matrix is none.
    Rank,
    /// The projections to the middle have different shapes.
    GateUpShape,
    /// The projections do not go together.
    ShapeMismatch,
}

/// The sizes of a stack of experts.
#[derive(Clone, Copy, Debug, PartialEq, Eq, Structural)]
pub struct StagedLayout {
    pub experts: usize,
    pub out_features: usize,
    pub in_features: usize,
    pub expert_bytes: usize,
}

/// The number of bytes of an expert, if it can be computed.
pub open spec fn expert_size(dtype: GgmlDType, out_features: usize, in_features: usize) -> Option<
    int,
> {
    let elements = out_features * in_features;
    let bytes = elements / dtype.block_elements() as int * dtype.block_bytes();
    if elements > usize::MAX || bytes > usize::MAX {
        None
    } else {
        Some(bytes)
    }
}

/// What is wrong with a stack of experts.
pub open spec fn layout_fault(dtype: GgmlDType, dims: Seq<usize>, data_len: usize) -> Option<
    StagedError,
> {
    let block_size = dtype.block_elements();
    if dims.len() != 3 {
        Some(StagedError::WeightRank)
    } else if dims[2] as int % block_size as int != 0 {
        Some(StagedError::Alignment { in_features: dims[2], block_size })
    } else {
        match expert_size(dtype, dims[1], dims[2]) {
            None => Some(StagedError::ExpertOverflow),
            Some(bytes) => if bytes * dims[0] > usize::MAX {
                Some(StagedError::TensorOverflow)
            } else if bytes * dims[0] != data_len {
                Some(
                    StagedError::DataLength {
                        expected: (bytes * dims[0]) as usize,
                        got: data_len,
                    },
                )
            } else {
                None
            },
        }
    }
}

/// The sizes of a stack of experts, checked against the number of its bytes.
pub fn staged_raw_layout(dtype: GgmlDType, dims: &Vec<usize>, data_len: usize) -> (layout: Result<
    StagedLayout,
    StagedError,
>)
    ensures
        match layout {
            Ok(l) => {
                &&& layout_fault(dtype, dims@, data_len) is None
                &&& (l.experts, l.out_features, l.in_features) == (dims@[0], dims@[1], dims@[2])
                &&& expert_size(dtype, dims@[1], dims@[2]) == Some(l.expert_bytes as int)
                &&& l.experts * l.expert_bytes == data_len
            },
            Err(e) => layout_fault(dtype, dims@, data_len) == Some(e),
        },
{
    if dims.len() != 3 {
        return Err(StagedError::WeightRank);
    }
    let experts: usize = dims[0];
    let out_features: usize = dims[1];
    let in_features: usize = dims[2];
    let block_size: usize = dtype.block_size();
    if in_features % block_size != 0 {
        return Err(StagedError::Alignment { in_features, block_size });
    }
    let elements: usize = match out_features.checked_mul(in_features) {
        Some(elements) => elements,
        None => {
            return Err(StagedError::ExpertOverflow);
        },
    };
    let expert_bytes: usize = match (elements / block_size).checked_mul(dtype.type_size()) {
        Some(bytes) => bytes,
        None => {
            return Err(StagedError::ExpertOverflow);
        },
    };
    let expected: usize = match expert_bytes.checked_mul(experts) {
        Some(bytes) => bytes,
        None => {
            return Err(StagedError::TensorOverflow);
        },
    };
    if expected != data_len {
        return Err(StagedError::DataLength { expected, got: data_len });
    }
    proof {
        assert(experts * expert_bytes == expert_bytes * experts) by (nonlinear_arith);
    }
    Ok(StagedLayout { experts, out_features, in_features, expert_bytes })
}

/// The bytes of an expert.
pub open spec fn expert_data(data: Seq<u8>, expert: int, expert_bytes: int) -> Seq<u8> {
    data.subrange(expert * expert_bytes, expert * expert_bytes + expert_bytes)
}

/// The bytes of some experts, one after the other.
pub open spec fn compacted(data: Seq<u8>, ids: Seq<usize>, expert_bytes: int) -> Seq<u8>
    decreases ids.len(),
{
    if ids.len() == 0 {
        Seq::empty()
    } else {
        compacted(data, ids.drop_last(), expert_bytes) + expert_data(
            data,
            ids.last() as int,
            expert_bytes,
        )
    }
}

/// Copies some experts of a stack, one after the other.
pub fn compact_raw_experts(layout: StagedLayout, data: &[u8], ids: &Vec<usize>) -> (compact: Result<
    Vec<u8>,
    StagedError,
>)
    requires
        layout.experts * layout.expert_bytes == data@.len(),
    ensures
        match compact {
            Ok(bytes) => {
                &&& forall|i: int| 0 <= i < ids@.len() ==> #[trigger] ids@[i] < layout.experts
                &&& bytes@ == compacted(data@, ids@, layout.expert_bytes as int)
            },
            Err(e) => exists|i: int|
                {
                    &&& 0 <= i < ids@.len()
                    &&& #[trigger] ids@[i] >= layout.experts
                    &&& forall|j: int| 0 <= j < i ==> #[trigger] ids@[j] < layout.experts
                    &&& e == (StagedError::ExpertRange {
                        expert: ids@[i],
                        experts: layout.experts,
                    })
                },
        },
{
    let total: usize = data.len();
    let mut compact: Vec<u8> = Vec::new();
    let mut i: usize = 0;
    while i < ids.len()
        invariant
            i <= ids@.len(),
            data@.len() == total,
            layout.experts * layout.expert_bytes == data@.len(),
            forall|j: int| 0 <= j < i ==> #[trigger] ids@[j] < layout.experts,
            compact@ == compacted(data@, ids@.take(i as int), layout.expert_bytes as int),
        decreases ids@.len() - i,
    {
        let expert: usize = ids[i];
        if expert >= layout.experts {
            return Err(StagedError::ExpertRange { expert, experts: layout.experts });
        }
        proof {
            assert(expert * layout.expert_bytes + layout.expert_bytes <= layout.experts
                * layout.expert_bytes && 0 <= expert * layout.expert_bytes) by (nonlinear_arith)
                requires
                    expert + 1 <= layout.experts,
                    layout.expert_bytes >= 0,
            ;
        }
        let start: usize = expert * layout.expert_bytes;
        let end: usize = start + layout.expert_bytes;
        let ghost before = compact@;
        let mut at: usize = start;
        while at < end
            invariant
                start <= at <= end <= data@.len(),
                compact@ == before + data@.subrange(start as int, at as int),
            decreases end - at,
        {
            compact.push(data[at]);
            at += 1;
            assert(compact@ =~= before + data@.subrange(start as int, at as int));
        }
        i += 1;
        assert(ids@.take(i as int).drop_last() =~= ids@.take(i - 1));
    }
    assert(ids@.take(i as int) =~= ids@);
    Ok(compact)
}

/// Each expert that was copied is found at its place among the copies.
pub proof fn copied_expert_is_found(data: Seq<u8>, ids: Seq<usize>, layout: StagedLayout, i: int)
    requires
        layout.experts * layout.expert_bytes == data.len(),
        forall|j: int| 0 <= j < ids.len() ==> #[trigger] ids[j] < layout.experts,
        0 <= i < ids.len(),
    ensures
        compacted(data, ids, layout.expert_bytes as int).len() == ids.len() * layout.expert_bytes,
        expert_data(
            compacted(data, ids, layout.expert_bytes as int),
            i,
            layout.expert_bytes as int,
        ) == expert_data(data, ids[i] as int, layout.expert_bytes as int),
    decreases ids.len(),
{
    let b = layout.expert_bytes as int;
    let front = ids.drop_last();
    let n = front.len() as int;
    let all = compacted(data, ids, b);
    compacted_len(data, ids, layout);
    compacted_len(data, front, layout);
    assert(ids[n] < layout.experts);
    expert_is_inside(ids[n] as int, layout.experts as int, b);
    expert_is_inside(i, ids.len() as int, b);
    if i == n {
        assert(expert_data(all, i, b) =~= expert_data(data, ids[i] as int, b));
    } else {
        assert forall|j: int| 0 <= j < front.len() implies #[trigger] front[j]
            < layout.experts by {
            assert(ids[j] < layout.experts);
        }
        copied_expert_is_found(data, front, layout, i);
        expert_is_inside(i, n, b);
        assert(expert_data(all, i, b) =~= expert_data(compacted(data, front, b), i, b));
    }
}

proof fn expert_is_inside(i: int, n: int, b: int)
    requires
        0 <= i < n,
        b >= 0,
    ensures
        0 <= i * b,
        i * b + b <= n * b,
{
    assert(0 <= i * b && i * b + b <= n * b) by (nonlinear_arith)
        requires
            0 <= i,
            i + 1 <= n,
            b >= 0,
    ;
}

proof fn compacted_len(data: Seq<u8>, ids: Seq<usize>, layout: StagedLayout)
    requires
        layout.experts * layout.expert_bytes == data.len(),
        forall|j: int| 0 <= j < ids.len() ==> #[trigger] ids[j] < layout.experts,
    ensures
        compacted(data, ids, layout.expert_bytes as int).len() == ids.len() * layout.expert_bytes,
    decreases ids.len(),
{
    let b = layout.expert_bytes as int;
    if ids.len() > 0 {
        let front = ids.drop_last();
        assert forall|j: int| 0 <= j < front.len() implies #[trigger] front[j]
            < layout.experts by {
            assert(ids[j] < layout.experts);
        }
        compacted_len(data, front, layout);
        let last = ids[ids.len() - 1] as int;
        assert(last < layout.experts);
        expert_is_inside(last, layout.experts as int, b);
        assert(front.len() * b + b == ids.len() * b) by (nonlinear_arith)
            requires
                front.len() + 1 == ids.len(),
        ;
    }
}

/// Whether copies of experts are kept, from their size and the bytes that may be kept.
pub fn keeps_copies(expert_bytes: usize, count: usize, max_bytes: usize) -> (bytes: Result<
    Option<usize>,
    StagedError,
>)
    ensures
        match bytes {
            Ok(Some(n)) => n == expert_bytes * count && max_bytes != 0 && n <= max_bytes,
            Ok(None) => expert_bytes * count <= usize::MAX && (max_bytes == 0 || expert_bytes
                * count > max_bytes),
            Err(e) => expert_bytes * count > usize::MAX && e == StagedError::CacheOverflow,
        },
{
    match expert_bytes.checked_mul(count) {
        None => Err(StagedError::CacheOverflow),
        Some(n) => if max_bytes == 0 || n > max_bytes {
            Ok(None)
        } else {
            Ok(Some(n))
        },
    }
}

/// The experts that a batch needs, and the ids of the batch in their terms.
pub struct ExpertSelection {
    /// The experts, from the smallest to the largest.
    pub expert_ids: Vec<usize>,
    /// For each id of the batch, where its expert stands among these.
    pub compact_ids: Vec<u32>,
}

impl ExpertSelection {
    /// Whether these are the experts that ids name, each of them once, and nothing else.
    pub open spec fn is_for(&self, ids: Seq<u32>) -> bool {
        &&& forall|i: int, j: int|
            0 <= i < j < self.expert_ids@.len() ==> #[trigger] self.expert_ids@[i]
                < #[trigger] self.expert_ids@[j]
        &&& forall|i: int|
            0 <= i < self.expert_ids@.len() ==> names(ids, #[trigger] self.expert_ids@[i] as int)
        &&& self.compact_ids@.len() == ids.len()
        &&& forall|i: int|
            0 <= i < ids.len() ==> {
                &&& (#[trigger] self.compact_ids@[i]) < self.expert_ids@.len()
                &&& self.expert_ids@[self.compact_ids@[i] as int] == ids[i]
            }
    }
}

/// Whether one of the ids is this expert.
pub open spec fn names(ids: Seq<u32>, expert: int) -> bool {
    exists|i: int| 0 <= i < ids.len() && #[trigger] ids[i] == expert
}

/// Selects the experts that a batch needs; `None` if it needs none.
pub fn select_experts(ids: &Vec<u32>, experts: usize) -> (selection: Result<
    Option<ExpertSelection>,
    StagedError,
>)
    ensures
        match selection {
            Ok(None) => ids@.len() == 0,
            Ok(Some(s)) => {
                &&& ids@.len() > 0
                &&& forall|i: int| 0 <= i < ids@.len() ==> (#[trigger] ids@[i]) < experts
                &&& s.is_for(ids@)
            },
            Err(e) => exists|i: int|
                {
                    &&& 0 <= i < ids@.len()
                    &&& (#[trigger] ids@[i]) >= experts
                    &&& forall|j: int| 0 <= j < i ==> (#[trigger] ids@[j]) < experts
                    &&& e == (StagedError::ExpertRange { expert: ids@[i] as usize, experts })
                },
        },
{
    let mut seen: Vec<bool> = vec![false; experts];
    let mut i: usize = 0;
    while i < ids.len()
        invariant
            i <= ids@.len(),
            seen@.len() == experts,
            forall|j: int| 0 <= j < i ==> (#[trigger] ids@[j]) < experts,
            forall|e: int|
                0 <= e < experts ==> #[trigger] seen@[e] == names(ids@.take(i as int), e),
        decreases ids@.len() - i,
    {
        let expert: usize = ids[i] as usize;
        if expert >= experts {
            return Err(StagedError::ExpertRange { expert, experts });
        }
        let ghost before = seen@;
        seen.set(expert, true);
        proof {
            let a = ids@.take(i as int);
            let b = ids@.take(i + 1);
            assert forall|e: int| 0 <= e < experts implies #[trigger] seen@[e] == names(b, e) by {
                if e == expert {
                    assert(b[i as int] == e);
                }
                if names(a, e) {
                    let k = choose|k: int| 0 <= k < a.len() && #[trigger] a[k] == e;
                    assert(b[k] == e);
                }
                if names(b, e) && e != expert {
                    let k = choose|k: int| 0 <= k < b.len() && #[trigger] b[k] == e;
                    assert(a[k] == e);
                }
            }
        }
        i += 1;
    }
    assert(ids@.take(i as int) =~= ids@);
    if ids.len() == 0 {
        return Ok(None);
    }
    let mut expert_ids: Vec<usize> = Vec::new();
    let mut remap: Vec<usize> = vec![usize::MAX; experts];
    let mut e: usize = 0;
    while e < experts
        invariant
            e <= experts,
            seen@.len() == experts,
            remap@.len() == experts,
            forall|x: int| 0 <= x < experts ==> #[trigger] seen@[x] == names(ids@, x),
            forall|a: int, b: int|
                0 <= a < b < expert_ids@.len() ==> #[trigger] expert_ids@[a]
                    < #[trigger] expert_ids@[b],
            forall|a: int|
                0 <= a < expert_ids@.len() ==> names(ids@, #[trigger] expert_ids@[a] as int)
                    && expert_ids@[a] < e,
            expert_ids@.len() <= e,
            forall|x: int|
                0 <= x < e && names(ids@, x) ==> {
                    &&& (#[trigger] remap@[x]) < expert_ids@.len()
                    &&& expert_ids@[remap@[x] as int] == x
                },
        decreases experts - e,
    {
        if seen[e] {
            let ghost old_ids = expert_ids@;
            let ghost old_remap = remap@;
            remap.set(e, expert_ids.len());
            expert_ids.push(e);
            proof {
                assert forall|x: int| 0 <= x < e + 1 && names(ids@, x) implies {
                    &&& (#[trigger] remap@[x]) < expert_ids@.len()
                    &&& expert_ids@[remap@[x] as int] == x
                } by {
                    if x < e {
                        assert(remap@[x] == old_remap[x]);
                        assert(expert_ids@[remap@[x] as int] == old_ids[remap@[x] as int]);
                    }
                }
            }
        }
        e += 1;
    }
    let mut compact_ids: Vec<u32> = Vec::new();
    let mut k: usize = 0;
    while k < ids.len()
        invariant
            k <= ids@.len(),
            remap@.len() == experts,
            forall|j: int| 0 <= j < ids@.len() ==> (#[trigger] ids@[j]) < experts,
            forall|a: int, b: int|
                0 <= a < b < expert_ids@.len() ==> #[trigger] expert_ids@[a]
                    < #[trigger] expert_ids@[b],
            forall|x: int|
                0 <= x < experts && names(ids@, x) ==> {
                    &&& (#[trigger] remap@[x]) < expert_ids@.len()
                    &&& expert_ids@[remap@[x] as int] == x
                },
            compact_ids@.len() == k,
            forall|j: int|
                0 <= j < k ==> {
                    &&& (#[trigger] compact_ids@[j]) < expert_ids@.len()
                    &&& expert_ids@[compact_ids@[j] as int] == ids@[j]
                },
        decreases ids@.len() - k,
    {
        let expert: usize = ids[k] as usize;
        proof {
            assert(ids@[k as int] == expert);
            assert(names(ids@, expert as int));
            increasing_is_below(expert_ids@, remap@[expert as int] as int);
        }
        compact_ids.push(remap[expert] as u32);
        k += 1;
    }
    Ok(Some(ExpertSelection { expert_ids, compact_ids }))
}

proof fn increasing_is_below(values: Seq<usize>, i: int)
    requires
        forall|a: int, b: int|
            0 <= a < b < values.len() ==> #[trigger] values[a] < #[trigger] values[b],
        0 <= i < values.len(),
    ensures
        i <= values[i],
    decreases i,
{
    if i > 0 {
        increasing_is_below(values, i - 1);
        assert(values[i - 1] < values[i]);
    }
}

/// What a staged mixture is made of.
pub struct StagedInputs {
    pub gate: WeightDesc,
    pub up: WeightDesc,
    pub down: WeightDesc,
    pub x: Vec<usize>,
    pub ids: Vec<usize>,
    pub route_weights: Vec<usize>,
    /// Whether input, ids and weights of the experts are all on a CUDA device.
    pub on_cuda: bool,
}

/// The sizes of a staged mixture.
#[derive(Clone, Copy, Debug, PartialEq, Eq, Structural)]
pub struct StagedShape {
    pub tokens: usize,
    pub topk: usize,
    pub hidden: usize,
    pub intermediate: usize,
    pub experts: usize,
}

impl StagedInputs {
    /// Whether the mixture can be staged at all.
    pub open spec fn is_usable(&self) -> bool {
        &&& self.on_cuda
        &&& self.gate.dtype == self.up.dtype
        &&& self.gate.dtype == self.down.dtype
        &&& is_staged_dtype(self.gate.dtype)
    }

    /// What is wrong with the shapes of the mixture.
    pub open spec fn fault(&self) -> Option<StagedError> {
        let gate = self.gate.dims@;
        let down = self.down.dims@;
        if self.x@.len() != 2 || self.ids@.len() != 2 || self.route_weights@.len() != 2 {
            Some(StagedError::Rank)
        } else if self.ids@[0] != self.x@[0] || self.route_weights@[0] != self.x@[0]
            || self.route_weights@[1] != self.ids@[1] {
            Some(StagedError::RoutingShape)
        } else if gate.len() != 3 {
            Some(StagedError::WeightRank)
        } else if self.up.dims@ != gate {
            Some(StagedError::GateUpShape)
        } else if down.len() != 3 {
            Some(StagedError::WeightRank)
        } else if down[0] != gate[0] || down[1] != self.x@[1] || down[2] != gate[1] || gate[2]
            != self.x@[1] {
            Some(StagedError::ShapeMismatch)
        } else {
            None
        }
    }

    /// Plans a staged mixture; `None` if other code takes it.
    pub fn plan(&self) -> (shape: Result<Option<StagedShape>, StagedError>)
        ensures
            match shape {
                Ok(None) => !self.is_usable(),
                Ok(Some(s)) => {
                    &&& self.is_usable()
                    &&& self.fault() is None
                    &&& s.tokens == self.x@[0]
                    &&& s.topk == self.ids@[1]
                    &&& s.hidden == self.x@[1]
                    &&& s.intermediate == self.gate.dims@[1]
                    &&& s.experts == self.gate.dims@[0]
                },
                Err(e) => self.is_usable() && self.fault() == Some(e),
            },
    {
        if !self.on_cuda || self.gate.dtype != self.up.dtype || self.gate.dtype != self.down.dtype
            || !cuda_staged_dtype_supported(self.gate.dtype) {
            return Ok(None);
        }
        if self.x.len() != 2 || self.ids.len() != 2 || self.route_weights.len() != 2 {
            return Err(StagedError::Rank);
        }
        let tokens: usize = self.x[0];
        let hidden: usize = self.x[1];
        let topk: usize = self.ids[1];
        if self.ids[0] != tokens || self.route_weights[0] != tokens || self.route_weights[1]
            != topk {
            return Err(StagedError::RoutingShape);
        }
        let gate: &Vec<usize> = &self.gate.dims;
        let up: &Vec<usize> = &self.up.dims;
        let down: &Vec<usize> = &self.down.dims;
        if gate.len() != 3 {
            return Err(StagedError::WeightRank);
        }
        if up.len() != 3 || up[0] != gate[0] || up[1] != gate[1] || up[2] != gate[2] {
            assert(up@ != gate@) by {
                if up@ == gate@ {
                    assert(up@[0] == gate@[0] && up@[1] == gate@[1] && up@[2] == gate@[2]);
                }
            }
            return Err(StagedError::GateUpShape);
        }
        assert(up@ =~= gate@);
        if down.len() != 3 {
            return Err(StagedError::WeightRank);
        }
        if down[0] != gate[0] || down[1] != hidden || down[2] != gate[1] || gate[2] != hidden {
            return Err(StagedError::ShapeMismatch);
        }
        Ok(
            Some(
                StagedShape { tokens, topk, hidden, intermediate: gate[1], experts: gate[0] },
            ),
        )
    }
}

/// Experts stand one after the other: byte `i` of an expert stands behind the bytes of all
/// earlier ones.
pub proof fn experts_stand_one_after_the_other(
    data: Seq<u8>,
    expert: int,
    expert_bytes: int,
    i: int,
)
    requires
        0 <= expert,
        0 <= i < expert_bytes,
        (expert + 1) * expert_bytes <= data.len(),
    ensures
        expert_data(data, expert, expert_bytes).len() == expert_bytes,
        expert_data(data, expert, expert_bytes)[i] == data[expert * expert_bytes + i],
{
    assert((expert + 1) * expert_bytes == expert * expert_bytes + expert_bytes && 0 <= expert
        * expert_bytes) by (nonlinear_arith)
        requires
            0 <= expert,
            0 <= expert_bytes,
    ;
}

/// The bytes of an expert are those of its blocks: each output has its row of inputs in whole
/// blocks. A stack is taken exactly if it has the bytes of all its experts.
pub proof fn stacks_have_the_bytes_of_their_experts(
    dtype: GgmlDType,
    experts: usize,
    outs: usize,
    blocks: usize,
    ins: usize,
    data_len: usize,
)
    requires
        ins == blocks * dtype.block_elements(),
        outs * ins <= usize::MAX,
        outs * blocks * dtype.block_bytes() <= usize::MAX,
        outs * blocks * dtype.block_bytes() * experts <= usize::MAX,
    ensures
        expert_size(dtype, outs, ins) == Some(outs * blocks * dtype.block_bytes()),
        layout_fault(dtype, seq![experts, outs, ins], data_len) is None <==> data_len == outs
            * blocks * dtype.block_bytes() * experts,
{
    let block = dtype.block_elements() as int;
    assert(outs * (blocks * block) == (outs * blocks) * block) by (nonlinear_arith);
    vstd::arithmetic::div_mod::lemma_fundamental_div_mod_converse(
        outs * ins,
        block,
        outs * blocks,
        0,
    );
    vstd::arithmetic::div_mod::lemma_fundamental_div_mod_converse(
        ins as int,
        block,
        blocks as int,
        0,
    );
}

/// A staged mixture fits together exactly if each token of the input has its ids and as many
/// weights, gate and up projection have one shape, from the width of the input to the middle, and
/// the down projection leads back, with as many experts.
pub proof fn staged_mixtures_fit_together(inputs: StagedInputs)
    requires
        inputs.x@.len() == 2,
        inputs.ids@.len() == 2,
        inputs.route_weights@.len() == 2,
        inputs.gate.dims@.len() == 3,
        inputs.up.dims@.len() == 3,
        inputs.down.dims@.len() == 3,
    ensures
        ({
            let (experts, middle, width) = (
                inputs.gate.dims@[0],
                inputs.gate.dims@[1],
                inputs.gate.dims@[2],
            );
            inputs.fault() is None <==> {
                &&& inputs.up.dims@ == seq![experts, middle, width]
                &&& inputs.down.dims@ == seq![experts, width, middle]
                &&& inputs.x@ == seq![inputs.ids@[0], width]
                &&& inputs.route_weights@ == inputs.ids@
            }
        }),
        inputs.is_usable() <==> inputs.on_cuda && inputs.up.dtype == inputs.gate.dtype
            && inputs.down.dtype == inputs.gate.dtype && is_staged_dtype(inputs.gate.dtype),
{
    let gate = inputs.gate.dims@;
    let (up, down) = (inputs.up.dims@, inputs.down.dims@);
    let (x, ids, weights) = (inputs.x@, inputs.ids@, inputs.route_weights@);
    assert(gate =~= seq![gate[0], gate[1], gate[2]]);
    assert(up == seq![gate[0], gate[1], gate[2]] <==> up =~= gate);
    assert(down == seq![gate[0], gate[2], gate[1]] <==> down =~= seq![gate[0], gate[2], gate[1]]);
    assert(x == seq![ids[0], gate[2]] <==> x =~= seq![ids[0], gate[2]]);
    assert(weights == ids <==> weights =~= ids);
    if down =~= seq![gate[0], gate[2], gate[1]] {
        assert(down[0] == gate[0] && down[1] == gate[2] && down[2] == gate[1]);
    }
    if x =~= seq![ids[0], gate[2]] {
        assert(x[0] == ids[0] && x[1] == gate[2]);
    }
}

/// Staging gives each id of a batch its own expert: what the id's new number finds among the
/// copies is what the id itself names among all experts. Each expert is copied once, and they are
/// copied in ascending order.
pub proof fn staged_ids_find_their_experts(
    data: Seq<u8>,
    ids: Seq<u32>,
    selection: ExpertSelection,
    layout: StagedLayout,
    i: int,
)
    requires
        layout.experts * layout.expert_bytes == data.len(),
        forall|j: int| 0 <= j < ids.len() ==> (#[trigger] ids[j]) < layout.experts,
        selection.is_for(ids),
        0 <= i < ids.len(),
    ensures
        expert_data(
            compacted(data, selection.expert_ids@, layout.expert_bytes as int),
            selection.compact_ids@[i] as int,
            layout.expert_bytes as int,
        ) == expert_data(data, ids[i] as int, layout.expert_bytes as int),
        forall|a: int, b: int|
            0 <= a < b < selection.expert_ids@.len() ==> selection.expert_ids@[a]
                < selection.expert_ids@[b],
        forall|a: int|
            0 <= a < selection.expert_ids@.len() ==> exists|j: int|
                0 <= j < ids.len() && ids[j] == #[trigger] selection.expert_ids@[a],
{
    let experts = selection.expert_ids@;
    assert forall|a: int| 0 <= a < experts.len() implies #[trigger] experts[a] < layout.experts by {
        assert(names(ids, experts[a] as int));
        let j = choose|j: int| 0 <= j < ids.len() && #[trigger] ids[j] == experts[a] as int;
        assert(ids[j] < layout.experts);
    }
    assert(selection.compact_ids@[i] < experts.len());
    copied_expert_is_found(data, experts, layout, selection.compact_ids@[i] as int);
    assert forall|a: int| 0 <= a < experts.len() implies exists|j: int|
        0 <= j < ids.len() && ids[j] == #[trigger] experts[a] by {
        assert(names(ids, experts[a] as int));
        let j = choose|j: int| 0 <= j < ids.len() && #[trigger] ids[j] == experts[a] as int;
        assert(ids[j] == experts[a]);
    }
}

/// Rows that are not made of whole blocks are named with their width and that of a block, and a
/// stack of another length with the length that its experts have and its own.
pub proof fn wrong_stacks_are_named(
    dtype: GgmlDType,
    dims: Seq<usize>,
    data_len: usize,
    bytes: int,
)
    ensures
        layout_fault(dtype, dims, data_len) matches Some(
            StagedError::Alignment { in_features, block_size },
        ) ==> dims.len() == 3 && in_features == dims[2] && block_size == dtype.block_elements(),
        layout_fault(dtype, dims, data_len) matches Some(StagedError::DataLength { expected, got })
            ==> expert_size(dtype, dims[1], dims[2]) == Some(bytes) ==> expected == bytes * dims[0]
            && got == data_len && expected != got,
{
}

} // verus!
