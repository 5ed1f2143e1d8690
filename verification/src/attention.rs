//! Attention by plain matrix products: what is decided before any tensor work is done.
use crate::dtype::DType;
use crate::flags::switched_on;
use crate::float_bits::{finite, is_finite};
use crate::text::{ascii_lower_text, blank, is_blank};
use vstd::prelude::*;

verus! {

/// Why attention is refused.
#[derive(Clone, Copy, Debug, PartialEq, Eq, Structural)]
pub enum AttentionError {
    /// The keys have neither rank three nor four.
    KeyRank { rank: usize },
    /// The values have neither rank three nor four.
    ValueRank { rank: usize },
    /// The queries do not have rank four.
    QueryRank { rank: usize },
    /// The values have no fourth dimension.
    ValueDim,
}

/// How attention is computed.
#[derive(Clone, Copy, Debug, PartialEq, Eq, Structural)]
pub enum SdpaPlan {
    /// There are no keys or values: the output is zero, in the shape of the queries.
    ZerosLikeQuery,
    /// There are no queries, or keys without elements: the output is zero, in this shape.
    Zeros { batch: usize, heads: usize, query_len: usize, value_dim: usize },
    /// By matrix products, with an output of this shape.
    Products { batch: usize, heads: usize, query_len: usize, value_dim: usize },
}

/// The length of a sequence of keys or values.
pub open spec fn sequence_len(dims: Seq<usize>) -> Option<usize> {
    if dims.len() == 4 {
        Some(dims[2])
    } else if dims.len() == 3 {
        Some(dims[0])
    } else {
        None
    }
}

fn seq_len(dims: &Vec<usize>) -> (len: Option<usize>)
    ensures
        len == sequence_len(dims@),
{
    if dims.len() == 4 {
        Some(dims[2])
    } else if dims.len() == 3 {
        Some(dims[0])
    } else {
        None
    }
}

/// How attention is computed, or why not.
pub open spec fn sdpa_plan(q: Seq<usize>, k: Seq<usize>, v: Seq<usize>) -> Result<
    SdpaPlan,
    AttentionError,
> {
    if sequence_len(k) is None {
        Err(AttentionError::KeyRank { rank: k.len() as usize })
    } else if sequence_len(v) is None {
        Err(AttentionError::ValueRank { rank: v.len() as usize })
    } else if sequence_len(k) == Some(0usize) || sequence_len(v) == Some(0usize) {
        Ok(SdpaPlan::ZerosLikeQuery)
    } else if q.len() != 4 {
        Err(AttentionError::QueryRank { rank: q.len() as usize })
    } else if v.len() != 4 {
        Err(AttentionError::ValueDim)
    } else if q[2] == 0 || k[2] == 0 {
        Ok(SdpaPlan::Zeros { batch: q[0], heads: q[1], query_len: q[2], value_dim: v[3] })
    } else {
        Ok(SdpaPlan::Products { batch: q[0], heads: q[1], query_len: q[2], value_dim: v[3] })
    }
}

/// Decides how attention is computed, from the shapes of queries, keys and values.
pub fn plan_sdpa(q: &Vec<usize>, k: &Vec<usize>, v: &Vec<usize>) -> (plan: Result<
    SdpaPlan,
    AttentionError,
>)
    ensures
        plan == sdpa_plan(q@, k@, v@),
{
    let k_len: usize = match seq_len(k) {
        Some(len) => len,
        None => {
            return Err(AttentionError::KeyRank { rank: k.len() });
        },
    };
    let v_len: usize = match seq_len(v) {
        Some(len) => len,
        None => {
            return Err(AttentionError::ValueRank { rank: v.len() });
        },
    };
    if k_len == 0 || v_len == 0 {
        return Ok(SdpaPlan::ZerosLikeQuery);
    }
    if q.len() != 4 {
        return Err(AttentionError::QueryRank { rank: q.len() });
    }
    if v.len() != 4 {
        return Err(AttentionError::ValueDim);
    }
    let batch: usize = q[0];
    let heads: usize = q[1];
    let query_len: usize = q[2];
    let value_dim: usize = v[3];
    if query_len == 0 || k[2] == 0 {
        return Ok(SdpaPlan::Zeros { batch, heads, query_len, value_dim });
    }
    Ok(SdpaPlan::Products { batch, heads, query_len, value_dim })
}

/// How often attention was computed this way: in all, for single queries, and for up to 64.
#[derive(Clone, Copy, Debug, PartialEq, Eq, Structural)]
pub struct SdpaCounters {
    pub total: usize,
    pub decode: usize,
    pub prefill: usize,
}

/// A count that starts again at zero after the largest one.
pub open spec fn next_count(n: usize) -> usize {
    if n == usize::MAX {
        0
    } else {
        (n + 1) as usize
    }
}

impl SdpaCounters {
    /// Counts a computation; tells whether a hundred more have been counted.
    pub fn record(&mut self, query_len: usize) -> (hundred: bool)
        ensures
            final(self).total == next_count(old(self).total),
            final(self).decode == if query_len == 1 {
                next_count(old(self).decode)
            } else {
                old(self).decode
            },
            final(self).prefill == if query_len != 1 && query_len <= 64 {
                next_count(old(self).prefill)
            } else {
                old(self).prefill
            },
            hundred == (final(self).total as int % 100 == 0),
    {
        self.total = self.total.wrapping_add(1);
        if query_len == 1 {
            self.decode = self.decode.wrapping_add(1);
        } else if query_len <= 64 {
            self.prefill = self.prefill.wrapping_add(1);
        }
        self.total % 100 == 0
    }
}

/// Whether each computation is reported (`MISTRALRS_NAIVE_SDPA_TRACE`).
pub fn naive_sdpa_trace_enabled(environment: Option<&str>) -> (on: bool)
    ensures
        on == match environment {
            Some(text) => !is_blank(text@),
            None => false,
        },
{
    match environment {
        Some(text) => !blank(text),
        None => false,
    }
}

/// Whether the device has to finish its work first: less than four gibibytes are available.
pub fn must_synchronize(available: u64) -> (yes: bool)
    ensures
        yes == (available < 4294967296),
{
    available < 4294967296
}

/// How a tensor is converted to another type.
#[derive(Clone, Copy, Debug, PartialEq, Eq, Structural)]
pub enum CastRoute {
    /// It has the type already.
    Keep,
    /// In memory, since legacy CUDA devices cannot.
    ThroughCpu,
    /// Where it is.
    InPlace,
}

/// How a tensor is converted to another type.
pub fn plan_cast(from: DType, to: DType, legacy_cuda: bool) -> (route: CastRoute)
    ensures
        route == if from == to {
            CastRoute::Keep
        } else if legacy_cuda {
            CastRoute::ThroughCpu
        } else {
            CastRoute::InPlace
        },
{
    if from == to {
        CastRoute::Keep
    } else if legacy_cuda {
        CastRoute::ThroughCpu
    } else {
        CastRoute::InPlace
    }
}

/// Whether a type has 16 bits.
pub open spec fn is_reduced(dtype: DType) -> bool {
    dtype == DType::BF16 || dtype == DType::F16
}

/// Whether the products are computed at 32 bits, since legacy CUDA devices are not stable at
/// less.
pub fn uses_legacy_f32_path(dtype: DType, legacy_cuda: bool) -> (yes: bool)
    ensures
        yes == (is_reduced(dtype) && legacy_cuda),
{
    (dtype == DType::BF16 || dtype == DType::F16) && legacy_cuda
}

/// The types that the softmax is computed in and converted to afterwards, if it is.
pub fn softmax_dtypes(dtype: DType, legacy_path: bool) -> (dtypes: (DType, Option<DType>))
    ensures
        dtypes.0 == if is_reduced(dtype) {
            DType::F32
        } else {
            dtype
        },
        dtypes.1 == if is_reduced(dtype) && !legacy_path {
            Some(dtype)
        } else {
            None
        },
{
    if dtype == DType::BF16 || dtype == DType::F16 {
        (
            DType::F32,
            if legacy_path {
                None
            } else {
                Some(dtype)
            },
        )
    } else {
        (dtype, None)
    }
}

/// Whether the activations of gated delta nets are checked
/// (`MISTRALRS_QWEN35_MOE_FINITE_CHECK`).
pub fn gdn_finite_check_enabled(environment: Option<&str>) -> (on: bool)
    ensures
        on == match environment {
            Some(text) => text@ != "0"@ && ascii_lower_text(text@) != "false"@,
            None => false,
        },
{
    match environment {
        Some(text) => switched_on(text),
        None => false,
    }
}

/// Whether activations pass the check, from the bit pattern of their largest magnitude.
pub fn gdn_is_finite(enabled: bool, max_abs: u32) -> (passes: bool)
    ensures
        passes == (!enabled || is_finite(max_abs)),
{
    !enabled || finite(max_abs)
}

/// The output has the batch, the heads and the length of the queries and the width of the values,
/// and is computed exactly if there are queries, keys and values to compute it from.
pub proof fn attention_output_follows_queries_and_values(
    q: Seq<usize>,
    k: Seq<usize>,
    v: Seq<usize>,
)
    requires
        q.len() == 4,
        k.len() == 4,
        v.len() == 4,
    ensures
        sdpa_plan(q, k, v) is Ok,
        match sdpa_plan(q, k, v)->Ok_0 {
            SdpaPlan::ZerosLikeQuery => k[2] == 0 || v[2] == 0,
            SdpaPlan::Zeros { batch, heads, query_len, value_dim } => {
                &&& seq![batch, heads, query_len, value_dim] == seq![q[0], q[1], q[2], v[3]]
                &&& k[2] != 0 && v[2] != 0
                &&& q[2] == 0
            },
            SdpaPlan::Products { batch, heads, query_len, value_dim } => {
                &&& seq![batch, heads, query_len, value_dim] == seq![q[0], q[1], q[2], v[3]]
                &&& k[2] != 0 && v[2] != 0 && q[2] != 0
            },
        },
{
}

/// Shapes are refused for the first that is wrong: keys of another rank than three or four, then
/// values of such a rank; if there are keys and values, then queries of another rank than four,
/// and then values of rank three.
pub proof fn attention_refuses_the_first_wrong_shape(q: Seq<usize>, k: Seq<usize>, v: Seq<usize>)
    requires
        q.len() <= usize::MAX,
        k.len() <= usize::MAX,
        v.len() <= usize::MAX,
    ensures
        sdpa_plan(q, k, v) matches Err(AttentionError::KeyRank { rank }) ==> rank == k.len(),
        sdpa_plan(q, k, v) matches Err(AttentionError::ValueRank { rank }) ==> rank == v.len(),
        sdpa_plan(q, k, v) matches Err(AttentionError::QueryRank { rank }) ==> rank == q.len(),
        k.len() != 3 && k.len() != 4 <==> sdpa_plan(q, k, v) is Err && sdpa_plan(
            q,
            k,
            v,
        )->Err_0 is KeyRank,
        (k.len() == 3 || k.len() == 4) && v.len() != 3 && v.len() != 4 ==> sdpa_plan(q, k, v)
            is Err && sdpa_plan(q, k, v)->Err_0 is ValueRank,
        k.len() == 3 && v.len() == 3 ==> (sdpa_plan(q, k, v) == Ok::<SdpaPlan, AttentionError>(
            SdpaPlan::ZerosLikeQuery,
        ) <==> k[0] == 0 || v[0] == 0),
        k.len() == 4 && v.len() == 4 && k[2] != 0 && v[2] != 0 ==> (sdpa_plan(q, k, v) is Err
            <==> q.len() != 4),
{
}

/// Counts go up by one, and start again at zero after the largest one.
pub proof fn counts_go_round(n: usize)
    ensures
        n < usize::MAX ==> next_count(n) == n + 1,
        next_count(usize::MAX) == 0,
{
}

/// The types with less precision are the floats of two bytes.
pub proof fn reduced_types_have_two_bytes(dtype: DType)
    ensures
        is_reduced(dtype) <==> dtype.spec_size_in_bytes() == 2 && dtype != DType::I16,
{
}

} // verus!
