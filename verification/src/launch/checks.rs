//! Checks that the launches share.
use crate::dtype::{spec_dtype_code, DType};
use crate::tensor::Place;
use vstd::prelude::*;

verus! {

/// A tensor of a launch.
#[derive(Clone, Copy, Debug, PartialEq, Eq, Structural)]
pub enum Operand {
    Query,
    Key,
    Value,
    KeyCache,
    ValueCache,
    BlockTables,
    CuSeqLens,
    ContextLens,
    SlotMapping,
    KeyTail,
    ValueTail,
    KeyTailSlots,
    ValueTailSlots,
    KeyScale,
    ValueScale,
}

/// Why a launch is refused.
#[derive(Clone, Copy, Debug, PartialEq, Eq, Structural)]
pub enum LaunchError {
    /// No kernel takes this element type.
    UnsupportedDtype { dtype: DType },
    /// No kernel takes a cache of this element type.
    UnsupportedCacheDtype { dtype: DType },
    /// The caches have other element types than the kernel takes.
    CacheDtypes { key: DType, value: DType },
    /// An operand has another element type than the kernel takes.
    OperandDtype { operand: Operand, dtype: DType },
    /// An operand has another rank than the kernel takes.
    Rank { operand: Operand, rank: usize },
    /// The kernel takes one query token per sequence.
    QueryLength { q_len: usize },
    /// The kernel takes from one to eight query tokens.
    QueryTokens { q_len: usize },
    /// The kernel takes another number of query rows.
    QueryRows { rows: usize },
    /// Keys and values have different shapes.
    InputMismatch,
    /// The caches do not fit each other or the input.
    CacheMismatch,
    /// The last dimension of a cache is no size of a record or row.
    RecordBytes { operand: Operand, bytes: usize },
    /// The caches have other head dimensions than the query.
    HeadDim { query: usize, key: usize, value: usize },
    /// The kernel does not take this head dimension.
    UnsupportedHeadDim { head_dim: usize },
    /// The query heads cannot be shared out among the cache heads.
    HeadGroups { num_heads: usize, num_kv_heads: usize },
    /// An operand has another length than the batch asks for.
    Length { operand: Operand, got: usize },
    /// The tail pools have another element type than the query.
    TailDtypes { key: DType, value: DType },
    /// The tail pools do not fit each other or the cache.
    TailMismatch,
    /// An operand is not on a CUDA device.
    NotOnCuda { operand: Operand },
    /// The device has no support for 8-bit floats.
    NoFp8,
    /// A cache of 8-bit floats needs its scales.
    MissingScale { operand: Operand },
}

/// The first of two faults.
pub open spec fn earlier(a: Option<LaunchError>, b: Option<LaunchError>) -> Option<LaunchError> {
    match a {
        Some(e) => Some(e),
        None => b,
    }
}

/// An operand that has to hold 32-bit integers.
pub open spec fn index_fault(operand: Operand, dtype: DType) -> Option<LaunchError> {
    if dtype == DType::I32 || dtype == DType::U32 {
        None
    } else {
        Some(LaunchError::OperandDtype { operand, dtype })
    }
}

/// Checks that an operand holds 32-bit integers.
pub fn check_index(operand: Operand, dtype: DType) -> (fault: Option<LaunchError>)
    ensures
        fault == index_fault(operand, dtype),
{
    if dtype.is_index32() {
        None
    } else {
        Some(LaunchError::OperandDtype { operand, dtype })
    }
}

/// An operand that has to have one element type.
pub open spec fn dtype_fault(operand: Operand, dtype: DType, wanted: DType) -> Option<LaunchError> {
    if dtype == wanted {
        None
    } else {
        Some(LaunchError::OperandDtype { operand, dtype })
    }
}

/// Checks the element type of an operand.
pub fn check_dtype(operand: Operand, dtype: DType, wanted: DType) -> (fault: Option<LaunchError>)
    ensures
        fault == dtype_fault(operand, dtype, wanted),
{
    if dtype == wanted {
        None
    } else {
        Some(LaunchError::OperandDtype { operand, dtype })
    }
}

/// An activation that a kernel has to take.
pub open spec fn activation_fault(dtype: DType) -> Option<LaunchError> {
    match spec_dtype_code(dtype) {
        Some(_) => None,
        None => Some(LaunchError::UnsupportedDtype { dtype }),
    }
}

/// Caches that have to hold bytes.
pub open spec fn byte_caches_fault(key: DType, value: DType) -> Option<LaunchError> {
    if key == DType::U8 && value == DType::U8 {
        None
    } else {
        Some(LaunchError::CacheDtypes { key, value })
    }
}

/// Checks that both caches hold bytes.
pub fn check_byte_caches(key: DType, value: DType) -> (fault: Option<LaunchError>)
    ensures
        fault == byte_caches_fault(key, value),
{
    if key == DType::U8 && value == DType::U8 {
        None
    } else {
        Some(LaunchError::CacheDtypes { key, value })
    }
}

/// An operand that has to have one rank.
pub open spec fn rank_fault(operand: Operand, dims: Seq<usize>, rank: int) -> Option<LaunchError> {
    if dims.len() == rank {
        None
    } else {
        Some(LaunchError::Rank { operand, rank: dims.len() as usize })
    }
}

/// Checks the rank of an operand.
pub fn check_rank(operand: Operand, dims: &Vec<usize>, rank: usize) -> (fault: Option<LaunchError>)
    ensures
        fault == rank_fault(operand, dims@, rank as int),
{
    if dims.len() == rank {
        None
    } else {
        Some(LaunchError::Rank { operand, rank: dims.len() })
    }
}

/// An operand that has to be on a CUDA device.
pub open spec fn place_fault(operand: Operand, place: Place) -> Option<LaunchError> {
    if place == Place::Cuda {
        None
    } else {
        Some(LaunchError::NotOnCuda { operand })
    }
}

/// Checks that an operand is on a CUDA device.
pub fn check_place(operand: Operand, place: Place) -> (fault: Option<LaunchError>)
    ensures
        fault == place_fault(operand, place),
{
    if place == Place::Cuda {
        None
    } else {
        Some(LaunchError::NotOnCuda { operand })
    }
}

/// Query heads that have to be a multiple of the cache heads.
pub open spec fn groups_fault(num_heads: usize, num_kv_heads: usize) -> Option<LaunchError> {
    if num_heads as int % num_kv_heads as int == 0 {
        None
    } else {
        Some(LaunchError::HeadGroups { num_heads, num_kv_heads })
    }
}

/// Checks that the query heads can be shared out among the cache heads.
pub fn check_groups(num_heads: usize, num_kv_heads: usize) -> (fault: Option<LaunchError>)
    requires
        num_kv_heads != 0,
    ensures
        fault == groups_fault(num_heads, num_kv_heads),
{
    if num_heads % num_kv_heads == 0 {
        None
    } else {
        Some(LaunchError::HeadGroups { num_heads, num_kv_heads })
    }
}

/// An operand that has to have a given length.
pub open spec fn length_fault(operand: Operand, got: usize, wanted: int) -> Option<LaunchError> {
    if got == wanted {
        None
    } else {
        Some(LaunchError::Length { operand, got })
    }
}

/// Checks that an operand has a given length.
pub fn check_length(operand: Operand, got: usize, wanted: usize) -> (fault: Option<LaunchError>)
    ensures
        fault == length_fault(operand, got, wanted as int),
{
    if got == wanted {
        None
    } else {
        Some(LaunchError::Length { operand, got })
    }
}

/// Checks that an operand is one longer than `count`.
pub fn check_length_after(operand: Operand, got: usize, count: usize) -> (fault: Option<
    LaunchError,
>)
    ensures
        fault == length_fault(operand, got, count + 1),
{
    if got > 0 && got - 1 == count {
        None
    } else {
        Some(LaunchError::Length { operand, got })
    }
}

/// What each check asks for, and that the earlier of two faults counts.
pub proof fn checks_ask_for_one_thing_each(
    operand: Operand,
    dtype: DType,
    wanted: DType,
    dims: Seq<usize>,
    place: Place,
    length: usize,
    count: int,
    a: Option<LaunchError>,
    b: Option<LaunchError>,
)
    ensures
        index_fault(operand, dtype) is None <==> dtype == DType::I32 || dtype == DType::U32,
        dtype_fault(operand, dtype, wanted) is None <==> dtype == wanted,
        activation_fault(dtype) is None <==> dtype == DType::F16 || dtype == DType::BF16 || dtype
            == DType::F32,
        byte_caches_fault(dtype, wanted) is None <==> dtype == DType::U8 && wanted == DType::U8,
        rank_fault(operand, dims, count) is None <==> dims.len() == count,
        place_fault(operand, place) is None <==> place == Place::Cuda,
        length_fault(operand, length, count) is None <==> length == count,
        index_fault(operand, dtype) is Some ==> index_fault(operand, dtype) == Some(
            LaunchError::OperandDtype { operand, dtype },
        ),
        place_fault(operand, place) is Some ==> place_fault(operand, place) == Some(
            LaunchError::NotOnCuda { operand },
        ),
        earlier(a, b) is None <==> a is None && b is None,
        a is Some ==> earlier(a, b) == a,
        a is None ==> earlier(a, b) == b,
{
}

/// Query heads are shared out evenly: each cache head has as many of them.
pub proof fn heads_are_shared_out_evenly(num_heads: usize, num_kv_heads: usize, each: int)
    requires
        num_kv_heads > 0,
        each * num_kv_heads <= num_heads < (each + 1) * num_kv_heads,
    ensures
        groups_fault(num_heads, num_kv_heads) is None <==> num_heads == each * num_kv_heads,
        groups_fault(num_heads, num_kv_heads) is Some ==> groups_fault(num_heads, num_kv_heads)
            == Some(LaunchError::HeadGroups { num_heads, num_kv_heads }),
{
    let (heads, kv) = (num_heads as int, num_kv_heads as int);
    vstd::arithmetic::div_mod::lemma_fundamental_div_mod(heads, kv);
    assert(heads % kv == 0 <==> heads == each * kv) by (nonlinear_arith)
        requires
            kv > 0,
            heads == kv * (heads / kv) + heads % kv,
            0 <= heads % kv < kv,
            each * kv <= heads < (each + 1) * kv,
    ;
}

} // verus!
