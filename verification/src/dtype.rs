//! Element types of tensors and of quantized blocks.
use vstd::prelude::*;

verus! {

/// The element type of a tensor.
#[derive(Clone, Copy, Debug, PartialEq, Eq, Structural)]
pub enum DType {
    U8,
    U32,
    I16,
    I32,
    I64,
    BF16,
    F16,
    F32,
    F64,
    F8E4M3,
    F6E2M3,
    F6E3M2,
    F4,
    F8E8M0,
}

impl DType {
    /// Bytes taken by one element; the sub-byte formats count as zero.
    pub open spec fn spec_size_in_bytes(self) -> usize {
        match self {
            DType::U8 | DType::F8E4M3 | DType::F8E8M0 => 1,
            DType::I16 | DType::BF16 | DType::F16 => 2,
            DType::U32 | DType::I32 | DType::F32 => 4,
            DType::I64 | DType::F64 => 8,
            DType::F6E2M3 | DType::F6E3M2 | DType::F4 => 0,
        }
    }

    /// Bytes taken by one element.
    #[verifier::when_used_as_spec(spec_size_in_bytes)]
    pub fn size_in_bytes(self) -> (bytes: usize)
        ensures
            bytes == self.spec_size_in_bytes(),
            bytes <= 8,
    {
        match self {
            DType::U8 | DType::F8E4M3 | DType::F8E8M0 => 1,
            DType::I16 | DType::BF16 | DType::F16 => 2,
            DType::U32 | DType::I32 | DType::F32 => 4,
            DType::I64 | DType::F64 => 8,
            DType::F6E2M3 | DType::F6E3M2 | DType::F4 => 0,
        }
    }

    /// The attention kernels index with 32-bit integers only.
    pub open spec fn spec_is_index32(self) -> bool {
        self == DType::I32 || self == DType::U32
    }

    /// Whether the type is one of the two 32-bit index types.
    #[verifier::when_used_as_spec(spec_is_index32)]
    pub fn is_index32(self) -> (index: bool)
        ensures
            index == self.spec_is_index32(),
    {
        match self {
            DType::I32 | DType::U32 => true,
            _ => false,
        }
    }
}

/// The number by which the attention kernels know an activation type.
pub open spec fn spec_dtype_code(dtype: DType) -> Option<u32> {
    match dtype {
        DType::F16 => Some(0u32),
        DType::BF16 => Some(1u32),
        DType::F32 => Some(2u32),
        _ => None,
    }
}

/// The kernels' number for an activation type; `None` for a type that no kernel takes.
#[verifier::when_used_as_spec(spec_dtype_code)]
pub fn dtype_code(dtype: DType) -> (code: Option<u32>)
    ensures
        code == spec_dtype_code(dtype),
{
    match dtype {
        DType::F16 => Some(0),
        DType::BF16 => Some(1),
        DType::F32 => Some(2),
        _ => None,
    }
}

/// The number by which the attention kernels know a cache type.
pub open spec fn spec_cache_dtype_code(dtype: DType) -> Option<u32> {
    match dtype {
        DType::F8E4M3 => Some(3u32),
        _ => spec_dtype_code(dtype),
    }
}

/// The kernels' number for a cache type; `None` for a type that no kernel takes.
#[verifier::when_used_as_spec(spec_cache_dtype_code)]
pub fn cache_dtype_code(dtype: DType) -> (code: Option<u32>)
    ensures
        code == spec_cache_dtype_code(dtype),
{
    match dtype {
        DType::F8E4M3 => Some(3),
        _ => dtype_code(dtype),
    }
}

/// Two types that the kernels accept are told apart by their numbers.
pub proof fn kernel_codes_are_distinct(a: DType, b: DType)
    requires
        spec_cache_dtype_code(a) is Some,
        spec_cache_dtype_code(a) == spec_cache_dtype_code(b),
    ensures
        a == b,
{
}

/// A number of the kernels stands for one type: 0 for 16-bit floats, 1 for their wide-ranged
/// kind, 2 for 32-bit floats and 3 for 8-bit floats, which only caches hold.
pub proof fn kernel_code_tells_the_type(dtype: DType)
    ensures
        spec_dtype_code(dtype) == Some(0u32) <==> dtype == DType::F16,
        spec_dtype_code(dtype) == Some(1u32) <==> dtype == DType::BF16,
        spec_dtype_code(dtype) == Some(2u32) <==> dtype == DType::F32,
        spec_dtype_code(dtype) is Some ==> spec_dtype_code(dtype)->0 <= 2,
        spec_cache_dtype_code(dtype) == Some(3u32) <==> dtype == DType::F8E4M3,
        dtype != DType::F8E4M3 ==> spec_cache_dtype_code(dtype) == spec_dtype_code(dtype),
{
}

/// The size of an element tells how many bits its type has: types of 8, 16, 32 and 64 bits take
/// 1, 2, 4 and 8 bytes, and only types of less than 8 bits take none of their own.
pub proof fn element_size_tells_the_width(dtype: DType)
    ensures
        dtype.spec_size_in_bytes() == 1 <==> dtype == DType::U8 || dtype == DType::F8E4M3 || dtype
            == DType::F8E8M0,
        dtype.spec_size_in_bytes() == 2 <==> dtype == DType::I16 || dtype == DType::F16 || dtype
            == DType::BF16,
        dtype.spec_size_in_bytes() == 4 <==> dtype == DType::U32 || dtype == DType::I32 || dtype
            == DType::F32,
        dtype.spec_size_in_bytes() == 8 <==> dtype == DType::I64 || dtype == DType::F64,
        dtype.spec_size_in_bytes() == 0 <==> dtype == DType::F4 || dtype == DType::F6E2M3 || dtype
            == DType::F6E3M2,
        dtype.spec_is_index32() ==> dtype.spec_size_in_bytes() == 4 && dtype != DType::F32,
        dtype == DType::I32 || dtype == DType::U32 ==> dtype.spec_is_index32(),
{
}

} // verus!
