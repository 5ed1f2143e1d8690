//! The element types of GGUF tensors.
use crate::isq::IsqType;
use vstd::prelude::*;

verus! {

/// An element type of a GGUF tensor.
#[derive(Clone, Copy, Debug, PartialEq, Eq, Structural)]
pub enum GgmlDType {
    F32,
    F16,
    BF16,
    Q4_0,
    Q4_1,
    Q5_0,
    Q5_1,
    Q8_0,
    Q8_1,
    Q2K,
    Q3K,
    Q4K,
    Q5K,
    Q6K,
    Q8K,
}

/// Elements in a block of the K types.
pub const QK_K: usize = 256;

impl GgmlDType {
    /// The number of elements in a block.
    pub open spec fn block_elements(self) -> usize {
        match self {
            GgmlDType::F32 | GgmlDType::F16 | GgmlDType::BF16 => 1,
            GgmlDType::Q4_0 | GgmlDType::Q4_1 | GgmlDType::Q5_0 | GgmlDType::Q5_1
            | GgmlDType::Q8_0 | GgmlDType::Q8_1 => 32,
            _ => 256,
        }
    }

    /// The number of elements in a block.
    pub fn block_size(self) -> (elements: usize)
        ensures
            elements == self.block_elements(),
    {
        match self {
            GgmlDType::F32 | GgmlDType::F16 | GgmlDType::BF16 => 1,
            GgmlDType::Q4_0 | GgmlDType::Q4_1 | GgmlDType::Q5_0 | GgmlDType::Q5_1
            | GgmlDType::Q8_0 | GgmlDType::Q8_1 => 32,
            _ => QK_K,
        }
    }

    /// The number of bytes of a block.
    pub open spec fn block_bytes(self) -> usize {
        match self {
            GgmlDType::F32 => 4,
            GgmlDType::F16 | GgmlDType::BF16 => 2,
            GgmlDType::Q4_0 => 18,
            GgmlDType::Q4_1 => 20,
            GgmlDType::Q5_0 => 22,
            GgmlDType::Q5_1 => 24,
            GgmlDType::Q8_0 => 34,
            GgmlDType::Q8_1 => 36,
            GgmlDType::Q2K => 84,
            GgmlDType::Q3K => 110,
            GgmlDType::Q4K => 144,
            GgmlDType::Q5K => 176,
            GgmlDType::Q6K => 210,
            GgmlDType::Q8K => 292,
        }
    }

    /// The number of bytes of a block.
    pub fn type_size(self) -> (bytes: usize)
        ensures
            bytes == self.block_bytes(),
    {
        match self {
            GgmlDType::F32 => 4,
            GgmlDType::F16 | GgmlDType::BF16 => 2,
            GgmlDType::Q4_0 => 18,
            GgmlDType::Q4_1 => 20,
            GgmlDType::Q5_0 => 22,
            GgmlDType::Q5_1 => 24,
            GgmlDType::Q8_0 => 34,
            GgmlDType::Q8_1 => 36,
            GgmlDType::Q2K => 84,
            GgmlDType::Q3K => 110,
            GgmlDType::Q4K => 144,
            GgmlDType::Q5K => 176,
            GgmlDType::Q6K => 210,
            GgmlDType::Q8K => 292,
        }
    }

    /// The number of a type in files.
    pub open spec fn code(self) -> u32 {
        match self {
            GgmlDType::F32 => 0,
            GgmlDType::F16 => 1,
            GgmlDType::Q4_0 => 2,
            GgmlDType::Q4_1 => 3,
            GgmlDType::Q5_0 => 6,
            GgmlDType::Q5_1 => 7,
            GgmlDType::Q8_0 => 8,
            GgmlDType::Q8_1 => 9,
            GgmlDType::Q2K => 10,
            GgmlDType::Q3K => 11,
            GgmlDType::Q4K => 12,
            GgmlDType::Q5K => 13,
            GgmlDType::Q6K => 14,
            GgmlDType::Q8K => 15,
            GgmlDType::BF16 => 30,
        }
    }

    /// The number of a type in files.
    pub fn uqff_code(self) -> (code: u32)
        ensures
            code == self.code(),
    {
        match self {
            GgmlDType::F32 => 0,
            GgmlDType::F16 => 1,
            GgmlDType::Q4_0 => 2,
            GgmlDType::Q4_1 => 3,
            GgmlDType::Q5_0 => 6,
            GgmlDType::Q5_1 => 7,
            GgmlDType::Q8_0 => 8,
            GgmlDType::Q8_1 => 9,
            GgmlDType::Q2K => 10,
            GgmlDType::Q3K => 11,
            GgmlDType::Q4K => 12,
            GgmlDType::Q5K => 13,
            GgmlDType::Q6K => 14,
            GgmlDType::Q8K => 15,
            GgmlDType::BF16 => 30,
        }
    }

    /// The type that weights of a quantization have.
    pub open spec fn of_isq(isq: IsqType) -> Option<GgmlDType> {
        match isq {
            IsqType::Q4_0 => Some(GgmlDType::Q4_0),
            IsqType::Q4_1 => Some(GgmlDType::Q4_1),
            IsqType::Q5_0 => Some(GgmlDType::Q5_0),
            IsqType::Q5_1 => Some(GgmlDType::Q5_1),
            IsqType::Q8_0 => Some(GgmlDType::Q8_0),
            IsqType::Q8_1 => Some(GgmlDType::Q8_1),
            IsqType::Q2K => Some(GgmlDType::Q2K),
            IsqType::Q3K => Some(GgmlDType::Q3K),
            IsqType::Q4K => Some(GgmlDType::Q4K),
            IsqType::Q5K => Some(GgmlDType::Q5K),
            IsqType::Q6K => Some(GgmlDType::Q6K),
            IsqType::Q8K => Some(GgmlDType::Q8K),
            IsqType::F8Q8 | IsqType::HQZ4 => None,
        }
    }

    /// The type that weights of a quantization have; not all quantizations are blocks.
    pub fn from_isq(isq: IsqType) -> (dtype: Option<GgmlDType>)
        ensures
            dtype == GgmlDType::of_isq(isq),
    {
        match isq {
            IsqType::Q4_0 => Some(GgmlDType::Q4_0),
            IsqType::Q4_1 => Some(GgmlDType::Q4_1),
            IsqType::Q5_0 => Some(GgmlDType::Q5_0),
            IsqType::Q5_1 => Some(GgmlDType::Q5_1),
            IsqType::Q8_0 => Some(GgmlDType::Q8_0),
            IsqType::Q8_1 => Some(GgmlDType::Q8_1),
            IsqType::Q2K => Some(GgmlDType::Q2K),
            IsqType::Q3K => Some(GgmlDType::Q3K),
            IsqType::Q4K => Some(GgmlDType::Q4K),
            IsqType::Q5K => Some(GgmlDType::Q5K),
            IsqType::Q6K => Some(GgmlDType::Q6K),
            IsqType::Q8K => Some(GgmlDType::Q8K),
            IsqType::F8Q8 | IsqType::HQZ4 => None,
        }
    }

    /// The quantization that weights of a type have; floats have none.
    pub fn to_isq(self) -> (isq: Option<IsqType>)
        ensures
            match isq {
                Some(isq) => GgmlDType::of_isq(isq) == Some(self),
                None => self == GgmlDType::F32 || self == GgmlDType::F16 || self
                    == GgmlDType::BF16,
            },
    {
        match self {
            GgmlDType::Q4_0 => Some(IsqType::Q4_0),
            GgmlDType::Q4_1 => Some(IsqType::Q4_1),
            GgmlDType::Q5_0 => Some(IsqType::Q5_0),
            GgmlDType::Q5_1 => Some(IsqType::Q5_1),
            GgmlDType::Q8_0 => Some(IsqType::Q8_0),
            GgmlDType::Q8_1 => Some(IsqType::Q8_1),
            GgmlDType::Q2K => Some(IsqType::Q2K),
            GgmlDType::Q3K => Some(IsqType::Q3K),
            GgmlDType::Q4K => Some(IsqType::Q4K),
            GgmlDType::Q5K => Some(IsqType::Q5K),
            GgmlDType::Q6K => Some(IsqType::Q6K),
            GgmlDType::Q8K => Some(IsqType::Q8K),
            GgmlDType::F32 | GgmlDType::F16 | GgmlDType::BF16 => None,
        }
    }
}

/// Whether a number stands for a type in files.
pub open spec fn is_code(code: u32) -> bool {
    exists|dtype: GgmlDType| code == #[trigger] dtype.code()
}

/// The type that a number stands for in files.
pub fn ggml_dtype_from_uqff(code: u32) -> (dtype: Option<GgmlDType>)
    ensures
        match dtype {
            Some(d) => d.code() == code,
            None => !is_code(code),
        },
{
    match code {
        0 => Some(GgmlDType::F32),
        1 => Some(GgmlDType::F16),
        2 => Some(GgmlDType::Q4_0),
        3 => Some(GgmlDType::Q4_1),
        6 => Some(GgmlDType::Q5_0),
        7 => Some(GgmlDType::Q5_1),
        8 => Some(GgmlDType::Q8_0),
        9 => Some(GgmlDType::Q8_1),
        10 => Some(GgmlDType::Q2K),
        11 => Some(GgmlDType::Q3K),
        12 => Some(GgmlDType::Q4K),
        13 => Some(GgmlDType::Q5K),
        14 => Some(GgmlDType::Q6K),
        15 => Some(GgmlDType::Q8K),
        30 => Some(GgmlDType::BF16),
        _ => None,
    }
}

/// The types that mixtures of experts are staged for on CUDA devices.
pub open spec fn is_staged_dtype(dtype: GgmlDType) -> bool {
    match dtype {
        GgmlDType::F32 | GgmlDType::F16 | GgmlDType::BF16 | GgmlDType::Q8_1 | GgmlDType::Q8K =>
            false,
        _ => true,
    }
}

/// Whether mixtures of experts of a type are staged on CUDA devices.
pub fn cuda_staged_dtype_supported(dtype: GgmlDType) -> (yes: bool)
    ensures
        yes == is_staged_dtype(dtype),
{
    match dtype {
        GgmlDType::Q4_0 | GgmlDType::Q4_1 | GgmlDType::Q5_0 | GgmlDType::Q5_1 | GgmlDType::Q8_0
        | GgmlDType::Q2K | GgmlDType::Q3K | GgmlDType::Q4K | GgmlDType::Q5K | GgmlDType::Q6K =>
            true,
        _ => false,
    }
}

/// Two types have different numbers.
pub proof fn codes_are_distinct(a: GgmlDType, b: GgmlDType)
    requires
        a.code() == b.code(),
    ensures
        a == b,
{
}

/// A number of a file stands for one type.
pub proof fn file_code_tells_the_type(dtype: GgmlDType)
    ensures
        dtype.code() == 0 <==> dtype == GgmlDType::F32,
        dtype.code() == 1 <==> dtype == GgmlDType::F16,
        dtype.code() == 2 <==> dtype == GgmlDType::Q4_0,
        dtype.code() == 3 <==> dtype == GgmlDType::Q4_1,
        dtype.code() == 6 <==> dtype == GgmlDType::Q5_0,
        dtype.code() == 7 <==> dtype == GgmlDType::Q5_1,
        dtype.code() == 8 <==> dtype == GgmlDType::Q8_0,
        dtype.code() == 9 <==> dtype == GgmlDType::Q8_1,
        dtype.code() == 10 <==> dtype == GgmlDType::Q2K,
        dtype.code() == 11 <==> dtype == GgmlDType::Q3K,
        dtype.code() == 12 <==> dtype == GgmlDType::Q4K,
        dtype.code() == 13 <==> dtype == GgmlDType::Q5K,
        dtype.code() == 14 <==> dtype == GgmlDType::Q6K,
        dtype.code() == 15 <==> dtype == GgmlDType::Q8K,
        dtype.code() == 30 <==> dtype == GgmlDType::BF16,
{
}

/// The bytes of a block are those of its parts: levels of some bits for each of its elements, and
/// what they are scaled and shifted by. Blocks of 32 elements have 16-bit factors; blocks of 256
/// elements have factors and packed scales.
pub proof fn block_bytes_are_those_of_its_parts(dtype: GgmlDType)
    ensures
        dtype == GgmlDType::F32 ==> dtype.block_elements() == 1 && dtype.block_bytes() * 8 == 32,
        dtype == GgmlDType::F16 || dtype == GgmlDType::BF16 ==> dtype.block_elements() == 1
            && dtype.block_bytes() * 8 == 16,
        dtype == GgmlDType::Q4_0 ==> dtype.block_elements() == 32 && dtype.block_bytes() * 8 == 16
            + 32 * 4,
        dtype == GgmlDType::Q4_1 ==> dtype.block_elements() == 32 && dtype.block_bytes() * 8 == 16
            * 2 + 32 * 4,
        dtype == GgmlDType::Q5_0 ==> dtype.block_elements() == 32 && dtype.block_bytes() * 8 == 16
            + 32 * 5,
        dtype == GgmlDType::Q5_1 ==> dtype.block_elements() == 32 && dtype.block_bytes() * 8 == 16
            * 2 + 32 * 5,
        dtype == GgmlDType::Q8_0 ==> dtype.block_elements() == 32 && dtype.block_bytes() * 8 == 16
            + 32 * 8,
        dtype == GgmlDType::Q8_1 ==> dtype.block_elements() == 32 && dtype.block_bytes() * 8 == 16
            * 2 + 32 * 8,
        dtype == GgmlDType::Q2K ==> dtype.block_elements() == 256 && dtype.block_bytes() * 8 == 16
            * 2 + 16 * 8 + 256 * 2,
        dtype == GgmlDType::Q3K ==> dtype.block_elements() == 256 && dtype.block_bytes() * 8 == 16
            + 16 * 6 + 256 * 3,
        dtype == GgmlDType::Q4K ==> dtype.block_elements() == 256 && dtype.block_bytes() * 8 == 16
            * 2 + 16 * 6 + 256 * 4,
        dtype == GgmlDType::Q5K ==> dtype.block_elements() == 256 && dtype.block_bytes() * 8 == 16
            * 2 + 16 * 6 + 256 * 5,
        dtype == GgmlDType::Q6K ==> dtype.block_elements() == 256 && dtype.block_bytes() * 8 == 16
            + 16 * 8 + 256 * 6,
        dtype == GgmlDType::Q8K ==> dtype.block_elements() == 256 && dtype.block_bytes() * 8 == 32
            + 16 * 16 + 256 * 8,
        QK_K == 256,
{
}

/// Quantizations of blocks give blocks of their own type, and no other does.
pub proof fn quantizations_give_their_own_blocks(isq: IsqType)
    ensures
        GgmlDType::of_isq(isq) == Some(GgmlDType::Q4_0) <==> isq == IsqType::Q4_0,
        GgmlDType::of_isq(isq) == Some(GgmlDType::Q4_1) <==> isq == IsqType::Q4_1,
        GgmlDType::of_isq(isq) == Some(GgmlDType::Q5_0) <==> isq == IsqType::Q5_0,
        GgmlDType::of_isq(isq) == Some(GgmlDType::Q5_1) <==> isq == IsqType::Q5_1,
        GgmlDType::of_isq(isq) == Some(GgmlDType::Q8_0) <==> isq == IsqType::Q8_0,
        GgmlDType::of_isq(isq) == Some(GgmlDType::Q8_1) <==> isq == IsqType::Q8_1,
        GgmlDType::of_isq(isq) == Some(GgmlDType::Q2K) <==> isq == IsqType::Q2K,
        GgmlDType::of_isq(isq) == Some(GgmlDType::Q3K) <==> isq == IsqType::Q3K,
        GgmlDType::of_isq(isq) == Some(GgmlDType::Q4K) <==> isq == IsqType::Q4K,
        GgmlDType::of_isq(isq) == Some(GgmlDType::Q5K) <==> isq == IsqType::Q5K,
        GgmlDType::of_isq(isq) == Some(GgmlDType::Q6K) <==> isq == IsqType::Q6K,
        GgmlDType::of_isq(isq) == Some(GgmlDType::Q8K) <==> isq == IsqType::Q8K,
        GgmlDType::of_isq(isq) is None <==> isq == IsqType::F8Q8 || isq == IsqType::HQZ4,
{
}

/// Experts are staged if their blocks are quantized, but for the two types that only activations
/// have.
pub proof fn staged_types_are_those_of_weights(dtype: GgmlDType)
    ensures
        is_staged_dtype(dtype) <==> dtype.block_elements() > 1 && dtype != GgmlDType::Q8_1 && dtype
            != GgmlDType::Q8K,
{
}

} // verus!
