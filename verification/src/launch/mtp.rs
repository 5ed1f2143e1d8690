//! Launches of the kernel that verifies several tokens at once.
use crate::dtype::{
    cache_dtype_code, dtype_code, spec_cache_dtype_code, spec_dtype_code, DType,
};
use crate::launch::checks::{
    check_dtype, check_groups, check_index, check_length, check_place, check_rank, dtype_fault,
    earlier, groups_fault, index_fault, length_fault, place_fault, rank_fault, LaunchError,
    Operand,
};
use crate::tensor::{Place, TensorDesc};
use vstd::prelude::*;

verus! {

/// The tensors and numbers of a launch.
pub struct MtpInputs {
    pub query: TensorDesc,
    pub k_scale: Option<TensorDesc>,
    pub v_scale: Option<TensorDesc>,
    pub key_cache: TensorDesc,
    pub value_cache: TensorDesc,
    /// The elements from one block of the key cache to the next, and from one head to the next.
    pub key_strides: (usize, usize),
    /// The same for the value cache.
    pub value_strides: (usize, usize),
    pub block_tables: TensorDesc,
    pub context_lens: TensorDesc,
    pub batch_size: usize,
    pub q_len: usize,
    pub max_context_len: usize,
    /// Whether the device has 8-bit floats.
    pub use_fp8: bool,
}

/// What the kernel is launched with.
#[derive(Clone, Copy, Debug, PartialEq, Eq)]
pub struct MtpPlan {
    pub batch_size: usize,
    pub q_len: usize,
    pub effective_max_context_len: usize,
    pub block_size: usize,
    pub max_num_blocks_per_seq: usize,
    pub num_rows: usize,
    pub num_heads: usize,
    pub num_kv_heads: usize,
    pub head_dim: usize,
    pub x: usize,
    pub key_strides: (usize, usize),
    pub value_strides: (usize, usize),
    pub dtype_code: u32,
    pub cache_dtype_code: u32,
    pub with_k_scale: bool,
    pub with_v_scale: bool,
}

/// The context that a block table can hold, as far as the caller wants it.
pub open spec fn bounded_context(wanted: usize, blocks: usize, block_size: usize) -> int {
    if wanted <= blocks * block_size {
        wanted as int
    } else {
        blocks * block_size
    }
}

/// The smaller of `wanted` and `blocks * block_size`.
pub fn bound_context(wanted: usize, blocks: usize, block_size: usize) -> (context: usize)
    ensures
        context == bounded_context(wanted, blocks, block_size),
{
    match blocks.checked_mul(block_size) {
        Some(room) => if wanted <= room {
            wanted
        } else {
            room
        },
        None => wanted,
    }
}

/// Whether `a * b == c`.
pub fn product_is(a: usize, b: usize, c: usize) -> (same: bool)
    ensures
        same == (a * b == c),
{
    match a.checked_mul(b) {
        Some(product) => product == c,
        None => false,
    }
}

/// A scale: it has to be on a CUDA device and to hold 32-bit floats, and has to be there for a
/// cache of 8-bit floats.
pub open spec fn scale_fault(
    operand: Operand,
    scale: Option<TensorDesc>,
    cache_dtype: DType,
) -> Option<LaunchError> {
    match scale {
        Some(s) => earlier(
            place_fault(operand, s.place),
            dtype_fault(operand, s.dtype, DType::F32),
        ),
        None => if cache_dtype == DType::F8E4M3 {
            Some(LaunchError::MissingScale { operand })
        } else {
            None
        },
    }
}

fn check_scale(operand: Operand, scale: &Option<TensorDesc>, cache_dtype: DType) -> (fault: Option<
    LaunchError,
>)
    ensures
        fault == scale_fault(operand, *scale, cache_dtype),
{
    match scale {
        Some(s) => match check_place(operand, s.place) {
            Some(e) => Some(e),
            None => check_dtype(operand, s.dtype, DType::F32),
        },
        None => if cache_dtype == DType::F8E4M3 {
            Some(LaunchError::MissingScale { operand })
        } else {
            None
        },
    }
}

impl MtpInputs {
    /// What is wrong with the number of query tokens and the element types.
    pub open spec fn dtypes_fault(&self) -> Option<LaunchError> {
        let dtype = self.query.dtype;
        let cache = self.key_cache.dtype;
        if spec_dtype_code(dtype) is None {
            Some(LaunchError::UnsupportedDtype { dtype })
        } else if self.q_len == 0 || self.q_len > 8 {
            Some(LaunchError::QueryTokens { q_len: self.q_len })
        } else if spec_cache_dtype_code(cache) is None {
            Some(LaunchError::UnsupportedCacheDtype { dtype: cache })
        } else if self.value_cache.dtype != cache {
            Some(LaunchError::CacheDtypes { key: cache, value: self.value_cache.dtype })
        } else if cache == DType::F8E4M3 && !self.use_fp8 {
            Some(LaunchError::NoFp8)
        } else if cache != DType::F8E4M3 && cache != dtype {
            Some(LaunchError::CacheDtypes { key: cache, value: self.value_cache.dtype })
        } else {
            earlier(
                index_fault(Operand::BlockTables, self.block_tables.dtype),
                index_fault(Operand::ContextLens, self.context_lens.dtype),
            )
        }
    }

    /// What is wrong with the query and the caches.
    pub open spec fn shapes_fault(&self) -> Option<LaunchError> {
        let q = self.query.dims@;
        let kc = self.key_cache.dims@;
        let vc = self.value_cache.dims@;
        let rows = if q[0] == self.batch_size * self.q_len {
            None
        } else {
            Some(LaunchError::QueryRows { rows: q[0] })
        };
        let key = if kc[2] * kc[4] == q[2] {
            None
        } else {
            Some(LaunchError::CacheMismatch)
        };
        let value = if (vc[0], vc[1], vc[2], vc[3]) == (kc[0], kc[1], q[2], kc[3]) {
            None
        } else {
            Some(LaunchError::CacheMismatch)
        };
        earlier(
            rank_fault(Operand::Query, q, 3),
            earlier(
                rows,
                earlier(
                    rank_fault(Operand::KeyCache, kc, 5),
                    earlier(
                        key,
                        earlier(rank_fault(Operand::ValueCache, vc, 4), value),
                    ),
                ),
            ),
        )
    }

    /// What is wrong with the block tables and the context lengths.
    pub open spec fn tables_fault(&self) -> Option<LaunchError> {
        let rows = self.query.dims@[0] as int;
        earlier(
            rank_fault(Operand::BlockTables, self.block_tables.dims@, 2),
            earlier(
                length_fault(Operand::BlockTables, self.block_tables.dims@[0], rows),
                earlier(
                    rank_fault(Operand::ContextLens, self.context_lens.dims@, 1),
                    length_fault(Operand::ContextLens, self.context_lens.dims@[0], rows),
                ),
            ),
        )
    }

    /// What is wrong with the places and the scales.
    pub open spec fn placing_fault(&self) -> Option<LaunchError> {
        earlier(
            place_fault(Operand::Query, self.query.place),
            earlier(
                place_fault(Operand::KeyCache, self.key_cache.place),
                earlier(
                    place_fault(Operand::ValueCache, self.value_cache.place),
                    earlier(
                        place_fault(Operand::BlockTables, self.block_tables.place),
                        earlier(
                            place_fault(Operand::ContextLens, self.context_lens.place),
                            earlier(
                                scale_fault(
                                    Operand::KeyScale,
                                    self.k_scale,
                                    self.key_cache.dtype,
                                ),
                                scale_fault(
                                    Operand::ValueScale,
                                    self.v_scale,
                                    self.key_cache.dtype,
                                ),
                            ),
                        ),
                    ),
                ),
            ),
        )
    }

    /// What is wrong with a launch before its heads are looked at: element types first, then
    /// shapes and tables.
    pub open spec fn fault_before_heads(&self) -> Option<LaunchError> {
        earlier(self.dtypes_fault(), earlier(self.shapes_fault(), self.tables_fault()))
    }

    /// What is wrong with a launch: what comes before the heads, then the heads and the places.
    pub open spec fn fault(&self) -> Option<LaunchError> {
        earlier(
            self.fault_before_heads(),
            earlier(
                groups_fault(self.query.dims@[1], self.key_cache.dims@[1]),
                self.placing_fault(),
            ),
        )
    }

    fn check_dtypes(&self) -> (fault: Option<LaunchError>)
        ensures
            fault == self.dtypes_fault(),
    {
        let dtype: DType = self.query.dtype;
        let cache: DType = self.key_cache.dtype;
        if dtype_code(dtype).is_none() {
            return Some(LaunchError::UnsupportedDtype { dtype });
        }
        if self.q_len == 0 || self.q_len > 8 {
            return Some(LaunchError::QueryTokens { q_len: self.q_len });
        }
        if cache_dtype_code(cache).is_none() {
            return Some(LaunchError::UnsupportedCacheDtype { dtype: cache });
        }
        if self.value_cache.dtype != cache {
            return Some(
                LaunchError::CacheDtypes { key: cache, value: self.value_cache.dtype },
            );
        }
        if cache == DType::F8E4M3 && !self.use_fp8 {
            return Some(LaunchError::NoFp8);
        }
        if cache != DType::F8E4M3 && cache != dtype {
            return Some(
                LaunchError::CacheDtypes { key: cache, value: self.value_cache.dtype },
            );
        }
        if let Some(e) = check_index(Operand::BlockTables, self.block_tables.dtype) {
            return Some(e);
        }
        check_index(Operand::ContextLens, self.context_lens.dtype)
    }

    fn check_shapes(&self) -> (fault: Option<LaunchError>)
        ensures
            fault == self.shapes_fault(),
    {
        if let Some(e) = check_rank(Operand::Query, &self.query.dims, 3) {
            return Some(e);
        }
        let num_rows: usize = self.query.dims[0];
        let head_dim: usize = self.query.dims[2];
        if !product_is(self.batch_size, self.q_len, num_rows) {
            return Some(LaunchError::QueryRows { rows: num_rows });
        }
        if let Some(e) = check_rank(Operand::KeyCache, &self.key_cache.dims, 5) {
            return Some(e);
        }
        let kc: &Vec<usize> = &self.key_cache.dims;
        if !product_is(kc[2], kc[4], head_dim) {
            return Some(LaunchError::CacheMismatch);
        }
        if let Some(e) = check_rank(Operand::ValueCache, &self.value_cache.dims, 4) {
            return Some(e);
        }
        let vc: &Vec<usize> = &self.value_cache.dims;
        if vc[0] != kc[0] || vc[1] != kc[1] || vc[2] != head_dim || vc[3] != kc[3] {
            return Some(LaunchError::CacheMismatch);
        }
        None
    }

    fn check_tables(&self) -> (fault: Option<LaunchError>)
        requires
            self.query.dims.len() == 3,
        ensures
            fault == self.tables_fault(),
    {
        let num_rows: usize = self.query.dims[0];
        if let Some(e) = check_rank(Operand::BlockTables, &self.block_tables.dims, 2) {
            return Some(e);
        }
        if let Some(e) = check_length(Operand::BlockTables, self.block_tables.dims[0], num_rows) {
            return Some(e);
        }
        if let Some(e) = check_rank(Operand::ContextLens, &self.context_lens.dims, 1) {
            return Some(e);
        }
        check_length(Operand::ContextLens, self.context_lens.dims[0], num_rows)
    }

    fn check_places(&self) -> (fault: Option<LaunchError>)
        ensures
            fault == self.placing_fault(),
    {
        if let Some(e) = check_place(Operand::Query, self.query.place) {
            return Some(e);
        }
        if let Some(e) = check_place(Operand::KeyCache, self.key_cache.place) {
            return Some(e);
        }
        if let Some(e) = check_place(Operand::ValueCache, self.value_cache.place) {
            return Some(e);
        }
        if let Some(e) = check_place(Operand::BlockTables, self.block_tables.place) {
            return Some(e);
        }
        if let Some(e) = check_place(Operand::ContextLens, self.context_lens.place) {
            return Some(e);
        }
        if let Some(e) = check_scale(Operand::KeyScale, &self.k_scale, self.key_cache.dtype) {
            return Some(e);
        }
        check_scale(Operand::ValueScale, &self.v_scale, self.key_cache.dtype)
    }

    /// Checks what comes before the heads.
    pub fn check_before_heads(&self) -> (fault: Option<LaunchError>)
        ensures
            fault == self.fault_before_heads(),
    {
        if let Some(e) = self.check_dtypes() {
            return Some(e);
        }
        if let Some(e) = self.check_shapes() {
            return Some(e);
        }
        self.check_tables()
    }

    /// Plans a launch. The context is bounded by what the block tables can hold.
    pub fn plan(&self) -> (plan: Result<MtpPlan, LaunchError>)
        requires
            self.fault_before_heads() is None ==> self.key_cache.dims@[1] != 0,
        ensures
            match plan {
                Ok(p) => {
                    let kc = self.key_cache.dims@;
                    &&& self.fault() is None
                    &&& p.batch_size == self.batch_size
                    &&& p.q_len == self.q_len
                    &&& p.effective_max_context_len == bounded_context(
                        self.max_context_len,
                        self.block_tables.dims@[1],
                        kc[3],
                    )
                    &&& p.block_size == kc[3]
                    &&& p.max_num_blocks_per_seq == self.block_tables.dims@[1]
                    &&& p.num_rows == self.query.dims@[0]
                    &&& p.num_heads == self.query.dims@[1]
                    &&& p.num_kv_heads == kc[1]
                    &&& p.head_dim == self.query.dims@[2]
                    &&& p.x == kc[4]
                    &&& p.key_strides == self.key_strides
                    &&& p.value_strides == self.value_strides
                    &&& spec_dtype_code(self.query.dtype) == Some(p.dtype_code)
                    &&& spec_cache_dtype_code(self.key_cache.dtype) == Some(p.cache_dtype_code)
                    &&& p.with_k_scale == self.k_scale is Some
                    &&& p.with_v_scale == self.v_scale is Some
                },
                Err(e) => self.fault() == Some(e),
            },
    {
        if let Some(e) = self.check_before_heads() {
            return Err(e);
        }
        if let Some(e) = check_groups(self.query.dims[1], self.key_cache.dims[1]) {
            return Err(e);
        }
        if let Some(e) = self.check_places() {
            return Err(e);
        }
        let code: u32 = match dtype_code(self.query.dtype) {
            Some(code) => code,
            None => {
                return Err(LaunchError::UnsupportedDtype { dtype: self.query.dtype });
            },
        };
        let cache_code: u32 = match cache_dtype_code(self.key_cache.dtype) {
            Some(code) => code,
            None => {
                return Err(LaunchError::UnsupportedCacheDtype { dtype: self.key_cache.dtype });
            },
        };
        let blocks: usize = self.block_tables.dims[1];
        let block_size: usize = self.key_cache.dims[3];
        Ok(
            MtpPlan {
                batch_size: self.batch_size,
                q_len: self.q_len,
                effective_max_context_len: bound_context(self.max_context_len, blocks, block_size),
                block_size,
                max_num_blocks_per_seq: blocks,
                num_rows: self.query.dims[0],
                num_heads: self.query.dims[1],
                num_kv_heads: self.key_cache.dims[1],
                head_dim: self.query.dims[2],
                x: self.key_cache.dims[4],
                key_strides: self.key_strides,
                value_strides: self.value_strides,
                dtype_code: code,
                cache_dtype_code: cache_code,
                with_k_scale: self.k_scale.is_some(),
                with_v_scale: self.v_scale.is_some(),
            },
        )
    }
}

/// A cache of 8-bit floats is never launched without its scales, and those hold 32-bit floats.
pub proof fn launched_fp8_cache_has_scales(inputs: MtpInputs)
    requires
        inputs.fault() is None,
        inputs.key_cache.dtype == DType::F8E4M3,
    ensures
        inputs.use_fp8,
        inputs.k_scale is Some,
        inputs.v_scale is Some,
        inputs.k_scale->0.dtype == DType::F32,
        inputs.v_scale->0.dtype == DType::F32,
{
}

/// A launch for several tokens is made exactly if there are one to eight of them, the caches are
/// of one type, that of the query or 8-bit floats on a device that has them, each row of the
/// query belongs to a token of a sequence and has its block table and its length, the pieces of a
/// key make up the head dimension, the value cache has the blocks, heads and tokens of the key
/// cache, the query heads are shared out evenly, all tensors are on a CUDA device, and scales
/// hold 32-bit floats and are there for caches of 8-bit floats.
pub proof fn mtp_launches_fit_together(inputs: MtpInputs)
    requires
        inputs.query.dims@.len() == 3,
        inputs.key_cache.dims@.len() == 5,
        inputs.value_cache.dims@.len() == 4,
        inputs.block_tables.dims@.len() == 2,
        inputs.context_lens.dims@.len() == 1,
    ensures
        inputs.fault() is None <==> {
            let (q, kc) = (inputs.query.dims@, inputs.key_cache.dims@);
            let cache = inputs.key_cache.dtype;
            &&& inputs.query.dtype == DType::F16 || inputs.query.dtype == DType::BF16
                || inputs.query.dtype == DType::F32
            &&& 1 <= inputs.q_len <= 8
            &&& inputs.value_cache.dtype == cache
            &&& cache == inputs.query.dtype || (cache == DType::F8E4M3 && inputs.use_fp8)
            &&& inputs.block_tables.dtype == DType::I32 || inputs.block_tables.dtype == DType::U32
            &&& inputs.context_lens.dtype == DType::I32 || inputs.context_lens.dtype == DType::U32
            &&& q[0] == inputs.batch_size * inputs.q_len
            &&& kc[2] * kc[4] == q[2]
            &&& inputs.value_cache.dims@ == seq![kc[0], kc[1], q[2], kc[3]]
            &&& inputs.block_tables.dims@[0] == q[0]
            &&& inputs.context_lens.dims@[0] == q[0]
            &&& q[1] as int % kc[1] as int == 0
            &&& inputs.query.place == Place::Cuda && inputs.key_cache.place == Place::Cuda
                && inputs.value_cache.place == Place::Cuda && inputs.block_tables.place
                == Place::Cuda && inputs.context_lens.place == Place::Cuda
            &&& inputs.k_scale matches Some(s) ==> s.place == Place::Cuda && s.dtype == DType::F32
            &&& inputs.v_scale matches Some(s) ==> s.place == Place::Cuda && s.dtype == DType::F32
            &&& cache == DType::F8E4M3 ==> inputs.k_scale is Some && inputs.v_scale is Some
        },
{
    let (q, kc, vc) = (inputs.query.dims@, inputs.key_cache.dims@, inputs.value_cache.dims@);
    let shape = seq![kc[0], kc[1], q[2], kc[3]];
    assert(vc == shape <==> vc =~= shape);
    if vc =~= shape {
        assert(vc[0] == kc[0] && vc[1] == kc[1] && vc[2] == q[2] && vc[3] == kc[3]);
    }
}

/// The context is what the caller wants, but no more than the block table holds.
pub proof fn context_is_bounded_by_the_table(wanted: usize, blocks: usize, block_size: usize)
    ensures
        bounded_context(wanted, blocks, block_size) <= wanted,
        bounded_context(wanted, blocks, block_size) <= blocks * block_size,
        bounded_context(wanted, blocks, block_size) == wanted || bounded_context(
            wanted,
            blocks,
            block_size,
        ) == blocks * block_size,
{
}

/// What is wrong with a launch is named with what it is about.
pub proof fn mtp_faults_name_what_is_wrong(inputs: MtpInputs)
    ensures
        ({
            let fault = inputs.fault();
            let q = inputs.query.dims@;
            &&& fault matches Some(LaunchError::UnsupportedDtype { dtype }) ==> dtype
                == inputs.query.dtype
            &&& fault matches Some(LaunchError::QueryTokens { q_len }) ==> q_len == inputs.q_len && (
            q_len == 0 || q_len > 8)
            &&& fault matches Some(LaunchError::UnsupportedCacheDtype { dtype }) ==> dtype
                == inputs.key_cache.dtype
            &&& fault matches Some(LaunchError::CacheDtypes { key, value }) ==> key
                == inputs.key_cache.dtype && value == inputs.value_cache.dtype
            &&& fault matches Some(LaunchError::QueryRows { rows }) ==> rows == q[0] && rows
                != inputs.batch_size * inputs.q_len
            &&& fault matches Some(LaunchError::HeadGroups { num_heads, num_kv_heads })
                ==> num_heads == q[1] && num_kv_heads == inputs.key_cache.dims@[1]
            &&& fault matches Some(LaunchError::MissingScale { operand }) ==> {
                ||| operand == Operand::KeyScale && inputs.k_scale is None
                ||| operand == Operand::ValueScale && inputs.v_scale is None
            }
            &&& fault is Some && fault == Some(LaunchError::NoFp8) ==> inputs.key_cache.dtype
                == DType::F8E4M3 && !inputs.use_fp8
        }),
{
}

} // verus!
