//! Launches of the streaming attention kernels for old devices, over plain caches.
use crate::dtype::{dtype_code, spec_dtype_code, DType};
use crate::launch::checks::{
    activation_fault, check_dtype, check_groups, check_index, check_length, check_place,
    check_rank, dtype_fault, earlier, groups_fault, index_fault, length_fault, place_fault,
    rank_fault, LaunchError, Operand,
};
use crate::launch::mtp::product_is;
use crate::tensor::{Place, TensorDesc};
use vstd::prelude::*;

verus! {

/// The tensors of a launch over dense keys and values.
pub struct DenseInputs {
    pub query: TensorDesc,
    pub key: TensorDesc,
    pub value: TensorDesc,
    pub window_size: usize,
}

/// What the dense kernel is launched with.
#[derive(Clone, Copy, Debug, PartialEq, Eq, Structural)]
pub struct DensePlan {
    pub batch_size: usize,
    pub kv_len: usize,
    pub num_heads: usize,
    pub num_kv_heads: usize,
    pub head_dim: usize,
    pub window_size: usize,
    pub dtype_code: u32,
}

impl DenseInputs {
    /// What is wrong with a launch before its heads are looked at: the query first, then the keys
    /// and the values.
    pub open spec fn fault_before_heads(&self) -> Option<LaunchError> {
        let q = self.query.dims@;
        let k = self.key.dims@;
        let v = self.value.dims@;
        let length = if q[2] == 1 {
            None
        } else {
            Some(LaunchError::QueryLength { q_len: q[2] })
        };
        let key = if k[0] == q[0] && k[3] == q[3] {
            None
        } else {
            Some(LaunchError::InputMismatch)
        };
        let value = if (v[0], v[1], v[2], v[3]) == (q[0], k[1], k[2], q[3]) {
            None
        } else {
            Some(LaunchError::InputMismatch)
        };
        earlier(
            place_fault(Operand::Query, self.query.place),
            earlier(
                activation_fault(self.query.dtype),
                earlier(
                    rank_fault(Operand::Query, q, 4),
                    earlier(
                        length,
                        earlier(
                            place_fault(Operand::Key, self.key.place),
                            earlier(
                                rank_fault(Operand::Key, k, 4),
                                earlier(
                                    key,
                                    earlier(
                                        place_fault(Operand::Value, self.value.place),
                                        earlier(
                                            rank_fault(Operand::Value, v, 4),
                                            value,
                                        ),
                                    ),
                                ),
                            ),
                        ),
                    ),
                ),
            ),
        )
    }

    /// What is wrong with a launch: what comes before the heads, then the heads, then keys and
    /// values of another type than the query.
    pub open spec fn fault(&self) -> Option<LaunchError> {
        earlier(
            self.fault_before_heads(),
            earlier(
                groups_fault(self.query.dims@[1], self.key.dims@[1]),
                earlier(
                    dtype_fault(Operand::Key, self.key.dtype, self.query.dtype),
                    dtype_fault(Operand::Value, self.value.dtype, self.query.dtype),
                ),
            ),
        )
    }

    /// Checks what comes before the heads.
    pub fn check_before_heads(&self) -> (fault: Option<LaunchError>)
        ensures
            fault == self.fault_before_heads(),
    {
        if let Some(e) = check_place(Operand::Query, self.query.place) {
            return Some(e);
        }
        if dtype_code(self.query.dtype).is_none() {
            return Some(LaunchError::UnsupportedDtype { dtype: self.query.dtype });
        }
        if let Some(e) = check_rank(Operand::Query, &self.query.dims, 4) {
            return Some(e);
        }
        let q: &Vec<usize> = &self.query.dims;
        if q[2] != 1 {
            return Some(LaunchError::QueryLength { q_len: q[2] });
        }
        if let Some(e) = check_place(Operand::Key, self.key.place) {
            return Some(e);
        }
        if let Some(e) = check_rank(Operand::Key, &self.key.dims, 4) {
            return Some(e);
        }
        let k: &Vec<usize> = &self.key.dims;
        if k[0] != q[0] || k[3] != q[3] {
            return Some(LaunchError::InputMismatch);
        }
        if let Some(e) = check_place(Operand::Value, self.value.place) {
            return Some(e);
        }
        if let Some(e) = check_rank(Operand::Value, &self.value.dims, 4) {
            return Some(e);
        }
        let v: &Vec<usize> = &self.value.dims;
        if v[0] != q[0] || v[1] != k[1] || v[2] != k[2] || v[3] != q[3] {
            return Some(LaunchError::InputMismatch);
        }
        None
    }

    /// Plans a launch over dense keys and values. The output has the shape of the query.
    pub fn plan(&self) -> (plan: Result<DensePlan, LaunchError>)
        requires
            self.fault_before_heads() is None ==> self.key.dims@[1] != 0,
        ensures
            match plan {
                Ok(p) => {
                    &&& self.fault() is None
                    &&& p.batch_size == self.query.dims@[0]
                    &&& p.kv_len == self.key.dims@[2]
                    &&& p.num_heads == self.query.dims@[1]
                    &&& p.num_kv_heads == self.key.dims@[1]
                    &&& p.head_dim == self.query.dims@[3]
                    &&& p.window_size == self.window_size
                    &&& spec_dtype_code(self.query.dtype) == Some(p.dtype_code)
                },
                Err(e) => self.fault() == Some(e),
            },
    {
        if let Some(e) = self.check_before_heads() {
            return Err(e);
        }
        let code: u32 = match dtype_code(self.query.dtype) {
            Some(code) => code,
            None => {
                return Err(LaunchError::UnsupportedDtype { dtype: self.query.dtype });
            },
        };
        let q: &Vec<usize> = &self.query.dims;
        let k: &Vec<usize> = &self.key.dims;
        if let Some(e) = check_groups(q[1], k[1]) {
            return Err(e);
        }
        if let Some(e) = check_dtype(Operand::Key, self.key.dtype, self.query.dtype) {
            return Err(e);
        }
        if let Some(e) = check_dtype(Operand::Value, self.value.dtype, self.query.dtype) {
            return Err(e);
        }
        Ok(
            DensePlan {
                batch_size: q[0],
                kv_len: k[2],
                num_heads: q[1],
                num_kv_heads: k[1],
                head_dim: q[3],
                window_size: self.window_size,
                dtype_code: code,
            },
        )
    }
}

/// The tensors of a launch over a paged cache.
pub struct PagedInputs {
    pub query: TensorDesc,
    pub key_cache: TensorDesc,
    pub value_cache: TensorDesc,
    /// The elements from one block of the key cache to the next, and from one head to the next.
    pub key_strides: (usize, usize),
    /// The same for the value cache.
    pub value_strides: (usize, usize),
    pub block_tables: TensorDesc,
    pub context_lens: TensorDesc,
    pub window_size: usize,
}

/// What the paged kernel is launched with.
#[derive(Clone, Copy, Debug, PartialEq, Eq)]
pub struct PagedPlan {
    pub num_seqs: usize,
    pub max_context_len: usize,
    pub block_size: usize,
    pub max_num_blocks_per_seq: usize,
    pub num_heads: usize,
    pub num_kv_heads: usize,
    pub head_dim: usize,
    pub x: usize,
    pub key_strides: (usize, usize),
    pub value_strides: (usize, usize),
    pub window_size: usize,
    pub dtype_code: u32,
}

impl PagedInputs {
    /// What is wrong with the element types.
    pub open spec fn dtypes_fault(&self) -> Option<LaunchError> {
        let dtype = self.query.dtype;
        let caches = if self.key_cache.dtype == dtype && self.value_cache.dtype == dtype {
            None
        } else {
            Some(
                LaunchError::CacheDtypes {
                    key: self.key_cache.dtype,
                    value: self.value_cache.dtype,
                },
            )
        };
        earlier(
            activation_fault(dtype),
            earlier(
                caches,
                earlier(
                    index_fault(Operand::BlockTables, self.block_tables.dtype),
                    index_fault(Operand::ContextLens, self.context_lens.dtype),
                ),
            ),
        )
    }

    /// What is wrong with the shapes; the heads are looked at later.
    pub open spec fn shapes_fault(&self) -> Option<LaunchError> {
        let q = self.query.dims@;
        let kc = self.key_cache.dims@;
        let vc = self.value_cache.dims@;
        let key = if kc[2] * kc[4] == q[2] {
            None
        } else {
            Some(LaunchError::CacheMismatch)
        };
        let value = if (vc[0], vc[1], vc[2], vc[3]) == (kc[0], kc[1], q[2], kc[3]) {
            None
        } else {
            Some(LaunchError::CacheMismatch)
        };
        let tables = earlier(
            rank_fault(Operand::BlockTables, self.block_tables.dims@, 2),
            earlier(
                length_fault(Operand::BlockTables, self.block_tables.dims@[0], q[0] as int),
                earlier(
                    rank_fault(Operand::ContextLens, self.context_lens.dims@, 1),
                    length_fault(Operand::ContextLens, self.context_lens.dims@[0], q[0] as int),
                ),
            ),
        );
        earlier(
            rank_fault(Operand::Query, q, 3),
            earlier(
                rank_fault(Operand::KeyCache, kc, 5),
                earlier(
                    key,
                    earlier(
                        rank_fault(Operand::ValueCache, vc, 4),
                        earlier(value, tables),
                    ),
                ),
            ),
        )
    }

    /// What is wrong with the places.
    pub open spec fn placing_fault(&self) -> Option<LaunchError> {
        earlier(
            place_fault(Operand::Query, self.query.place),
            earlier(
                place_fault(Operand::KeyCache, self.key_cache.place),
                earlier(
                    place_fault(Operand::ValueCache, self.value_cache.place),
                    earlier(
                        place_fault(Operand::BlockTables, self.block_tables.place),
                        place_fault(Operand::ContextLens, self.context_lens.place),
                    ),
                ),
            ),
        )
    }

    /// What is wrong with a launch before its heads are looked at: element types first, then
    /// shapes.
    pub open spec fn fault_before_heads(&self) -> Option<LaunchError> {
        earlier(self.dtypes_fault(), self.shapes_fault())
    }

    /// What is wrong with a launch: what comes before the heads, then the heads and the places.
    pub open spec fn fault(&self) -> Option<LaunchError> {
        earlier(
            self.fault_before_heads(),
            earlier(
                groups_fault(self.query.dims@[1], self.key_cache.dims@[1]),
                self.placing_fault(),
            ),
        )
    }

    fn check_dtypes(&self) -> (fault: Option<LaunchError>)
        ensures
            fault == self.dtypes_fault(),
    {
        let dtype: DType = self.query.dtype;
        if dtype_code(dtype).is_none() {
            return Some(LaunchError::UnsupportedDtype { dtype });
        }
        if self.key_cache.dtype != dtype || self.value_cache.dtype != dtype {
            return Some(
                LaunchError::CacheDtypes {
                    key: self.key_cache.dtype,
                    value: self.value_cache.dtype,
                },
            );
        }
        if let Some(e) = check_index(Operand::BlockTables, self.block_tables.dtype) {
            return Some(e);
        }
        check_index(Operand::ContextLens, self.context_lens.dtype)
    }

    fn check_shapes(&self) -> (fault: Option<LaunchError>)
        ensures
            fault == self.shapes_fault(),
    {
        if let Some(e) = check_rank(Operand::Query, &self.query.dims, 3) {
            return Some(e);
        }
        if let Some(e) = check_rank(Operand::KeyCache, &self.key_cache.dims, 5) {
            return Some(e);
        }
        let q: &Vec<usize> = &self.query.dims;
        let kc: &Vec<usize> = &self.key_cache.dims;
        if !product_is(kc[2], kc[4], q[2]) {
            return Some(LaunchError::CacheMismatch);
        }
        if let Some(e) = check_rank(Operand::ValueCache, &self.value_cache.dims, 4) {
            return Some(e);
        }
        let vc: &Vec<usize> = &self.value_cache.dims;
        if vc[0] != kc[0] || vc[1] != kc[1] || vc[2] != q[2] || vc[3] != kc[3] {
            return Some(LaunchError::CacheMismatch);
        }
        if let Some(e) = check_rank(Operand::BlockTables, &self.block_tables.dims, 2) {
            return Some(e);
        }
        if let Some(e) = check_length(Operand::BlockTables, self.block_tables.dims[0], q[0]) {
            return Some(e);
        }
        if let Some(e) = check_rank(Operand::ContextLens, &self.context_lens.dims, 1) {
            return Some(e);
        }
        check_length(Operand::ContextLens, self.context_lens.dims[0], q[0])
    }

    fn check_places(&self) -> (fault: Option<LaunchError>)
        ensures
            fault == self.placing_fault(),
    {
        if let Some(e) = check_place(Operand::Query, self.query.place) {
            return Some(e);
        }
        if let Some(e) = check_place(Operand::KeyCache, self.key_cache.place) {
            return Some(e);
        }
        if let Some(e) = check_place(Operand::ValueCache, self.value_cache.place) {
            return Some(e);
        }
        if let Some(e) = check_place(Operand::BlockTables, self.block_tables.place) {
            return Some(e);
        }
        check_place(Operand::ContextLens, self.context_lens.place)
    }

    /// Checks what comes before the heads.
    pub fn check_before_heads(&self) -> (fault: Option<LaunchError>)
        ensures
            fault == self.fault_before_heads(),
    {
        if let Some(e) = self.check_dtypes() {
            return Some(e);
        }
        self.check_shapes()
    }

    /// Plans a launch over a paged cache. The output has the shape of the query.
    pub fn plan(&self) -> (plan: Result<PagedPlan, LaunchError>)
        requires
            self.fault_before_heads() is None ==> self.key_cache.dims@[1] != 0,
            self.fault() is None ==> self.block_tables.dims@[1] * self.key_cache.dims@[3]
                <= usize::MAX,
        ensures
            match plan {
                Ok(p) => {
                    let kc = self.key_cache.dims@;
                    &&& self.fault() is None
                    &&& p.num_seqs == self.query.dims@[0]
                    &&& p.max_context_len == self.block_tables.dims@[1] * kc[3]
                    &&& p.block_size == kc[3]
                    &&& p.max_num_blocks_per_seq == self.block_tables.dims@[1]
                    &&& p.num_heads == self.query.dims@[1]
                    &&& p.num_kv_heads == kc[1]
                    &&& p.head_dim == self.query.dims@[2]
                    &&& p.x == kc[4]
                    &&& p.key_strides == self.key_strides
                    &&& p.value_strides == self.value_strides
                    &&& p.window_size == self.window_size
                    &&& spec_dtype_code(self.query.dtype) == Some(p.dtype_code)
                },
                Err(e) => self.fault() == Some(e),
            },
    {
        if let Some(e) = self.check_before_heads() {
            return Err(e);
        }
        if let Some(e) = check_groups(self.query.dims[1], self.key_cache.dims[1]) {
            return Err(e);
        }
        if let Some(e) = self.check_places() {
            return Err(e);
        }
        let code: u32 = match dtype_code(self.query.dtype) {
            Some(code) => code,
            None => {
                return Err(LaunchError::UnsupportedDtype { dtype: self.query.dtype });
            },
        };
        let blocks: usize = self.block_tables.dims[1];
        let block_size: usize = self.key_cache.dims[3];
        Ok(
            PagedPlan {
                num_seqs: self.query.dims[0],
                max_context_len: blocks * block_size,
                block_size,
                max_num_blocks_per_seq: blocks,
                num_heads: self.query.dims[1],
                num_kv_heads: self.key_cache.dims[1],
                head_dim: self.query.dims[2],
                x: self.key_cache.dims[4],
                key_strides: self.key_strides,
                value_strides: self.value_strides,
                window_size: self.window_size,
                dtype_code: code,
            },
        )
    }
}

/// Whether the kernels for old devices may be used on TurboQuant caches: any non-empty value of
/// the switch allows them.
pub fn legacy_flash_attn_turboquant_allowed(switch: Option<&str>) -> (allowed: bool)
    ensures
        allowed == match switch {
            Some(value) => value@.len() > 0,
            None => false,
        },
{
    match switch {
        Some(value) => value.unicode_len() > 0,
        None => false,
    }
}

/// A dense launch is made exactly if all tensors are on a CUDA device and of one type that the
/// kernels take, each sequence has one query token, keys and values have one shape with the batch
/// and the head dimension of the query, and the query heads are shared out evenly.
pub proof fn dense_launches_fit_together(inputs: DenseInputs)
    requires
        inputs.query.dims@.len() == 4,
        inputs.key.dims@.len() == 4,
        inputs.value.dims@.len() == 4,
    ensures
        inputs.fault() is None <==> {
            let (q, k) = (inputs.query.dims@, inputs.key.dims@);
            &&& inputs.query.place == Place::Cuda && inputs.key.place == Place::Cuda
                && inputs.value.place == Place::Cuda
            &&& inputs.query.dtype == DType::F16 || inputs.query.dtype == DType::BF16
                || inputs.query.dtype == DType::F32
            &&& inputs.key.dtype == inputs.query.dtype && inputs.value.dtype == inputs.query.dtype
            &&& q[2] == 1
            &&& k[0] == q[0] && k[3] == q[3]
            &&& inputs.value.dims@ == k
            &&& q[1] as int % k[1] as int == 0
        },
{
    let (k, v) = (inputs.key.dims@, inputs.value.dims@);
    assert(v == k <==> v =~= k);
}

/// A launch over a paged cache is made exactly if all tensors are on a CUDA device, caches and
/// query are of one type that the kernels take, the pieces of a key make up the head dimension,
/// the value cache has the blocks, heads and tokens of the key cache, each sequence has its block
/// table and its length, and the query heads are shared out evenly.
pub proof fn paged_launches_fit_together(inputs: PagedInputs)
    requires
        inputs.query.dims@.len() == 3,
        inputs.key_cache.dims@.len() == 5,
        inputs.value_cache.dims@.len() == 4,
        inputs.block_tables.dims@.len() == 2,
        inputs.context_lens.dims@.len() == 1,
    ensures
        inputs.fault() is None <==> {
            let (q, kc) = (inputs.query.dims@, inputs.key_cache.dims@);
            &&& inputs.query.place == Place::Cuda && inputs.key_cache.place == Place::Cuda
                && inputs.value_cache.place == Place::Cuda && inputs.block_tables.place
                == Place::Cuda && inputs.context_lens.place == Place::Cuda
            &&& inputs.query.dtype == DType::F16 || inputs.query.dtype == DType::BF16
                || inputs.query.dtype == DType::F32
            &&& inputs.key_cache.dtype == inputs.query.dtype
            &&& inputs.value_cache.dtype == inputs.query.dtype
            &&& inputs.block_tables.dtype == DType::I32 || inputs.block_tables.dtype == DType::U32
            &&& inputs.context_lens.dtype == DType::I32 || inputs.context_lens.dtype == DType::U32
            &&& kc[2] * kc[4] == q[2]
            &&& inputs.value_cache.dims@ == seq![kc[0], kc[1], q[2], kc[3]]
            &&& inputs.block_tables.dims@[0] == q[0]
            &&& inputs.context_lens.dims@[0] == q[0]
            &&& q[1] as int % kc[1] as int == 0
        },
{
    let (q, kc, vc) = (inputs.query.dims@, inputs.key_cache.dims@, inputs.value_cache.dims@);
    let shape = seq![kc[0], kc[1], q[2], kc[3]];
    assert(vc == shape <==> vc =~= shape);
    if vc =~= shape {
        assert(vc[0] == kc[0] && vc[1] == kc[1] && vc[2] == q[2] && vc[3] == kc[3]);
    }
}

/// What is wrong with a launch is named with what it is about.
pub proof fn faults_name_what_is_wrong(dense: DenseInputs, paged: PagedInputs)
    ensures
        dense.fault() matches Some(LaunchError::QueryLength { q_len }) ==> q_len
            == dense.query.dims@[2] && q_len != 1,
        dense.fault() matches Some(LaunchError::UnsupportedDtype { dtype }) ==> dtype
            == dense.query.dtype,
        dense.fault() matches Some(LaunchError::HeadGroups { num_heads, num_kv_heads })
            ==> num_heads == dense.query.dims@[1] && num_kv_heads == dense.key.dims@[1],
        paged.fault() matches Some(LaunchError::UnsupportedDtype { dtype }) ==> dtype
            == paged.query.dtype,
        paged.fault() matches Some(LaunchError::CacheDtypes { key, value }) ==> key
            == paged.key_cache.dtype && value == paged.value_cache.dtype,
        paged.fault() matches Some(LaunchError::HeadGroups { num_heads, num_kv_heads })
            ==> num_heads == paged.query.dims@[1] && num_kv_heads == paged.key_cache.dims@[1],
{
}

} // verus!
