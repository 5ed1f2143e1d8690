//! Launches of the TurboQuant kernels.
use crate::arith::is_power_of_two;
use crate::dtype::{dtype_code, spec_dtype_code, DType};
use crate::launch::checks::{
    activation_fault, byte_caches_fault, check_byte_caches, check_dtype, check_groups, check_index,
    check_length, check_length_after, check_place, check_rank, dtype_fault, earlier, groups_fault,
    index_fault, length_fault, place_fault, rank_fault, LaunchError, Operand,
};
use crate::tensor::{Place, TensorDesc};
use crate::turboquant::layout::{
    no_dim_below, row_bytes_unchecked, row_len, smallest_head_dim_from_row_bytes,
};
use vstd::prelude::*;

verus! {

/// Whether `dim` is the smallest power of two whose rows have this size.
pub open spec fn is_dim_of_rows(dim: nat, row_bytes: int) -> bool {
    row_bytes >= 8 && is_power_of_two(dim) && row_len(dim as int) == row_bytes && no_dim_below(
        row_bytes,
        dim as int,
    )
}

/// The smallest power of two whose rows have this size, if there is one.
pub open spec fn dim_of_rows(row_bytes: int) -> Option<nat> {
    if exists|dim: nat| is_dim_of_rows(dim, row_bytes) {
        Some(choose|dim: nat| is_dim_of_rows(dim, row_bytes))
    } else {
        None
    }
}

/// There is only one smallest power of two.
pub proof fn dim_of_rows_is_unique(dim: nat, row_bytes: int)
    requires
        is_dim_of_rows(dim, row_bytes),
    ensures
        dim_of_rows(row_bytes) == Some(dim),
{
    let other = choose|d: nat| is_dim_of_rows(d, row_bytes);
    assert(is_dim_of_rows(other, row_bytes));
    assert(is_power_of_two(other) && is_power_of_two(dim));
}

fn rows_dim(row_bytes: usize) -> (dim: Option<usize>)
    requires
        row_bytes * 24 <= usize::MAX,
    ensures
        match dim {
            Some(n) => dim_of_rows(row_bytes as int) == Some(n as nat),
            None => dim_of_rows(row_bytes as int) is None,
        },
{
    match smallest_head_dim_from_row_bytes(row_bytes) {
        Ok(n) => {
            proof {
                dim_of_rows_is_unique(n as nat, row_bytes as int);
            }
            Some(n)
        },
        Err(_) => {
            assert forall|d: nat| !is_dim_of_rows(d, row_bytes as int) by {}
            None
        },
    }
}

/// The tensors of a decode launch over a TurboQuant cache.
pub struct TurboDecodeInputs {
    pub query: TensorDesc,
    pub key_cache: TensorDesc,
    pub value_cache: TensorDesc,
    pub block_tables: TensorDesc,
    pub cu_seq_lens: TensorDesc,
    pub window_size: usize,
}

/// What the decode kernel is launched with.
#[derive(Clone, Debug)]
pub struct TurboDecodePlan {
    pub out_dims: Vec<usize>,
    pub num_seqs: usize,
    pub block_size: usize,
    pub block_table_stride: usize,
    pub num_heads: usize,
    pub num_kv_heads: usize,
    pub head_dim: usize,
    pub k_row_bytes: usize,
    pub v_row_bytes: usize,
    pub window_size: usize,
    pub dtype_code: u32,
}

/// Caches that have to differ in their rows at most.
pub open spec fn row_caches_fault_before_rows(kc: Seq<usize>, vc: Seq<usize>) -> Option<
    LaunchError,
> {
    let same = if (kc[0], kc[1], kc[2]) == (vc[0], vc[1], vc[2]) {
        None
    } else {
        Some(LaunchError::CacheMismatch)
    };
    earlier(
        rank_fault(Operand::KeyCache, kc, 4),
        earlier(rank_fault(Operand::ValueCache, vc, 4), same),
    )
}

/// Caches that have to differ in their rows at most, of sizes that some dimension has.
pub open spec fn row_caches_fault(kc: Seq<usize>, vc: Seq<usize>) -> Option<LaunchError> {
    let rows = if dim_of_rows(kc[3] as int) is None {
        Some(LaunchError::RecordBytes { operand: Operand::KeyCache, bytes: kc[3] })
    } else if dim_of_rows(vc[3] as int) is None {
        Some(LaunchError::RecordBytes { operand: Operand::ValueCache, bytes: vc[3] })
    } else {
        None
    };
    earlier(row_caches_fault_before_rows(kc, vc), rows)
}

/// Whether the dimensions can be searched for the sizes of the rows, up to the first size that no
/// dimension has.
pub open spec fn row_sizes_are_searchable(kc: Seq<usize>, vc: Seq<usize>) -> bool {
    row_caches_fault_before_rows(kc, vc) is None ==> {
        &&& kc[3] * 24 <= usize::MAX
        &&& dim_of_rows(kc[3] as int) is Some ==> vc[3] * 24 <= usize::MAX
    }
}

/// Checks two caches and gives their head dimensions.
fn check_row_caches(key_cache: &TensorDesc, value_cache: &TensorDesc) -> (dims: Result<
    (usize, usize),
    LaunchError,
>)
    requires
        row_sizes_are_searchable(key_cache.dims@, value_cache.dims@),
    ensures
        match dims {
            Ok(d) => {
                &&& row_caches_fault(key_cache.dims@, value_cache.dims@) is None
                &&& dim_of_rows(key_cache.dims@[3] as int) == Some(d.0 as nat)
                &&& dim_of_rows(value_cache.dims@[3] as int) == Some(d.1 as nat)
            },
            Err(e) => row_caches_fault(key_cache.dims@, value_cache.dims@) == Some(e),
        },
{
    if let Some(e) = check_rank(Operand::KeyCache, &key_cache.dims, 4) {
        return Err(e);
    }
    if let Some(e) = check_rank(Operand::ValueCache, &value_cache.dims, 4) {
        return Err(e);
    }
    let kc: &Vec<usize> = &key_cache.dims;
    let vc: &Vec<usize> = &value_cache.dims;
    if kc[0] != vc[0] || kc[1] != vc[1] || kc[2] != vc[2] {
        return Err(LaunchError::CacheMismatch);
    }
    let k_head_dim: usize = match rows_dim(kc[3]) {
        Some(dim) => dim,
        None => {
            return Err(LaunchError::RecordBytes { operand: Operand::KeyCache, bytes: kc[3] });
        },
    };
    let v_head_dim: usize = match rows_dim(vc[3]) {
        Some(dim) => dim,
        None => {
            return Err(LaunchError::RecordBytes { operand: Operand::ValueCache, bytes: vc[3] });
        },
    };
    Ok((k_head_dim, v_head_dim))
}

impl TurboDecodeInputs {
    /// The sequences, heads, query tokens and head dimension of the query.
    pub open spec fn query_shape(&self) -> (usize, usize, usize, usize) {
        let q = self.query.dims@;
        if q.len() == 3 {
            (q[0], q[1], 1, q[2])
        } else {
            (q[0], q[1], q[2], q[3])
        }
    }

    /// What is wrong with the query.
    pub open spec fn query_fault(&self) -> Option<LaunchError> {
        let rank = self.query.dims@.len();
        if rank != 3 && rank != 4 {
            Some(LaunchError::Rank { operand: Operand::Query, rank: rank as usize })
        } else if self.query_shape().2 != 1 {
            Some(LaunchError::QueryLength { q_len: self.query_shape().2 })
        } else {
            None
        }
    }

    /// What is wrong with the head dimensions.
    pub open spec fn head_dim_fault(&self) -> Option<LaunchError> {
        let (_, _, _, head_dim) = self.query_shape();
        let k_dim = dim_of_rows(self.key_cache.dims@[3] as int)->0;
        let v_dim = dim_of_rows(self.value_cache.dims@[3] as int)->0;
        if k_dim != head_dim || v_dim != head_dim {
            Some(
                LaunchError::HeadDim {
                    query: head_dim,
                    key: k_dim as usize,
                    value: v_dim as usize,
                },
            )
        } else {
            None
        }
    }

    /// What is wrong with the block tables and sequence lengths.
    pub open spec fn table_fault(&self) -> Option<LaunchError> {
        let num_seqs = self.query_shape().0;
        earlier(
            rank_fault(Operand::BlockTables, self.block_tables.dims@, 2),
            earlier(
                length_fault(Operand::BlockTables, self.block_tables.dims@[0], num_seqs as int),
                earlier(
                    rank_fault(Operand::CuSeqLens, self.cu_seq_lens.dims@, 1),
                    length_fault(Operand::CuSeqLens, self.cu_seq_lens.dims@[0], num_seqs + 1),
                ),
            ),
        )
    }

    /// What is wrong with the places.
    pub open spec fn placing_fault(&self) -> Option<LaunchError> {
        earlier(
            place_fault(Operand::Query, self.query.place),
            earlier(
                place_fault(Operand::KeyCache, self.key_cache.place),
                earlier(
                    place_fault(Operand::ValueCache, self.value_cache.place),
                    earlier(
                        place_fault(Operand::BlockTables, self.block_tables.place),
                        place_fault(Operand::CuSeqLens, self.cu_seq_lens.place),
                    ),
                ),
            ),
        )
    }

    /// What is wrong with a launch before its caches are looked at: element types first, then
    /// the query.
    pub open spec fn fault_before_caches(&self) -> Option<LaunchError> {
        earlier(
            activation_fault(self.query.dtype),
            earlier(
                byte_caches_fault(self.key_cache.dtype, self.value_cache.dtype),
                earlier(
                    index_fault(Operand::BlockTables, self.block_tables.dtype),
                    earlier(
                        index_fault(Operand::CuSeqLens, self.cu_seq_lens.dtype),
                        self.query_fault(),
                    ),
                ),
            ),
        )
    }

    /// What is wrong with a launch before its heads are looked at: what comes before the caches,
    /// then the caches and the head dimensions.
    pub open spec fn fault_before_heads(&self) -> Option<LaunchError> {
        earlier(
            self.fault_before_caches(),
            earlier(
                row_caches_fault(self.key_cache.dims@, self.value_cache.dims@),
                self.head_dim_fault(),
            ),
        )
    }

    /// What is wrong with a launch: what comes before the heads, then the heads, the tables and
    /// the places.
    pub open spec fn fault(&self) -> Option<LaunchError> {
        earlier(
            self.fault_before_heads(),
            earlier(
                groups_fault(self.query_shape().1, self.key_cache.dims@[1]),
                earlier(self.table_fault(), self.placing_fault()),
            ),
        )
    }

    fn check_tables(&self, num_seqs: usize) -> (fault: Option<LaunchError>)
        requires
            num_seqs == self.query_shape().0,
        ensures
            fault == self.table_fault(),
    {
        if let Some(e) = check_rank(Operand::BlockTables, &self.block_tables.dims, 2) {
            return Some(e);
        }
        if let Some(e) = check_length(Operand::BlockTables, self.block_tables.dims[0], num_seqs) {
            return Some(e);
        }
        if let Some(e) = check_rank(Operand::CuSeqLens, &self.cu_seq_lens.dims, 1) {
            return Some(e);
        }
        check_length_after(Operand::CuSeqLens, self.cu_seq_lens.dims[0], num_seqs)
    }

    fn check_places(&self) -> (fault: Option<LaunchError>)
        ensures
            fault == self.placing_fault(),
    {
        if let Some(e) = check_place(Operand::Query, self.query.place) {
            return Some(e);
        }
        if let Some(e) = check_place(Operand::KeyCache, self.key_cache.place) {
            return Some(e);
        }
        if let Some(e) = check_place(Operand::ValueCache, self.value_cache.place) {
            return Some(e);
        }
        if let Some(e) = check_place(Operand::BlockTables, self.block_tables.place) {
            return Some(e);
        }
        check_place(Operand::CuSeqLens, self.cu_seq_lens.place)
    }

    /// Checks what comes before the heads; gives the shape of the query.
    pub fn check_before_heads(&self) -> (shape: Result<(usize, usize, usize, usize), LaunchError>)
        requires
            self.fault_before_caches() is None ==> row_sizes_are_searchable(
                self.key_cache.dims@,
                self.value_cache.dims@,
            ),
        ensures
            match shape {
                Ok(s) => self.fault_before_heads() is None && s == self.query_shape(),
                Err(e) => self.fault_before_heads() == Some(e),
            },
    {
        if dtype_code(self.query.dtype).is_none() {
            return Err(LaunchError::UnsupportedDtype { dtype: self.query.dtype });
        }
        if let Some(e) = check_byte_caches(self.key_cache.dtype, self.value_cache.dtype) {
            return Err(e);
        }
        if let Some(e) = check_index(Operand::BlockTables, self.block_tables.dtype) {
            return Err(e);
        }
        if let Some(e) = check_index(Operand::CuSeqLens, self.cu_seq_lens.dtype) {
            return Err(e);
        }
        let rank: usize = self.query.dims.len();
        if rank != 3 && rank != 4 {
            return Err(LaunchError::Rank { operand: Operand::Query, rank });
        }
        let num_seqs: usize = self.query.dims[0];
        let num_heads: usize = self.query.dims[1];
        let q_len: usize = if rank == 3 {
            1
        } else {
            self.query.dims[2]
        };
        let head_dim: usize = self.query.dims[rank - 1];
        if q_len != 1 {
            return Err(LaunchError::QueryLength { q_len });
        }
        let (k_head_dim, v_head_dim) = check_row_caches(&self.key_cache, &self.value_cache)?;
        if k_head_dim != head_dim || v_head_dim != head_dim {
            return Err(
                LaunchError::HeadDim { query: head_dim, key: k_head_dim, value: v_head_dim },
            );
        }
        Ok((num_seqs, num_heads, q_len, head_dim))
    }

    /// Plans a decode launch. The output has the shape of the query.
    pub fn plan(&self) -> (plan: Result<TurboDecodePlan, LaunchError>)
        requires
            self.fault_before_caches() is None ==> row_sizes_are_searchable(
                self.key_cache.dims@,
                self.value_cache.dims@,
            ),
            self.fault_before_heads() is None ==> self.key_cache.dims@[1] != 0,
        ensures
            match plan {
                Ok(p) => {
                    let (num_seqs, num_heads, _, head_dim) = self.query_shape();
                    &&& self.fault() is None
                    &&& p.out_dims@ == self.query.dims@
                    &&& p.num_seqs == num_seqs
                    &&& p.block_size == self.key_cache.dims@[2]
                    &&& p.block_table_stride == self.block_tables.dims@[1]
                    &&& p.num_heads == num_heads
                    &&& p.num_kv_heads == self.key_cache.dims@[1]
                    &&& p.head_dim == head_dim
                    &&& p.k_row_bytes == self.key_cache.dims@[3]
                    &&& p.v_row_bytes == self.value_cache.dims@[3]
                    &&& p.window_size == self.window_size
                    &&& spec_dtype_code(self.query.dtype) == Some(p.dtype_code)
                },
                Err(e) => self.fault() == Some(e),
            },
    {
        let (num_seqs, num_heads, _q_len, head_dim) = self.check_before_heads()?;
        let code: u32 = match dtype_code(self.query.dtype) {
            Some(code) => code,
            None => {
                return Err(LaunchError::UnsupportedDtype { dtype: self.query.dtype });
            },
        };
        if let Some(e) = check_groups(num_heads, self.key_cache.dims[1]) {
            return Err(e);
        }
        if let Some(e) = self.check_tables(num_seqs) {
            return Err(e);
        }
        if let Some(e) = self.check_places() {
            return Err(e);
        }
        let mut out_dims: Vec<usize> = Vec::new();
        out_dims.push(num_seqs);
        out_dims.push(num_heads);
        if self.query.dims.len() == 4 {
            out_dims.push(1);
        }
        out_dims.push(head_dim);
        assert(out_dims@ =~= self.query.dims@);
        Ok(
            TurboDecodePlan {
                out_dims,
                num_seqs,
                block_size: self.key_cache.dims[2],
                block_table_stride: self.block_tables.dims[1],
                num_heads,
                num_kv_heads: self.key_cache.dims[1],
                head_dim,
                k_row_bytes: self.key_cache.dims[3],
                v_row_bytes: self.value_cache.dims[3],
                window_size: self.window_size,
                dtype_code: code,
            },
        )
    }
}

/// The tensors of a launch that writes rows.
pub struct TurboUpdateInputs {
    pub key: TensorDesc,
    pub value: TensorDesc,
    pub key_cache: TensorDesc,
    pub value_cache: TensorDesc,
    pub slot_mapping: TensorDesc,
}

/// What the writing kernel is launched with. The strides are those of contiguous rows.
#[derive(Clone, Copy, Debug, PartialEq, Eq, Structural)]
pub struct TurboUpdatePlan {
    pub num_tokens: usize,
    pub num_heads: usize,
    pub k_head_dim: usize,
    pub v_head_dim: usize,
    pub block_size: usize,
    pub num_blocks: usize,
    pub k_row_bytes: usize,
    pub v_row_bytes: usize,
    pub key_stride: usize,
    pub value_stride: usize,
    pub dtype_code: u32,
}

/// Whether a row of a dimension can be counted in a `usize`.
pub open spec fn row_is_countable(head_dim: usize) -> bool {
    head_dim * 3 <= usize::MAX && row_len(head_dim as int) <= usize::MAX
}

impl TurboUpdateInputs {
    /// What is wrong with the element types.
    pub open spec fn dtypes_fault(&self) -> Option<LaunchError> {
        earlier(
            activation_fault(self.key.dtype),
            earlier(
                dtype_fault(Operand::Value, self.value.dtype, self.key.dtype),
                earlier(
                    byte_caches_fault(self.key_cache.dtype, self.value_cache.dtype),
                    dtype_fault(Operand::SlotMapping, self.slot_mapping.dtype, DType::I64),
                ),
            ),
        )
    }

    /// What is wrong with the shapes, but for the sizes of the rows.
    pub open spec fn shapes_fault(&self) -> Option<LaunchError> {
        let k = self.key.dims@;
        let v = self.value.dims@;
        let kc = self.key_cache.dims@;
        let vc = self.value_cache.dims@;
        let inputs = if (k[0], k[1]) == (v[0], v[1]) {
            None
        } else {
            Some(LaunchError::InputMismatch)
        };
        let caches = if (kc[0], kc[1], kc[2]) == (vc[0], vc[1], vc[2]) && kc[1] == k[1] {
            None
        } else {
            Some(LaunchError::CacheMismatch)
        };
        earlier(
            rank_fault(Operand::Key, k, 3),
            earlier(
                rank_fault(Operand::Value, v, 3),
                earlier(
                    inputs,
                    earlier(
                        rank_fault(Operand::KeyCache, kc, 4),
                        earlier(rank_fault(Operand::ValueCache, vc, 4), caches),
                    ),
                ),
            ),
        )
    }

    /// What is wrong with the sizes of the rows.
    pub open spec fn rows_fault(&self) -> Option<LaunchError> {
        let kc = self.key_cache.dims@;
        let vc = self.value_cache.dims@;
        if kc[3] != row_len(self.key.dims@[2] as int) {
            Some(LaunchError::RecordBytes { operand: Operand::KeyCache, bytes: kc[3] })
        } else if vc[3] != row_len(self.value.dims@[2] as int) {
            Some(LaunchError::RecordBytes { operand: Operand::ValueCache, bytes: vc[3] })
        } else {
            None
        }
    }

    /// What is wrong with the slots.
    pub open spec fn slots_fault(&self) -> Option<LaunchError> {
        earlier(
            rank_fault(Operand::SlotMapping, self.slot_mapping.dims@, 1),
            length_fault(
                Operand::SlotMapping,
                self.slot_mapping.dims@[0],
                self.key.dims@[0] as int,
            ),
        )
    }

    /// What is wrong with a launch: element types first, then shapes, rows, slots and places.
    pub open spec fn fault(&self) -> Option<LaunchError> {
        earlier(
            self.dtypes_fault(),
            earlier(
                self.shapes_fault(),
                earlier(self.rows_fault(), earlier(self.slots_fault(), self.placing_fault())),
            ),
        )
    }

    /// Whether the rows can be counted in a `usize`, up to the first that its cache does not
    /// have, and the strides if nothing is wrong.
    pub open spec fn rows_are_countable(&self) -> bool {
        let k = self.key.dims@;
        let v = self.value.dims@;
        &&& row_is_countable(k[2])
        &&& self.key_cache.dims@[3] == row_len(k[2] as int) ==> row_is_countable(v[2])
        &&& self.fault() is None ==> k[1] * k[2] <= usize::MAX && v[1] * v[2] <= usize::MAX
    }

    /// What is wrong with the places.
    pub open spec fn placing_fault(&self) -> Option<LaunchError> {
        earlier(
            place_fault(Operand::Key, self.key.place),
            earlier(
                place_fault(Operand::Value, self.value.place),
                earlier(
                    place_fault(Operand::KeyCache, self.key_cache.place),
                    earlier(
                        place_fault(Operand::ValueCache, self.value_cache.place),
                        place_fault(Operand::SlotMapping, self.slot_mapping.place),
                    ),
                ),
            ),
        )
    }

    fn check_places(&self) -> (fault: Option<LaunchError>)
        ensures
            fault == self.placing_fault(),
    {
        if let Some(e) = check_place(Operand::Key, self.key.place) {
            return Some(e);
        }
        if let Some(e) = check_place(Operand::Value, self.value.place) {
            return Some(e);
        }
        if let Some(e) = check_place(Operand::KeyCache, self.key_cache.place) {
            return Some(e);
        }
        if let Some(e) = check_place(Operand::ValueCache, self.value_cache.place) {
            return Some(e);
        }
        check_place(Operand::SlotMapping, self.slot_mapping.place)
    }

    /// Plans a launch that writes rows.
    pub fn plan(&self) -> (plan: Result<TurboUpdatePlan, LaunchError>)
        requires
            self.dtypes_fault() is None && self.shapes_fault() is None
                ==> self.rows_are_countable(),
        ensures
            match plan {
                Ok(p) => {
                    &&& self.fault() is None
                    &&& p.num_tokens == self.key.dims@[0]
                    &&& p.num_heads == self.key.dims@[1]
                    &&& p.k_head_dim == self.key.dims@[2]
                    &&& p.v_head_dim == self.value.dims@[2]
                    &&& p.block_size == self.key_cache.dims@[2]
                    &&& p.num_blocks == self.key_cache.dims@[0]
                    &&& p.k_row_bytes == self.key_cache.dims@[3]
                    &&& p.v_row_bytes == self.value_cache.dims@[3]
                    &&& p.key_stride == self.key.dims@[1] * self.key.dims@[2]
                    &&& p.value_stride == self.value.dims@[1] * self.value.dims@[2]
                    &&& spec_dtype_code(self.key.dtype) == Some(p.dtype_code)
                },
                Err(e) => self.fault() == Some(e),
            },
    {
        let code: u32 = match dtype_code(self.key.dtype) {
            Some(code) => code,
            None => {
                return Err(LaunchError::UnsupportedDtype { dtype: self.key.dtype });
            },
        };
        if let Some(e) = check_dtype(Operand::Value, self.value.dtype, self.key.dtype) {
            return Err(e);
        }
        if let Some(e) = check_byte_caches(self.key_cache.dtype, self.value_cache.dtype) {
            return Err(e);
        }
        if let Some(e) = check_dtype(Operand::SlotMapping, self.slot_mapping.dtype, DType::I64) {
            return Err(e);
        }
        if let Some(e) = check_rank(Operand::Key, &self.key.dims, 3) {
            return Err(e);
        }
        if let Some(e) = check_rank(Operand::Value, &self.value.dims, 3) {
            return Err(e);
        }
        let k: &Vec<usize> = &self.key.dims;
        let v: &Vec<usize> = &self.value.dims;
        if k[0] != v[0] || k[1] != v[1] {
            return Err(LaunchError::InputMismatch);
        }
        if let Some(e) = check_rank(Operand::KeyCache, &self.key_cache.dims, 4) {
            return Err(e);
        }
        if let Some(e) = check_rank(Operand::ValueCache, &self.value_cache.dims, 4) {
            return Err(e);
        }
        let kc: &Vec<usize> = &self.key_cache.dims;
        let vc: &Vec<usize> = &self.value_cache.dims;
        if kc[0] != vc[0] || kc[1] != vc[1] || kc[2] != vc[2] || kc[1] != k[1] {
            return Err(LaunchError::CacheMismatch);
        }
        if kc[3] != row_bytes_unchecked(k[2]) {
            return Err(LaunchError::RecordBytes { operand: Operand::KeyCache, bytes: kc[3] });
        }
        if vc[3] != row_bytes_unchecked(v[2]) {
            return Err(LaunchError::RecordBytes { operand: Operand::ValueCache, bytes: vc[3] });
        }
        if let Some(e) = check_rank(Operand::SlotMapping, &self.slot_mapping.dims, 1) {
            return Err(e);
        }
        if let Some(e) = check_length(Operand::SlotMapping, self.slot_mapping.dims[0], k[0]) {
            return Err(e);
        }
        if let Some(e) = self.check_places() {
            return Err(e);
        }
        Ok(
            TurboUpdatePlan {
                num_tokens: k[0],
                num_heads: k[1],
                k_head_dim: k[2],
                v_head_dim: v[2],
                block_size: kc[2],
                num_blocks: kc[0],
                k_row_bytes: kc[3],
                v_row_bytes: vc[3],
                key_stride: k[1] * k[2],
                value_stride: v[1] * v[2],
                dtype_code: code,
            },
        )
    }
}

/// The tensors of a launch that gathers rows.
pub struct TurboGatherInputs {
    pub key_cache: TensorDesc,
    pub value_cache: TensorDesc,
    pub block_table: TensorDesc,
    pub cu_seq_lens: TensorDesc,
    pub out_dtype: DType,
}

/// What is known of a gather before its token count is read from the device.
#[derive(Clone, Copy, Debug, PartialEq, Eq, Structural)]
pub struct TurboGatherSetup {
    pub num_seqs: usize,
    pub num_kv_heads: usize,
    pub block_size: usize,
    pub k_head_dim: usize,
    pub v_head_dim: usize,
    pub k_row_bytes: usize,
    pub v_row_bytes: usize,
    pub out_dtype_code: u32,
    /// Which of the cumulative lengths holds the token count.
    pub count_index: usize,
}

/// What a gather does once its token count is known.
#[derive(Clone, Copy, Debug, PartialEq, Eq, Structural)]
pub enum TurboGatherStep {
    /// There are no tokens: the outputs are empty and no kernel runs.
    Empty,
    /// The kernel gathers this many tokens through tables of this stride.
    Launch { num_tokens: usize, block_table_stride: usize },
}

impl TurboGatherInputs {
    /// What is wrong with a gather before its token count is read.
    pub open spec fn setup_fault(&self) -> Option<LaunchError> {
        let kc = self.key_cache.dims@;
        let vc = self.value_cache.dims@;
        let lengths = if self.cu_seq_lens.dims@[0] == 0 {
            Some(LaunchError::Length { operand: Operand::CuSeqLens, got: 0 })
        } else {
            None
        };
        earlier(
            byte_caches_fault(self.key_cache.dtype, self.value_cache.dtype),
            earlier(
                row_caches_fault(kc, vc),
                earlier(
                    activation_fault(self.out_dtype),
                    earlier(
                        index_fault(Operand::BlockTables, self.block_table.dtype),
                        earlier(
                            index_fault(Operand::CuSeqLens, self.cu_seq_lens.dtype),
                            earlier(
                                rank_fault(Operand::CuSeqLens, self.cu_seq_lens.dims@, 1),
                                lengths,
                            ),
                        ),
                    ),
                ),
            ),
        )
    }

    /// Checks a gather up to the point where its token count is read.
    pub fn setup(&self) -> (setup: Result<TurboGatherSetup, LaunchError>)
        requires
            byte_caches_fault(self.key_cache.dtype, self.value_cache.dtype) is None
                ==> row_sizes_are_searchable(self.key_cache.dims@, self.value_cache.dims@),
        ensures
            match setup {
                Ok(s) => {
                    let kc = self.key_cache.dims@;
                    let vc = self.value_cache.dims@;
                    &&& self.setup_fault() is None
                    &&& s.num_seqs == self.cu_seq_lens.dims@[0] - 1
                    &&& s.num_kv_heads == kc[1]
                    &&& s.block_size == kc[2]
                    &&& dim_of_rows(kc[3] as int) == Some(s.k_head_dim as nat)
                    &&& dim_of_rows(vc[3] as int) == Some(s.v_head_dim as nat)
                    &&& s.k_row_bytes == kc[3]
                    &&& s.v_row_bytes == vc[3]
                    &&& spec_dtype_code(self.out_dtype) == Some(s.out_dtype_code)
                    &&& s.count_index == self.cu_seq_lens.dims@[0] - 1
                },
                Err(e) => self.setup_fault() == Some(e),
            },
    {
        if let Some(e) = check_byte_caches(self.key_cache.dtype, self.value_cache.dtype) {
            return Err(e);
        }
        let (k_head_dim, v_head_dim) = match check_row_caches(&self.key_cache, &self.value_cache) {
            Ok(dims) => dims,
            Err(e) => {
                return Err(e);
            },
        };
        let code: u32 = match dtype_code(self.out_dtype) {
            Some(code) => code,
            None => {
                return Err(LaunchError::UnsupportedDtype { dtype: self.out_dtype });
            },
        };
        if let Some(e) = check_index(Operand::BlockTables, self.block_table.dtype) {
            return Err(e);
        }
        if let Some(e) = check_index(Operand::CuSeqLens, self.cu_seq_lens.dtype) {
            return Err(e);
        }
        if let Some(e) = check_rank(Operand::CuSeqLens, &self.cu_seq_lens.dims, 1) {
            return Err(e);
        }
        let lengths: usize = self.cu_seq_lens.dims[0];
        if lengths == 0 {
            return Err(LaunchError::Length { operand: Operand::CuSeqLens, got: 0 });
        }
        Ok(
            TurboGatherSetup {
                num_seqs: lengths - 1,
                num_kv_heads: self.key_cache.dims[1],
                block_size: self.key_cache.dims[2],
                k_head_dim,
                v_head_dim,
                k_row_bytes: self.key_cache.dims[3],
                v_row_bytes: self.value_cache.dims[3],
                out_dtype_code: code,
                count_index: lengths - 1,
            },
        )
    }

    /// What is wrong with the places and the block table of a gather that has tokens.
    pub open spec fn step_fault(&self) -> Option<LaunchError> {
        earlier(
            place_fault(Operand::KeyCache, self.key_cache.place),
            earlier(
                place_fault(Operand::ValueCache, self.value_cache.place),
                earlier(
                    place_fault(Operand::BlockTables, self.block_table.place),
                    earlier(
                        place_fault(Operand::CuSeqLens, self.cu_seq_lens.place),
                        rank_fault(Operand::BlockTables, self.block_table.dims@, 2),
                    ),
                ),
            ),
        )
    }

    /// Decides what a gather does with the token count that was read.
    pub fn step(&self, num_tokens: usize) -> (step: Result<TurboGatherStep, LaunchError>)
        ensures
            match step {
                Ok(TurboGatherStep::Empty) => num_tokens == 0,
                Ok(TurboGatherStep::Launch { num_tokens: n, block_table_stride }) => {
                    &&& num_tokens != 0
                    &&& self.step_fault() is None
                    &&& n == num_tokens
                    &&& block_table_stride == self.block_table.dims@[1]
                },
                Err(e) => num_tokens != 0 && self.step_fault() == Some(e),
            },
    {
        if num_tokens == 0 {
            return Ok(TurboGatherStep::Empty);
        }
        if let Some(e) = check_place(Operand::KeyCache, self.key_cache.place) {
            return Err(e);
        }
        if let Some(e) = check_place(Operand::ValueCache, self.value_cache.place) {
            return Err(e);
        }
        if let Some(e) = check_place(Operand::BlockTables, self.block_table.place) {
            return Err(e);
        }
        if let Some(e) = check_place(Operand::CuSeqLens, self.cu_seq_lens.place) {
            return Err(e);
        }
        if let Some(e) = check_rank(Operand::BlockTables, &self.block_table.dims, 2) {
            return Err(e);
        }
        Ok(
            TurboGatherStep::Launch {
                num_tokens,
                block_table_stride: self.block_table.dims[1],
            },
        )
    }
}

/// A decode is launched exactly if the query is of a type that the kernels take, with one token
/// for each sequence; the caches hold bytes, differ in their rows at most, and have rows of the
/// head dimension of the query; the query heads are shared out evenly; each sequence has its
/// block table and its length; and all are on a CUDA device.
pub proof fn decodes_fit_together(inputs: TurboDecodeInputs)
    requires
        inputs.query.dims@.len() == 3 || inputs.query.dims@.len() == 4,
        inputs.key_cache.dims@.len() == 4,
        inputs.value_cache.dims@.len() == 4,
        inputs.block_tables.dims@.len() == 2,
        inputs.cu_seq_lens.dims@.len() == 1,
    ensures
        inputs.fault() is None <==> {
            let q = inputs.query.dims@;
            let (kc, vc) = (inputs.key_cache.dims@, inputs.value_cache.dims@);
            let head_dim = q[q.len() - 1];
            &&& inputs.query.dtype == DType::F16 || inputs.query.dtype == DType::BF16
                || inputs.query.dtype == DType::F32
            &&& inputs.key_cache.dtype == DType::U8 && inputs.value_cache.dtype == DType::U8
            &&& inputs.block_tables.dtype == DType::I32 || inputs.block_tables.dtype == DType::U32
            &&& inputs.cu_seq_lens.dtype == DType::I32 || inputs.cu_seq_lens.dtype == DType::U32
            &&& q.len() == 4 ==> q[2] == 1
            &&& kc[0] == vc[0] && kc[1] == vc[1] && kc[2] == vc[2]
            &&& is_dim_of_rows(head_dim as nat, kc[3] as int)
            &&& is_dim_of_rows(head_dim as nat, vc[3] as int)
            &&& q[1] as int % kc[1] as int == 0
            &&& inputs.block_tables.dims@[0] == q[0]
            &&& inputs.cu_seq_lens.dims@[0] == q[0] + 1
            &&& inputs.query.place == Place::Cuda && inputs.key_cache.place == Place::Cuda
                && inputs.value_cache.place == Place::Cuda && inputs.block_tables.place
                == Place::Cuda && inputs.cu_seq_lens.place == Place::Cuda
        },
{
    let q = inputs.query.dims@;
    let head_dim = q[q.len() - 1] as nat;
    dims_of_rows_agree(head_dim, inputs.key_cache.dims@[3] as int);
    dims_of_rows_agree(head_dim, inputs.value_cache.dims@[3] as int);
}

proof fn dims_of_rows_agree(dim: nat, row_bytes: int)
    ensures
        dim_of_rows(row_bytes) == Some(dim) <==> is_dim_of_rows(dim, row_bytes),
{
    if is_dim_of_rows(dim, row_bytes) {
        dim_of_rows_is_unique(dim, row_bytes);
    }
    if dim_of_rows(row_bytes) is Some {
        let other = choose|d: nat| is_dim_of_rows(d, row_bytes);
        assert(is_dim_of_rows(other, row_bytes));
    }
}

/// The rows of a power of two from eight on tell it: they take eight bytes and half a byte for
/// each dimension.
pub proof fn rows_tell_their_dimension(head_dim: nat)
    requires
        is_power_of_two(head_dim),
        head_dim >= 8,
    ensures
        dim_of_rows(8 + head_dim as int / 2) == Some(head_dim),
{
    crate::turboquant::layout::row_size_tells_head_dim(head_dim);
    dim_of_rows_is_unique(head_dim, row_len(head_dim as int));
}

/// Rows are written exactly if keys and values are of one type that the kernels take, have equal
/// tokens and heads, the caches hold bytes, differ in their rows at most, have the heads of the
/// keys, and each has rows of its own dimension, each token has its slot, and all are on a CUDA
/// device.
pub proof fn updates_fit_together(inputs: TurboUpdateInputs)
    requires
        inputs.key.dims@.len() == 3,
        inputs.value.dims@.len() == 3,
        inputs.key_cache.dims@.len() == 4,
        inputs.value_cache.dims@.len() == 4,
        inputs.slot_mapping.dims@.len() == 1,
    ensures
        inputs.fault() is None <==> {
            let (k, v) = (inputs.key.dims@, inputs.value.dims@);
            let (kc, vc) = (inputs.key_cache.dims@, inputs.value_cache.dims@);
            &&& inputs.key.dtype == DType::F16 || inputs.key.dtype == DType::BF16
                || inputs.key.dtype == DType::F32
            &&& inputs.value.dtype == inputs.key.dtype
            &&& inputs.key_cache.dtype == DType::U8 && inputs.value_cache.dtype == DType::U8
            &&& inputs.slot_mapping.dtype == DType::I64
            &&& k[0] == v[0] && k[1] == v[1]
            &&& kc[0] == vc[0] && kc[1] == vc[1] && kc[2] == vc[2] && kc[1] == k[1]
            &&& kc[3] == row_len(k[2] as int)
            &&& vc[3] == row_len(v[2] as int)
            &&& inputs.slot_mapping.dims@[0] == k[0]
            &&& inputs.key.place == Place::Cuda && inputs.value.place == Place::Cuda
                && inputs.key_cache.place == Place::Cuda && inputs.value_cache.place == Place::Cuda
                && inputs.slot_mapping.place == Place::Cuda
        },
{
}

/// A gather is set up exactly if the caches hold bytes, differ in their rows at most and have
/// rows of some dimension, the output is of a type that the kernels take, and there are
/// cumulative lengths, at least one.
pub proof fn gathers_are_set_up(inputs: TurboGatherInputs)
    requires
        inputs.key_cache.dims@.len() == 4,
        inputs.value_cache.dims@.len() == 4,
        inputs.cu_seq_lens.dims@.len() == 1,
    ensures
        inputs.setup_fault() is None <==> {
            let (kc, vc) = (inputs.key_cache.dims@, inputs.value_cache.dims@);
            &&& inputs.key_cache.dtype == DType::U8 && inputs.value_cache.dtype == DType::U8
            &&& kc[0] == vc[0] && kc[1] == vc[1] && kc[2] == vc[2]
            &&& exists|d: nat| is_dim_of_rows(d, kc[3] as int)
            &&& exists|d: nat| is_dim_of_rows(d, vc[3] as int)
            &&& inputs.out_dtype == DType::F16 || inputs.out_dtype == DType::BF16
                || inputs.out_dtype == DType::F32
            &&& inputs.block_table.dtype == DType::I32 || inputs.block_table.dtype == DType::U32
            &&& inputs.cu_seq_lens.dtype == DType::I32 || inputs.cu_seq_lens.dtype == DType::U32
            &&& inputs.cu_seq_lens.dims@[0] >= 1
        },
        inputs.step_fault() is None <==> inputs.key_cache.place == Place::Cuda
            && inputs.value_cache.place == Place::Cuda && inputs.block_table.place == Place::Cuda
            && inputs.cu_seq_lens.place == Place::Cuda && inputs.block_table.dims@.len() == 2,
{
    let (k, v) = (inputs.key_cache.dims@[3] as int, inputs.value_cache.dims@[3] as int);
    assert(dim_of_rows(k) is Some <==> exists|d: nat| is_dim_of_rows(d, k));
    assert(dim_of_rows(v) is Some <==> exists|d: nat| is_dim_of_rows(d, v));
    assert(row_caches_fault(inputs.key_cache.dims@, inputs.value_cache.dims@) is None <==> {
        let (kc, vc) = (inputs.key_cache.dims@, inputs.value_cache.dims@);
        kc[0] == vc[0] && kc[1] == vc[1] && kc[2] == vc[2] && dim_of_rows(k) is Some
            && dim_of_rows(v) is Some
    });
}

/// What is wrong with a decode is named with what it is about.
pub proof fn decode_faults_name_what_is_wrong(inputs: TurboDecodeInputs)
    ensures
        ({
            let fault = inputs.fault();
            let q = inputs.query.dims@;
            let kc = inputs.key_cache.dims@;
            let vc = inputs.value_cache.dims@;
            &&& fault matches Some(LaunchError::UnsupportedDtype { dtype }) ==> dtype
                == inputs.query.dtype
            &&& fault matches Some(LaunchError::CacheDtypes { key, value }) ==> key
                == inputs.key_cache.dtype && value == inputs.value_cache.dtype
            &&& fault matches Some(LaunchError::QueryLength { q_len }) ==> q.len() == 4 && q_len
                == q[2] && q_len != 1
            &&& fault matches Some(LaunchError::RecordBytes { operand, bytes }) ==> {
                ||| operand == Operand::KeyCache && bytes == kc[3] && dim_of_rows(
                    bytes as int,
                ) is None
                ||| operand == Operand::ValueCache && bytes == vc[3] && dim_of_rows(
                    bytes as int,
                ) is None
            }
            &&& fault matches Some(LaunchError::HeadDim { query, key, value }) ==> {
                &&& query == q.last()
                &&& key == dim_of_rows(kc[3] as int)->0 as usize
                &&& value == dim_of_rows(vc[3] as int)->0 as usize
            }
            &&& fault matches Some(LaunchError::HeadGroups { num_heads, num_kv_heads })
                ==> num_heads == q[1] && num_kv_heads == kc[1]
        }),
{
}

/// What is wrong with an update is named with what it is about.
pub proof fn update_faults_name_what_is_wrong(inputs: TurboUpdateInputs)
    ensures
        ({
            let fault = inputs.fault();
            &&& fault matches Some(LaunchError::UnsupportedDtype { dtype }) ==> dtype
                == inputs.key.dtype
            &&& fault matches Some(LaunchError::CacheDtypes { key, value }) ==> key
                == inputs.key_cache.dtype && value == inputs.value_cache.dtype
            &&& fault matches Some(LaunchError::OperandDtype { operand, dtype }) ==> {
                ||| operand == Operand::Value && dtype == inputs.value.dtype && dtype
                    != inputs.key.dtype
                ||| operand == Operand::SlotMapping && dtype == inputs.slot_mapping.dtype && dtype
                    != DType::I64
            }
            &&& fault matches Some(LaunchError::RecordBytes { operand, bytes }) ==> {
                ||| operand == Operand::KeyCache && bytes == inputs.key_cache.dims@[3] && bytes
                    != row_len(inputs.key.dims@[2] as int)
                ||| operand == Operand::ValueCache && bytes == inputs.value_cache.dims@[3] && bytes
                    != row_len(inputs.value.dims@[2] as int)
            }
            &&& fault matches Some(LaunchError::Length { operand, got }) ==> operand
                == Operand::SlotMapping && got == inputs.slot_mapping.dims@[0] && got
                != inputs.key.dims@[0]
        }),
{
}

} // verus!
