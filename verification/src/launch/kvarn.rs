//! Launches of the KVarN kernels.
use crate::dtype::{dtype_code, spec_dtype_code, DType};
use crate::flags::{flag_or, reads_as_on};
use crate::kvarn::layout::{
    k_head_dim_from_record_bytes, key_dims_of, v_head_dim_from_record_bytes, value_dims_of,
    KVARN_GROUP,
};
use crate::launch::checks::{
    activation_fault, byte_caches_fault, check_byte_caches, check_dtype, check_groups, check_index,
    check_length, check_length_after, check_place, check_rank, dtype_fault, earlier, groups_fault,
    index_fault, length_fault, place_fault, rank_fault, LaunchError, Operand,
};
use crate::tensor::{Place, TensorDesc};
use vstd::prelude::*;

verus! {

/// The two decode kernels.
#[derive(Clone, Copy, Debug, PartialEq, Eq, Structural)]
pub enum KvarnDecodeKernel {
    /// One query row per sequence.
    Decode,
    /// A few verification rows of one sequence.
    Mtp,
}

/// Pools that hold the rows of open blocks, and which block has which slot in them.
pub struct TailPool {
    pub key: TensorDesc,
    pub value: TensorDesc,
    pub key_slots: TensorDesc,
    pub value_slots: TensorDesc,
}

/// The tensors of a decode launch.
pub struct KvarnDecodeInputs {
    pub query: TensorDesc,
    pub key_cache: TensorDesc,
    pub value_cache: TensorDesc,
    pub block_tables: TensorDesc,
    pub cu_seq_lens: TensorDesc,
    pub tail: Option<TailPool>,
}

/// What a decode kernel is launched with.
#[derive(Clone, Debug)]
pub struct KvarnDecodePlan {
    pub kernel: KvarnDecodeKernel,
    pub cc61: bool,
    pub with_tail: bool,
    pub out_dims: Vec<usize>,
    pub num_seqs: usize,
    pub block_table_stride: usize,
    pub num_heads: usize,
    pub num_kv_heads: usize,
    pub head_dim: usize,
    pub k_record_bytes: usize,
    pub v_record_bytes: usize,
    pub dtype_code: u32,
}

/// Whether the kernels for old devices are used: as the switch says, else unless the newer
/// attention library is there.
pub fn use_cc61_kernel(switch: Option<&str>, use_flashinfer: bool) -> (yes: bool)
    ensures
        yes == match switch {
            Some(value) => reads_as_on(value@),
            None => !use_flashinfer,
        },
{
    flag_or(switch, !use_flashinfer)
}

/// The head dimensions that the decode kernels are built for.
pub open spec fn is_decode_head_dim(head_dim: usize) -> bool {
    head_dim == 32 || head_dim == 64 || head_dim == 128 || head_dim == 256 || head_dim == 512
}

impl TailPool {
    /// What is wrong with the pools of a decode.
    pub open spec fn fault(
        &self,
        dtype: DType,
        num_blocks: usize,
        num_kv_heads: usize,
        head_dim: usize,
    ) -> Option<LaunchError> {
        let k = self.key.dims@;
        let v = self.value.dims@;
        let dtypes = if self.key.dtype == dtype && self.value.dtype == dtype {
            None
        } else {
            Some(LaunchError::TailDtypes { key: self.key.dtype, value: self.value.dtype })
        };
        let shapes = if k =~= v && k[1] == num_kv_heads && k[2] == KVARN_GROUP && k[3]
            == head_dim {
            None
        } else {
            Some(LaunchError::TailMismatch)
        };
        let slots = earlier(
            dtype_fault(Operand::KeyTailSlots, self.key_slots.dtype, DType::I32),
            earlier(
                dtype_fault(Operand::ValueTailSlots, self.value_slots.dtype, DType::I32),
                earlier(
                    rank_fault(Operand::KeyTailSlots, self.key_slots.dims@, 1),
                    earlier(
                        rank_fault(Operand::ValueTailSlots, self.value_slots.dims@, 1),
                        earlier(
                            length_fault(
                                Operand::KeyTailSlots,
                                self.key_slots.dims@[0],
                                num_blocks as int,
                            ),
                            length_fault(
                                Operand::ValueTailSlots,
                                self.value_slots.dims@[0],
                                num_blocks as int,
                            ),
                        ),
                    ),
                ),
            ),
        );
        let places = earlier(
            place_fault(Operand::KeyTail, self.key.place),
            earlier(
                place_fault(Operand::ValueTail, self.value.place),
                earlier(
                    place_fault(Operand::KeyTailSlots, self.key_slots.place),
                    place_fault(Operand::ValueTailSlots, self.value_slots.place),
                ),
            ),
        );
        earlier(
            dtypes,
            earlier(
                rank_fault(Operand::KeyTail, k, 4),
                earlier(
                    rank_fault(Operand::ValueTail, v, 4),
                    earlier(shapes, earlier(slots, places)),
                ),
            ),
        )
    }

    /// Checks the pools of a decode.
    pub fn check(
        &self,
        dtype: DType,
        num_blocks: usize,
        num_kv_heads: usize,
        head_dim: usize,
    ) -> (fault: Option<LaunchError>)
        ensures
            fault == self.fault(dtype, num_blocks, num_kv_heads, head_dim),
    {
        if self.key.dtype != dtype || self.value.dtype != dtype {
            return Some(
                LaunchError::TailDtypes { key: self.key.dtype, value: self.value.dtype },
            );
        }
        if let Some(e) = check_rank(Operand::KeyTail, &self.key.dims, 4) {
            return Some(e);
        }
        if let Some(e) = check_rank(Operand::ValueTail, &self.value.dims, 4) {
            return Some(e);
        }
        if self.key.dims[0] != self.value.dims[0] || self.key.dims[1] != self.value.dims[1]
            || self.key.dims[2] != self.value.dims[2] || self.key.dims[3] != self.value.dims[3]
            || self.key.dims[1] != num_kv_heads || self.key.dims[2] != KVARN_GROUP
            || self.key.dims[3] != head_dim {
            return Some(LaunchError::TailMismatch);
        }
        if let Some(e) = check_dtype(Operand::KeyTailSlots, self.key_slots.dtype, DType::I32) {
            return Some(e);
        }
        if let Some(e) = check_dtype(Operand::ValueTailSlots, self.value_slots.dtype, DType::I32) {
            return Some(e);
        }
        if let Some(e) = check_rank(Operand::KeyTailSlots, &self.key_slots.dims, 1) {
            return Some(e);
        }
        if let Some(e) = check_rank(Operand::ValueTailSlots, &self.value_slots.dims, 1) {
            return Some(e);
        }
        if let Some(e) = check_length(Operand::KeyTailSlots, self.key_slots.dims[0], num_blocks) {
            return Some(e);
        }
        if let Some(e) = check_length(
            Operand::ValueTailSlots,
            self.value_slots.dims[0],
            num_blocks,
        ) {
            return Some(e);
        }
        if let Some(e) = check_place(Operand::KeyTail, self.key.place) {
            return Some(e);
        }
        if let Some(e) = check_place(Operand::ValueTail, self.value.place) {
            return Some(e);
        }
        if let Some(e) = check_place(Operand::KeyTailSlots, self.key_slots.place) {
            return Some(e);
        }
        check_place(Operand::ValueTailSlots, self.value_slots.place)
    }
}

impl KvarnDecodeInputs {
    /// The sequences, heads, query tokens and head dimension of the query.
    pub open spec fn query_shape(&self) -> (usize, usize, usize, usize) {
        let q = self.query.dims@;
        if q.len() == 3 {
            (q[0], q[1], 1, q[2])
        } else {
            (q[0], q[1], q[2], q[3])
        }
    }

    /// What is wrong with the query.
    pub open spec fn query_fault(&self, kernel: KvarnDecodeKernel) -> Option<LaunchError> {
        let rank = self.query.dims@.len();
        let (num_seqs, _, q_len, _) = self.query_shape();
        if rank != 3 && rank != 4 {
            Some(LaunchError::Rank { operand: Operand::Query, rank: rank as usize })
        } else if q_len != 1 {
            Some(LaunchError::QueryLength { q_len })
        } else if kernel == KvarnDecodeKernel::Mtp && rank != 3 {
            Some(LaunchError::Rank { operand: Operand::Query, rank: rank as usize })
        } else if kernel == KvarnDecodeKernel::Mtp && !(2 <= num_seqs <= 8) {
            Some(LaunchError::QueryRows { rows: num_seqs })
        } else {
            None
        }
    }

    /// What is wrong with the caches, for a query of good shape; their heads are looked at later.
    pub open spec fn cache_fault(&self) -> Option<LaunchError> {
        let kc = self.key_cache.dims@;
        let vc = self.value_cache.dims@;
        let (_, _, _, head_dim) = self.query_shape();
        let k_dim = key_dims_of(kc[2] as int);
        let v_dim = value_dims_of(vc[2] as int);
        let dims = if (kc[0], kc[1]) != (vc[0], vc[1]) {
            Some(LaunchError::CacheMismatch)
        } else if k_dim is None {
            Some(LaunchError::RecordBytes { operand: Operand::KeyCache, bytes: kc[2] })
        } else if v_dim is None {
            Some(LaunchError::RecordBytes { operand: Operand::ValueCache, bytes: vc[2] })
        } else if k_dim->0 != head_dim || v_dim->0 != head_dim {
            Some(
                LaunchError::HeadDim {
                    query: head_dim,
                    key: k_dim->0 as usize,
                    value: v_dim->0 as usize,
                },
            )
        } else if !is_decode_head_dim(head_dim) {
            Some(LaunchError::UnsupportedHeadDim { head_dim })
        } else {
            None
        };
        earlier(
            rank_fault(Operand::KeyCache, kc, 3),
            earlier(rank_fault(Operand::ValueCache, vc, 3), dims),
        )
    }

    /// What is wrong with the block tables and sequence lengths, for a query of good shape.
    pub open spec fn table_fault(&self) -> Option<LaunchError> {
        let (num_seqs, _, _, _) = self.query_shape();
        earlier(
            rank_fault(Operand::BlockTables, self.block_tables.dims@, 2),
            earlier(
                length_fault(Operand::BlockTables, self.block_tables.dims@[0], num_seqs as int),
                earlier(
                    rank_fault(Operand::CuSeqLens, self.cu_seq_lens.dims@, 1),
                    length_fault(Operand::CuSeqLens, self.cu_seq_lens.dims@[0], num_seqs + 1),
                ),
            ),
        )
    }

    /// What is wrong with the places of the tensors.
    pub open spec fn placing_fault(&self) -> Option<LaunchError> {
        earlier(
            place_fault(Operand::Query, self.query.place),
            earlier(
                place_fault(Operand::KeyCache, self.key_cache.place),
                earlier(
                    place_fault(Operand::ValueCache, self.value_cache.place),
                    earlier(
                        place_fault(Operand::BlockTables, self.block_tables.place),
                        place_fault(Operand::CuSeqLens, self.cu_seq_lens.place),
                    ),
                ),
            ),
        )
    }

    /// What is wrong with a decode launch before its heads are looked at: element types first,
    /// then the query and the caches.
    pub open spec fn fault_before_heads(&self, kernel: KvarnDecodeKernel) -> Option<LaunchError> {
        earlier(
            activation_fault(self.query.dtype),
            earlier(
                byte_caches_fault(self.key_cache.dtype, self.value_cache.dtype),
                earlier(
                    index_fault(Operand::BlockTables, self.block_tables.dtype),
                    earlier(
                        index_fault(Operand::CuSeqLens, self.cu_seq_lens.dtype),
                        earlier(self.query_fault(kernel), self.cache_fault()),
                    ),
                ),
            ),
        )
    }

    /// What is wrong with a decode launch: what comes before the heads, then the heads, the
    /// tables, the places and the tail pools.
    pub open spec fn fault(&self, kernel: KvarnDecodeKernel) -> Option<LaunchError> {
        let (_, num_heads, _, head_dim) = self.query_shape();
        let tail = match self.tail {
            Some(pool) => pool.fault(
                self.query.dtype,
                self.key_cache.dims@[0],
                self.key_cache.dims@[1],
                head_dim,
            ),
            None => None,
        };
        earlier(
            self.fault_before_heads(kernel),
            earlier(
                groups_fault(num_heads, self.key_cache.dims@[1]),
                earlier(self.table_fault(), earlier(self.placing_fault(), tail)),
            ),
        )
    }

    fn check_query(&self, kernel: KvarnDecodeKernel) -> (shape: Result<
        (usize, usize, usize, usize),
        LaunchError,
    >)
        ensures
            match shape {
                Ok(s) => self.query_fault(kernel) is None && s == self.query_shape(),
                Err(e) => self.query_fault(kernel) == Some(e),
            },
    {
        let rank: usize = self.query.dims.len();
        if rank != 3 && rank != 4 {
            return Err(LaunchError::Rank { operand: Operand::Query, rank });
        }
        let num_seqs: usize = self.query.dims[0];
        let num_heads: usize = self.query.dims[1];
        let q_len: usize = if rank == 3 {
            1
        } else {
            self.query.dims[2]
        };
        let head_dim: usize = self.query.dims[rank - 1];
        if q_len != 1 {
            return Err(LaunchError::QueryLength { q_len });
        }
        if kernel == KvarnDecodeKernel::Mtp {
            if rank != 3 {
                return Err(LaunchError::Rank { operand: Operand::Query, rank });
            }
            if num_seqs < 2 || num_seqs > 8 {
                return Err(LaunchError::QueryRows { rows: num_seqs });
            }
        }
        Ok((num_seqs, num_heads, q_len, head_dim))
    }

    fn check_caches(&self, head_dim: usize) -> (fault: Option<LaunchError>)
        requires
            head_dim == self.query_shape().3,
        ensures
            fault == self.cache_fault(),
    {
        if let Some(e) = check_rank(Operand::KeyCache, &self.key_cache.dims, 3) {
            return Some(e);
        }
        if let Some(e) = check_rank(Operand::ValueCache, &self.value_cache.dims, 3) {
            return Some(e);
        }
        let k_record_bytes: usize = self.key_cache.dims[2];
        let v_record_bytes: usize = self.value_cache.dims[2];
        if self.key_cache.dims[0] != self.value_cache.dims[0] || self.key_cache.dims[1]
            != self.value_cache.dims[1] {
            return Some(LaunchError::CacheMismatch);
        }
        let k_head_dim: usize = match k_head_dim_from_record_bytes(k_record_bytes) {
            Some(dims) => dims,
            None => {
                return Some(
                    LaunchError::RecordBytes { operand: Operand::KeyCache, bytes: k_record_bytes },
                );
            },
        };
        let v_head_dim: usize = match v_head_dim_from_record_bytes(v_record_bytes) {
            Some(dims) => dims,
            None => {
                return Some(
                    LaunchError::RecordBytes {
                        operand: Operand::ValueCache,
                        bytes: v_record_bytes,
                    },
                );
            },
        };
        if k_head_dim != head_dim || v_head_dim != head_dim {
            return Some(
                LaunchError::HeadDim { query: head_dim, key: k_head_dim, value: v_head_dim },
            );
        }
        if head_dim != 32 && head_dim != 64 && head_dim != 128 && head_dim != 256 && head_dim
            != 512 {
            return Some(LaunchError::UnsupportedHeadDim { head_dim });
        }
        None
    }

    fn check_tables(&self, num_seqs: usize) -> (fault: Option<LaunchError>)
        requires
            num_seqs == self.query_shape().0,
        ensures
            fault == self.table_fault(),
    {
        if let Some(e) = check_rank(Operand::BlockTables, &self.block_tables.dims, 2) {
            return Some(e);
        }
        if let Some(e) = check_length(Operand::BlockTables, self.block_tables.dims[0], num_seqs) {
            return Some(e);
        }
        if let Some(e) = check_rank(Operand::CuSeqLens, &self.cu_seq_lens.dims, 1) {
            return Some(e);
        }
        check_length_after(Operand::CuSeqLens, self.cu_seq_lens.dims[0], num_seqs)
    }

    fn check_places(&self) -> (fault: Option<LaunchError>)
        ensures
            fault == self.placing_fault(),
    {
        if let Some(e) = check_place(Operand::Query, self.query.place) {
            return Some(e);
        }
        if let Some(e) = check_place(Operand::KeyCache, self.key_cache.place) {
            return Some(e);
        }
        if let Some(e) = check_place(Operand::ValueCache, self.value_cache.place) {
            return Some(e);
        }
        if let Some(e) = check_place(Operand::BlockTables, self.block_tables.place) {
            return Some(e);
        }
        check_place(Operand::CuSeqLens, self.cu_seq_lens.place)
    }

    /// Checks what comes before the heads; gives the shape of the query.
    pub fn check_before_heads(&self, kernel: KvarnDecodeKernel) -> (shape: Result<
        (usize, usize, usize, usize),
        LaunchError,
    >)
        ensures
            match shape {
                Ok(s) => self.fault_before_heads(kernel) is None && s == self.query_shape(),
                Err(e) => self.fault_before_heads(kernel) == Some(e),
            },
    {
        if dtype_code(self.query.dtype).is_none() {
            return Err(LaunchError::UnsupportedDtype { dtype: self.query.dtype });
        }
        if let Some(e) = check_byte_caches(self.key_cache.dtype, self.value_cache.dtype) {
            return Err(e);
        }
        if let Some(e) = check_index(Operand::BlockTables, self.block_tables.dtype) {
            return Err(e);
        }
        if let Some(e) = check_index(Operand::CuSeqLens, self.cu_seq_lens.dtype) {
            return Err(e);
        }
        let shape: (usize, usize, usize, usize) = self.check_query(kernel)?;
        match self.check_caches(shape.3) {
            Some(e) => Err(e),
            None => Ok(shape),
        }
    }

    /// Plans a decode launch. The output has the shape of the query.
    pub fn plan(&self, kernel: KvarnDecodeKernel, cc61: bool) -> (plan: Result<
        KvarnDecodePlan,
        LaunchError,
    >)
        requires
            self.fault_before_heads(kernel) is None ==> self.key_cache.dims@[1] != 0,
        ensures
            match plan {
                Ok(p) => {
                    let (num_seqs, num_heads, _, head_dim) = self.query_shape();
                    &&& self.fault(kernel) is None
                    &&& p.kernel == kernel
                    &&& p.cc61 == cc61
                    &&& p.with_tail == self.tail is Some
                    &&& p.out_dims@ == self.query.dims@
                    &&& p.num_seqs == num_seqs
                    &&& p.block_table_stride == self.block_tables.dims@[1]
                    &&& p.num_heads == num_heads
                    &&& p.num_kv_heads == self.key_cache.dims@[1]
                    &&& p.head_dim == head_dim
                    &&& p.k_record_bytes == self.key_cache.dims@[2]
                    &&& p.v_record_bytes == self.value_cache.dims@[2]
                    &&& spec_dtype_code(self.query.dtype) == Some(p.dtype_code)
                },
                Err(e) => self.fault(kernel) == Some(e),
            },
    {
        let (num_seqs, num_heads, _q_len, head_dim) = self.check_before_heads(kernel)?;
        let code: u32 = match dtype_code(self.query.dtype) {
            Some(code) => code,
            None => {
                return Err(LaunchError::UnsupportedDtype { dtype: self.query.dtype });
            },
        };
        if let Some(e) = check_groups(num_heads, self.key_cache.dims[1]) {
            return Err(e);
        }
        if let Some(e) = self.check_tables(num_seqs) {
            return Err(e);
        }
        if let Some(e) = self.check_places() {
            return Err(e);
        }
        let num_blocks: usize = self.key_cache.dims[0];
        let num_kv_heads: usize = self.key_cache.dims[1];
        if let Some(pool) = &self.tail {
            if let Some(e) = pool.check(self.query.dtype, num_blocks, num_kv_heads, head_dim) {
                return Err(e);
            }
        }
        let mut out_dims: Vec<usize> = Vec::new();
        out_dims.push(num_seqs);
        out_dims.push(num_heads);
        if self.query.dims.len() == 4 {
            out_dims.push(1);
        }
        out_dims.push(head_dim);
        assert(out_dims@ =~= self.query.dims@);
        Ok(
            KvarnDecodePlan {
                kernel,
                cc61,
                with_tail: self.tail.is_some(),
                out_dims,
                num_seqs,
                block_table_stride: self.block_tables.dims[1],
                num_heads,
                num_kv_heads,
                head_dim,
                k_record_bytes: self.key_cache.dims[2],
                v_record_bytes: self.value_cache.dims[2],
                dtype_code: code,
            },
        )
    }
}

/// The tensors of a launch that stores rows in the tail pools.
pub struct KvarnStoreInputs {
    pub key: TensorDesc,
    pub value: TensorDesc,
    pub key_cache: TensorDesc,
    pub value_cache: TensorDesc,
    pub key_tail_pool: TensorDesc,
    pub value_tail_pool: TensorDesc,
    pub slot_mapping: TensorDesc,
    pub key_tail_slots: TensorDesc,
    pub value_tail_slots: TensorDesc,
}

/// What the storing kernel is launched with. The strides are those of contiguous rows.
#[derive(Clone, Copy, Debug, PartialEq, Eq, Structural)]
pub struct KvarnStorePlan {
    pub num_tokens: usize,
    pub num_heads: usize,
    pub head_dim: usize,
    pub block_size: usize,
    pub num_blocks: usize,
    pub key_record_bytes: usize,
    pub value_record_bytes: usize,
    pub num_tail_slots: usize,
    pub key_stride: usize,
    pub value_stride: usize,
    pub dtype_code: u32,
}

impl KvarnStoreInputs {
    /// What is wrong with the element types.
    pub open spec fn dtypes_fault(&self) -> Option<LaunchError> {
        let key = self.key.dtype;
        let inputs = if self.value.dtype != key {
            Some(LaunchError::OperandDtype { operand: Operand::Value, dtype: self.value.dtype })
        } else if self.key_tail_pool.dtype != key || self.value_tail_pool.dtype != key {
            Some(
                LaunchError::TailDtypes {
                    key: self.key_tail_pool.dtype,
                    value: self.value_tail_pool.dtype,
                },
            )
        } else {
            None
        };
        earlier(
            inputs,
            earlier(
                dtype_fault(Operand::SlotMapping, self.slot_mapping.dtype, DType::I64),
                earlier(
                    dtype_fault(Operand::KeyTailSlots, self.key_tail_slots.dtype, DType::I32),
                    dtype_fault(Operand::ValueTailSlots, self.value_tail_slots.dtype, DType::I32),
                ),
            ),
        )
    }

    /// What is wrong with the shapes of the rows and pools.
    pub open spec fn pools_fault(&self) -> Option<LaunchError> {
        let k = self.key.dims@;
        let v = self.value.dims@;
        let kt = self.key_tail_pool.dims@;
        let vt = self.value_tail_pool.dims@;
        let inputs = if k =~= v {
            None
        } else {
            Some(LaunchError::InputMismatch)
        };
        let pools = if kt =~= vt && kt[1] == k[1] && kt[2] == KVARN_GROUP && kt[3] == k[2] {
            None
        } else {
            Some(LaunchError::TailMismatch)
        };
        earlier(
            rank_fault(Operand::Key, k, 3),
            earlier(
                rank_fault(Operand::Value, v, 3),
                earlier(
                    inputs,
                    earlier(
                        rank_fault(Operand::KeyTail, kt, 4),
                        earlier(rank_fault(Operand::ValueTail, vt, 4), pools),
                    ),
                ),
            ),
        )
    }

    /// What is wrong with the slot tensors. A slot tensor of the wrong rank comes before one of
    /// the wrong length.
    pub open spec fn slots_fault(&self) -> Option<LaunchError> {
        let tokens = self.key.dims@[0] as int;
        earlier(
            rank_fault(Operand::SlotMapping, self.slot_mapping.dims@, 1),
            earlier(
                rank_fault(Operand::KeyTailSlots, self.key_tail_slots.dims@, 1),
                earlier(
                    rank_fault(Operand::ValueTailSlots, self.value_tail_slots.dims@, 1),
                    earlier(
                        length_fault(Operand::SlotMapping, self.slot_mapping.dims@[0], tokens),
                        earlier(
                            length_fault(
                                Operand::KeyTailSlots,
                                self.key_tail_slots.dims@[0],
                                tokens,
                            ),
                            length_fault(
                                Operand::ValueTailSlots,
                                self.value_tail_slots.dims@[0],
                                tokens,
                            ),
                        ),
                    ),
                ),
            ),
        )
    }

    /// What is wrong with the caches.
    pub open spec fn caches_fault(&self) -> Option<LaunchError> {
        let kc = self.key_cache.dims@;
        let vc = self.value_cache.dims@;
        let shapes = if (kc[0], kc[1]) == (vc[0], vc[1]) && kc[1] == self.key.dims@[1] {
            None
        } else {
            Some(LaunchError::CacheMismatch)
        };
        earlier(
            byte_caches_fault(self.key_cache.dtype, self.value_cache.dtype),
            earlier(
                rank_fault(Operand::KeyCache, kc, 3),
                earlier(rank_fault(Operand::ValueCache, vc, 3), shapes),
            ),
        )
    }

    /// What is wrong with the places of the tensors.
    pub open spec fn placing_fault(&self) -> Option<LaunchError> {
        earlier(
            place_fault(Operand::Key, self.key.place),
            earlier(
                place_fault(Operand::Value, self.value.place),
                earlier(
                    place_fault(Operand::KeyTail, self.key_tail_pool.place),
                    earlier(
                        place_fault(Operand::ValueTail, self.value_tail_pool.place),
                        earlier(
                            place_fault(Operand::SlotMapping, self.slot_mapping.place),
                            earlier(
                                place_fault(Operand::KeyTailSlots, self.key_tail_slots.place),
                                earlier(
                                    place_fault(
                                        Operand::ValueTailSlots,
                                        self.value_tail_slots.place,
                                    ),
                                    earlier(
                                        place_fault(Operand::KeyCache, self.key_cache.place),
                                        place_fault(Operand::ValueCache, self.value_cache.place),
                                    ),
                                ),
                            ),
                        ),
                    ),
                ),
            ),
        )
    }

    /// What is wrong with a launch: element types first, then rows and pools, slots, caches and
    /// places.
    pub open spec fn fault(&self) -> Option<LaunchError> {
        earlier(
            activation_fault(self.key.dtype),
            earlier(
                self.dtypes_fault(),
                earlier(
                    self.pools_fault(),
                    earlier(
                        self.slots_fault(),
                        earlier(self.caches_fault(), self.placing_fault()),
                    ),
                ),
            ),
        )
    }

    fn check_dtypes(&self) -> (fault: Option<LaunchError>)
        ensures
            fault == self.dtypes_fault(),
    {
        if self.value.dtype != self.key.dtype {
            return Some(
                LaunchError::OperandDtype { operand: Operand::Value, dtype: self.value.dtype },
            );
        }
        if self.key_tail_pool.dtype != self.key.dtype || self.value_tail_pool.dtype
            != self.key.dtype {
            return Some(
                LaunchError::TailDtypes {
                    key: self.key_tail_pool.dtype,
                    value: self.value_tail_pool.dtype,
                },
            );
        }
        if let Some(e) = check_dtype(Operand::SlotMapping, self.slot_mapping.dtype, DType::I64) {
            return Some(e);
        }
        if let Some(e) = check_dtype(
            Operand::KeyTailSlots,
            self.key_tail_slots.dtype,
            DType::I32,
        ) {
            return Some(e);
        }
        check_dtype(Operand::ValueTailSlots, self.value_tail_slots.dtype, DType::I32)
    }

    fn check_pools(&self) -> (fault: Option<LaunchError>)
        ensures
            fault == self.pools_fault(),
    {
        if let Some(e) = check_rank(Operand::Key, &self.key.dims, 3) {
            return Some(e);
        }
        if let Some(e) = check_rank(Operand::Value, &self.value.dims, 3) {
            return Some(e);
        }
        if self.key.dims[0] != self.value.dims[0] || self.key.dims[1] != self.value.dims[1]
            || self.key.dims[2] != self.value.dims[2] {
            return Some(LaunchError::InputMismatch);
        }
        if let Some(e) = check_rank(Operand::KeyTail, &self.key_tail_pool.dims, 4) {
            return Some(e);
        }
        if let Some(e) = check_rank(Operand::ValueTail, &self.value_tail_pool.dims, 4) {
            return Some(e);
        }
        let kt: &Vec<usize> = &self.key_tail_pool.dims;
        let vt: &Vec<usize> = &self.value_tail_pool.dims;
        if kt[0] != vt[0] || kt[1] != vt[1] || kt[2] != vt[2] || kt[3] != vt[3] || kt[1]
            != self.key.dims[1] || kt[3] != self.key.dims[2] || kt[2] != KVARN_GROUP {
            return Some(LaunchError::TailMismatch);
        }
        None
    }

    fn check_slots(&self) -> (fault: Option<LaunchError>)
        requires
            self.key.dims.len() == 3,
        ensures
            fault == self.slots_fault(),
    {
        let num_tokens: usize = self.key.dims[0];
        if let Some(e) = check_rank(Operand::SlotMapping, &self.slot_mapping.dims, 1) {
            return Some(e);
        }
        if let Some(e) = check_rank(Operand::KeyTailSlots, &self.key_tail_slots.dims, 1) {
            return Some(e);
        }
        if let Some(e) = check_rank(Operand::ValueTailSlots, &self.value_tail_slots.dims, 1) {
            return Some(e);
        }
        if let Some(e) = check_length(
            Operand::SlotMapping,
            self.slot_mapping.dims[0],
            num_tokens,
        ) {
            return Some(e);
        }
        if let Some(e) = check_length(
            Operand::KeyTailSlots,
            self.key_tail_slots.dims[0],
            num_tokens,
        ) {
            return Some(e);
        }
        check_length(Operand::ValueTailSlots, self.value_tail_slots.dims[0], num_tokens)
    }

    fn check_caches(&self) -> (fault: Option<LaunchError>)
        requires
            self.key.dims.len() == 3,
        ensures
            fault == self.caches_fault(),
    {
        if let Some(e) = check_byte_caches(self.key_cache.dtype, self.value_cache.dtype) {
            return Some(e);
        }
        if let Some(e) = check_rank(Operand::KeyCache, &self.key_cache.dims, 3) {
            return Some(e);
        }
        if let Some(e) = check_rank(Operand::ValueCache, &self.value_cache.dims, 3) {
            return Some(e);
        }
        if self.key_cache.dims[0] != self.value_cache.dims[0] || self.key_cache.dims[1]
            != self.value_cache.dims[1] || self.key_cache.dims[1] != self.key.dims[1] {
            return Some(LaunchError::CacheMismatch);
        }
        None
    }

    fn check_places(&self) -> (fault: Option<LaunchError>)
        ensures
            fault == self.placing_fault(),
    {
        if let Some(e) = check_place(Operand::Key, self.key.place) {
            return Some(e);
        }
        if let Some(e) = check_place(Operand::Value, self.value.place) {
            return Some(e);
        }
        if let Some(e) = check_place(Operand::KeyTail, self.key_tail_pool.place) {
            return Some(e);
        }
        if let Some(e) = check_place(Operand::ValueTail, self.value_tail_pool.place) {
            return Some(e);
        }
        if let Some(e) = check_place(Operand::SlotMapping, self.slot_mapping.place) {
            return Some(e);
        }
        if let Some(e) = check_place(Operand::KeyTailSlots, self.key_tail_slots.place) {
            return Some(e);
        }
        if let Some(e) = check_place(Operand::ValueTailSlots, self.value_tail_slots.place) {
            return Some(e);
        }
        if let Some(e) = check_place(Operand::KeyCache, self.key_cache.place) {
            return Some(e);
        }
        check_place(Operand::ValueCache, self.value_cache.place)
    }

    /// Plans a launch that stores rows in the tail pools.
    pub fn plan(&self) -> (plan: Result<KvarnStorePlan, LaunchError>)
        requires
            self.fault() is None ==> self.key.dims@[1] * self.key.dims@[2] <= usize::MAX,
        ensures
            match plan {
                Ok(p) => {
                    &&& self.fault() is None
                    &&& p.num_tokens == self.key.dims@[0]
                    &&& p.num_heads == self.key.dims@[1]
                    &&& p.head_dim == self.key.dims@[2]
                    &&& p.block_size == KVARN_GROUP
                    &&& p.num_blocks == self.key_cache.dims@[0]
                    &&& p.key_record_bytes == self.key_cache.dims@[2]
                    &&& p.value_record_bytes == self.value_cache.dims@[2]
                    &&& p.num_tail_slots == self.key_tail_pool.dims@[0]
                    &&& p.key_stride == self.key.dims@[1] * self.key.dims@[2]
                    &&& p.value_stride == self.value.dims@[1] * self.value.dims@[2]
                    &&& spec_dtype_code(self.key.dtype) == Some(p.dtype_code)
                },
                Err(e) => self.fault() == Some(e),
            },
    {
        let code: u32 = match dtype_code(self.key.dtype) {
            Some(code) => code,
            None => {
                return Err(LaunchError::UnsupportedDtype { dtype: self.key.dtype });
            },
        };
        if let Some(e) = self.check_dtypes() {
            return Err(e);
        }
        if let Some(e) = self.check_pools() {
            return Err(e);
        }
        if let Some(e) = self.check_slots() {
            return Err(e);
        }
        if let Some(e) = self.check_caches() {
            return Err(e);
        }
        if let Some(e) = self.check_places() {
            return Err(e);
        }
        Ok(
            KvarnStorePlan {
                num_tokens: self.key.dims[0],
                num_heads: self.key.dims[1],
                head_dim: self.key.dims[2],
                block_size: KVARN_GROUP,
                num_blocks: self.key_cache.dims[0],
                key_record_bytes: self.key_cache.dims[2],
                value_record_bytes: self.value_cache.dims[2],
                num_tail_slots: self.key_tail_pool.dims[0],
                key_stride: self.key.dims[1] * self.key.dims[2],
                value_stride: self.value.dims[1] * self.value.dims[2],
                dtype_code: code,
            },
        )
    }
}

/// A decode that is launched reads records of exactly its own head dimension, and every query
/// head has a cache head.
pub proof fn launched_decode_fits_its_cache(inputs: KvarnDecodeInputs, kernel: KvarnDecodeKernel)
    requires
        inputs.fault(kernel) is None,
    ensures
        key_dims_of(inputs.key_cache.dims@[2] as int) == Some(inputs.query_shape().3 as int),
        value_dims_of(inputs.value_cache.dims@[2] as int) == Some(inputs.query_shape().3 as int),
        inputs.query_shape().1 as int % inputs.key_cache.dims@[1] as int == 0,
        inputs.query_shape().2 == 1,
        kernel == KvarnDecodeKernel::Mtp ==> 2 <= inputs.query_shape().0 <= 8,
{
}

/// The kernels are built for the powers of two from 32 to 512.
pub proof fn decode_dimensions_are_powers_of_two(head_dim: usize)
    ensures
        is_decode_head_dim(head_dim) <==> crate::arith::is_power_of_two(head_dim as nat) && 32
            <= head_dim <= 512,
{
    assert(crate::arith::is_power_of_two(1));
    assert(crate::arith::is_power_of_two(2));
    assert(crate::arith::is_power_of_two(4));
    assert(crate::arith::is_power_of_two(8));
    assert(crate::arith::is_power_of_two(16));
    assert(crate::arith::is_power_of_two(32));
    assert(crate::arith::is_power_of_two(64));
    assert(crate::arith::is_power_of_two(128));
    assert(crate::arith::is_power_of_two(256));
    assert(crate::arith::is_power_of_two(512));
    let n = head_dim as nat;
    if crate::arith::is_power_of_two(n) && 32 <= n <= 512 {
        reveal_with_fuel(crate::arith::is_power_of_two, 11);
    }
}

/// The pools of a decode fit exactly if they are of the type of the query and of one shape, with
/// a group of rows of the head dimension for each slot and head, and each block has its slot in
/// either, in 32-bit integers, all on a CUDA device.
pub proof fn tail_pools_fit_their_cache(
    pool: TailPool,
    dtype: DType,
    num_blocks: usize,
    num_kv_heads: usize,
    head_dim: usize,
)
    requires
        pool.key.dims@.len() == 4,
        pool.value.dims@.len() == 4,
        pool.key_slots.dims@.len() == 1,
        pool.value_slots.dims@.len() == 1,
    ensures
        pool.fault(dtype, num_blocks, num_kv_heads, head_dim) is None <==> {
            &&& pool.key.dtype == dtype && pool.value.dtype == dtype
            &&& pool.key.dims@ == seq![pool.key.dims@[0], num_kv_heads, 128usize, head_dim]
            &&& pool.value.dims@ == pool.key.dims@
            &&& pool.key_slots.dtype == DType::I32 && pool.value_slots.dtype == DType::I32
            &&& pool.key_slots.dims@[0] == num_blocks && pool.value_slots.dims@[0] == num_blocks
            &&& pool.key.place == Place::Cuda && pool.value.place == Place::Cuda
                && pool.key_slots.place == Place::Cuda && pool.value_slots.place == Place::Cuda
        },
{
    let (k, v) = (pool.key.dims@, pool.value.dims@);
    let shape = seq![k[0], num_kv_heads, 128usize, head_dim];
    assert(k == shape <==> k =~= shape);
    assert(v == k <==> v =~= k);
    if k =~= shape {
        assert(k[1] == num_kv_heads && k[2] == 128 && k[3] == head_dim);
    }
}

/// A decode is launched exactly if the query is of a type that the kernels take, with one token
/// for each sequence, and from two to eight rows in three dimensions for the kernel that takes a
/// few; the caches hold bytes and have equal blocks and heads, and records of the head dimension
/// of the query, for which there are kernels; the query heads are shared out evenly; each
/// sequence has its block table and its length; all are on a CUDA device; and the pools fit.
pub proof fn decodes_fit_together(inputs: KvarnDecodeInputs, kernel: KvarnDecodeKernel)
    requires
        inputs.query.dims@.len() == 3 || inputs.query.dims@.len() == 4,
        inputs.key_cache.dims@.len() == 3,
        inputs.value_cache.dims@.len() == 3,
        inputs.block_tables.dims@.len() == 2,
        inputs.cu_seq_lens.dims@.len() == 1,
    ensures
        inputs.fault(kernel) is None <==> {
            let q = inputs.query.dims@;
            let (kc, vc) = (inputs.key_cache.dims@, inputs.value_cache.dims@);
            let head_dim = q[q.len() - 1];
            &&& inputs.query.dtype == DType::F16 || inputs.query.dtype == DType::BF16
                || inputs.query.dtype == DType::F32
            &&& inputs.key_cache.dtype == DType::U8 && inputs.value_cache.dtype == DType::U8
            &&& inputs.block_tables.dtype == DType::I32 || inputs.block_tables.dtype == DType::U32
            &&& inputs.cu_seq_lens.dtype == DType::I32 || inputs.cu_seq_lens.dtype == DType::U32
            &&& q.len() == 4 ==> q[2] == 1
            &&& kernel == KvarnDecodeKernel::Mtp ==> q.len() == 3 && 2 <= q[0] <= 8
            &&& kc[0] == vc[0] && kc[1] == vc[1]
            &&& kc[2] == 257 + 68 * head_dim
            &&& vc[2] == 513 + 34 * head_dim
            &&& is_decode_head_dim(head_dim)
            &&& q[1] as int % kc[1] as int == 0
            &&& inputs.block_tables.dims@[0] == q[0]
            &&& inputs.cu_seq_lens.dims@[0] == q[0] + 1
            &&& inputs.query.place == Place::Cuda && inputs.key_cache.place == Place::Cuda
                && inputs.value_cache.place == Place::Cuda && inputs.block_tables.place
                == Place::Cuda && inputs.cu_seq_lens.place == Place::Cuda
            &&& inputs.tail matches Some(pool) ==> pool.fault(
                inputs.query.dtype,
                kc[0],
                kc[1],
                head_dim,
            ) is None
        },
{
    let q = inputs.query.dims@;
    let head_dim = q[q.len() - 1];
    crate::kvarn::layout::record_size_is_taken_for_its_dimension(
        inputs.key_cache.dims@[2] as int,
        head_dim as int,
    );
    crate::kvarn::layout::record_size_is_taken_for_its_dimension(
        inputs.value_cache.dims@[2] as int,
        head_dim as int,
    );
}

/// Rows are stored exactly if keys, values and pools are of one type that the kernels take, keys
/// and values of one shape, the pools of one shape with a group of such rows for each slot and
/// head, each token has its slot and its slots in the pools, the caches hold bytes and have equal
/// blocks and the heads of the keys, and all are on a CUDA device.
pub proof fn stores_fit_together(inputs: KvarnStoreInputs)
    requires
        inputs.key.dims@.len() == 3,
        inputs.value.dims@.len() == 3,
        inputs.key_cache.dims@.len() == 3,
        inputs.value_cache.dims@.len() == 3,
        inputs.key_tail_pool.dims@.len() == 4,
        inputs.value_tail_pool.dims@.len() == 4,
        inputs.slot_mapping.dims@.len() == 1,
        inputs.key_tail_slots.dims@.len() == 1,
        inputs.value_tail_slots.dims@.len() == 1,
    ensures
        inputs.fault() is None <==> {
            let k = inputs.key.dims@;
            let (kc, vc) = (inputs.key_cache.dims@, inputs.value_cache.dims@);
            let kt = inputs.key_tail_pool.dims@;
            &&& inputs.key.dtype == DType::F16 || inputs.key.dtype == DType::BF16
                || inputs.key.dtype == DType::F32
            &&& inputs.value.dtype == inputs.key.dtype
            &&& inputs.key_tail_pool.dtype == inputs.key.dtype && inputs.value_tail_pool.dtype
                == inputs.key.dtype
            &&& inputs.slot_mapping.dtype == DType::I64
            &&& inputs.key_tail_slots.dtype == DType::I32 && inputs.value_tail_slots.dtype
                == DType::I32
            &&& inputs.value.dims@ == k
            &&& kt == seq![kt[0], k[1], 128usize, k[2]]
            &&& inputs.value_tail_pool.dims@ == kt
            &&& inputs.slot_mapping.dims@[0] == k[0]
            &&& inputs.key_tail_slots.dims@[0] == k[0] && inputs.value_tail_slots.dims@[0] == k[0]
            &&& inputs.key_cache.dtype == DType::U8 && inputs.value_cache.dtype == DType::U8
            &&& kc[0] == vc[0] && kc[1] == vc[1] && kc[1] == k[1]
            &&& inputs.key.place == Place::Cuda && inputs.value.place == Place::Cuda
                && inputs.key_tail_pool.place == Place::Cuda && inputs.value_tail_pool.place
                == Place::Cuda && inputs.slot_mapping.place == Place::Cuda
                && inputs.key_tail_slots.place == Place::Cuda && inputs.value_tail_slots.place
                == Place::Cuda && inputs.key_cache.place == Place::Cuda && inputs.value_cache.place
                == Place::Cuda
        },
{
    let (k, v) = (inputs.key.dims@, inputs.value.dims@);
    let (kt, vt) = (inputs.key_tail_pool.dims@, inputs.value_tail_pool.dims@);
    let shape = seq![kt[0], k[1], 128usize, k[2]];
    assert(v == k <==> v =~= k);
    assert(vt == kt <==> vt =~= kt);
    assert(kt == shape <==> kt =~= shape);
    if kt =~= shape {
        assert(kt[1] == k[1] && kt[2] == 128 && kt[3] == k[2]);
    }
}

/// What is wrong with a decode is named with what it is about.
pub proof fn decode_faults_name_what_is_wrong(
    inputs: KvarnDecodeInputs,
    kernel: KvarnDecodeKernel,
)
    ensures
        ({
            let fault = inputs.fault(kernel);
            let q = inputs.query.dims@;
            let kc = inputs.key_cache.dims@;
            let vc = inputs.value_cache.dims@;
            &&& fault matches Some(LaunchError::UnsupportedDtype { dtype }) ==> dtype
                == inputs.query.dtype
            &&& fault matches Some(LaunchError::CacheDtypes { key, value }) ==> key
                == inputs.key_cache.dtype && value == inputs.value_cache.dtype
            &&& fault matches Some(LaunchError::QueryLength { q_len }) ==> q.len() == 4 && q_len
                == q[2] && q_len != 1
            &&& fault matches Some(LaunchError::QueryRows { rows }) ==> rows == q[0] && (rows < 2
                || rows > 8)
            &&& fault matches Some(LaunchError::RecordBytes { operand, bytes }) ==> {
                ||| operand == Operand::KeyCache && bytes == kc[2] && key_dims_of(
                    bytes as int,
                ) is None
                ||| operand == Operand::ValueCache && bytes == vc[2] && value_dims_of(
                    bytes as int,
                ) is None
            }
            &&& fault matches Some(LaunchError::HeadDim { query, key, value }) ==> {
                &&& query == q.last()
                &&& key == key_dims_of(kc[2] as int)->0 as usize
                &&& value == value_dims_of(vc[2] as int)->0 as usize
            }
            &&& fault matches Some(LaunchError::UnsupportedHeadDim { head_dim }) ==> head_dim
                == q.last()
            &&& fault matches Some(LaunchError::HeadGroups { num_heads, num_kv_heads })
                ==> num_heads == q[1] && num_kv_heads == kc[1]
        }),
{
}

/// What is wrong with a store is named with what it is about.
pub proof fn store_faults_name_what_is_wrong(inputs: KvarnStoreInputs)
    ensures
        inputs.dtypes_fault() matches Some(LaunchError::TailDtypes { key, value }) ==> key
            == inputs.key_tail_pool.dtype && value == inputs.value_tail_pool.dtype,
        inputs.dtypes_fault() matches Some(LaunchError::OperandDtype { operand, dtype }) ==> {
            ||| operand == Operand::Value && dtype == inputs.value.dtype && dtype
                != inputs.key.dtype
            ||| operand == Operand::SlotMapping && dtype == inputs.slot_mapping.dtype && dtype
                != DType::I64
            ||| operand == Operand::KeyTailSlots && dtype == inputs.key_tail_slots.dtype && dtype
                != DType::I32
            ||| operand == Operand::ValueTailSlots && dtype == inputs.value_tail_slots.dtype
                && dtype != DType::I32
        },
{
}

} // verus!
