//! Writing rows into a KVarN cache and finding them again.
use crate::bytes::{copy_range, splice, spliced, spliced_reads_back};
use crate::dtype::DType;
use crate::kvarn::layout::{
    key_head_dim_from_record_bytes, key_record_bytes, key_record_fault, key_record_len,
    key_record_size_tells_head_dim, record_offset, record_start, records_are_disjoint,
    records_fill_the_cache, shape_fault, value_head_dim_from_record_bytes, value_record_bytes,
    value_record_fault, value_record_len, value_record_size_tells_head_dim, KvarnLayoutError,
    KVARN_GROUP, STATUS_OFFSET, STATUS_QUANTIZED, STATUS_RAW,
};
use crate::flags::{flag_or, reads_as_on};
use crate::kvarn::tail::{
    load_tail_row, stored_row_reads_back, with_row, zero_block, TailStore,
};
use crate::tensor::{Place, TensorDesc};
use vstd::prelude::*;

verus! {

/// Why a KVarN cache operation is refused.
#[derive(Clone, Copy, Debug, PartialEq, Eq, Structural)]
pub enum KvarnError {
    /// A cache is not a rank-three tensor of bytes.
    NotKvarnCache,
    /// The keys or values do not have rank three.
    InputRank,
    /// Keys and values differ in tokens or heads.
    InputMismatch,
    /// The caches differ in blocks or heads, or have other heads than the input.
    CacheMismatch,
    /// The head dimension or block size has no records.
    Layout(KvarnLayoutError),
    /// The records of the caches have another size than the input asks for.
    RecordSize { key: usize, value: usize },
    /// There are not as many slots as tokens.
    SlotCount { slots: usize, tokens: usize },
}

/// Whether a tensor can be a KVarN cache.
pub open spec fn is_kvarn(dtype: DType, rank: int) -> bool {
    dtype == DType::U8 && rank == 3
}

/// Whether a tensor can be a KVarN cache.
pub fn is_kvarn_cache(cache: &TensorDesc) -> (yes: bool)
    ensures
        yes == is_kvarn(cache.dtype, cache.dims.len() as int),
{
    cache.dtype == DType::U8 && cache.dims.len() == 3
}

/// The shapes that writing rows works with.
#[derive(Clone, Copy, Debug, PartialEq, Eq, Structural)]
pub struct ReshapeShape {
    pub num_tokens: usize,
    pub num_heads: usize,
    pub num_blocks: usize,
    pub k_head_dim: usize,
    pub v_head_dim: usize,
    pub k_record_bytes: usize,
    pub v_record_bytes: usize,
}

/// What is wrong with the tensors of a write before their records are looked at: the kind of the
/// caches first, then the inputs, then how both go together.
pub open spec fn reshape_fault_before_records(
    key: TensorDesc,
    value: TensorDesc,
    key_cache: TensorDesc,
    value_cache: TensorDesc,
) -> Option<KvarnError> {
    if !is_kvarn(key_cache.dtype, key_cache.dims.len() as int) || !is_kvarn(
        value_cache.dtype,
        value_cache.dims.len() as int,
    ) {
        Some(KvarnError::NotKvarnCache)
    } else if key.dims.len() != 3 || value.dims.len() != 3 {
        Some(KvarnError::InputRank)
    } else if (key.dims@[0], key.dims@[1]) != (value.dims@[0], value.dims@[1]) {
        Some(KvarnError::InputMismatch)
    } else if (key_cache.dims@[0], key_cache.dims@[1]) != (
        value_cache.dims@[0],
        value_cache.dims@[1],
    ) || key_cache.dims@[1] != key.dims@[1] {
        Some(KvarnError::CacheMismatch)
    } else {
        None
    }
}

/// What is wrong with the tensors of a write, in the order in which it is looked at.
pub open spec fn reshape_fault(
    key: TensorDesc,
    value: TensorDesc,
    key_cache: TensorDesc,
    value_cache: TensorDesc,
) -> Option<KvarnError> {
    let k = key.dims@[2];
    let v = value.dims@[2];
    let before = reshape_fault_before_records(key, value, key_cache, value_cache);
    if before is Some {
        before
    } else if let Some(fault) = shape_fault(k, KVARN_GROUP) {
        Some(KvarnError::Layout(fault))
    } else if let Some(fault) = shape_fault(v, KVARN_GROUP) {
        Some(KvarnError::Layout(fault))
    } else if key_cache.dims@[2] != key_record_len(k as int, 128) || value_cache.dims@[2]
        != value_record_len(v as int, 128) {
        Some(KvarnError::RecordSize { key: key_cache.dims@[2], value: value_cache.dims@[2] })
    } else {
        None
    }
}

/// Whether the records of these head dimensions can be counted in a `usize`, up to the first
/// dimension that has none.
pub open spec fn records_are_countable(k: usize, v: usize) -> bool {
    shape_fault(k, KVARN_GROUP) is None ==> {
        &&& key_record_len(k as int, 128) <= usize::MAX
        &&& shape_fault(v, KVARN_GROUP) is None ==> value_record_len(v as int, 128) <= usize::MAX
    }
}

/// Checks the tensors of a write and gives the shapes it works with.
pub fn check_reshape(
    key: &TensorDesc,
    value: &TensorDesc,
    key_cache: &TensorDesc,
    value_cache: &TensorDesc,
) -> (shape: Result<ReshapeShape, KvarnError>)
    requires
        reshape_fault_before_records(*key, *value, *key_cache, *value_cache) is None
            ==> records_are_countable(key.dims@[2], value.dims@[2]),
    ensures
        match shape {
            Ok(s) => {
                &&& reshape_fault(*key, *value, *key_cache, *value_cache) is None
                &&& s.num_tokens == key.dims@[0]
                &&& s.num_heads == key.dims@[1]
                &&& s.num_blocks == key_cache.dims@[0]
                &&& s.k_head_dim == key.dims@[2]
                &&& s.v_head_dim == value.dims@[2]
                &&& s.k_record_bytes == key_cache.dims@[2]
                &&& s.v_record_bytes == value_cache.dims@[2]
            },
            Err(e) => reshape_fault(*key, *value, *key_cache, *value_cache) == Some(e),
        },
{
    if !is_kvarn_cache(key_cache) || !is_kvarn_cache(value_cache) {
        return Err(KvarnError::NotKvarnCache);
    }
    if key.dims.len() != 3 || value.dims.len() != 3 {
        return Err(KvarnError::InputRank);
    }
    let num_tokens: usize = key.dims[0];
    let num_heads: usize = key.dims[1];
    let k_head_dim: usize = key.dims[2];
    let v_head_dim: usize = value.dims[2];
    if num_tokens != value.dims[0] || num_heads != value.dims[1] {
        return Err(KvarnError::InputMismatch);
    }
    let num_blocks: usize = key_cache.dims[0];
    let k_record_bytes: usize = key_cache.dims[2];
    let v_record_bytes: usize = value_cache.dims[2];
    if num_blocks != value_cache.dims[0] || key_cache.dims[1] != value_cache.dims[1]
        || key_cache.dims[1] != num_heads {
        return Err(KvarnError::CacheMismatch);
    }
    let key_bytes: usize = match key_record_bytes(k_head_dim, KVARN_GROUP) {
        Ok(bytes) => bytes,
        Err(fault) => {
            return Err(KvarnError::Layout(fault));
        },
    };
    let value_bytes: usize = match value_record_bytes(v_head_dim, KVARN_GROUP) {
        Ok(bytes) => bytes,
        Err(fault) => {
            return Err(KvarnError::Layout(fault));
        },
    };
    if k_record_bytes != key_bytes || v_record_bytes != value_bytes {
        return Err(KvarnError::RecordSize { key: k_record_bytes, value: v_record_bytes });
    }
    Ok(
        ReshapeShape {
            num_tokens,
            num_heads,
            num_blocks,
            k_head_dim,
            v_head_dim,
            k_record_bytes,
            v_record_bytes,
        },
    )
}

/// Checks that there is a slot for each token.
pub fn check_slots(slots: usize, tokens: usize) -> (valid: Result<(), KvarnError>)
    ensures
        valid == if slots == tokens {
            Ok::<(), KvarnError>(())
        } else {
            Err(KvarnError::SlotCount { slots, tokens })
        },
{
    if slots == tokens {
        Ok(())
    } else {
        Err(KvarnError::SlotCount { slots, tokens })
    }
}

/// The shapes that a gather works with.
#[derive(Clone, Copy, Debug, PartialEq, Eq, Structural)]
pub struct GatherShape {
    pub num_blocks: usize,
    pub num_heads: usize,
    pub k_head_dim: usize,
    pub v_head_dim: usize,
    pub k_record_bytes: usize,
    pub v_record_bytes: usize,
}

/// What is wrong with the caches of a gather, in the order in which it is looked at.
pub open spec fn gather_fault(key_cache: TensorDesc, value_cache: TensorDesc) -> Option<
    KvarnError,
> {
    let kc = key_cache.dims@;
    let vc = value_cache.dims@;
    if !is_kvarn(key_cache.dtype, kc.len() as int) || !is_kvarn(
        value_cache.dtype,
        vc.len() as int,
    ) {
        Some(KvarnError::NotKvarnCache)
    } else if (kc[0], kc[1]) != (vc[0], vc[1]) {
        Some(KvarnError::CacheMismatch)
    } else {
        match key_record_fault(kc[2]) {
            Some(fault) => Some(KvarnError::Layout(fault)),
            None => match value_record_fault(vc[2]) {
                Some(fault) => Some(KvarnError::Layout(fault)),
                None => None,
            },
        }
    }
}

/// Checks the caches of a gather and gives the shapes it works with.
pub fn check_gather(key_cache: &TensorDesc, value_cache: &TensorDesc) -> (shape: Result<
    GatherShape,
    KvarnError,
>)
    ensures
        match shape {
            Ok(s) => {
                &&& gather_fault(*key_cache, *value_cache) is None
                &&& s.num_blocks == key_cache.dims@[0]
                &&& s.num_heads == key_cache.dims@[1]
                &&& s.k_record_bytes == key_cache.dims@[2]
                &&& s.v_record_bytes == value_cache.dims@[2]
                &&& shape_fault(s.k_head_dim, KVARN_GROUP) is None
                &&& shape_fault(s.v_head_dim, KVARN_GROUP) is None
                &&& s.k_record_bytes == key_record_len(s.k_head_dim as int, 128)
                &&& s.v_record_bytes == value_record_len(s.v_head_dim as int, 128)
            },
            Err(e) => gather_fault(*key_cache, *value_cache) == Some(e),
        },
{
    if !is_kvarn_cache(key_cache) || !is_kvarn_cache(value_cache) {
        return Err(KvarnError::NotKvarnCache);
    }
    let num_blocks: usize = key_cache.dims[0];
    let num_heads: usize = key_cache.dims[1];
    if num_blocks != value_cache.dims[0] || num_heads != value_cache.dims[1] {
        return Err(KvarnError::CacheMismatch);
    }
    let k_record_bytes: usize = key_cache.dims[2];
    let v_record_bytes: usize = value_cache.dims[2];
    let k_head_dim: usize = match key_head_dim_from_record_bytes(k_record_bytes, KVARN_GROUP) {
        Ok(dims) => dims,
        Err(fault) => {
            return Err(KvarnError::Layout(fault));
        },
    };
    let v_head_dim: usize = match value_head_dim_from_record_bytes(v_record_bytes, KVARN_GROUP) {
        Ok(dims) => dims,
        Err(fault) => {
            proof {
                key_record_size_tells_head_dim(k_head_dim);
            }
            return Err(KvarnError::Layout(fault));
        },
    };
    proof {
        key_record_size_tells_head_dim(k_head_dim);
        value_record_size_tells_head_dim(v_head_dim);
    }
    Ok(GatherShape { num_blocks, num_heads, k_head_dim, v_head_dim, k_record_bytes, v_record_bytes })
}

/// The bytes of a cache: its records one after the other.
pub struct RecordCache {
    pub num_blocks: usize,
    pub num_heads: usize,
    pub record_bytes: usize,
    pub data: Vec<u8>,
}

impl RecordCache {
    /// The cache holds all its records, and every record has a status.
    pub open spec fn wf(&self) -> bool {
        &&& self.record_bytes > 0
        &&& self.data.len() == self.num_blocks * self.num_heads * self.record_bytes
    }

    /// Whether a block and head have a record.
    pub open spec fn has(&self, block: int, head: int) -> bool {
        0 <= block < self.num_blocks && 0 <= head < self.num_heads
    }

    /// Where the record of a block and head starts.
    pub open spec fn start(&self, block: int, head: int) -> int {
        record_start(block, head, self.num_heads as int, self.record_bytes as int)
    }

    /// The record of a block and head.
    pub open spec fn record(&self, block: int, head: int) -> Seq<u8> {
        self.data@.subrange(
            self.start(block, head),
            self.start(block, head) + self.record_bytes,
        )
    }

    /// Two caches have the same shape.
    pub open spec fn same_shape(&self, other: &RecordCache) -> bool {
        &&& self.num_blocks == other.num_blocks
        &&& self.num_heads == other.num_heads
        &&& self.record_bytes == other.record_bytes
        &&& self.data.len() == other.data.len()
    }

    /// Where the record of a block and head starts.
    fn offset_of(&self, block: usize, head: usize) -> (offset: usize)
        requires
            self.wf(),
            self.has(block as int, head as int),
        ensures
            offset == self.start(block as int, head as int),
            offset + self.record_bytes <= self.data.len(),
    {
        proof {
            records_fill_the_cache(
                self.num_blocks as int,
                self.num_heads as int,
                self.record_bytes as int,
                block as int,
                head as int,
            );
            let index = block * self.num_heads + head;
            assert(index <= index * self.record_bytes) by (nonlinear_arith)
                requires
                    0 <= index,
                    1 <= self.record_bytes,
            ;
            assert(0 <= index) by (nonlinear_arith)
                requires
                    index == block * self.num_heads + head,
            ;
        }
        record_offset(block, head, self.num_heads, self.record_bytes)
    }

    /// Whether the record of a block and head holds packed codes.
    pub fn is_quantized(&self, block: usize, head: usize) -> (quantized: bool)
        requires
            self.wf(),
            self.has(block as int, head as int),
        ensures
            quantized == (self.record(block as int, head as int)[0] == STATUS_QUANTIZED),
    {
        let start: usize = self.offset_of(block, head);
        self.data[start + STATUS_OFFSET] == STATUS_QUANTIZED
    }

    /// A copy of the record of a block and head.
    pub fn read_record(&self, block: usize, head: usize) -> (record: Vec<u8>)
        requires
            self.wf(),
            self.has(block as int, head as int),
        ensures
            record@ == self.record(block as int, head as int),
            record.len() == self.record_bytes,
    {
        let start: usize = self.offset_of(block, head);
        copy_range(&self.data, start, self.record_bytes)
    }

    /// Marks the record of a block and head as one whose rows are in the tail store.
    pub fn mark_record_raw(&mut self, block: usize, head: usize)
        requires
            old(self).wf(),
            old(self).has(block as int, head as int),
        ensures
            final(self).wf(),
            final(self).same_shape(old(self)),
            final(self).data@ == old(self).data@.update(
                old(self).start(block as int, head as int),
                STATUS_RAW,
            ),
            final(self).record(block as int, head as int) == old(self).record(
                block as int,
                head as int,
            ).update(0, STATUS_RAW),
    {
        let start: usize = self.offset_of(block, head);
        self.data.set(start + STATUS_OFFSET, STATUS_RAW);
        assert(self.record(block as int, head as int) =~= old(self).record(
            block as int,
            head as int,
        ).update(0, STATUS_RAW));
    }

    /// Overwrites the record of a block and head.
    pub fn write_record(&mut self, block: usize, head: usize, record: &Vec<u8>)
        requires
            old(self).wf(),
            old(self).has(block as int, head as int),
            record.len() == old(self).record_bytes,
        ensures
            final(self).wf(),
            final(self).same_shape(old(self)),
            final(self).data@ == spliced(
                old(self).data@,
                old(self).start(block as int, head as int),
                record@,
            ),
            final(self).record(block as int, head as int) == record@,
    {
        let start: usize = self.offset_of(block, head);
        splice(&mut self.data, start, record);
        assert(self.record(block as int, head as int) =~= record@);
    }

    /// Stores one row: it goes to the tail store and the record is marked raw. Hands over the
    /// block if its record is to be quantized now.
    pub fn store_row(
        &mut self,
        tails: &mut TailStore,
        block: usize,
        head: usize,
        block_offset: usize,
        row: &Vec<u32>,
        quantize_partial_blocks: bool,
    ) -> (ready: Option<Vec<u32>>)
        requires
            old(self).wf(),
            old(self).has(block as int, head as int),
            old(tails).wf(),
            old(tails).num_heads == old(self).num_heads,
            block_offset < old(tails).block_size,
            row.len() == old(tails).head_dim,
        ensures
            final(self).wf(),
            final(self).same_shape(old(self)),
            final(self).data@ == old(self).data@.update(
                old(self).start(block as int, head as int),
                STATUS_RAW,
            ),
            final(tails).wf(),
            final(tails).block_size == old(tails).block_size,
            final(tails).num_heads == old(tails).num_heads,
            final(tails).head_dim == old(tails).head_dim,
            ({
                let rows = with_row(
                    old(tails).base_rows(block as int, head as int, block_offset as int),
                    block_offset as int,
                    old(tails).head_dim as int,
                    row@,
                );
                if block_offset + 1 == old(tails).block_size {
                    &&& ready is Some
                    &&& ready->0@ == rows
                    &&& final(tails).block_rows(block as int, head as int) is None
                } else {
                    &&& ready is Some == quantize_partial_blocks
                    &&& ready matches Some(copy) ==> copy@ == rows
                    &&& final(tails).block_rows(block as int, head as int) == Some(rows)
                }
            }),
            forall|b: int, h: int|
                (b, h) != (block as int, head as int) && 0 <= b && 0 <= h < old(self).num_heads
                    ==> #[trigger] final(tails).block_rows(b, h) == old(tails).block_rows(b, h),
    {
        proof {
            let index = block * self.num_heads + head;
            records_fill_the_cache(
                self.num_blocks as int,
                self.num_heads as int,
                self.record_bytes as int,
                block as int,
                head as int,
            );
            assert(0 <= index) by (nonlinear_arith)
                requires
                    index == block * self.num_heads + head,
            ;
            assert(index <= index * self.record_bytes) by (nonlinear_arith)
                requires
                    0 <= index,
                    1 <= self.record_bytes,
            ;
        }
        let ready: Option<Vec<u32>> = tails.store_row(
            block,
            head,
            block_offset,
            row,
            quantize_partial_blocks,
        );
        proof {
            assert forall|b: int, h: int|
                (b, h) != (block as int, head as int) && 0 <= b && 0 <= h
                    < old(self).num_heads implies #[trigger] final(tails).block_rows(b, h) == old(
                tails,
            ).block_rows(b, h) by {
                let place = old(tails).place(block as int, head as int);
                let other = old(tails).place(b, h);
                if place == other {
                    crate::kvarn::tail::places_are_distinct(
                        *old(tails),
                        block as int,
                        head as int,
                        b,
                        h,
                    );
                }
                if 0 <= other <= usize::MAX {
                    assert((other as usize) != (place as usize));
                    assert(tails.rows@.contains_key(other as usize) == old(
                        tails,
                    ).rows@.contains_key(other as usize));
                }
            }
        }
        self.mark_record_raw(block, head);
        ready
    }
}

/// Where a gather finds a row.
pub enum RowSource {
    /// In a quantized record.
    Quantized(Vec<u8>),
    /// In the tail store.
    Tail(Vec<u32>),
}

/// The rows that a tail store, if there is one, has of a block; zeros if it has none.
pub open spec fn tail_row(
    tails: Option<TailStore>,
    block: int,
    head: int,
    block_offset: int,
    head_dim: int,
) -> Seq<u32> {
    match tails {
        Some(store) => match store.block_rows(block, head) {
            Some(rows) => rows.subrange(
                block_offset * head_dim,
                block_offset * head_dim + head_dim,
            ),
            None => zero_block(head_dim),
        },
        None => zero_block(head_dim),
    }
}

/// Finds one row of a block: in its record if that holds packed codes, else in the tail store.
pub fn find_row(
    cache: &RecordCache,
    tails: Option<&TailStore>,
    block: usize,
    head: usize,
    block_offset: usize,
    head_dim: usize,
) -> (source: RowSource)
    requires
        cache.wf(),
        cache.has(block as int, head as int),
        tails matches Some(store) ==> store.wf() && store.head_dim == head_dim && store.num_heads
            == cache.num_heads && block_offset < store.block_size,
    ensures
        match source {
            RowSource::Quantized(record) => {
                &&& cache.record(block as int, head as int)[0] == STATUS_QUANTIZED
                &&& record@ == cache.record(block as int, head as int)
            },
            RowSource::Tail(row) => {
                &&& cache.record(block as int, head as int)[0] != STATUS_QUANTIZED
                &&& row@ == tail_row(
                    match tails {
                        Some(store) => Some(*store),
                        None => None,
                    },
                    block as int,
                    head as int,
                    block_offset as int,
                    head_dim as int,
                )
            },
        },
{
    if cache.is_quantized(block, head) {
        RowSource::Quantized(cache.read_record(block, head))
    } else {
        proof {
            let index = block * cache.num_heads + head;
            records_fill_the_cache(
                cache.num_blocks as int,
                cache.num_heads as int,
                cache.record_bytes as int,
                block as int,
                head as int,
            );
            assert(0 <= index) by (nonlinear_arith)
                requires
                    index == block * cache.num_heads + head,
            ;
            assert(index <= index * cache.record_bytes) by (nonlinear_arith)
                requires
                    0 <= index,
                    1 <= cache.record_bytes,
            ;
        }
        RowSource::Tail(load_tail_row(tails, block, head, block_offset, head_dim))
    }
}

/// Whether a device quantizes blocks before they are complete: CUDA devices do, unless the
/// switch is off.
pub fn cuda_quantizes_partial_blocks(place: Place, switch: Option<&str>) -> (yes: bool)
    ensures
        yes == (place == Place::Cuda && match switch {
            Some(value) => reads_as_on(value@),
            None => true,
        }),
{
    place == Place::Cuda && flag_or(switch, true)
}

/// Whether the fused CUDA decode is used: it is, unless the switch is off.
pub fn cuda_fused_decode_enabled(switch: Option<&str>) -> (yes: bool)
    ensures
        yes == match switch {
            Some(value) => reads_as_on(value@),
            None => true,
        },
{
    flag_or(switch, true)
}

/// A row of a block that is not complete yet is gathered just as it was stored. The other rows of
/// the block are gathered as they were before, or as zeros if the row is the first of its block.
pub proof fn stored_row_is_gathered(
    before: TailStore,
    after: TailStore,
    block: int,
    head: int,
    block_offset: int,
    row: Seq<u32>,
    other: int,
)
    requires
        before.wf(),
        after.head_dim == before.head_dim,
        0 <= block_offset < before.block_size,
        0 <= other < before.block_size,
        row.len() == before.head_dim,
        after.block_rows(block, head) == Some(
            with_row(
                before.base_rows(block, head, block_offset),
                block_offset,
                before.head_dim as int,
                row,
            ),
        ),
    ensures
        tail_row(Some(after), block, head, block_offset, after.head_dim as int) == row,
        other != block_offset ==> tail_row(Some(after), block, head, other, after.head_dim as int)
            == if block_offset == 0 {
            zero_block(before.head_dim as int)
        } else {
            tail_row(Some(before), block, head, other, before.head_dim as int)
        },
{
    let dim = before.head_dim as int;
    let base = before.base_rows(block, head, block_offset);
    assert(base.len() == before.block_len());
    stored_row_reads_back(base, before.block_size as int, dim, block_offset, row, other);
    assert(0 <= other * dim && other * dim + dim <= before.block_len()) by (nonlinear_arith)
        requires
            0 <= other < before.block_size,
            0 <= dim,
            before.block_len() == before.block_size * dim,
    ;
    assert(zero_block(before.block_len()).subrange(other * dim, other * dim + dim) =~= zero_block(
        dim,
    ));
}

/// Writing the record of one block and head leaves every other record as it was.
pub proof fn writing_a_record_keeps_the_others(
    before: RecordCache,
    block: int,
    head: int,
    record: Seq<u8>,
    other_block: int,
    other_head: int,
)
    requires
        before.wf(),
        before.has(block, head),
        before.has(other_block, other_head),
        (block, head) != (other_block, other_head),
        record.len() == before.record_bytes,
    ensures
        spliced(before.data@, before.start(block, head), record).subrange(
            before.start(other_block, other_head),
            before.start(other_block, other_head) + before.record_bytes,
        ) == before.record(other_block, other_head),
{
    records_fill_the_cache(
        before.num_blocks as int,
        before.num_heads as int,
        before.record_bytes as int,
        block,
        head,
    );
    records_fill_the_cache(
        before.num_blocks as int,
        before.num_heads as int,
        before.record_bytes as int,
        other_block,
        other_head,
    );
    records_are_disjoint(
        before.num_heads as int,
        before.record_bytes as int,
        block,
        head,
        other_block,
        other_head,
    );
    spliced_reads_back(
        before.data@,
        before.start(block, head),
        record,
        before.start(other_block, other_head),
        before.record_bytes as int,
    );
}

/// Rows are written exactly if both caches are tensors of bytes of rank three that have equal
/// blocks and heads, keys and values have equal tokens and the heads of the caches, and each
/// cache has records of the size of its own head dimension.
pub proof fn writes_fit_their_caches(
    key: TensorDesc,
    value: TensorDesc,
    key_cache: TensorDesc,
    value_cache: TensorDesc,
)
    requires
        key.dims@.len() == 3,
        value.dims@.len() == 3,
        key_cache.dims@.len() == 3,
        value_cache.dims@.len() == 3,
    ensures
        reshape_fault(key, value, key_cache, value_cache) is None <==> {
            &&& key_cache.dtype == DType::U8 && value_cache.dtype == DType::U8
            &&& key.dims@[0] == value.dims@[0]
            &&& key.dims@[1] == value.dims@[1]
            &&& key.dims@[1] == key_cache.dims@[1]
            &&& key_cache.dims@[0] == value_cache.dims@[0]
            &&& key_cache.dims@[1] == value_cache.dims@[1]
            &&& shape_fault(key.dims@[2], 128) is None
            &&& shape_fault(value.dims@[2], 128) is None
            &&& key_cache.dims@[2] == 257 + 68 * key.dims@[2]
            &&& value_cache.dims@[2] == 513 + 34 * value.dims@[2]
        },
{
    crate::kvarn::layout::key_record_len_is_linear(key.dims@[2] as int);
    if shape_fault(value.dims@[2], 128) is None {
        crate::kvarn::layout::value_record_len_is_linear(value.dims@[2] as int);
    }
}

/// Rows are gathered exactly if both caches are tensors of bytes of rank three that have equal
/// blocks and heads, and some head dimension has records of the size of the keys, and some of
/// the size of the values.
pub proof fn gathers_fit_their_caches(key_cache: TensorDesc, value_cache: TensorDesc)
    requires
        key_cache.dims@.len() == 3,
        value_cache.dims@.len() == 3,
    ensures
        gather_fault(key_cache, value_cache) is None <==> {
            &&& key_cache.dtype == DType::U8 && value_cache.dtype == DType::U8
            &&& key_cache.dims@[0] == value_cache.dims@[0]
            &&& key_cache.dims@[1] == value_cache.dims@[1]
            &&& exists|k: usize|
                shape_fault(k, 128) is None && key_cache.dims@[2] == 257 + 68 * k
            &&& exists|v: usize|
                shape_fault(v, 128) is None && value_cache.dims@[2] == 513 + 34 * v
        },
{
    let (kc, vc) = (key_cache.dims@[2], value_cache.dims@[2]);
    assert forall|k: usize| shape_fault(k, 128) is None && kc == 257 + 68 * k implies
        key_record_fault(kc) is None by {
        crate::kvarn::layout::record_sizes_that_are_taken(kc, k);
    }
    assert forall|v: usize| shape_fault(v, 128) is None && vc == 513 + 34 * v implies
        value_record_fault(vc) is None by {
        crate::kvarn::layout::record_sizes_that_are_taken(vc, v);
    }
    crate::kvarn::layout::record_sizes_that_are_taken(kc, 0);
    crate::kvarn::layout::record_sizes_that_are_taken(vc, 0);
    if key_record_fault(kc) is None {
        let k = crate::kvarn::layout::key_dims_of(kc as int)->0 as usize;
        assert(shape_fault(k, 128) is None && kc == 257 + 68 * k);
    }
    if value_record_fault(vc) is None {
        let v = crate::kvarn::layout::value_dims_of(vc as int)->0 as usize;
        assert(shape_fault(v, 128) is None && vc == 513 + 34 * v);
    }
}

/// A record of a cache is found behind all records of earlier blocks and of earlier heads of its
/// own block.
pub proof fn record_is_found_behind_the_earlier_ones(cache: RecordCache, block: int, head: int)
    requires
        cache.wf(),
        cache.has(block, head),
    ensures
        forall|i: int|
            0 <= i < cache.record_bytes ==> #[trigger] cache.record(block, head)[i]
                == cache.data@[block * (cache.num_heads * cache.record_bytes) + head
                * cache.record_bytes + i],
{
    let (h, r) = (cache.num_heads as int, cache.record_bytes as int);
    records_fill_the_cache(cache.num_blocks as int, h, r, block, head);
    assert((block * h + head) * r == block * (h * r) + head * r) by (nonlinear_arith);
}

/// Records of other sizes than the heads ask for are refused with both sizes, the keys' first;
/// heads that no record is for are refused with their dimension.
pub proof fn wrong_records_are_named(
    key: TensorDesc,
    value: TensorDesc,
    key_cache: TensorDesc,
    value_cache: TensorDesc,
)
    ensures
        reshape_fault(key, value, key_cache, value_cache) matches Some(
            KvarnError::RecordSize { key: k, value: v },
        ) ==> {
            &&& key_cache.dims@.len() == 3 && k == key_cache.dims@[2]
            &&& value_cache.dims@.len() == 3 && v == value_cache.dims@[2]
            &&& k != key_record_len(key.dims@[2] as int, 128) || v != value_record_len(
                value.dims@[2] as int,
                128,
            )
        },
        reshape_fault(key, value, key_cache, value_cache) matches Some(KvarnError::Layout(fault))
            ==> shape_fault(key.dims@[2], 128) == Some(fault) || shape_fault(key.dims@[2], 128)
            is None && shape_fault(value.dims@[2], 128) == Some(fault),
{
}

/// Caches of one shape have as many blocks, heads and bytes.
pub proof fn caches_of_one_shape(a: RecordCache, b: RecordCache, block: int, head: int)
    requires
        a.same_shape(&b),
    ensures
        a.num_blocks == b.num_blocks,
        a.num_heads == b.num_heads,
        a.start(block, head) == b.start(block, head),
        a.record_bytes == b.record_bytes,
        a.data@.len() == b.data@.len(),
{
}

} // verus!
