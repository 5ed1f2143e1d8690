//! Where the rows of a paged cache are written and read.
use crate::dtype::DType;
use vstd::prelude::*;

verus! {

/// The integers of an index tensor, or the type of a tensor that holds no such integers.
pub enum IndexData {
    I32(Vec<i32>),
    U32(Vec<u32>),
    I64(Vec<i64>),
    Other(DType),
}

/// An index with the negative ones taken as zero.
pub open spec fn clamped(value: int) -> usize {
    if value < 0 {
        0
    } else {
        value as usize
    }
}

impl IndexData {
    /// The integers as they are.
    pub open spec fn values(&self) -> Option<Seq<int>> {
        match *self {
            IndexData::I32(v) => Some(v@.map_values(|x: i32| x as int)),
            IndexData::U32(v) => Some(v@.map_values(|x: u32| x as int)),
            IndexData::I64(v) => Some(v@.map_values(|x: i64| x as int)),
            IndexData::Other(_) => None,
        }
    }

    /// Whether the integers take 32 bits.
    pub open spec fn is_narrow(&self) -> bool {
        self is I32 || self is U32
    }

    /// The type of the integers.
    pub open spec fn dtype(&self) -> DType {
        match *self {
            IndexData::I32(_) => DType::I32,
            IndexData::U32(_) => DType::U32,
            IndexData::I64(_) => DType::I64,
            IndexData::Other(dtype) => dtype,
        }
    }
}

/// The slots of a slot mapping, widened to 64 bits; the type of a tensor that has none.
pub fn slot_mapping_to_vec(slots: &IndexData) -> (vec: Result<Vec<i64>, DType>)
    ensures
        match vec {
            Ok(v) => slots.values() == Some(v@.map_values(|x: i64| x as int)),
            Err(dtype) => slots.values() is None && dtype == slots.dtype(),
        },
{
    let mut out: Vec<i64> = Vec::new();
    let mut i: usize = 0;
    match slots {
        IndexData::I64(v) => {
            while i < v.len()
                invariant
                    i <= v.len(),
                    out@.len() == i,
                    forall|j: int| 0 <= j < i ==> out@[j] == v@[j],
                decreases v.len() - i,
            {
                out.push(v[i]);
                i += 1;
            }
        },
        IndexData::I32(v) => {
            while i < v.len()
                invariant
                    i <= v.len(),
                    out@.len() == i,
                    forall|j: int| 0 <= j < i ==> out@[j] == v@[j],
                decreases v.len() - i,
            {
                out.push(v[i] as i64);
                i += 1;
            }
        },
        IndexData::U32(v) => {
            while i < v.len()
                invariant
                    i <= v.len(),
                    out@.len() == i,
                    forall|j: int| 0 <= j < i ==> out@[j] == v@[j],
                decreases v.len() - i,
            {
                out.push(v[i] as i64);
                i += 1;
            }
        },
        IndexData::Other(dtype) => {
            return Err(*dtype);
        },
    }
    assert(slots.values()->0 =~= out@.map_values(|x: i64| x as int));
    Ok(out)
}

/// The lengths or block numbers of an index tensor, negative ones as zero; the type of a tensor
/// that has none. `wide` says whether 64-bit integers are accepted.
pub fn indices_to_vec(indices: &IndexData, wide: bool) -> (vec: Result<Vec<usize>, DType>)
    ensures
        match vec {
            Ok(v) => (wide || indices.is_narrow()) && indices.values() is Some && v@
                == indices.values()->0.map_values(|x: int| clamped(x)),
            Err(dtype) => dtype == indices.dtype() && (indices.values() is None || (!wide
                && !indices.is_narrow())),
        },
{
    let mut out: Vec<usize> = Vec::new();
    let mut i: usize = 0;
    match indices {
        IndexData::I64(v) => {
            if !wide {
                return Err(DType::I64);
            }
            while i < v.len()
                invariant
                    i <= v.len(),
                    out@.len() == i,
                    forall|j: int| 0 <= j < i ==> out@[j] == clamped(v@[j] as int),
                decreases v.len() - i,
            {
                out.push(
                    if v[i] < 0 {
                        0
                    } else {
                        v[i] as usize
                    },
                );
                i += 1;
            }
        },
        IndexData::I32(v) => {
            while i < v.len()
                invariant
                    i <= v.len(),
                    out@.len() == i,
                    forall|j: int| 0 <= j < i ==> out@[j] == clamped(v@[j] as int),
                decreases v.len() - i,
            {
                out.push(
                    if v[i] < 0 {
                        0
                    } else {
                        v[i] as usize
                    },
                );
                i += 1;
            }
        },
        IndexData::U32(v) => {
            while i < v.len()
                invariant
                    i <= v.len(),
                    out@.len() == i,
                    forall|j: int| 0 <= j < i ==> out@[j] == clamped(v@[j] as int),
                decreases v.len() - i,
            {
                out.push(v[i] as usize);
                i += 1;
            }
        },
        IndexData::Other(dtype) => {
            return Err(*dtype);
        },
    }
    assert(out@ =~= indices.values()->0.map_values(|x: int| clamped(x)));
    Ok(out)
}

/// The place of one token in a paged cache.
#[derive(Clone, Copy, Debug, PartialEq, Eq, Structural)]
pub struct SlotWrite {
    pub token: usize,
    pub block: usize,
    pub offset: usize,
}

/// A slot that lies behind the last block.
#[derive(Clone, Copy, Debug, PartialEq, Eq, Structural)]
pub struct SlotFault {
    pub token: usize,
    pub slot: u64,
    pub block: u64,
}

/// The writes of a slot mapping, up to the first slot that lies behind the last block.
pub struct SlotPlan {
    pub writes: Vec<SlotWrite>,
    pub fault: Option<SlotFault>,
}

/// Whether a slot is skipped or lies in the cache.
pub open spec fn slot_fits(slot: i64, num_blocks: int, block_size: int) -> bool {
    slot < 0 || slot as int / block_size < num_blocks
}

/// The writes that a slot mapping asks for: one for each slot that is not negative, in order.
pub open spec fn slot_writes(slots: Seq<i64>, block_size: int) -> Seq<SlotWrite>
    decreases slots.len(),
{
    if slots.len() == 0 {
        Seq::empty()
    } else {
        let before = slot_writes(slots.drop_last(), block_size);
        let slot = slots.last();
        if slot < 0 {
            before
        } else {
            before.push(
                SlotWrite {
                    token: (slots.len() - 1) as usize,
                    block: (slot as int / block_size) as usize,
                    offset: (slot as int % block_size) as usize,
                },
            )
        }
    }
}

/// Where the tokens of a slot mapping go. Negative slots are skipped. The plan ends at the
/// first slot that lies behind the last block, and names it.
pub fn plan_slots(slots: &Vec<i64>, num_blocks: usize, block_size: usize) -> (plan: SlotPlan)
    requires
        block_size > 0,
    ensures
        match plan.fault {
            None => {
                &&& plan.writes@ == slot_writes(slots@, block_size as int)
                &&& forall|i: int|
                    0 <= i < slots.len() ==> slot_fits(
                        #[trigger] slots@[i],
                        num_blocks as int,
                        block_size as int,
                    )
            },
            Some(fault) => {
                &&& fault.token < slots.len()
                &&& fault.slot == slots@[fault.token as int]
                &&& fault.block == fault.slot as int / block_size as int
                &&& fault.block >= num_blocks
                &&& plan.writes@ == slot_writes(
                    slots@.take(fault.token as int),
                    block_size as int,
                )
                &&& forall|i: int|
                    0 <= i < fault.token ==> slot_fits(
                        #[trigger] slots@[i],
                        num_blocks as int,
                        block_size as int,
                    )
            },
        },
        forall|k: int|
            0 <= k < plan.writes.len() ==> {
                &&& (#[trigger] plan.writes@[k]).token < slots.len()
                &&& plan.writes@[k].block < num_blocks
                &&& plan.writes@[k].offset < block_size
            },
{
    let mut writes: Vec<SlotWrite> = Vec::new();
    let mut token: usize = 0;
    while token < slots.len()
        invariant
            block_size > 0,
            token <= slots.len(),
            writes@ == slot_writes(slots@.take(token as int), block_size as int),
            forall|i: int|
                0 <= i < token ==> slot_fits(
                    #[trigger] slots@[i],
                    num_blocks as int,
                    block_size as int,
                ),
            forall|k: int|
                0 <= k < writes.len() ==> {
                    &&& (#[trigger] writes@[k]).token < slots.len()
                    &&& writes@[k].block < num_blocks
                    &&& writes@[k].offset < block_size
                },
        decreases slots.len() - token,
    {
        let slot: i64 = slots[token];
        assert(slots@.take(token + 1).drop_last() =~= slots@.take(token as int));
        if slot >= 0 {
            let block: u64 = slot as u64 / block_size as u64;
            let offset: u64 = slot as u64 % block_size as u64;
            if block >= num_blocks as u64 {
                return SlotPlan {
                    writes,
                    fault: Some(SlotFault { token, slot: slot as u64, block }),
                };
            }
            writes.push(SlotWrite { token, block: block as usize, offset: offset as usize });
        }
        token += 1;
    }
    assert(slots@.take(token as int) =~= slots@);
    SlotPlan { writes, fault: None }
}

/// The place of one row that a gather reads.
#[derive(Clone, Copy, Debug, PartialEq, Eq, Structural)]
pub struct RowRead {
    pub sequence: usize,
    pub token: usize,
    pub block: usize,
    pub offset: usize,
}

/// Why a gather cannot be carried out.
#[derive(Clone, Copy, Debug, PartialEq, Eq, Structural)]
pub enum GatherFault {
    /// The cumulative lengths do not go with the block table.
    SequenceCount { lengths: usize, tables: usize },
    /// A sequence has more tokens than its block table has room for.
    TableTooShort { sequence: usize, token: usize, table_index: usize },
    /// A block table names a block behind the last one.
    BlockOutOfRange { sequence: usize, token: usize, block: usize },
}

/// The number of tokens of a sequence; lengths that do not grow count as zero.
pub open spec fn sequence_len(cu: Seq<usize>, sequence: int) -> int {
    if cu[sequence + 1] >= cu[sequence] {
        cu[sequence + 1] - cu[sequence]
    } else {
        0
    }
}

/// Whether a token of a sequence has a block, and the block is in the cache.
pub open spec fn token_has_block(
    table: Seq<usize>,
    token: int,
    num_blocks: int,
    block_size: int,
) -> bool {
    token / block_size < table.len() && table[token / block_size] < num_blocks
}

/// The rows of the first `count` tokens of a sequence.
pub open spec fn sequence_reads(
    table: Seq<usize>,
    sequence: int,
    count: int,
    block_size: int,
) -> Seq<RowRead> {
    Seq::new(
        count as nat,
        |token: int|
            RowRead {
                sequence: sequence as usize,
                token: token as usize,
                block: table[token / block_size],
                offset: (token % block_size) as usize,
            },
    )
}

/// The rows of the first `count` sequences, one sequence after the other.
pub open spec fn all_reads(
    tables: Seq<Vec<usize>>,
    cu: Seq<usize>,
    count: int,
    block_size: int,
) -> Seq<RowRead>
    decreases count,
{
    if count <= 0 {
        Seq::empty()
    } else {
        all_reads(tables, cu, count - 1, block_size) + sequence_reads(
            tables[count - 1]@,
            count - 1,
            sequence_len(cu, count - 1),
            block_size,
        )
    }
}

/// Whether every token of a sequence has a block in the cache.
pub open spec fn sequence_is_backed(
    table: Seq<usize>,
    count: int,
    num_blocks: int,
    block_size: int,
) -> bool {
    forall|token: int|
        0 <= token < count ==> #[trigger] token_has_block(table, token, num_blocks, block_size)
}

/// What goes wrong at a token that has no block in the cache.
pub open spec fn token_fault(
    table: Seq<usize>,
    sequence: int,
    token: int,
    block_size: int,
) -> GatherFault {
    let table_index = token / block_size;
    if table_index >= table.len() {
        GatherFault::TableTooShort {
            sequence: sequence as usize,
            token: token as usize,
            table_index: table_index as usize,
        }
    } else {
        GatherFault::BlockOutOfRange {
            sequence: sequence as usize,
            token: token as usize,
            block: table[table_index],
        }
    }
}

/// The first sequence and token that a gather trips over.
pub open spec fn is_first_gather_fault(
    tables: Seq<Vec<usize>>,
    cu: Seq<usize>,
    num_blocks: int,
    block_size: int,
    sequence: int,
    token: int,
) -> bool {
    &&& 0 <= sequence < tables.len()
    &&& 0 <= token < sequence_len(cu, sequence)
    &&& !token_has_block(tables[sequence]@, token, num_blocks, block_size)
    &&& sequence_is_backed(tables[sequence]@, token, num_blocks, block_size)
    &&& forall|s: int|
        0 <= s < sequence ==> sequence_is_backed(
            #[trigger] tables[s]@,
            sequence_len(cu, s),
            num_blocks,
            block_size,
        )
}

/// Which rows a gather reads: the tokens of each sequence in order, each found through the
/// block table. With a total length of zero nothing is read and the tables are not looked at.
pub fn plan_gather(
    tables: &Vec<Vec<usize>>,
    cu_seq_lens: &Vec<usize>,
    num_blocks: usize,
    block_size: usize,
) -> (plan: Result<Vec<RowRead>, GatherFault>)
    requires
        block_size > 0,
    ensures
        match plan {
            Ok(reads) => {
                &&& cu_seq_lens.len() == tables.len() + 1
                &&& if cu_seq_lens@.last() == 0 {
                    reads@ == Seq::<RowRead>::empty()
                } else {
                    &&& reads@ == all_reads(
                        tables@,
                        cu_seq_lens@,
                        tables.len() as int,
                        block_size as int,
                    )
                    &&& forall|s: int|
                        0 <= s < tables.len() ==> sequence_is_backed(
                            #[trigger] tables@[s]@,
                            sequence_len(cu_seq_lens@, s),
                            num_blocks as int,
                            block_size as int,
                        )
                }
                &&& forall|k: int|
                    0 <= k < reads.len() ==> (#[trigger] reads@[k]).block < num_blocks
                        && reads@[k].offset < block_size
            },
            Err(GatherFault::SequenceCount { lengths, tables: count }) => {
                &&& cu_seq_lens.len() != tables.len() + 1
                &&& lengths == cu_seq_lens.len()
                &&& count == tables.len()
            },
            Err(fault) => {
                &&& cu_seq_lens.len() == tables.len() + 1
                &&& cu_seq_lens@.last() != 0
                &&& exists|s: int, t: int|
                    is_first_gather_fault(
                        tables@,
                        cu_seq_lens@,
                        num_blocks as int,
                        block_size as int,
                        s,
                        t,
                    ) && fault == #[trigger] token_fault(tables@[s]@, s, t, block_size as int)
            },
        },
{
    if cu_seq_lens.len() == 0 || cu_seq_lens.len() - 1 != tables.len() {
        return Err(
            GatherFault::SequenceCount { lengths: cu_seq_lens.len(), tables: tables.len() },
        );
    }
    let total: usize = cu_seq_lens[cu_seq_lens.len() - 1];
    let mut reads: Vec<RowRead> = Vec::new();
    if total == 0 {
        return Ok(reads);
    }
    let mut sequence: usize = 0;
    while sequence < tables.len()
        invariant
            block_size > 0,
            sequence <= tables.len(),
            cu_seq_lens.len() == tables.len() + 1,
            cu_seq_lens@.last() != 0,
            reads@ == all_reads(tables@, cu_seq_lens@, sequence as int, block_size as int),
            forall|s: int|
                0 <= s < sequence ==> sequence_is_backed(
                    #[trigger] tables@[s]@,
                    sequence_len(cu_seq_lens@, s),
                    num_blocks as int,
                    block_size as int,
                ),
            forall|k: int|
                0 <= k < reads.len() ==> (#[trigger] reads@[k]).block < num_blocks
                    && reads@[k].offset < block_size,
        decreases tables.len() - sequence,
    {
        let start: usize = cu_seq_lens[sequence];
        let end: usize = cu_seq_lens[sequence + 1];
        let count: usize = if end >= start {
            end - start
        } else {
            0
        };
        let ghost done = reads@;
        let ghost table = tables@[sequence as int]@;
        let mut token: usize = 0;
        while token < count
            invariant
                block_size > 0,
                sequence < tables.len(),
                cu_seq_lens.len() == tables.len() + 1,
                cu_seq_lens@.last() != 0,
                table == tables@[sequence as int]@,
                count == sequence_len(cu_seq_lens@, sequence as int),
                token <= count,
                reads@ == done + sequence_reads(
                    table,
                    sequence as int,
                    token as int,
                    block_size as int,
                ),
                sequence_is_backed(table, token as int, num_blocks as int, block_size as int),
                forall|s: int|
                    0 <= s < sequence ==> sequence_is_backed(
                        #[trigger] tables@[s]@,
                        sequence_len(cu_seq_lens@, s),
                        num_blocks as int,
                        block_size as int,
                    ),
                forall|k: int|
                    0 <= k < reads.len() ==> (#[trigger] reads@[k]).block < num_blocks
                        && reads@[k].offset < block_size,
            decreases count - token,
        {
            let table_index: usize = token / block_size;
            if table_index >= tables[sequence].len() {
                let fault: GatherFault = GatherFault::TableTooShort {
                    sequence,
                    token,
                    table_index,
                };
                proof {
                    assert(is_first_gather_fault(
                        tables@,
                        cu_seq_lens@,
                        num_blocks as int,
                        block_size as int,
                        sequence as int,
                        token as int,
                    ));
                    assert(fault == token_fault(
                        tables@[sequence as int]@,
                        sequence as int,
                        token as int,
                        block_size as int,
                    ));
                }
                return Err(fault);
            }
            let block: usize = tables[sequence][table_index];
            if block >= num_blocks {
                let fault: GatherFault = GatherFault::BlockOutOfRange { sequence, token, block };
                proof {
                    assert(is_first_gather_fault(
                        tables@,
                        cu_seq_lens@,
                        num_blocks as int,
                        block_size as int,
                        sequence as int,
                        token as int,
                    ));
                    assert(fault == token_fault(
                        tables@[sequence as int]@,
                        sequence as int,
                        token as int,
                        block_size as int,
                    ));
                }
                return Err(fault);
            }
            reads.push(RowRead { sequence, token, block, offset: token % block_size });
            assert(token_has_block(table, token as int, num_blocks as int, block_size as int));
            token += 1;
            assert(reads@ =~= done + sequence_reads(
                table,
                sequence as int,
                token as int,
                block_size as int,
            ));
        }
        sequence += 1;
    }
    Ok(reads)
}

/// A gather of sequences whose cumulative lengths start at zero and never fall reads as many
/// rows as the last cumulative length says.
pub proof fn gather_reads_every_token(
    tables: Seq<Vec<usize>>,
    cu: Seq<usize>,
    count: int,
    block_size: int,
)
    requires
        cu.len() == tables.len() + 1,
        cu[0] == 0,
        forall|i: int, j: int| 0 <= i <= j < cu.len() ==> cu[i] <= cu[j],
        0 <= count <= tables.len(),
    ensures
        all_reads(tables, cu, count, block_size).len() == cu[count],
    decreases count,
{
    if count > 0 {
        gather_reads_every_token(tables, cu, count - 1, block_size);
        assert(cu[count - 1] <= cu[count]);
    }
}

/// A slot mapping without negative slots writes every token, each at the place of its slot.
proof fn every_slot_is_written(slots: Seq<i64>, block_size: int)
    requires
        forall|i: int| 0 <= i < slots.len() ==> #[trigger] slots[i] >= 0,
    ensures
        slot_writes(slots, block_size).len() == slots.len(),
        forall|i: int|
            0 <= i < slots.len() ==> #[trigger] slot_writes(slots, block_size)[i] == (SlotWrite {
                token: i as usize,
                block: (slots[i] as int / block_size) as usize,
                offset: (slots[i] as int % block_size) as usize,
            }),
    decreases slots.len(),
{
    if slots.len() > 0 {
        let front = slots.drop_last();
        assert(slots.last() == slots[slots.len() - 1]);
        assert forall|i: int| 0 <= i < front.len() implies #[trigger] front[i] >= 0 by {
            assert(front[i] == slots[i]);
        }
        every_slot_is_written(front, block_size);
        assert forall|i: int| 0 <= i < slots.len() implies #[trigger] slot_writes(
            slots,
            block_size,
        )[i] == (SlotWrite {
            token: i as usize,
            block: (slots[i] as int / block_size) as usize,
            offset: (slots[i] as int % block_size) as usize,
        }) by {
            if i < front.len() {
                assert(slot_writes(slots, block_size)[i] == slot_writes(front, block_size)[i]);
                assert(front[i] == slots[i]);
            }
        }
    }
}

/// The tokens of a sequence that are written through a slot mapping are read back from the places
/// they were written to, in the same order, if each slot lies in the block that the block table
/// names for its token.
pub proof fn written_tokens_are_read(
    table: Seq<usize>,
    slots: Seq<i64>,
    sequence: int,
    block_size: int,
)
    requires
        block_size > 0,
        forall|i: int|
            0 <= i < slots.len() ==> i / block_size < table.len() && #[trigger] slots[i] == table[i
                / block_size] * block_size + i % block_size,
    ensures
        slot_writes(slots, block_size).len() == slots.len(),
        forall|i: int|
            #![trigger slot_writes(slots, block_size)[i]]
            0 <= i < slots.len() ==> {
                let write = slot_writes(slots, block_size)[i];
                let read = sequence_reads(table, sequence, slots.len() as int, block_size)[i];
                write.token == read.token && write.block == read.block && write.offset
                    == read.offset
            },
{
    assert forall|i: int| 0 <= i < slots.len() implies #[trigger] slots[i] >= 0 by {
        assert(0 <= table[i / block_size] * block_size) by (nonlinear_arith)
            requires
                block_size > 0,
        ;
    }
    every_slot_is_written(slots, block_size);
    assert forall|i: int| 0 <= i < slots.len() implies {
        let write = #[trigger] slot_writes(slots, block_size)[i];
        let read = sequence_reads(table, sequence, slots.len() as int, block_size)[i];
        write.token == read.token && write.block == read.block && write.offset == read.offset
    } by {
        vstd::arithmetic::div_mod::lemma_fundamental_div_mod_converse(
            slots[i] as int,
            block_size,
            table[i / block_size] as int,
            i % block_size,
        );
    }
}

/// Tokens with different slots are written to different places.
pub proof fn different_slots_are_different_places(slots: Seq<i64>, block_size: int, i: int, j: int)
    requires
        0 < block_size <= usize::MAX,
        forall|k: int|
            0 <= k < slots.len() ==> #[trigger] slots[k] >= 0 && slots[k] as int / block_size
                <= usize::MAX,
        0 <= i < slots.len(),
        0 <= j < slots.len(),
        slots[i] != slots[j],
    ensures
        ({
            let a = slot_writes(slots, block_size)[i];
            let b = slot_writes(slots, block_size)[j];
            a.block != b.block || a.offset != b.offset
        }),
{
    every_slot_is_written(slots, block_size);
    let (a, b) = (slots[i] as int, slots[j] as int);
    vstd::arithmetic::div_mod::lemma_fundamental_div_mod(a, block_size);
    vstd::arithmetic::div_mod::lemma_fundamental_div_mod(b, block_size);
    vstd::arithmetic::div_mod::lemma_mod_bound(a, block_size);
    vstd::arithmetic::div_mod::lemma_mod_bound(b, block_size);
    vstd::arithmetic::div_mod::lemma_div_pos_is_pos(a, block_size);
    vstd::arithmetic::div_mod::lemma_div_pos_is_pos(b, block_size);
}

/// Every write is that of a token whose slot is not negative, at the place of that slot: the
/// blocks before it and the places before it in its own block make up the slot. Writes stand in
/// the order of their tokens, and no token with a slot is left out.
pub proof fn writes_go_to_their_slots(slots: Seq<i64>, block_size: int)
    requires
        0 < block_size <= usize::MAX,
        slots.len() <= usize::MAX,
        forall|i: int|
            0 <= i < slots.len() && #[trigger] slots[i] >= 0 ==> slots[i] as int / block_size
                <= usize::MAX,
    ensures
        forall|k: int|
            0 <= k < slot_writes(slots, block_size).len() ==> {
                let write = #[trigger] slot_writes(slots, block_size)[k];
                &&& write.token < slots.len()
                &&& write.offset < block_size
                &&& write.block * block_size + write.offset == slots[write.token as int]
            },
        forall|k: int, l: int|
            0 <= k < l < slot_writes(slots, block_size).len() ==> (#[trigger] slot_writes(
                slots,
                block_size,
            )[k]).token < (#[trigger] slot_writes(slots, block_size)[l]).token,
        forall|i: int|
            0 <= i < slots.len() && #[trigger] slots[i] >= 0 ==> exists|k: int|
                0 <= k < slot_writes(slots, block_size).len() && (#[trigger] slot_writes(
                    slots,
                    block_size,
                )[k]).token == i,
    decreases slots.len(),
{
    if slots.len() > 0 {
        let front = slots.drop_last();
        let last = slots.len() - 1;
        let slot = slots[last];
        let before = slot_writes(front, block_size);
        let writes = slot_writes(slots, block_size);
        assert forall|i: int| 0 <= i < front.len() && #[trigger] front[i] >= 0 implies front[i]
            as int / block_size <= usize::MAX by {
            assert(front[i] == slots[i]);
        }
        writes_go_to_their_slots(front, block_size);
        vstd::arithmetic::div_mod::lemma_fundamental_div_mod(slot as int, block_size);
        assert(slots.last() == slot);
        if slot >= 0 {
            vstd::arithmetic::div_mod::lemma_div_pos_is_pos(slot as int, block_size);
            vstd::arithmetic::div_mod::lemma_mod_bound(slot as int, block_size);
            let block = slot as int / block_size;
            assert(block * block_size + slot as int % block_size == slot) by (nonlinear_arith)
                requires
                    slot as int == block_size * block + slot as int % block_size,
            ;
            assert(writes[before.len() as int].token == last);
        }
        assert forall|k: int| 0 <= k < before.len() implies #[trigger] writes[k] == before[k] by {}
        assert forall|k: int| 0 <= k < writes.len() implies {
            let write = #[trigger] writes[k];
            &&& write.token < slots.len()
            &&& write.offset < block_size
            &&& write.block * block_size + write.offset == slots[write.token as int]
        } by {
            if k < before.len() {
                assert(writes[k] == before[k]);
                assert(front[before[k].token as int] == slots[before[k].token as int]);
            }
        }
        assert forall|k: int, l: int| 0 <= k < l < writes.len() implies (
        #[trigger] writes[k]).token < (#[trigger] writes[l]).token by {
            assert(writes[k] == before[k]);
            if l < before.len() {
                assert(writes[l] == before[l]);
            }
        }
        assert forall|i: int| 0 <= i < slots.len() && #[trigger] slots[i] >= 0 implies exists|k: int|
            0 <= k < writes.len() && (#[trigger] writes[k]).token == i by {
            if i < last {
                assert(front[i] == slots[i]);
                let k = choose|k: int|
                    0 <= k < before.len() && (#[trigger] before[k]).token == i;
                assert(writes[k] == before[k]);
            }
        }
    }
}

/// A gather reads the tokens of all sequences one after the other: token `t` of sequence `s` is
/// row `cu[s] + t` of what is read, and its row is found at place `o` of block number `b` of the
/// sequence's block table, where `t` is `b` whole blocks and `o`.
pub proof fn gathered_row_is_that_of_its_token(
    tables: Seq<Vec<usize>>,
    cu: Seq<usize>,
    count: int,
    block_size: int,
    s: int,
    t: int,
    b: int,
    o: int,
)
    requires
        0 < block_size <= usize::MAX,
        cu.len() == tables.len() + 1,
        cu[0] == 0,
        forall|i: int, j: int| 0 <= i <= j < cu.len() ==> cu[i] <= cu[j],
        0 <= s < count <= tables.len() <= usize::MAX,
        cu[s] <= cu[s] + t < cu[s + 1],
        t == b * block_size + o,
        0 <= o < block_size,
    ensures
        ({
            let read = all_reads(tables, cu, count, block_size)[cu[s] + t];
            &&& read.sequence == s
            &&& read.token == t
            &&& read.block == tables[s]@[b]
            &&& read.offset == o
        }),
    decreases count,
{
    gather_reads_every_token(tables, cu, count, block_size);
    gather_reads_every_token(tables, cu, count - 1, block_size);
    assert(cu[s + 1] <= cu[count]);
    assert(cu[count - 1] <= cu[count]);
    if s < count - 1 {
        assert(cu[s + 1] <= cu[count - 1]);
        gathered_row_is_that_of_its_token(tables, cu, count - 1, block_size, s, t, b, o);
    } else {
        vstd::arithmetic::div_mod::lemma_fundamental_div_mod_converse(t, block_size, b, o);
    }
}

/// A token has a block exactly if its block table names one for it that is in the cache; what is
/// wrong otherwise is that the table ends before it, or names a block behind the last one.
pub proof fn token_is_backed_by_its_table(
    table: Seq<usize>,
    sequence: usize,
    token: usize,
    num_blocks: int,
    block_size: int,
    b: int,
    o: int,
)
    requires
        0 < block_size,
        token == b * block_size + o,
        0 <= o < block_size,
        0 <= b <= usize::MAX,
    ensures
        token_has_block(table, token as int, num_blocks, block_size) <==> b < table.len()
            && table[b] < num_blocks,
        b >= table.len() <==> token_fault(table, sequence as int, token as int, block_size) == (
        GatherFault::TableTooShort { sequence, token, table_index: b as usize }),
        b < table.len() <==> token_fault(table, sequence as int, token as int, block_size) == (
        GatherFault::BlockOutOfRange { sequence, token, block: table[b] }),
{
    vstd::arithmetic::div_mod::lemma_fundamental_div_mod_converse(token as int, block_size, b, o);
}

/// A slot is in the cache exactly if it is skipped or lies before the end of the last block.
pub proof fn slots_fit_before_the_last_block_ends(slot: i64, num_blocks: int, block_size: int)
    requires
        block_size > 0,
    ensures
        slot_fits(slot, num_blocks, block_size) <==> slot < 0 || slot < num_blocks * block_size,
{
    let block = slot as int / block_size;
    vstd::arithmetic::div_mod::lemma_fundamental_div_mod(slot as int, block_size);
    assert(block < num_blocks <==> slot < num_blocks * block_size) by (nonlinear_arith)
        requires
            slot as int == block_size * block + slot as int % block_size,
            0 <= slot as int % block_size < block_size,
    ;
}

/// Indices keep their value, but negative ones become zero; a sequence has as many tokens as its
/// cumulative lengths grow by.
pub proof fn indices_and_lengths(value: usize, negative: int, cu: Seq<usize>, s: int)
    requires
        negative < 0,
    ensures
        clamped(value as int) == value,
        clamped(negative) == 0,
        cu[s] <= cu[s + 1] ==> cu[s] + sequence_len(cu, s) == cu[s + 1],
        cu[s] >= cu[s + 1] ==> sequence_len(cu, s) == 0,
{
}

/// The values of an index tensor are its integers, one for one, and its type is theirs; a tensor
/// of another type has none.
pub proof fn index_tensors_have_their_values(index: IndexData, i: int)
    ensures
        index matches IndexData::I32(v) ==> {
            &&& index.dtype() == DType::I32
            &&& index.is_narrow()
            &&& index.values() is Some && index.values()->0.len() == v@.len()
            &&& 0 <= i < v@.len() ==> index.values()->0[i] == v@[i]
        },
        index matches IndexData::U32(v) ==> {
            &&& index.dtype() == DType::U32
            &&& index.is_narrow()
            &&& index.values() is Some && index.values()->0.len() == v@.len()
            &&& 0 <= i < v@.len() ==> index.values()->0[i] == v@[i]
        },
        index matches IndexData::I64(v) ==> {
            &&& index.dtype() == DType::I64
            &&& !index.is_narrow()
            &&& index.values() is Some && index.values()->0.len() == v@.len()
            &&& 0 <= i < v@.len() ==> index.values()->0[i] == v@[i]
        },
        index matches IndexData::Other(dtype) ==> index.values() is None && index.dtype() == dtype
            && !index.is_narrow(),
{
}

/// The fault that is told is the first one: no sequence before it, and no token before it in its
/// sequence, lacks a block; so there is only one such fault.
pub proof fn first_missing_block_is_told(
    tables: Seq<Vec<usize>>,
    cu: Seq<usize>,
    num_blocks: int,
    block_size: int,
    sequence: int,
    token: int,
    s: int,
    t: int,
)
    requires
        is_first_gather_fault(tables, cu, num_blocks, block_size, sequence, token),
        0 <= s < tables.len(),
        0 <= t < cu[s + 1] - cu[s],
        !token_has_block(tables[s]@, t, num_blocks, block_size),
    ensures
        sequence < s || sequence == s && token <= t,
        !token_has_block(tables[sequence]@, token, num_blocks, block_size),
{
    if s < sequence {
        assert(sequence_is_backed(tables[s]@, sequence_len(cu, s), num_blocks, block_size));
    }
}

/// A gather whose tokens all have a block finds no fault.
pub proof fn backed_sequences_have_no_fault(
    table: Seq<usize>,
    count: int,
    num_blocks: int,
    block_size: int,
    token: int,
)
    requires
        0 <= token < count,
        !token_has_block(table, token, num_blocks, block_size),
    ensures
        !sequence_is_backed(table, count, num_blocks, block_size),
{
}

} // verus!
