//! Rows of blocks that are not complete yet.
//!
//! The rows hold the bit patterns of 32-bit floats. The pattern of zero is the integer zero.
use std::collections::HashMap;
use vstd::prelude::*;

verus! {

broadcast use vstd::std_specs::hash::group_hash_axioms;

/// The rows of the open blocks of one cache tensor.
pub struct TailStore {
    pub block_size: usize,
    pub num_heads: usize,
    pub head_dim: usize,
    pub rows: HashMap<usize, Vec<u32>>,
}

/// `block` with the row at `offset` replaced.
pub open spec fn with_row(block: Seq<u32>, offset: int, head_dim: int, row: Seq<u32>) -> Seq<u32> {
    Seq::new(
        block.len(),
        |i: int|
            if offset * head_dim <= i < offset * head_dim + head_dim {
                row[i - offset * head_dim]
            } else {
                block[i]
            },
    )
}

/// A block of zeros.
pub open spec fn zero_block(len: int) -> Seq<u32> {
    Seq::new(len as nat, |i: int| 0u32)
}

impl TailStore {
    /// The place of a block and head in the store.
    pub open spec fn place(&self, block: int, head: int) -> int {
        block * self.num_heads + head
    }

    /// The number of values of one block.
    pub open spec fn block_len(&self) -> int {
        self.block_size * self.head_dim
    }

    /// Every block of the store is whole.
    pub open spec fn wf(&self) -> bool {
        &&& self.block_len() <= usize::MAX
        &&& forall|p: usize| #[trigger]
            self.rows@.contains_key(p) ==> self.rows@[p].len() == self.block_len()
    }

    /// The rows of a block and head, as far as the store has any.
    pub open spec fn block_rows(&self, block: int, head: int) -> Option<Seq<u32>> {
        let p = self.place(block, head);
        if 0 <= p <= usize::MAX && self.rows@.contains_key(p as usize) {
            Some(self.rows@[p as usize]@)
        } else {
            None
        }
    }

    /// What a block holds just before a row is stored at `offset`: zeros if the store does not
    /// have it, or if the row is its first.
    pub open spec fn base_rows(&self, block: int, head: int, offset: int) -> Seq<u32> {
        match self.block_rows(block, head) {
            Some(rows) => if offset == 0 {
                zero_block(self.block_len())
            } else {
                rows
            },
            None => zero_block(self.block_len()),
        }
    }

    /// An empty store.
    pub fn new(block_size: usize, num_heads: usize, head_dim: usize) -> (store: Self)
        requires
            block_size * head_dim <= usize::MAX,
        ensures
            store.wf(),
            store.block_size == block_size,
            store.num_heads == num_heads,
            store.head_dim == head_dim,
            store.rows@ == Map::<usize, Vec<u32>>::empty(),
    {
        TailStore { block_size, num_heads, head_dim, rows: HashMap::new() }
    }

    /// Whether the store is for blocks of this shape.
    pub fn matches(&self, block_size: usize, num_heads: usize, head_dim: usize) -> (same: bool)
        ensures
            same == (self.block_size == block_size && self.num_heads == num_heads && self.head_dim
                == head_dim),
    {
        self.block_size == block_size && self.num_heads == num_heads && self.head_dim == head_dim
    }

    /// Empties the store if it is for blocks of another shape.
    pub fn prepare(&mut self, block_size: usize, num_heads: usize, head_dim: usize)
        requires
            old(self).wf(),
            block_size * head_dim <= usize::MAX,
        ensures
            final(self).wf(),
            final(self).block_size == block_size,
            final(self).num_heads == num_heads,
            final(self).head_dim == head_dim,
            final(self).rows@ == if old(self).block_size == block_size && old(self).num_heads
                == num_heads && old(self).head_dim == head_dim {
                old(self).rows@
            } else {
                Map::<usize, Vec<u32>>::empty()
            },
    {
        if !self.matches(block_size, num_heads, head_dim) {
            *self = TailStore::new(block_size, num_heads, head_dim);
        }
    }

    /// Stores one row of a block.
    ///
    /// The last row of a block takes the block out of the store and hands it over. Any other
    /// row leaves it there and hands over a copy only if partial blocks are quantized too.
    pub fn store_row(
        &mut self,
        block: usize,
        head: usize,
        block_offset: usize,
        row: &Vec<u32>,
        quantize_partial_blocks: bool,
    ) -> (ready: Option<Vec<u32>>)
        requires
            old(self).wf(),
            old(self).place(block as int, head as int) <= usize::MAX,
            block_offset < old(self).block_size,
            row.len() == old(self).head_dim,
        ensures
            final(self).wf(),
            final(self).block_size == old(self).block_size,
            final(self).num_heads == old(self).num_heads,
            final(self).head_dim == old(self).head_dim,
            ({
                let place = old(self).place(block as int, head as int) as usize;
                let rows = with_row(
                    old(self).base_rows(block as int, head as int, block_offset as int),
                    block_offset as int,
                    old(self).head_dim as int,
                    row@,
                );
                if block_offset + 1 == old(self).block_size {
                    &&& final(self).rows@ == old(self).rows@.remove(place)
                    &&& ready is Some
                    &&& ready->0@ == rows
                } else {
                    &&& final(self).rows@.dom() == old(self).rows@.dom().insert(place)
                    &&& final(self).rows@[place]@ == rows
                    &&& forall|p: usize|
                        p != place && #[trigger] old(self).rows@.contains_key(p)
                            ==> final(self).rows@[p] == old(self).rows@[p]
                    &&& ready is Some == quantize_partial_blocks
                    &&& ready matches Some(copy) ==> copy@ == rows
                }
            }),
    {
        proof {
            vstd::arithmetic::mul::lemma_mul_nonnegative(block as int, self.num_heads as int);
            assert(block_offset * self.head_dim + self.head_dim <= self.block_len())
                by (nonlinear_arith)
                requires
                    block_offset + 1 <= self.block_size,
                    self.block_len() == self.block_size * self.head_dim,
            ;
            vstd::arithmetic::mul::lemma_mul_nonnegative(
                block_offset as int,
                self.head_dim as int,
            );
        }
        let ghost base = self.base_rows(block as int, head as int, block_offset as int);
        let ghost before = self.rows@;
        let place: usize = block * self.num_heads + head;
        let found: Option<Vec<u32>> = self.rows.remove(&place);
        let len: usize = self.block_size * self.head_dim;
        let mut entry: Vec<u32> = match found {
            Some(entry) => if block_offset == 0 {
                vec![0u32; len]
            } else {
                entry
            },
            None => vec![0u32; len],
        };
        assert(entry@ =~= base);
        let start: usize = block_offset * self.head_dim;
        let mut i: usize = 0;
        while i < row.len()
            invariant
                i <= row.len(),
                row.len() == self.head_dim,
                start == block_offset * self.head_dim,
                start + row.len() <= entry.len(),
                entry.len() == base.len(),
                forall|j: int|
                    0 <= j < base.len() ==> #[trigger] entry@[j] == if start <= j < start + i {
                        row@[j - start]
                    } else {
                        base[j]
                    },
            decreases row.len() - i,
        {
            entry.set(start + i, row[i]);
            i += 1;
        }
        assert(entry@ =~= with_row(base, block_offset as int, self.head_dim as int, row@));
        if block_offset + 1 == self.block_size {
            assert(self.rows@ == before.remove(place));
            Some(entry)
        } else {
            let copy: Option<Vec<u32>> = if quantize_partial_blocks {
                Some(entry.clone())
            } else {
                None
            };
            self.rows.insert(place, entry);
            assert(self.rows@.dom() =~= before.dom().insert(place));
            copy
        }
    }

    /// One row of a block; zeros if the store does not have the block.
    pub fn load_row(&self, block: usize, head: usize, block_offset: usize) -> (row: Vec<u32>)
        requires
            self.wf(),
            self.place(block as int, head as int) <= usize::MAX,
            block_offset < self.block_size,
        ensures
            row@ == match self.block_rows(block as int, head as int) {
                Some(rows) => rows.subrange(
                    block_offset * self.head_dim,
                    block_offset * self.head_dim + self.head_dim,
                ),
                None => zero_block(self.head_dim as int),
            },
    {
        proof {
            vstd::arithmetic::mul::lemma_mul_nonnegative(block as int, self.num_heads as int);
            assert(block_offset * self.head_dim + self.head_dim <= self.block_len())
                by (nonlinear_arith)
                requires
                    block_offset + 1 <= self.block_size,
                    self.block_len() == self.block_size * self.head_dim,
            ;
            vstd::arithmetic::mul::lemma_mul_nonnegative(
                block_offset as int,
                self.head_dim as int,
            );
        }
        let place: usize = block * self.num_heads + head;
        match self.rows.get(&place) {
            Some(rows) => {
                let start: usize = block_offset * self.head_dim;
                let mut row: Vec<u32> = Vec::new();
                let mut i: usize = 0;
                while i < self.head_dim
                    invariant
                        i <= self.head_dim,
                        start + self.head_dim <= rows.len(),
                        row@ == rows@.subrange(start as int, start + i),
                    decreases self.head_dim - i,
                {
                    row.push(rows[start + i]);
                    i += 1;
                    assert(row@ =~= rows@.subrange(start as int, start + i));
                }
                row
            },
            None => {
                let row: Vec<u32> = vec![0u32; self.head_dim];
                assert(row@ =~= zero_block(self.head_dim as int));
                row
            },
        }
    }
}

/// One row of a block of a cache; zeros if the cache has no store yet.
pub fn load_tail_row(
    store: Option<&TailStore>,
    block: usize,
    head: usize,
    block_offset: usize,
    head_dim: usize,
) -> (row: Vec<u32>)
    requires
        store matches Some(s) ==> s.wf() && s.head_dim == head_dim && s.place(
            block as int,
            head as int,
        ) <= usize::MAX && block_offset < s.block_size,
    ensures
        row@ == match store {
            Some(s) => match s.block_rows(block as int, head as int) {
                Some(rows) => rows.subrange(
                    block_offset * head_dim,
                    block_offset * head_dim + head_dim,
                ),
                None => zero_block(head_dim as int),
            },
            None => zero_block(head_dim as int),
        },
{
    match store {
        Some(s) => s.load_row(block, head, block_offset),
        None => {
            let row: Vec<u32> = vec![0u32; head_dim];
            assert(row@ =~= zero_block(head_dim as int));
            row
        },
    }
}

/// A row that was stored is read back unchanged, and the other rows of its block read as they
/// did before, or as zeros if the row was the first of its block.
pub proof fn stored_row_reads_back(
    base: Seq<u32>,
    block_size: int,
    head_dim: int,
    offset: int,
    row: Seq<u32>,
    other: int,
)
    requires
        base.len() == block_size * head_dim,
        0 <= head_dim,
        0 <= offset < block_size,
        0 <= other < block_size,
        row.len() == head_dim,
    ensures
        ({
            let rows = with_row(base, offset, head_dim, row);
            &&& rows.len() == base.len()
            &&& rows.subrange(offset * head_dim, offset * head_dim + head_dim) == row
            &&& other != offset ==> rows.subrange(other * head_dim, other * head_dim + head_dim)
                == base.subrange(other * head_dim, other * head_dim + head_dim)
        }),
{
    let rows = with_row(base, offset, head_dim, row);
    assert(0 <= offset * head_dim && offset * head_dim + head_dim <= base.len())
        by (nonlinear_arith)
        requires
            0 <= offset < block_size,
            0 <= head_dim,
            base.len() == block_size * head_dim,
    ;
    assert(0 <= other * head_dim && other * head_dim + head_dim <= base.len())
        by (nonlinear_arith)
        requires
            0 <= other < block_size,
            0 <= head_dim,
            base.len() == block_size * head_dim,
    ;
    assert(rows.subrange(offset * head_dim, offset * head_dim + head_dim) =~= row);
    if other < offset {
        assert(other * head_dim + head_dim <= offset * head_dim) by (nonlinear_arith)
            requires
                other + 1 <= offset,
                0 <= head_dim,
        ;
        assert(rows.subrange(other * head_dim, other * head_dim + head_dim) =~= base.subrange(
            other * head_dim,
            other * head_dim + head_dim,
        ));
    } else if offset < other {
        assert(offset * head_dim + head_dim <= other * head_dim) by (nonlinear_arith)
            requires
                offset + 1 <= other,
                0 <= head_dim,
        ;
        assert(rows.subrange(other * head_dim, other * head_dim + head_dim) =~= base.subrange(
            other * head_dim,
            other * head_dim + head_dim,
        ));
    }
}

/// Different blocks and heads have different places in a store.
pub proof fn places_are_distinct(
    store: TailStore,
    block_a: int,
    head_a: int,
    block_b: int,
    head_b: int,
)
    requires
        0 <= head_a < store.num_heads,
        0 <= head_b < store.num_heads,
        store.place(block_a, head_a) == store.place(block_b, head_b),
    ensures
        block_a == block_b,
        head_a == head_b,
{
    let n = store.num_heads as int;
    assert(block_a == block_b) by (nonlinear_arith)
        requires
            block_a * n + head_a == block_b * n + head_b,
            0 <= head_a < n,
            0 <= head_b < n,
    ;
}

/// The first row of a block finds it empty, whatever was left there; a later row finds the rows
/// that came before it, or an empty block if there were none.
pub proof fn first_row_starts_a_new_block(
    store: TailStore,
    block: int,
    head: int,
    offset: int,
    place: usize,
    i: int,
)
    requires
        store.wf(),
        place == block * store.num_heads + head,
        0 <= i < store.block_size * store.head_dim,
    ensures
        store.base_rows(block, head, offset).len() == store.block_size * store.head_dim,
        store.base_rows(block, head, 0)[i] == 0,
        offset > 0 && store.rows@.contains_key(place) ==> store.base_rows(block, head, offset)
            == store.rows@[place]@,
        !store.rows@.contains_key(place) ==> store.base_rows(block, head, offset)[i] == 0,
{
}

/// The rows of a block and head are found behind those of the earlier heads and blocks; a store
/// that holds nothing there has none.
pub proof fn rows_are_found_by_block_and_head(
    store: TailStore,
    block: int,
    head: int,
    place: usize,
)
    requires
        place == block * store.num_heads + head,
    ensures
        store.rows@.contains_key(place) ==> store.block_rows(block, head) == Some(
            store.rows@[place]@,
        ),
        !store.rows@.contains_key(place) ==> store.block_rows(block, head) is None,
{
}

} // verus!
