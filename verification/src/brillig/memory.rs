//! The linear memory of the machine, handed out block by block.

use vstd::prelude::*;

verus! {

/// A block of memory: the cells from `start_address` up to, and without,
/// `end_address`.
#[derive(Clone, Copy, Debug, PartialEq, Eq)]
pub struct Allocation {
    pub start_address: usize,
    pub end_address: usize,
}

/// The block that an allocation of `size` cells gets when `watermark` cells
/// are taken: its start and its end.
pub open spec fn block_at(watermark: nat, size: nat) -> (nat, nat) {
    (watermark, watermark + size)
}

/// The blocks that allocations of `sizes`, one after the other, get when
/// `watermark` cells are taken at first.
pub open spec fn blocks_from(watermark: nat, sizes: Seq<nat>) -> Seq<(nat, nat)>
    decreases sizes.len(),
{
    if sizes.len() == 0 {
        Seq::empty()
    } else {
        seq![block_at(watermark, sizes[0])] + blocks_from(watermark + sizes[0], sizes.drop_first())
    }
}

/// Hands out memory from a watermark that only rises: no cell is given twice
/// and none is taken back.
#[derive(Debug)]
pub struct BrilligMemory {
    latest_register: usize,
}

impl View for BrilligMemory {
    type V = nat;

    /// The number of cells taken so far.
    closed spec fn view(&self) -> nat {
        self.latest_register as nat
    }
}

impl Allocation {
    /// The block as a pair of start and end.
    pub open spec fn bounds(&self) -> (nat, nat) {
        (self.start_address as nat, self.end_address as nat)
    }
}

impl BrilligMemory {
    /// A memory of which nothing is taken.
    pub fn new() -> (memory: Self)
        ensures
            memory@ == 0,
    {
        BrilligMemory { latest_register: 0 }
    }

    /// The cells taken can be counted by the machine.
    pub proof fn lemma_bounded(&self)
        ensures
            self@ <= usize::MAX,
    {
    }

    /// Takes the next `size` cells.
    pub fn allocate(&mut self, size: usize) -> (allocation: Allocation)
        requires
            old(self)@ + size <= usize::MAX,
        ensures
            allocation.bounds() == block_at(old(self)@, size as nat),
            final(self)@ == old(self)@ + size,
    {
        let start_address: usize = self.latest_register;
        let end_address: usize = start_address + size;
        self.latest_register = end_address;
        Allocation { start_address, end_address }
    }
}

impl Default for BrilligMemory {
    /// A memory of which nothing is taken.
    fn default() -> (memory: Self)
        ensures
            memory@ == 0,
    {
        BrilligMemory::new()
    }
}

/// Whether `watermarks` are what allocations of `sizes`, one after the
/// other, make of the number of cells taken: the first is the number before
/// the first allocation, and each allocation adds its size.
pub open spec fn is_run(watermarks: Seq<nat>, sizes: Seq<nat>) -> bool {
    &&& watermarks.len() == sizes.len() + 1
    &&& forall|k: int|
        0 <= k < sizes.len() ==> watermarks[k + 1] == (#[trigger] watermarks[k]) + sizes[k]
}

/// Allocations made one after the other, with none in between, get the
/// blocks of a run: the `k`-th starts at the first watermark plus the sizes
/// before it, so an allocation of no cells leaves the next start where it
/// was, and there is no gap.
pub proof fn lemma_run_blocks(watermarks: Seq<nat>, sizes: Seq<nat>, k: int)
    requires
        is_run(watermarks, sizes),
        0 <= k < sizes.len(),
    ensures
        block_at(watermarks[k], sizes[k]) == blocks_from(watermarks[0], sizes)[k],
    decreases sizes.len(),
{
    lemma_blocks_len(watermarks[0], sizes);
    lemma_blocks_len(watermarks[0] + sizes[0], sizes.drop_first());
    if k > 0 {
        let later = watermarks.drop_first();
        let rest = sizes.drop_first();
        assert(is_run(later, rest)) by {
            assert forall|j: int| 0 <= j < rest.len() implies later[j + 1] == (#[trigger] later[j])
                + rest[j] by {
                assert(watermarks[j + 1 + 1] == watermarks[j + 1] + sizes[j + 1]);
            }
        }
        assert(later[0] == watermarks[0] + sizes[0]);
        lemma_run_blocks(later, rest, k - 1);
        assert(blocks_from(watermarks[0], sizes)[k] == blocks_from(later[0], rest)[k - 1]);
    }
}

/// A run of allocations starts at the watermark and gives `sizes.len()`
/// blocks, each as long as was asked for.
pub proof fn lemma_blocks_shape(watermark: nat, sizes: Seq<nat>, i: int)
    requires
        0 <= i < sizes.len(),
    ensures
        blocks_from(watermark, sizes).len() == sizes.len(),
        blocks_from(watermark, sizes)[0].0 == watermark,
        blocks_from(watermark, sizes)[i].1 == blocks_from(watermark, sizes)[i].0 + sizes[i],
    decreases sizes.len(),
{
    lemma_blocks_len(watermark, sizes);
    if i > 0 {
        lemma_blocks_shape(watermark + sizes[0], sizes.drop_first(), i - 1);
    }
}

/// A run of allocations gives as many blocks as sizes were asked for.
pub proof fn lemma_blocks_len(watermark: nat, sizes: Seq<nat>)
    ensures
        blocks_from(watermark, sizes).len() == sizes.len(),
    decreases sizes.len(),
{
    if sizes.len() > 0 {
        lemma_blocks_len(watermark + sizes[0], sizes.drop_first());
    }
}

/// Successive allocations are contiguous: each block starts where the one
/// before it ends.
pub proof fn lemma_blocks_contiguous(watermark: nat, sizes: Seq<nat>, i: int)
    requires
        0 <= i,
        i + 1 < sizes.len(),
    ensures
        blocks_from(watermark, sizes)[i + 1].0 == blocks_from(watermark, sizes)[i].1,
    decreases sizes.len(),
{
    lemma_blocks_len(watermark, sizes);
    lemma_blocks_len(watermark + sizes[0], sizes.drop_first());
    if i > 0 {
        lemma_blocks_contiguous(watermark + sizes[0], sizes.drop_first(), i - 1);
    } else {
        lemma_blocks_shape(watermark + sizes[0], sizes.drop_first(), 0);
    }
}

/// Successive allocations do not overlap: a later block starts at or after
/// the end of every earlier one, and none lies below the first watermark.
pub proof fn lemma_blocks_disjoint(watermark: nat, sizes: Seq<nat>, i: int, j: int)
    requires
        0 <= i < j < sizes.len(),
    ensures
        watermark <= blocks_from(watermark, sizes)[i].0,
        blocks_from(watermark, sizes)[i].1 <= blocks_from(watermark, sizes)[j].0,
    decreases j - i,
{
    lemma_blocks_start_rises(watermark, sizes, i);
    lemma_blocks_shape(watermark, sizes, j - 1);
    lemma_blocks_contiguous(watermark, sizes, j - 1);
    if i + 1 < j {
        lemma_blocks_disjoint(watermark, sizes, i, j - 1);
    }
}

/// No block of a run of allocations lies below the first watermark.
pub proof fn lemma_blocks_start_rises(watermark: nat, sizes: Seq<nat>, i: int)
    requires
        0 <= i < sizes.len(),
    ensures
        watermark <= blocks_from(watermark, sizes)[i].0,
    decreases sizes.len(),
{
    lemma_blocks_len(watermark + sizes[0], sizes.drop_first());
    if i > 0 {
        lemma_blocks_start_rises(watermark + sizes[0], sizes.drop_first(), i - 1);
    }
}

} // verus!
