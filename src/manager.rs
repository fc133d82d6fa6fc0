use vstd::prelude::*;
use crate::block::{Block, Nonce, CHUNK_SIZE};

verus! {

/// The largest nonce; a header whose offset reaches it is exhausted.
pub const NONCE_MAX: u32 = 0xffff_ffff;

/// Where the chunk that starts at `offset` ends: a nominal chunk, or the end
/// of the nonce space if less remains.
pub open spec fn chunk_end(offset: nat) -> nat {
    if NONCE_MAX - offset > CHUNK_SIZE {
        offset + CHUNK_SIZE as nat
    } else {
        NONCE_MAX as nat
    }
}

/// The active header with its nonce offset, the pre-generated spare that
/// replaces it once exhausted, and the number of exhausted headers.
pub struct BlockManager {
    pub active: Block,
    pub offset: Nonce,
    pub spare: Block,
    pub mined: u128,
}

impl BlockManager {
    /// A manager with two fresh headers, the active one at offset 0.
    pub fn new() -> (m: BlockManager)
        ensures
            m.offset == 0,
            m.mined == 0,
    {
        BlockManager { active: Block::new(), offset: 0, spare: Block::new(), mined: 0 }
    }

    /// Hands out the next chunk `(header, start, end)`. When the active
    /// header is exhausted, the spare becomes active at offset 0, a fresh
    /// spare is made, and the exhausted count goes up by one (saturating);
    /// the chunk then comes from the promoted header.
    pub fn get_block(&mut self) -> (r: (Block, Nonce, Nonce))
        ensures
            old(self).offset < NONCE_MAX ==> {
                &&& r.0 == old(self).active
                &&& r.1 == old(self).offset
                &&& final(self).active == old(self).active
                &&& final(self).spare == old(self).spare
                &&& final(self).mined == old(self).mined
            },
            old(self).offset == NONCE_MAX ==> {
                &&& r.0 == old(self).spare
                &&& r.1 == 0
                &&& final(self).active == old(self).spare
                &&& final(self).mined == if old(self).mined < u128::MAX {
                    old(self).mined + 1
                } else {
                    old(self).mined as int
                }
            },
            r.2 == chunk_end(r.1 as nat),
            final(self).offset == r.2,
    {
        if self.offset == NONCE_MAX {
            self.active = self.spare;
            self.offset = 0;
            self.spare = Block::new();
            if self.mined < u128::MAX {
                self.mined = self.mined + 1;
            }
        }
        let start = self.offset;
        let mut left = NONCE_MAX - start;
        if left > CHUNK_SIZE {
            left = CHUNK_SIZE;
        }
        let end = start + left;
        self.offset = end;
        (self.active, start, end)
    }
}

/// The chunks handed out for one header, in order, from offset 0: each
/// starts where the previous one ended, below the end of the nonce space,
/// and ends where allocation puts it.
pub open spec fn is_allocation_run(chunks: Seq<(Nonce, Nonce)>) -> bool {
    &&& chunks.len() > 0 ==> chunks[0].0 == 0
    &&& forall|i: int|
        0 <= i < chunks.len() ==> (#[trigger] chunks[i]).0 < NONCE_MAX && chunks[i].1 == chunk_end(
            chunks[i].0 as nat,
        )
    &&& forall|i: int| 0 < i < chunks.len() ==> (#[trigger] chunks[i]).0 == chunks[i - 1].1
}

/// Some chunk of `chunks` holds nonce `n`, as a half-open range.
pub open spec fn covered_by(chunks: Seq<(Nonce, Nonce)>, n: nat) -> bool {
    exists|k: int| 0 <= k < chunks.len() && (#[trigger] chunks[k]).0 <= n < chunks[k].1
}

proof fn lemma_run_ordered(chunks: Seq<(Nonce, Nonce)>, i: int, j: int)
    requires
        is_allocation_run(chunks),
        0 <= i < j < chunks.len(),
    ensures
        chunks[i].1 <= chunks[j].0,
    decreases j - i,
{
    assert(chunks[j].0 == chunks[j - 1].1);
    if i < j - 1 {
        lemma_run_ordered(chunks, i, j - 1);
        assert(chunks[j - 1].0 < chunks[j - 1].1);
    }
}

proof fn lemma_run_covers(chunks: Seq<(Nonce, Nonce)>, i: int, n: nat)
    requires
        is_allocation_run(chunks),
        chunks.len() > 0,
        chunks.last().1 == NONCE_MAX,
        0 <= i < chunks.len(),
        chunks[i].0 <= n < NONCE_MAX,
    ensures
        covered_by(chunks, n),
    decreases chunks.len() - i,
{
    if n >= chunks[i].1 {
        assert(chunks[i + 1].0 == chunks[i].1);
        lemma_run_covers(chunks, i + 1, n);
    }
}

/// The chunks handed out for one header, up to the one that exhausts it,
/// partition `[0, NONCE_MAX)`: each is non-empty, they are pairwise disjoint
/// as half-open ranges `[start, end)`, every nonce below `NONCE_MAX` lies in
/// one of them, and all but the last hold exactly `CHUNK_SIZE` nonces.
pub proof fn lemma_chunks_partition(chunks: Seq<(Nonce, Nonce)>)
    requires
        is_allocation_run(chunks),
        chunks.len() > 0,
        chunks.last().1 == NONCE_MAX,
    ensures
        forall|i: int| 0 <= i < chunks.len() ==> (#[trigger] chunks[i]).0 < chunks[i].1,
        forall|i: int, j: int|
            0 <= i < j < chunks.len() ==> (#[trigger] chunks[i]).1 <= (#[trigger] chunks[j]).0,
        forall|n: nat| n < NONCE_MAX ==> #[trigger] covered_by(chunks, n),
        forall|i: int|
            0 <= i < chunks.len() - 1 ==> (#[trigger] chunks[i]).1 - chunks[i].0 == CHUNK_SIZE,
{
    assert forall|i: int, j: int| 0 <= i < j < chunks.len() implies (#[trigger] chunks[i]).1
        <= (#[trigger] chunks[j]).0 by {
        lemma_run_ordered(chunks, i, j);
    }
    assert forall|n: nat| n < NONCE_MAX implies #[trigger] covered_by(chunks, n) by {
        lemma_run_covers(chunks, 0, n);
    }
    assert forall|i: int| 0 <= i < chunks.len() - 1 implies (#[trigger] chunks[i]).1 - chunks[i].0
        == CHUNK_SIZE by {
        assert(chunks[i + 1].0 == chunks[i].1);
    }
}

} // verus!
