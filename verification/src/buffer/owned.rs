use vstd::prelude::*;

use crate::buffer::block::Block;
use crate::buffer::pool::Releaser;
use crate::buffer::shared::SharedImpl;

verus! {

/// A mutable, fill-tracked region of pool storage. The bytes below `filled`
/// are valid; the tail above it is open for writing. When the last holder of
/// the region's releaser drops, the storage goes back to its pool.
#[derive(Debug)]
pub struct OwnedImpl {
    pub block: Block,
    pub filled: usize,
    pub releaser: Option<Releaser>,
}

impl OwnedImpl {
    pub open spec fn wf(&self) -> bool {
        self.filled <= self.block@.len()
    }

    /// How many bytes the region spans in all.
    pub open spec fn cap(&self) -> int {
        self.block@.len() as int
    }

    /// How many bytes are still open for writing.
    pub open spec fn unfilled(&self) -> int {
        self.block@.len() - self.filled
    }

    pub(crate) fn new(block: Block, releaser: Releaser) -> (r: OwnedImpl)
        ensures
            r.wf(),
            r.block@ == block@,
            r.filled == 0,
    {
        OwnedImpl { block, filled: 0, releaser: Some(releaser) }
    }

    pub fn is_empty(&self) -> (r: bool)
        ensures
            r == (self.filled == 0),
    {
        self.filled == 0
    }

    pub fn unfilled_capacity(&self) -> (r: usize)
        requires
            self.wf(),
        ensures
            r == self.unfilled(),
    {
        self.block.capacity() - self.filled
    }

    /// Declares the next `len` bytes of the unfilled tail valid and moves
    /// the cursor past them.
    pub fn fill(&mut self, len: usize)
        requires
            old(self).wf(),
            old(self).filled + len <= old(self).cap(),
        ensures
            final(self).wf(),
            final(self).block == old(self).block,
            final(self).releaser == old(self).releaser,
            final(self).filled == old(self).filled + len,
    {
        let total = self.block.data.len();
        proof {
            assert(old(self).filled + len <= total);
        }
        self.filled = self.filled + len;
    }

    /// The valid prefix.
    pub fn filled(&self) -> (r: &[u8])
        requires
            self.wf(),
        ensures
            r@ == self.block@.take(self.filled as int),
    {
        let s = vstd::slice::slice_subrange(self.block.data.as_slice(), 0, self.filled);
        s
    }

    pub fn filled_len(&self) -> (r: usize)
        ensures
            r == self.filled,
    {
        self.filled
    }

    /// Carves off and returns the left `index` bytes together with their
    /// share of the fill cursor; this buffer keeps the right side.
    pub fn split_at(&mut self, index: usize) -> (r: OwnedImpl)
        requires
            old(self).wf(),
            index <= old(self).cap(),
        ensures
            final(self).wf(),
            r.wf(),
            r.block@ == old(self).block@.take(index as int),
            final(self).block@ == old(self).block@.skip(index as int),
            r.filled == if old(self).filled <= index {
                old(self).filled as int
            } else {
                index as int
            },
            final(self).filled == old(self).filled - r.filled,
    {
        let left = self.block.split_at(index);
        let left_filled = if self.filled < index {
            self.filled
        } else {
            index
        };
        self.filled = self.filled - left_filled;
        let releaser = match &self.releaser {
            Some(r) => Some(r.clone()),
            None => None,
        };
        OwnedImpl { block: left, filled: left_filled, releaser }
    }

    /// Freezes the whole region into an immutable, shareable view. The
    /// region can never grow again.
    pub fn into_shared(self) -> (r: SharedImpl)
        requires
            self.wf(),
        ensures
            r@ == self.block@,
    {
        let mut this = self;
        let mut b = Block::empty();
        core::mem::swap(&mut b, &mut this.block);
        let releaser = this.releaser.take();
        SharedImpl::from_parts(b, releaser)
    }
}

impl Drop for OwnedImpl {
    /// Relies on std's `Arc::strong_count` and crossbeam's `Sender::try_send`:
    /// when the last holder of the releaser drops, the storage is handed back
    /// to the pool's channel; otherwise a sibling region still holds it.
    #[verifier::external_body]
    fn drop(&mut self)
        opens_invariants none
        no_unwind
    {
        if let Some(releaser) = self.releaser.take() {
            if std::sync::Arc::strong_count(&releaser.tx) == 1 {
                let data = core::mem::take(&mut self.block.data);
                let _ = releaser.tx.try_send(Block { data });
            }
        }
    }
}

} // verus!
