use vstd::prelude::*;

verus! {

/// A contiguous byte region owned by the pool. A block starts zero-filled at
/// its configured capacity; `split_at` carves it into two blocks over
/// disjoint parts of the bytes.
#[derive(Debug)]
pub struct Block {
    pub data: Vec<u8>,
}

impl View for Block {
    type V = Seq<u8>;

    open spec fn view(&self) -> Seq<u8> {
        self.data@
    }
}

impl Block {
    /// A zero-filled block of the given capacity.
    pub fn new(capacity: usize) -> (r: Block)
        ensures
            r@.len() == capacity,
            forall|i: int| 0 <= i < capacity ==> r@[i] == 0u8,
    {
        let mut data: Vec<u8> = Vec::new();
        let mut i: usize = 0;
        while i < capacity
            invariant
                i <= capacity,
                data@.len() == i,
                forall|j: int| 0 <= j < i ==> data@[j] == 0u8,
            decreases capacity - i,
        {
            data.push(0);
            i = i + 1;
        }
        Block { data }
    }

    /// A block over no bytes at all.
    pub fn empty() -> (r: Block)
        ensures
            r@.len() == 0,
    {
        Block { data: Vec::new() }
    }

    pub fn capacity(&self) -> (r: usize)
        ensures
            r == self@.len(),
    {
        self.data.len()
    }

    pub fn as_slice(&self) -> (r: &[u8])
        ensures
            r@ == self@,
    {
        self.data.as_slice()
    }

    /// Carves off and returns the left `index` bytes; this block keeps the
    /// right side.
    pub fn split_at(&mut self, index: usize) -> (r: Block)
        requires
            index <= old(self)@.len(),
        ensures
            r@ == old(self)@.take(index as int),
            final(self)@ == old(self)@.skip(index as int),
    {
        let mut tail = self.data.split_off(index);
        core::mem::swap(&mut self.data, &mut tail);
        proof {
            assert(tail@ =~= old(self)@.take(index as int));
            assert(self@ =~= old(self)@.skip(index as int));
        }
        Block { data: tail }
    }

    /// Zeroes every byte and hands the block back at full width, ready to be
    /// pooled again.
    pub fn release(self) -> (r: Block)
        ensures
            r@.len() == self@.len(),
            forall|i: int| 0 <= i < r@.len() ==> r@[i] == 0u8,
    {
        let mut data = self.data;
        let n = data.len();
        let mut i: usize = 0;
        while i < n
            invariant
                i <= n,
                data@.len() == n,
                forall|j: int| 0 <= j < i ==> data@[j] == 0u8,
            decreases n - i,
        {
            data[i] = 0;
            i = i + 1;
        }
        Block { data }
    }
}

} // verus!
