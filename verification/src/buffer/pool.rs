use vstd::prelude::*;

use crate::buffer::block::Block;
use crate::buffer::owned::OwnedImpl;
use crate::buffer::BufferOwner;
use crate::error::Error;

verus! {

#[verifier::external_type_specification]
#[verifier::external_body]
#[verifier::reject_recursive_types(T)]
pub struct ExSender<T>(crossbeam_channel::Sender<T>);

#[verifier::external_type_specification]
#[verifier::external_body]
#[verifier::reject_recursive_types(T)]
pub struct ExReceiver<T>(crossbeam_channel::Receiver<T>);

/// Relies on crossbeam_channel::bounded: a connected channel pair that holds
/// at most `cap` items at a time.
#[verifier::external_body]
fn channel_bounded(cap: usize) -> (crossbeam_channel::Sender<Block>, crossbeam_channel::Receiver<
    Block,
>) {
    crossbeam_channel::bounded(cap)
}

/// Relies on crossbeam_channel::Sender::send: delivers the block to the
/// channel, waiting for room; `false` says every receiver is gone.
#[verifier::external_body]
fn channel_send(tx: &crossbeam_channel::Sender<Block>, block: Block) -> (r: bool) {
    tx.send(block).is_ok()
}

/// Relies on crossbeam_channel::Receiver::recv: blocks until an item is
/// available and hands it over; `None` says every sender is gone.
#[verifier::external_body]
fn channel_recv(rx: &crossbeam_channel::Receiver<Block>) -> (r: Option<Block>) {
    rx.recv().ok()
}

/// Relies on crossbeam_channel::Sender::clone: another handle on the same
/// channel.
pub assume_specification<T>[ <crossbeam_channel::Sender<T> as Clone>::clone ](
    tx: &crossbeam_channel::Sender<T>,
) -> crossbeam_channel::Sender<T>;

/// Relies on crossbeam_channel::Receiver::clone: another handle on the same
/// channel.
pub assume_specification<T>[ <crossbeam_channel::Receiver<T> as Clone>::clone ](
    rx: &crossbeam_channel::Receiver<T>,
) -> crossbeam_channel::Receiver<T>;

/// A reference-counted handle on a pool's return channel. When the final
/// clone of a releaser drops inside an `OwnedImpl` or `SharedImpl`, that
/// holder sends the underlying block back to the pool.
#[derive(Debug, Clone)]
pub struct Releaser {
    pub(crate) tx: std::sync::Arc<crossbeam_channel::Sender<Block>>,
}

impl Releaser {
    pub(crate) fn new(sender: crossbeam_channel::Sender<Block>) -> Releaser {
        Releaser { tx: std::sync::Arc::new(sender) }
    }
}

/// A bounded recycler of `Block`s: `capacity` blocks of `block_size` bytes
/// circulate through a channel for the pool's whole life.
#[derive(Clone)]
pub struct PoolImpl {
    tx: crossbeam_channel::Sender<Block>,
    rx: crossbeam_channel::Receiver<Block>,
    block_size: usize,
    capacity: usize,
}

impl PoolImpl {
    /// The width of every block this pool hands out.
    pub closed spec fn spec_block_size(&self) -> usize {
        self.block_size
    }

    /// How many blocks circulate through this pool.
    pub closed spec fn spec_capacity(&self) -> usize {
        self.capacity
    }

    /// Builds the pool and stocks its channel with `capacity` zero-filled
    /// blocks of `block_size` bytes each.
    pub fn new(block_size: usize, capacity: usize) -> (r: PoolImpl)
        ensures
            r.spec_block_size() == block_size,
            r.spec_capacity() == capacity,
    {
        let pair = channel_bounded(capacity);
        let tx = pair.0;
        let rx = pair.1;
        let mut i: usize = 0;
        while i < capacity
            invariant
                i <= capacity,
            decreases capacity - i,
        {
            let delivered = channel_send(&tx, Block::new(block_size));
            if !delivered {
                i = capacity;
            } else {
                i = i + 1;
            }
        }
        PoolImpl { tx, rx, block_size, capacity }
    }

    /// Waits for a block to come free and hands it out as a fresh, zeroed,
    /// full-width region. Fails only when the pool's channel has shut down,
    /// reported as an `OwnedRemaining` that asked for a block and found no
    /// room at all.
    pub fn acquire<R: BufferOwner>(&self, _reason: R) -> (r: Result<OwnedImpl, Error>)
        ensures
            match r {
                Ok(b) => {
                    &&& b.wf()
                    &&& b.filled == 0
                    &&& b.cap() == self.spec_block_size()
                    &&& forall|i: int| 0 <= i < b.cap() ==> b.block@[i] == 0u8
                },
                Err(e) => e == (Error::OwnedRemaining {
                    acquire: self.spec_block_size(),
                    capacity: 0,
                }),
            },
    {
        match channel_recv(&self.rx) {
            Some(block) => {
                let block = if block.capacity() == self.block_size {
                    block.release()
                } else {
                    Block::new(self.block_size)
                };
                Ok(OwnedImpl::new(block, Releaser::new(self.tx.clone())))
            },
            None => Err(Error::OwnedRemaining { acquire: self.block_size, capacity: 0 }),
        }
    }

    pub fn block_size(&self) -> (r: usize)
        ensures
            r == self.spec_block_size(),
    {
        self.block_size
    }

    pub fn capacity(&self) -> (r: usize)
        ensures
            r == self.spec_capacity(),
    {
        self.capacity
    }
}

} // verus!
