use vstd::prelude::*;

pub mod block;
pub mod data;
pub mod owned;
pub mod pool;
pub mod shared;
pub mod str;

pub use block::Block;
pub use data::BinaryData;
pub use owned::OwnedImpl;
pub use pool::{PoolImpl, Releaser};
pub use shared::SharedImpl;
pub use str::ByteStr;

verus! {

/// A thread-safe, read-only view of bytes: what a decoded payload hands out.
pub trait Shared: Clone + PartialEq + View<V = Seq<u8>> {
    fn len(&self) -> (r: usize)
        ensures
            r == self@.len(),
    ;

    fn is_empty(&self) -> (r: bool)
        ensures
            r == (self@.len() == 0),
    ;

    fn as_slice(&self) -> (r: &[u8])
        ensures
            r@ == self@,
    ;
}

impl Shared for SharedImpl {
    fn len(&self) -> (r: usize) {
        SharedImpl::len(self)
    }

    fn is_empty(&self) -> (r: bool) {
        SharedImpl::is_empty(self)
    }

    fn as_slice(&self) -> (r: &[u8]) {
        SharedImpl::as_slice(self)
    }
}

/// A mutable, fill-tracked region of bytes that can be carved up and frozen
/// into `Shared` views.
pub trait Owned: Sized {
    type Shared: Shared;

    /// The fill cursor never passes the region's end.
    spec fn inv(&self) -> bool;

    /// Every byte of the region, filled or not.
    spec fn bytes(&self) -> Seq<u8>;

    /// Where the fill cursor stands.
    spec fn cursor(&self) -> int;

    fn is_empty(&self) -> (r: bool)
        ensures
            r == (self.cursor() == 0),
    ;

    fn unfilled_capacity(&self) -> (r: usize)
        requires
            self.inv(),
        ensures
            r == self.bytes().len() - self.cursor(),
    ;

    fn fill(&mut self, len: usize)
        requires
            old(self).inv(),
            old(self).cursor() + len <= old(self).bytes().len(),
        ensures
            final(self).inv(),
            final(self).bytes() == old(self).bytes(),
            final(self).cursor() == old(self).cursor() + len,
    ;

    fn filled(&self) -> (r: &[u8])
        requires
            self.inv(),
        ensures
            r@ == self.bytes().take(self.cursor()),
    ;

    fn filled_len(&self) -> (r: usize)
        ensures
            r == self.cursor(),
    ;

    fn into_shared(self) -> (r: Self::Shared)
        requires
            self.inv(),
        ensures
            r@ == self.bytes(),
    ;

    fn split_at(&mut self, index: usize) -> (r: Self)
        requires
            old(self).inv(),
            index <= old(self).bytes().len(),
        ensures
            final(self).inv(),
            r.inv(),
            r.bytes() == old(self).bytes().take(index as int),
            final(self).bytes() == old(self).bytes().skip(index as int),
            r.cursor() == if old(self).cursor() <= index {
                old(self).cursor()
            } else {
                index as int
            },
            final(self).cursor() == old(self).cursor() - r.cursor(),
    ;
}

impl Owned for OwnedImpl {
    type Shared = SharedImpl;

    open spec fn inv(&self) -> bool {
        self.wf()
    }

    open spec fn bytes(&self) -> Seq<u8> {
        self.block@
    }

    open spec fn cursor(&self) -> int {
        self.filled as int
    }

    fn is_empty(&self) -> (r: bool) {
        OwnedImpl::is_empty(self)
    }

    fn unfilled_capacity(&self) -> (r: usize) {
        OwnedImpl::unfilled_capacity(self)
    }

    fn fill(&mut self, len: usize) {
        OwnedImpl::fill(self, len)
    }

    fn filled(&self) -> (r: &[u8]) {
        OwnedImpl::filled(self)
    }

    fn filled_len(&self) -> (r: usize) {
        OwnedImpl::filled_len(self)
    }

    fn into_shared(self) -> (r: SharedImpl) {
        OwnedImpl::into_shared(self)
    }

    fn split_at(&mut self, index: usize) -> (r: OwnedImpl) {
        OwnedImpl::split_at(self, index)
    }
}

/// A bounded recycler of fixed-width buffers.
pub trait Pool {
    type Buffer: Owned;

    spec fn spec_block_size(&self) -> usize;

    spec fn spec_capacity(&self) -> usize;

    fn acquire<R: BufferOwner>(&self, reason: R) -> (r: Result<Self::Buffer, crate::error::Error>)
        ensures
            r matches Ok(b) ==> b.inv() && b.cursor() == 0 && b.bytes().len()
                == self.spec_block_size(),
    ;

    fn block_size(&self) -> (r: usize)
        ensures
            r == self.spec_block_size(),
    ;

    fn capacity(&self) -> (r: usize)
        ensures
            r == self.spec_capacity(),
    ;
}

impl Pool for PoolImpl {
    type Buffer = OwnedImpl;

    open spec fn spec_block_size(&self) -> usize {
        PoolImpl::spec_block_size(self)
    }

    open spec fn spec_capacity(&self) -> usize {
        PoolImpl::spec_capacity(self)
    }

    fn acquire<R: BufferOwner>(&self, reason: R) -> (r: Result<OwnedImpl, crate::error::Error>) {
        PoolImpl::acquire(self, reason)
    }

    fn block_size(&self) -> (r: usize) {
        PoolImpl::block_size(self)
    }

    fn capacity(&self) -> (r: usize) {
        PoolImpl::capacity(self)
    }
}

/// Names the holder of a buffer for tracing; the pool asks for one on every
/// acquisition.
pub trait BufferOwner: Copy {
    fn why(&self) -> &'static str;
}

impl BufferOwner for &'static str {
    fn why(&self) -> &'static str {
        *self
    }
}

/// Copies as much of `data` as still fits into the unfilled tail of the
/// buffer and advances the fill cursor over it.
pub fn fill(buffer: &mut OwnedImpl, data: &[u8])
    requires
        old(buffer).wf(),
    ensures
        final(buffer).wf(),
        ({
            let k = if data@.len() <= old(buffer).unfilled() {
                data@.len() as int
            } else {
                old(buffer).unfilled() as int
            };
            &&& final(buffer).filled == old(buffer).filled + k
            &&& final(buffer).block@ == old(buffer).block@.take(old(buffer).filled as int)
                + data@.take(k) + old(buffer).block@.skip(old(buffer).filled + k)
            &&& final(buffer).cap() == old(buffer).cap()
        }),
{
    let avail = buffer.unfilled_capacity();
    let len = if data.len() < avail {
        data.len()
    } else {
        avail
    };
    let base = buffer.filled;
    let total = buffer.block.data.len();
    let mut i: usize = 0;
    while i < len
        invariant
            i <= len,
            len <= data@.len(),
            base == old(buffer).filled,
            base + len <= total,
            total == buffer.block@.len(),
            buffer.filled == base,
            buffer.releaser == old(buffer).releaser,
            buffer.block@.len() == old(buffer).block@.len(),
            buffer.block@ == old(buffer).block@.take(base as int) + data@.take(i as int)
                + old(buffer).block@.skip(base + i),
        decreases len - i,
    {
        let ghost prev = buffer.block@;
        buffer.block.data[base + i] = data[i];
        i = i + 1;
        proof {
            assert(buffer.block@ =~= old(buffer).block@.take(base as int) + data@.take(i as int)
                + old(buffer).block@.skip(base + i));
        }
    }
    buffer.filled = buffer.filled + len;
    proof {
        let k = if data@.len() <= old(buffer).unfilled() {
            data@.len() as int
        } else {
            old(buffer).unfilled() as int
        };
        assert(k == len as int);
    }
}

/// Test data living outside any pool: the bytes as a `BinaryData`.
pub fn binary_data(data: &[u8]) -> (r: BinaryData)
    ensures
        r@ == data@,
{
    BinaryData::new(SharedImpl::test_new(data))
}

/// Test data living outside any pool: the bytes as a `ByteStr`.
pub fn byte_str(data: &[u8]) -> (r: ByteStr)
    ensures
        r@ == data@,
{
    ByteStr::new(binary_data(data))
}

} // verus!
