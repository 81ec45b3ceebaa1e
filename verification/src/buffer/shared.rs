use vstd::prelude::*;

use crate::buffer::block::Block;
use crate::buffer::pool::Releaser;

verus! {

/// An immutable, cheaply shareable view of pool bytes. Equality is byte-wise
/// over the viewed bytes. When the last holder of the underlying storage
/// drops, the storage goes back to its pool.
#[derive(Debug)]
pub struct SharedImpl {
    pub data: std::sync::Arc<Vec<u8>>,
    pub releaser: Option<Releaser>,
}

impl View for SharedImpl {
    type V = Seq<u8>;

    open spec fn view(&self) -> Seq<u8> {
        self.data@
    }
}

impl SharedImpl {
    pub(crate) fn from_parts(block: Block, releaser: Option<Releaser>) -> (r: SharedImpl)
        ensures
            r@ == block@,
    {
        SharedImpl { data: std::sync::Arc::new(block.data), releaser }
    }

    pub(crate) fn new(inner: Block, releaser: Releaser) -> (r: SharedImpl)
        ensures
            r@ == inner@,
    {
        SharedImpl::from_parts(inner, Some(releaser))
    }

    /// Test data detached from any pool.
    pub fn test_new(data: &[u8]) -> (r: SharedImpl)
        ensures
            r@ == data@,
    {
        let v = vstd::slice::slice_to_vec(data);
        SharedImpl { data: std::sync::Arc::new(v), releaser: None }
    }

    pub fn len(&self) -> (r: usize)
        ensures
            r == self@.len(),
    {
        self.data.len()
    }

    pub fn is_empty(&self) -> (r: bool)
        ensures
            r == (self@.len() == 0),
    {
        self.len() == 0
    }

    pub fn as_slice(&self) -> (r: &[u8])
        ensures
            r@ == self@,
    {
        self.data.as_slice()
    }
}

/// Relies on std's `Arc::clone`: another handle on the same allocation, so
/// the clone views the same bytes.
#[verifier::external_body]
fn arc_bytes_clone(arc: &std::sync::Arc<Vec<u8>>) -> (r: std::sync::Arc<Vec<u8>>)
    ensures
        r@ == arc@,
{
    arc.clone()
}

impl Clone for SharedImpl {
    /// The clone views the same bytes and shares the same releaser.
    fn clone(&self) -> (r: SharedImpl)
        ensures
            r@ == self@,
    {
        let releaser = match &self.releaser {
            Some(releaser) => Some(releaser.clone()),
            None => None,
        };
        SharedImpl { data: arc_bytes_clone(&self.data), releaser }
    }
}

impl PartialEq for SharedImpl {
    fn eq(&self, other: &SharedImpl) -> (r: bool) {
        let a: &Vec<u8> = &self.data;
        let b: &Vec<u8> = &other.data;
        let same = a == b;
        if same {
            proof {
                assert(self.data@ =~= other.data@);
            }
        }
        same
    }
}

impl vstd::std_specs::cmp::PartialEqSpecImpl for SharedImpl {
    open spec fn obeys_eq_spec() -> bool {
        true
    }

    open spec fn eq_spec(&self, other: &SharedImpl) -> bool {
        self@ == other@
    }
}

impl Eq for SharedImpl {

}

impl Drop for SharedImpl {
    /// Relies on std's `Arc` and crossbeam's `Sender::try_send`: when the
    /// last view of the storage drops, the bytes are handed back to the
    /// pool's channel; earlier drops leave them to the remaining holders.
    #[verifier::external_body]
    fn drop(&mut self)
        opens_invariants none
        no_unwind
    {
        if let Some(releaser) = self.releaser.take() {
            if std::sync::Arc::strong_count(&releaser.tx) == 1 {
                let arc = core::mem::take(&mut self.data);
                if let Ok(data) = std::sync::Arc::try_unwrap(arc) {
                    let _ = releaser.tx.try_send(Block { data });
                }
            }
        }
    }
}

} // verus!
