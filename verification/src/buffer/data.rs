use vstd::prelude::*;

use crate::buffer::fill;
use crate::buffer::owned::OwnedImpl;
use crate::buffer::shared::SharedImpl;
use crate::error::Error;
use crate::wire::{
    emit_raw, emit_u64, emit_u8, parse_u8, parse_usize, u64_be, usize_be, Reader, Step,
};

verus! {

// ---------------------------------------------------------------------------
// The wire form of a length-prefixed payload, and of an optional one.
// ---------------------------------------------------------------------------

/// A `u64` length, then the raw bytes.
pub open spec fn wire_bytes(b: Seq<u8>) -> Seq<u8> {
    u64_be(b.len() as u64) + b
}

/// A presence byte, then the payload if present.
pub open spec fn wire_opt_bytes(o: Option<Seq<u8>>) -> Seq<u8> {
    match o {
        None => seq![0u8],
        Some(b) => seq![1u8] + wire_bytes(b),
    }
}

/// How many buffer bytes an optional payload takes up when decoded.
pub open spec fn opt_len(o: Option<Seq<u8>>) -> int {
    match o {
        None => 0,
        Some(b) => b.len() as int,
    }
}

/// Reading a length-prefixed payload into a buffer with `cap` bytes of room:
/// the length must arrive whole, fit the room, and be covered by the input.
pub open spec fn step_bytes(s: Seq<u8>, cap: int) -> Step<Seq<u8>> {
    match parse_usize(s) {
        None => Step::Fail(Error::Decode),
        Some((len, r1)) => if len > cap {
            Step::Fail(Error::OwnedRemaining { acquire: len, capacity: cap as usize })
        } else if r1.len() < len {
            Step::Fail(
                Error::BinaryDataSizeMismatch { expected: len, read: r1.len() as usize },
            )
        } else {
            Step::Done(r1.take(len as int), r1.skip(len as int), cap - len)
        },
    }
}

/// Reading an optional length-prefixed payload: a zero presence byte stands
/// alone, anything else announces a payload.
pub open spec fn step_opt_bytes(s: Seq<u8>, cap: int) -> Step<Option<Seq<u8>>> {
    match parse_u8(s) {
        None => Step::Fail(Error::Decode),
        Some((p, r1)) => if p == 0 {
            Step::Done(None, r1, cap)
        } else {
            match step_bytes(r1, cap) {
                Step::Done(b, r2, c2) => Step::Done(Some(b), r2, c2),
                Step::Fail(e) => Step::Fail(e),
            }
        },
    }
}

pub proof fn lemma_step_bytes(b: Seq<u8>, rest: Seq<u8>, cap: int)
    requires
        b.len() <= cap,
        b.len() <= usize::MAX,
    ensures
        step_bytes(wire_bytes(b) + rest, cap) == Step::Done(b, rest, cap - b.len()),
{
    let s = wire_bytes(b) + rest;
    let n = b.len() as usize;
    assert(s =~= usize_be(n) + (b + rest));
    crate::wire::lemma_parse_usize(n, b + rest);
    assert((b + rest).take(n as int) =~= b);
    assert((b + rest).skip(n as int) =~= rest);
}

pub proof fn lemma_step_opt_bytes(o: Option<Seq<u8>>, rest: Seq<u8>, cap: int)
    requires
        opt_len(o) <= cap,
        opt_len(o) <= usize::MAX,
    ensures
        step_opt_bytes(wire_opt_bytes(o) + rest, cap) == Step::Done(o, rest, cap - opt_len(o)),
{
    match o {
        None => {
            crate::wire::lemma_parse_u8(0u8, rest);
            assert(wire_opt_bytes(o) + rest =~= seq![0u8] + rest);
        },
        Some(b) => {
            let tail = wire_bytes(b) + rest;
            assert(wire_opt_bytes(o) + rest =~= seq![1u8] + tail);
            crate::wire::lemma_parse_u8(1u8, tail);
            lemma_step_bytes(b, rest, cap);
        },
    }
}

// ---------------------------------------------------------------------------
// The payload type itself.
// ---------------------------------------------------------------------------

/// A length-prefixed byte payload backed by pool storage. On the wire: a
/// big-endian `u64` length, then the raw bytes.
#[derive(Debug, PartialEq, Eq)]
pub struct BinaryData {
    pub data: SharedImpl,
}

impl Clone for BinaryData {
    /// The clone views the same bytes.
    fn clone(&self) -> (r: BinaryData)
        ensures
            r@ == self@,
    {
        BinaryData { data: self.data.clone() }
    }
}

impl View for BinaryData {
    type V = Seq<u8>;

    open spec fn view(&self) -> Seq<u8> {
        self.data@
    }
}

impl BinaryData {
    pub fn new(data: SharedImpl) -> (r: BinaryData)
        ensures
            r@ == data@,
    {
        BinaryData { data }
    }

    /// Copies the bytes into the buffer, carves the written region off into
    /// its own storage, and freezes it: the result reads back exactly the
    /// bytes handed in. The buffer must be unused — its fill cursor at zero,
    /// as `acquire` hands it out — and the cursor stands at zero again
    /// after, so payloads can be built one after another. Fails, leaving the
    /// buffer as it was, when the bytes outgrow the buffer's room.
    pub fn from_owned(data: &[u8], owned: &mut OwnedImpl) -> (r: Result<BinaryData, Error>)
        requires
            old(owned).wf(),
            old(owned).filled == 0,
        ensures
            final(owned).wf(),
            final(owned).filled == 0,
            match r {
                Ok(bd) => {
                    &&& data@.len() <= old(owned).cap()
                    &&& bd@ == data@
                    &&& final(owned).cap() == old(owned).cap() - data@.len()
                },
                Err(e) => {
                    &&& data@.len() > old(owned).cap()
                    &&& e == (Error::OwnedRemaining {
                        acquire: data@.len() as usize,
                        capacity: old(owned).cap() as usize,
                    })
                    &&& *final(owned) == *old(owned)
                },
            },
    {
        let len = data.len();
        let capacity = owned.unfilled_capacity();
        if capacity < len {
            return Err(Error::OwnedRemaining { acquire: len, capacity });
        }
        fill(owned, data);
        let region = owned.split_at(len);
        let shared = region.into_shared();
        proof {
            assert(region.block@ =~= data@);
        }
        Ok(BinaryData::new(shared))
    }

    pub fn len(&self) -> (r: usize)
        ensures
            r == self@.len(),
    {
        self.data.len()
    }

    pub fn is_empty(&self) -> (r: bool)
        ensures
            r == (self@.len() == 0),
    {
        self.len() == 0
    }

    pub fn data(&self) -> (r: &SharedImpl)
        ensures
            r@ == self@,
    {
        &self.data
    }

    /// Reads the length prefix, checks it against the buffer's room, copies
    /// the payload into the buffer, and carves that region off as the
    /// payload's own frozen storage.
    pub fn decode_owned(reader: &mut Reader, buffer: &mut OwnedImpl) -> (r: Result<
        BinaryData,
        Error,
    >)
        requires
            old(reader).wf(),
            old(buffer).wf(),
            old(buffer).filled == 0,
        ensures
            final(reader).wf(),
            final(reader).data == old(reader).data,
            final(buffer).wf(),
            final(buffer).filled == 0,
            match r {
                Ok(bd) => step_bytes(old(reader).rem(), old(buffer).cap()) == Step::Done(
                    bd@,
                    final(reader).rem(),
                    final(buffer).cap(),
                ),
                Err(e) => {
                    &&& step_bytes(old(reader).rem(), old(buffer).cap()) == Step::<Seq<u8>>::Fail(e)
                    &&& *final(buffer) == *old(buffer)
                },
            },
    {
        let len = reader.read_usize()?;
        let capacity = buffer.unfilled_capacity();
        if capacity < len {
            return Err(Error::OwnedRemaining { acquire: len, capacity });
        }
        let payload = reader.read_vec(len)?;
        fill(buffer, payload.as_slice());
        let region = buffer.split_at(len);
        let shared = region.into_shared();
        proof {
            assert(region.block@ =~= payload@);
        }
        Ok(BinaryData::new(shared))
    }

    /// Writes the `u64` length, then the raw bytes.
    pub fn encode(&self, writer: &mut Vec<u8>) -> (r: Result<(), Error>)
        ensures
            r is Ok,
            final(writer)@ == old(writer)@ + wire_bytes(self@),
    {
        emit_u64(writer, self.len() as u64);
        emit_raw(writer, self.data.as_slice());
        proof {
            assert(writer@ =~= old(writer)@ + wire_bytes(self@));
        }
        Ok(())
    }
}

/// The byte strings of an optional payload.
pub open spec fn opt_data_view(o: Option<BinaryData>) -> Option<Seq<u8>> {
    match o {
        None => None,
        Some(b) => Some(b@),
    }
}

/// Reads a presence byte and, when it is nonzero, a payload after it.
pub fn decode_opt_binary(reader: &mut Reader, buffer: &mut OwnedImpl) -> (r: Result<
    Option<BinaryData>,
    Error,
>)
    requires
        old(reader).wf(),
        old(buffer).wf(),
        old(buffer).filled == 0,
    ensures
        final(reader).wf(),
        final(reader).data == old(reader).data,
        final(buffer).wf(),
        final(buffer).filled == 0,
        match r {
            Ok(o) => step_opt_bytes(old(reader).rem(), old(buffer).cap()) == Step::Done(
                opt_data_view(o),
                final(reader).rem(),
                final(buffer).cap(),
            ),
            Err(e) => step_opt_bytes(old(reader).rem(), old(buffer).cap()) == Step::<Option<Seq<u8>>>::Fail(e),
        },
{
    let presence = reader.read_u8()?;
    if presence == 0 {
        Ok(None)
    } else {
        let bd = BinaryData::decode_owned(reader, buffer)?;
        Ok(Some(bd))
    }
}

/// Writes a presence byte and, when the payload is there, the payload.
pub fn encode_opt_binary(value: &Option<BinaryData>, writer: &mut Vec<u8>) -> (r: Result<
    (),
    Error,
>)
    ensures
        r is Ok,
        final(writer)@ == old(writer)@ + wire_opt_bytes(opt_data_view(*value)),
{
    match value {
        Some(bd) => {
            emit_u8(writer, 1);
            bd.encode(writer)?;
            proof {
                assert(writer@ =~= old(writer)@ + wire_opt_bytes(opt_data_view(*value)));
            }
        },
        None => {
            emit_u8(writer, 0);
            proof {
                assert(writer@ =~= old(writer)@ + wire_opt_bytes(opt_data_view(*value)));
            }
        },
    }
    Ok(())
}

} // verus!
