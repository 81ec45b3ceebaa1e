use vstd::prelude::*;
use vstd::string::StringSliceAdditionalSpecFns;

use crate::buffer::data::{step_bytes, wire_bytes, BinaryData};
use crate::buffer::owned::OwnedImpl;
use crate::buffer::shared::SharedImpl;
use crate::error::Error;
use crate::wire::{parse_u8, Reader, Step};

verus! {

/// A length-prefixed string payload: the same wire form as `BinaryData`,
/// with a UTF-8 accessor on top.
#[derive(Debug, PartialEq, Eq)]
pub struct ByteStr(pub BinaryData);

impl Clone for ByteStr {
    /// The clone views the same bytes.
    fn clone(&self) -> (r: ByteStr)
        ensures
            r@ == self@,
    {
        ByteStr(self.0.clone())
    }
}

impl View for ByteStr {
    type V = Seq<u8>;

    open spec fn view(&self) -> Seq<u8> {
        self.0@
    }
}

/// Relies on std's str::from_utf8: it succeeds exactly on valid UTF-8 and
/// the returned string reads back the same bytes.
#[verifier::external_body]
fn bytes_as_str(v: &[u8]) -> (r: Option<&str>)
    ensures
        r is Some <==> vstd::utf8::valid_utf8(v@),
        r matches Some(s) ==> s.spec_bytes() == v@,
{
    std::str::from_utf8(v).ok()
}

impl ByteStr {
    pub fn new(data: BinaryData) -> (r: ByteStr)
        ensures
            r@ == data@,
    {
        ByteStr(data)
    }

    /// Copies the string's bytes into the buffer and carves them off into
    /// their own frozen storage, exactly as `BinaryData::from_owned` does:
    /// the buffer must be unused, and the result reads back the string's
    /// bytes.
    pub fn from_owned(data: &str, owned: &mut OwnedImpl) -> (r: Result<ByteStr, Error>)
        requires
            old(owned).wf(),
            old(owned).filled == 0,
        ensures
            final(owned).wf(),
            final(owned).filled == 0,
            match r {
                Ok(bs) => {
                    &&& data.spec_bytes().len() <= old(owned).cap()
                    &&& bs@ == data.spec_bytes()
                    &&& final(owned).cap() == old(owned).cap() - data.spec_bytes().len()
                },
                Err(e) => {
                    &&& data.spec_bytes().len() > old(owned).cap()
                    &&& e == (Error::OwnedRemaining {
                        acquire: data.spec_bytes().len() as usize,
                        capacity: old(owned).cap() as usize,
                    })
                    &&& *final(owned) == *old(owned)
                },
            },
    {
        let bytes = data.as_bytes();
        let inner = BinaryData::from_owned(bytes, owned)?;
        Ok(ByteStr(inner))
    }

    pub fn len(&self) -> (r: usize)
        ensures
            r == self@.len(),
    {
        self.0.len()
    }

    pub fn is_empty(&self) -> (r: bool)
        ensures
            r == (self@.len() == 0),
    {
        self.0.is_empty()
    }

    pub fn inner(&self) -> (r: &BinaryData)
        ensures
            r@ == self@,
    {
        &self.0
    }

    pub fn data(&self) -> (r: &SharedImpl)
        ensures
            r@ == self@,
    {
        self.0.data()
    }

    pub fn as_slice(&self) -> (r: &[u8])
        ensures
            r@ == self@,
    {
        self.0.data.as_slice()
    }

    /// The bytes as UTF-8, when they are valid UTF-8.
    pub fn as_str(&self) -> (r: Option<&str>)
        ensures
            r is Some <==> vstd::utf8::valid_utf8(self@),
            r matches Some(s) ==> s.spec_bytes() == self@,
    {
        bytes_as_str(self.0.data.as_slice())
    }

    /// Reads a length prefix and payload, exactly as `BinaryData` decodes.
    pub fn decode_owned(reader: &mut Reader, buffer: &mut OwnedImpl) -> (r: Result<ByteStr, Error>)
        requires
            old(reader).wf(),
            old(buffer).wf(),
            old(buffer).filled == 0,
        ensures
            final(reader).wf(),
            final(reader).data == old(reader).data,
            final(buffer).wf(),
            final(buffer).filled == 0,
            match r {
                Ok(bs) => step_bytes(old(reader).rem(), old(buffer).cap()) == Step::Done(
                    bs@,
                    final(reader).rem(),
                    final(buffer).cap(),
                ),
                Err(e) => step_bytes(old(reader).rem(), old(buffer).cap()) == Step::<
                    Seq<u8>,
                >::Fail(e),
            },
    {
        let inner = BinaryData::decode_owned(reader, buffer)?;
        Ok(ByteStr(inner))
    }

    /// Writes the `u64` length, then the raw bytes.
    pub fn encode(&self, writer: &mut Vec<u8>) -> (r: Result<(), Error>)
        ensures
            r is Ok,
            final(writer)@ == old(writer)@ + wire_bytes(self@),
    {
        self.0.encode(writer)
    }
}

/// The byte strings of an optional string payload.
pub open spec fn opt_str_view(o: Option<ByteStr>) -> Option<Seq<u8>> {
    match o {
        None => None,
        Some(b) => Some(b@),
    }
}

/// Reads a presence byte and, when it is nonzero, a string payload.
pub fn decode_opt_byte_str(reader: &mut Reader, buffer: &mut OwnedImpl) -> (r: Result<
    Option<ByteStr>,
    Error,
>)
    requires
        old(reader).wf(),
        old(buffer).wf(),
        old(buffer).filled == 0,
    ensures
        final(reader).wf(),
        final(reader).data == old(reader).data,
        final(buffer).wf(),
        final(buffer).filled == 0,
        match r {
            Ok(o) => crate::buffer::data::step_opt_bytes(old(reader).rem(), old(buffer).cap())
                == Step::Done(opt_str_view(o), final(reader).rem(), final(buffer).cap()),
            Err(e) => crate::buffer::data::step_opt_bytes(old(reader).rem(), old(buffer).cap())
                == Step::<Option<Seq<u8>>>::Fail(e),
        },
{
    let presence = reader.read_u8()?;
    if presence == 0 {
        Ok(None)
    } else {
        let bs = ByteStr::decode_owned(reader, buffer)?;
        Ok(Some(bs))
    }
}

/// Writes a presence byte and, when the string is there, the string.
pub fn encode_opt_byte_str(value: &Option<ByteStr>, writer: &mut Vec<u8>) -> (r: Result<(), Error>)
    ensures
        r is Ok,
        final(writer)@ == old(writer)@ + crate::buffer::data::wire_opt_bytes(
            opt_str_view(*value),
        ),
{
    match value {
        Some(bs) => {
            crate::wire::emit_u8(writer, 1);
            bs.encode(writer)?;
            proof {
                assert(writer@ =~= old(writer)@ + crate::buffer::data::wire_opt_bytes(
                    opt_str_view(*value),
                ));
            }
        },
        None => {
            crate::wire::emit_u8(writer, 0);
            proof {
                assert(writer@ =~= old(writer)@ + crate::buffer::data::wire_opt_bytes(
                    opt_str_view(*value),
                ));
            }
        },
    }
    Ok(())
}

} // verus!
