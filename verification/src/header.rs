use vstd::prelude::*;

use crate::error::Error;
use crate::kind::{byte_kind, kind_byte, Kind};
use crate::wire::{
    parse_u128, parse_u8, parse_usize, u128_be, usize_be, Reader,
};

verus! {

/// The protocol version byte of a header.
#[derive(Clone, Copy, Debug, PartialEq, Eq, Structural, Hash, PartialOrd, Ord)]
pub struct Version(pub u8);

impl From<u8> for Version {
    fn from(value: u8) -> (r: Self) {
        Version(value)
    }
}

impl vstd::std_specs::convert::FromSpecImpl<u8> for Version {
    open spec fn obeys_from_spec() -> bool {
        true
    }

    open spec fn from_spec(t: u8) -> Version {
        Version(t)
    }
}

impl From<Version> for u8 {
    fn from(value: Version) -> (r: Self) {
        value.0
    }
}

impl vstd::std_specs::convert::FromSpecImpl<Version> for u8 {
    open spec fn obeys_from_spec() -> bool {
        true
    }

    open spec fn from_spec(t: Version) -> u8 {
        t.0
    }
}

/// The correlation id of a request and its ack.
#[derive(Clone, Copy, Debug, PartialEq, Eq, Structural, Hash, PartialOrd, Ord)]
pub struct Uuid(pub u128);

impl From<u128> for Uuid {
    fn from(value: u128) -> (r: Self) {
        Uuid(value)
    }
}

impl vstd::std_specs::convert::FromSpecImpl<u128> for Uuid {
    open spec fn obeys_from_spec() -> bool {
        true
    }

    open spec fn from_spec(t: u128) -> Uuid {
        Uuid(t)
    }
}

/// The fixed 26-byte frame preamble: kind byte, version byte, body length as
/// a big-endian `u64`, and uuid as a big-endian `u128`. `len` is the size in
/// bytes of the body that follows the header, never counting the header
/// itself.
#[derive(Clone, Copy, Debug, PartialEq, Eq, Structural, Hash)]
pub struct Header {
    pub kind: Kind,
    pub version: Version,
    pub len: usize,
    pub uuid: Uuid,
}

/// The 26 bytes of a header on the wire.
pub open spec fn wire_header(h: Header) -> Seq<u8> {
    seq![kind_byte(h.kind), h.version.0] + usize_be(h.len) + u128_be(h.uuid.0)
}

/// Reads a header off the front of a byte string: `None` stands for an input
/// that is too short, has a kind byte outside every family, or carries a body
/// length over the machine's `usize`.
pub open spec fn parse_header(s: Seq<u8>) -> Option<(Header, Seq<u8>)> {
    match parse_u8(s) {
        None => None,
        Some((kb, r1)) => match byte_kind(kb) {
            None => None,
            Some(kind) => match parse_u8(r1) {
                None => None,
                Some((vb, r2)) => match parse_usize(r2) {
                    None => None,
                    Some((len, r3)) => match parse_u128(r3) {
                        None => None,
                        Some((uuid, r4)) => Some(
                            (Header { kind, version: Version(vb), len, uuid: Uuid(uuid) }, r4),
                        ),
                    },
                },
            },
        },
    }
}

/// A header is always exactly 26 bytes on the wire.
pub proof fn lemma_wire_header_len(h: Header)
    ensures
        wire_header(h).len() == 26,
{
}

pub proof fn lemma_parse_header(h: Header, rest: Seq<u8>)
    ensures
        parse_header(wire_header(h) + rest) == Some((h, rest)),
{
    let s = wire_header(h) + rest;
    let tail1 = seq![h.version.0] + usize_be(h.len) + u128_be(h.uuid.0) + rest;
    assert(s =~= seq![kind_byte(h.kind)] + tail1);
    crate::wire::lemma_parse_u8(kind_byte(h.kind), tail1);
    crate::kind::lemma_kind_byte(h.kind);
    let tail2 = usize_be(h.len) + u128_be(h.uuid.0) + rest;
    assert(tail1 =~= seq![h.version.0] + tail2);
    crate::wire::lemma_parse_u8(h.version.0, tail2);
    let tail3 = u128_be(h.uuid.0) + rest;
    assert(tail2 =~= usize_be(h.len) + tail3);
    crate::wire::lemma_parse_usize(h.len, tail3);
    crate::wire::lemma_parse_u128(h.uuid.0, rest);
}

impl Header {
    /// Builds a header; `len` must be the exact byte count of the body that
    /// will follow.
    pub fn new(kind: Kind, version: u8, uuid: u128, len: usize) -> (r: Header)
        ensures
            r == (Header { kind, version: Version(version), len, uuid: Uuid(uuid) }),
    {
        Header { kind, version: Version(version), len, uuid: Uuid(uuid) }
    }

    /// Reads the five fields in order, validating only the kind byte.
    pub fn decode(reader: &mut Reader) -> (r: Result<Header, Error>)
        requires
            old(reader).wf(),
        ensures
            final(reader).wf(),
            final(reader).data == old(reader).data,
            match r {
                Ok(h) => parse_header(old(reader).rem()) == Some((h, final(reader).rem())),
                Err(e) => {
                    &&& parse_header(old(reader).rem()) is None
                    &&& e == (match parse_u8(old(reader).rem()) {
                        Some((kb, _)) => if byte_kind(kb) is None {
                            Error::InvalidHeaderKind(kb)
                        } else {
                            Error::Decode
                        },
                        None => Error::Decode,
                    })
                },
            },
    {
        let kind = Kind::decode(reader)?;
        let version = reader.read_u8()?;
        let len = reader.read_usize()?;
        let uuid = reader.read_u128()?;
        Ok(Header { kind, version: Version(version), len, uuid: Uuid(uuid) })
    }

    /// Writes the five fields in order: 26 bytes exactly.
    pub fn encode(&self, writer: &mut Vec<u8>) -> (r: Result<(), Error>)
        ensures
            r is Ok,
            final(writer)@ == old(writer)@ + wire_header(*self),
    {
        self.kind.encode(writer)?;
        crate::wire::emit_u8(writer, self.version.0);
        crate::wire::emit_usize(writer, self.len);
        crate::wire::emit_u128(writer, self.uuid.0);
        proof {
            assert(writer@ =~= old(writer)@ + wire_header(*self));
        }
        Ok(())
    }
}

} // verus!
