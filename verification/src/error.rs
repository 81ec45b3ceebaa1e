use vstd::prelude::*;

use crate::header::Header;

verus! {

/// Everything that can go wrong while encoding or decoding a frame.
///
/// `BufferTooSmallForPacketDecode` is special: it hands the already-decoded
/// header back to the caller so that a retry with a larger buffer does not
/// have to read the header bytes again.
#[derive(Clone, Copy, Debug, PartialEq, Eq, Structural)]
pub enum Error {
    /// A nested decode needed more buffer space than remained.
    OwnedRemaining { acquire: usize, capacity: usize },
    /// The reader ran out of bytes in the middle of a length-prefixed payload.
    BinaryDataSizeMismatch { expected: usize, read: usize },
    /// The reader ran out of bytes while a fixed-width field was read.
    Decode,
    /// Reserved: the in-memory byte sink this crate writes to takes every
    /// byte, so no current encode path reports this.
    Encode,
    /// The body promised by the header does not fit the caller's buffer;
    /// retry with a larger buffer, passing this header back in.
    BufferTooSmallForPacketDecode { header: Header, size: usize, capacity: usize },
    /// The kind byte of a header named no known message.
    InvalidHeaderKind(u8),
    /// Reserved: no current decode path rejects a version byte.
    InvalidHeaderVersion(u8),
    /// A position carried a discriminant byte outside `1..=6`.
    SystemBadPosition(u8),
    /// A role carried a discriminant byte outside `1..=3`.
    SystemBadRole(u8),
}

} // verus!
