use vstd::prelude::*;

use crate::error::Error;

verus! {

// ---------------------------------------------------------------------------
// Big-endian byte strings of the fixed-width integers.
//
// Every multi-byte integer on the wire is big-endian and of fixed width;
// `usize` travels as eight bytes. The `*_be` functions give the bytes of a
// value, the `be*` functions read a value back out of a byte string, and the
// lemmas tie the two together.
// ---------------------------------------------------------------------------

pub open spec fn u16_be(x: u16) -> Seq<u8> {
    seq![(x >> 8) as u8, x as u8]
}

pub open spec fn be16(s: Seq<u8>) -> u16
    recommends
        s.len() >= 2,
{
    ((s[0] as u16) << 8) | (s[1] as u16)
}

pub open spec fn u32_be(x: u32) -> Seq<u8> {
    seq![(x >> 24) as u8, (x >> 16) as u8, (x >> 8) as u8, x as u8]
}

pub open spec fn be32(s: Seq<u8>) -> u32
    recommends
        s.len() >= 4,
{
    ((s[0] as u32) << 24) | ((s[1] as u32) << 16) | ((s[2] as u32) << 8) | (s[3] as u32)
}

pub open spec fn u64_be(x: u64) -> Seq<u8> {
    seq![
        (x >> 56) as u8,
        (x >> 48) as u8,
        (x >> 40) as u8,
        (x >> 32) as u8,
        (x >> 24) as u8,
        (x >> 16) as u8,
        (x >> 8) as u8,
        x as u8,
    ]
}

pub open spec fn be64(s: Seq<u8>) -> u64
    recommends
        s.len() >= 8,
{
    ((s[0] as u64) << 56) | ((s[1] as u64) << 48) | ((s[2] as u64) << 40) | ((s[3] as u64) << 32)
        | ((s[4] as u64) << 24) | ((s[5] as u64) << 16) | ((s[6] as u64) << 8) | (s[7] as u64)
}

pub open spec fn u128_be(x: u128) -> Seq<u8> {
    seq![
        (x >> 120) as u8,
        (x >> 112) as u8,
        (x >> 104) as u8,
        (x >> 96) as u8,
        (x >> 88) as u8,
        (x >> 80) as u8,
        (x >> 72) as u8,
        (x >> 64) as u8,
        (x >> 56) as u8,
        (x >> 48) as u8,
        (x >> 40) as u8,
        (x >> 32) as u8,
        (x >> 24) as u8,
        (x >> 16) as u8,
        (x >> 8) as u8,
        x as u8,
    ]
}

pub open spec fn be128(s: Seq<u8>) -> u128
    recommends
        s.len() >= 16,
{
    ((s[0] as u128) << 120) | ((s[1] as u128) << 112) | ((s[2] as u128) << 104) | ((
    s[3] as u128) << 96) | ((s[4] as u128) << 88) | ((s[5] as u128) << 80) | ((s[6] as u128) << 72)
        | ((s[7] as u128) << 64) | ((s[8] as u128) << 56) | ((s[9] as u128) << 48) | ((
    s[10] as u128) << 40) | ((s[11] as u128) << 32) | ((s[12] as u128) << 24) | ((
    s[13] as u128) << 16) | ((s[14] as u128) << 8) | (s[15] as u128)
}

/// A `usize` travels as eight big-endian bytes.
pub open spec fn usize_be(x: usize) -> Seq<u8> {
    u64_be(x as u64)
}

/// A `bool` travels as one byte: zero for false, one for true.
pub open spec fn bool_byte(b: bool) -> u8 {
    if b {
        1u8
    } else {
        0u8
    }
}

pub proof fn lemma_u16_be(x: u16)
    ensures
        u16_be(x).len() == 2,
        be16(u16_be(x)) == x,
{
    assert(((((x >> 8) as u8) as u16) << 8) | (((x as u8)) as u16) == x) by (bit_vector);
}

pub proof fn lemma_u32_be(x: u32)
    ensures
        u32_be(x).len() == 4,
        be32(u32_be(x)) == x,
{
    assert(((((x >> 24) as u8) as u32) << 24) | ((((x >> 16) as u8) as u32) << 16) | ((((x
        >> 8) as u8) as u32) << 8) | (((x as u8)) as u32) == x) by (bit_vector);
}

pub proof fn lemma_u64_be(x: u64)
    ensures
        u64_be(x).len() == 8,
        be64(u64_be(x)) == x,
{
    assert(((((x >> 56) as u8) as u64) << 56) | ((((x >> 48) as u8) as u64) << 48) | ((((x
        >> 40) as u8) as u64) << 40) | ((((x >> 32) as u8) as u64) << 32) | ((((x
        >> 24) as u8) as u64) << 24) | ((((x >> 16) as u8) as u64) << 16) | ((((x
        >> 8) as u8) as u64) << 8) | (((x as u8)) as u64) == x) by (bit_vector);
}

pub proof fn lemma_u128_be(x: u128)
    ensures
        u128_be(x).len() == 16,
        be128(u128_be(x)) == x,
{
    assert(((((x >> 120) as u8) as u128) << 120) | ((((x >> 112) as u8) as u128) << 112) | ((((x
        >> 104) as u8) as u128) << 104) | ((((x >> 96) as u8) as u128) << 96) | ((((x
        >> 88) as u8) as u128) << 88) | ((((x >> 80) as u8) as u128) << 80) | ((((x
        >> 72) as u8) as u128) << 72) | ((((x >> 64) as u8) as u128) << 64) | ((((x
        >> 56) as u8) as u128) << 56) | ((((x >> 48) as u8) as u128) << 48) | ((((x
        >> 40) as u8) as u128) << 40) | ((((x >> 32) as u8) as u128) << 32) | ((((x
        >> 24) as u8) as u128) << 24) | ((((x >> 16) as u8) as u128) << 16) | ((((x
        >> 8) as u8) as u128) << 8) | (((x as u8)) as u128) == x) by (bit_vector);
}

// ---------------------------------------------------------------------------
// Reading a value off the front of a byte string.
//
// Each `parse_*` function either takes its fixed prefix and returns the value
// with the rest of the input, or says that the input was too short.
// ---------------------------------------------------------------------------

/// The outcome of reading one value from a byte string while a decode buffer
/// with `usize` bytes of room stands by for payloads: either the value, the
/// rest of the input, and the room left over, or the exact error the decoder
/// reports.
pub enum Step<T> {
    Done(T, Seq<u8>, int),
    Fail(Error),
}

pub open spec fn parse_u8(s: Seq<u8>) -> Option<(u8, Seq<u8>)> {
    if s.len() >= 1 {
        Some((s[0], s.skip(1)))
    } else {
        None
    }
}

pub open spec fn parse_u16(s: Seq<u8>) -> Option<(u16, Seq<u8>)> {
    if s.len() >= 2 {
        Some((be16(s.take(2)), s.skip(2)))
    } else {
        None
    }
}

pub open spec fn parse_u32(s: Seq<u8>) -> Option<(u32, Seq<u8>)> {
    if s.len() >= 4 {
        Some((be32(s.take(4)), s.skip(4)))
    } else {
        None
    }
}

pub open spec fn parse_u64(s: Seq<u8>) -> Option<(u64, Seq<u8>)> {
    if s.len() >= 8 {
        Some((be64(s.take(8)), s.skip(8)))
    } else {
        None
    }
}

pub open spec fn parse_u128(s: Seq<u8>) -> Option<(u128, Seq<u8>)> {
    if s.len() >= 16 {
        Some((be128(s.take(16)), s.skip(16)))
    } else {
        None
    }
}

/// Eight bytes whose value must also fit the machine's `usize`.
pub open spec fn parse_usize(s: Seq<u8>) -> Option<(usize, Seq<u8>)> {
    match parse_u64(s) {
        Some((v, r)) => if v <= usize::MAX as u64 {
            Some((v as usize, r))
        } else {
            None
        },
        None => None,
    }
}

pub proof fn lemma_parse_u8(x: u8, rest: Seq<u8>)
    ensures
        parse_u8(seq![x] + rest) == Some((x, rest)),
{
    let s = seq![x] + rest;
    assert(s.skip(1) =~= rest);
    assert(s[0] == x);
}

pub proof fn lemma_parse_u16(x: u16, rest: Seq<u8>)
    ensures
        parse_u16(u16_be(x) + rest) == Some((x, rest)),
{
    lemma_u16_be(x);
    let s = u16_be(x) + rest;
    assert(s.take(2) =~= u16_be(x));
    assert(s.skip(2) =~= rest);
}

pub proof fn lemma_parse_u32(x: u32, rest: Seq<u8>)
    ensures
        parse_u32(u32_be(x) + rest) == Some((x, rest)),
{
    lemma_u32_be(x);
    let s = u32_be(x) + rest;
    assert(s.take(4) =~= u32_be(x));
    assert(s.skip(4) =~= rest);
}

pub proof fn lemma_parse_u64(x: u64, rest: Seq<u8>)
    ensures
        parse_u64(u64_be(x) + rest) == Some((x, rest)),
{
    lemma_u64_be(x);
    let s = u64_be(x) + rest;
    assert(s.take(8) =~= u64_be(x));
    assert(s.skip(8) =~= rest);
}

pub proof fn lemma_parse_u128(x: u128, rest: Seq<u8>)
    ensures
        parse_u128(u128_be(x) + rest) == Some((x, rest)),
{
    lemma_u128_be(x);
    let s = u128_be(x) + rest;
    assert(s.take(16) =~= u128_be(x));
    assert(s.skip(16) =~= rest);
}

pub proof fn lemma_parse_usize(x: usize, rest: Seq<u8>)
    ensures
        parse_usize(usize_be(x) + rest) == Some((x, rest)),
{
    lemma_parse_u64(x as u64, rest);
}

// ---------------------------------------------------------------------------
// The reader: a byte string with a cursor.
//
// Decoding consumes from the front and never rewinds; a failed read of a
// fixed-width field leaves the cursor where it stood.
// ---------------------------------------------------------------------------

pub struct Reader {
    pub data: Vec<u8>,
    pub pos: usize,
}

impl Reader {
    pub open spec fn wf(&self) -> bool {
        self.pos <= self.data@.len()
    }

    /// The bytes not yet consumed.
    pub open spec fn rem(&self) -> Seq<u8> {
        self.data@.skip(self.pos as int)
    }

    pub fn new(data: Vec<u8>) -> (r: Reader)
        ensures
            r.wf(),
            r.rem() == data@,
    {
        let r = Reader { data, pos: 0 };
        proof {
            assert(r.rem() =~= r.data@);
        }
        r
    }

    pub fn read_u8(&mut self) -> (r: Result<u8, Error>)
        requires
            old(self).wf(),
        ensures
            final(self).wf(),
            final(self).data == old(self).data,
            match r {
                Ok(v) => parse_u8(old(self).rem()) == Some((v, final(self).rem())),
                Err(e) => {
                    &&& e == Error::Decode
                    &&& parse_u8(old(self).rem()) is None
                    &&& *final(self) == *old(self)
                },
            },
    {
        if self.pos < self.data.len() {
            let b = self.data[self.pos];
            self.pos = self.pos + 1;
            proof {
                assert(old(self).rem()[0] == b);
                assert(old(self).rem().skip(1) =~= self.rem());
            }
            Ok(b)
        } else {
            Err(Error::Decode)
        }
    }

    pub fn read_u16(&mut self) -> (r: Result<u16, Error>)
        requires
            old(self).wf(),
        ensures
            final(self).wf(),
            final(self).data == old(self).data,
            match r {
                Ok(v) => parse_u16(old(self).rem()) == Some((v, final(self).rem())),
                Err(e) => {
                    &&& e == Error::Decode
                    &&& parse_u16(old(self).rem()) is None
                    &&& *final(self) == *old(self)
                },
            },
    {
        if self.data.len() - self.pos >= 2 {
            let b0 = self.data[self.pos];
            let b1 = self.data[self.pos + 1];
            self.pos = self.pos + 2;
            let v = ((b0 as u16) << 8) | (b1 as u16);
            proof {
                let s = old(self).rem();
                assert(s.take(2)[0] == b0);
                assert(s.take(2)[1] == b1);
                assert(self.rem() =~= s.skip(2));
            }
            Ok(v)
        } else {
            Err(Error::Decode)
        }
    }

    pub fn read_u32(&mut self) -> (r: Result<u32, Error>)
        requires
            old(self).wf(),
        ensures
            final(self).wf(),
            final(self).data == old(self).data,
            match r {
                Ok(v) => parse_u32(old(self).rem()) == Some((v, final(self).rem())),
                Err(e) => {
                    &&& e == Error::Decode
                    &&& parse_u32(old(self).rem()) is None
                    &&& *final(self) == *old(self)
                },
            },
    {
        if self.data.len() - self.pos >= 4 {
            let b0 = self.data[self.pos];
            let b1 = self.data[self.pos + 1];
            let b2 = self.data[self.pos + 2];
            let b3 = self.data[self.pos + 3];
            self.pos = self.pos + 4;
            let v = ((b0 as u32) << 24) | ((b1 as u32) << 16) | ((b2 as u32) << 8) | (b3 as u32);
            proof {
                let s = old(self).rem();
                assert(s.take(4)[0] == b0);
                assert(s.take(4)[1] == b1);
                assert(s.take(4)[2] == b2);
                assert(s.take(4)[3] == b3);
                assert(self.rem() =~= s.skip(4));
            }
            Ok(v)
        } else {
            Err(Error::Decode)
        }
    }

    pub fn read_u64(&mut self) -> (r: Result<u64, Error>)
        requires
            old(self).wf(),
        ensures
            final(self).wf(),
            final(self).data == old(self).data,
            match r {
                Ok(v) => parse_u64(old(self).rem()) == Some((v, final(self).rem())),
                Err(e) => {
                    &&& e == Error::Decode
                    &&& parse_u64(old(self).rem()) is None
                    &&& *final(self) == *old(self)
                },
            },
    {
        if self.data.len() - self.pos >= 8 {
            let b0 = self.data[self.pos];
            let b1 = self.data[self.pos + 1];
            let b2 = self.data[self.pos + 2];
            let b3 = self.data[self.pos + 3];
            let b4 = self.data[self.pos + 4];
            let b5 = self.data[self.pos + 5];
            let b6 = self.data[self.pos + 6];
            let b7 = self.data[self.pos + 7];
            self.pos = self.pos + 8;
            let v = ((b0 as u64) << 56) | ((b1 as u64) << 48) | ((b2 as u64) << 40) | ((b3
                as u64) << 32) | ((b4 as u64) << 24) | ((b5 as u64) << 16) | ((b6 as u64) << 8) | (
            b7 as u64);
            proof {
                let s = old(self).rem();
                assert(s.take(8)[0] == b0);
                assert(s.take(8)[1] == b1);
                assert(s.take(8)[2] == b2);
                assert(s.take(8)[3] == b3);
                assert(s.take(8)[4] == b4);
                assert(s.take(8)[5] == b5);
                assert(s.take(8)[6] == b6);
                assert(s.take(8)[7] == b7);
                assert(self.rem() =~= s.skip(8));
            }
            Ok(v)
        } else {
            Err(Error::Decode)
        }
    }

    pub fn read_u128(&mut self) -> (r: Result<u128, Error>)
        requires
            old(self).wf(),
        ensures
            final(self).wf(),
            final(self).data == old(self).data,
            match r {
                Ok(v) => parse_u128(old(self).rem()) == Some((v, final(self).rem())),
                Err(e) => {
                    &&& e == Error::Decode
                    &&& parse_u128(old(self).rem()) is None
                    &&& *final(self) == *old(self)
                },
            },
    {
        if self.data.len() - self.pos >= 16 {
            let b0 = self.data[self.pos];
            let b1 = self.data[self.pos + 1];
            let b2 = self.data[self.pos + 2];
            let b3 = self.data[self.pos + 3];
            let b4 = self.data[self.pos + 4];
            let b5 = self.data[self.pos + 5];
            let b6 = self.data[self.pos + 6];
            let b7 = self.data[self.pos + 7];
            let b8 = self.data[self.pos + 8];
            let b9 = self.data[self.pos + 9];
            let b10 = self.data[self.pos + 10];
            let b11 = self.data[self.pos + 11];
            let b12 = self.data[self.pos + 12];
            let b13 = self.data[self.pos + 13];
            let b14 = self.data[self.pos + 14];
            let b15 = self.data[self.pos + 15];
            self.pos = self.pos + 16;
            let v = ((b0 as u128) << 120) | ((b1 as u128) << 112) | ((b2 as u128) << 104) | ((b3
                as u128) << 96) | ((b4 as u128) << 88) | ((b5 as u128) << 80) | ((b6 as u128) << 72)
                | ((b7 as u128) << 64) | ((b8 as u128) << 56) | ((b9 as u128) << 48) | ((b10
                as u128) << 40) | ((b11 as u128) << 32) | ((b12 as u128) << 24) | ((b13 as u128)
                << 16) | ((b14 as u128) << 8) | (b15 as u128);
            proof {
                let s = old(self).rem();
                assert(s.take(16)[0] == b0);
                assert(s.take(16)[1] == b1);
                assert(s.take(16)[2] == b2);
                assert(s.take(16)[3] == b3);
                assert(s.take(16)[4] == b4);
                assert(s.take(16)[5] == b5);
                assert(s.take(16)[6] == b6);
                assert(s.take(16)[7] == b7);
                assert(s.take(16)[8] == b8);
                assert(s.take(16)[9] == b9);
                assert(s.take(16)[10] == b10);
                assert(s.take(16)[11] == b11);
                assert(s.take(16)[12] == b12);
                assert(s.take(16)[13] == b13);
                assert(s.take(16)[14] == b14);
                assert(s.take(16)[15] == b15);
                assert(self.rem() =~= s.skip(16));
            }
            Ok(v)
        } else {
            Err(Error::Decode)
        }
    }

    pub fn read_usize(&mut self) -> (r: Result<usize, Error>)
        requires
            old(self).wf(),
        ensures
            final(self).wf(),
            final(self).data == old(self).data,
            match r {
                Ok(v) => parse_usize(old(self).rem()) == Some((v, final(self).rem())),
                Err(e) => {
                    &&& e == Error::Decode
                    &&& parse_usize(old(self).rem()) is None
                },
            },
    {
        let v = self.read_u64()?;
        if v <= usize::MAX as u64 {
            Ok(v as usize)
        } else {
            Err(Error::Decode)
        }
    }

    /// Takes exactly `n` bytes, or reports how many were left.
    pub fn read_vec(&mut self, n: usize) -> (r: Result<Vec<u8>, Error>)
        requires
            old(self).wf(),
        ensures
            final(self).wf(),
            final(self).data == old(self).data,
            match r {
                Ok(v) => {
                    &&& old(self).rem().len() >= n
                    &&& v@ == old(self).rem().take(n as int)
                    &&& final(self).rem() == old(self).rem().skip(n as int)
                },
                Err(e) => {
                    &&& old(self).rem().len() < n
                    &&& e == (Error::BinaryDataSizeMismatch {
                        expected: n,
                        read: (old(self).data@.len() - old(self).pos) as usize,
                    })
                    &&& *final(self) == *old(self)
                },
            },
    {
        let avail = self.data.len() - self.pos;
        if avail >= n {
            let s = &self.data.as_slice()[self.pos..self.pos + n];
            let v = vstd::slice::slice_to_vec(s);
            self.pos = self.pos + n;
            proof {
                assert(v@ =~= old(self).rem().take(n as int));
                assert(self.rem() =~= old(self).rem().skip(n as int));
            }
            Ok(v)
        } else {
            Err(Error::BinaryDataSizeMismatch { expected: n, read: avail })
        }
    }
}

// ---------------------------------------------------------------------------
// Writing values onto the end of a byte sink.
// ---------------------------------------------------------------------------

pub fn emit_u8(w: &mut Vec<u8>, x: u8)
    ensures
        final(w)@ == old(w)@ + seq![x],
{
    w.push(x);
    proof {
        assert(w@ =~= old(w)@ + seq![x]);
    }
}

pub fn emit_u16(w: &mut Vec<u8>, x: u16)
    ensures
        final(w)@ == old(w)@ + u16_be(x),
{
    w.push((x >> 8) as u8);
    w.push(x as u8);
    proof {
        assert(w@ =~= old(w)@ + u16_be(x));
    }
}

pub fn emit_u32(w: &mut Vec<u8>, x: u32)
    ensures
        final(w)@ == old(w)@ + u32_be(x),
{
    w.push((x >> 24) as u8);
    w.push((x >> 16) as u8);
    w.push((x >> 8) as u8);
    w.push(x as u8);
    proof {
        assert(w@ =~= old(w)@ + u32_be(x));
    }
}

pub fn emit_u64(w: &mut Vec<u8>, x: u64)
    ensures
        final(w)@ == old(w)@ + u64_be(x),
{
    w.push((x >> 56) as u8);
    w.push((x >> 48) as u8);
    w.push((x >> 40) as u8);
    w.push((x >> 32) as u8);
    w.push((x >> 24) as u8);
    w.push((x >> 16) as u8);
    w.push((x >> 8) as u8);
    w.push(x as u8);
    proof {
        assert(w@ =~= old(w)@ + u64_be(x));
    }
}

pub fn emit_u128(w: &mut Vec<u8>, x: u128)
    ensures
        final(w)@ == old(w)@ + u128_be(x),
{
    w.push((x >> 120) as u8);
    w.push((x >> 112) as u8);
    w.push((x >> 104) as u8);
    w.push((x >> 96) as u8);
    w.push((x >> 88) as u8);
    w.push((x >> 80) as u8);
    w.push((x >> 72) as u8);
    w.push((x >> 64) as u8);
    w.push((x >> 56) as u8);
    w.push((x >> 48) as u8);
    w.push((x >> 40) as u8);
    w.push((x >> 32) as u8);
    w.push((x >> 24) as u8);
    w.push((x >> 16) as u8);
    w.push((x >> 8) as u8);
    w.push(x as u8);
    proof {
        assert(w@ =~= old(w)@ + u128_be(x));
    }
}

pub fn emit_usize(w: &mut Vec<u8>, x: usize)
    ensures
        final(w)@ == old(w)@ + usize_be(x),
{
    emit_u64(w, x as u64);
}

/// Appends a whole byte slice.
pub fn emit_raw(w: &mut Vec<u8>, bytes: &[u8])
    ensures
        final(w)@ == old(w)@ + bytes@,
{
    let mut i: usize = 0;
    while i < bytes.len()
        invariant
            i <= bytes@.len(),
            w@ == old(w)@ + bytes@.take(i as int),
        decreases bytes@.len() - i,
    {
        let b = bytes[i];
        w.push(b);
        i = i + 1;
        proof {
            assert(w@ =~= old(w)@ + bytes@.take(i as int));
        }
    }
    proof {
        assert(bytes@.take(bytes@.len() as int) =~= bytes@);
    }
}

} // verus!
