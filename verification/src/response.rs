use vstd::prelude::*;

use crate::buffer::data::{opt_len, step_opt_bytes, wire_opt_bytes};
use crate::buffer::owned::OwnedImpl;
use crate::buffer::str::{
    decode_opt_byte_str, encode_opt_byte_str, opt_str_view, ByteStr,
};
use crate::codes::SUCCESS;
use crate::error::Error;
use crate::wire::{emit_u8, parse_u8, Reader, Step};

verus! {

/// The payload every ack carries: a response code, and an optional reason
/// for a failure. On the wire: the code byte, then the optional reason.
#[derive(Debug, PartialEq, Eq)]
pub struct Response {
    pub code: u8,
    pub reason: Option<ByteStr>,
}

impl Clone for Response {
    /// The clone reports the same code and views the same reason bytes.
    fn clone(&self) -> (r: Response)
        ensures
            r@ == self@,
            r.code == self.code,
    {
        let reason = match &self.reason {
            Some(reason) => Some(reason.clone()),
            None => None,
        };
        Response { code: self.code, reason }
    }
}

impl View for Response {
    type V = (u8, Option<Seq<u8>>);

    open spec fn view(&self) -> (u8, Option<Seq<u8>>) {
        (self.code, opt_str_view(self.reason))
    }
}

/// The wire form of a response.
pub open spec fn wire_resp(v: (u8, Option<Seq<u8>>)) -> Seq<u8> {
    seq![v.0] + wire_opt_bytes(v.1)
}

/// Reading a response off the front of a byte string.
pub open spec fn step_resp(s: Seq<u8>, cap: int) -> Step<(u8, Option<Seq<u8>>)> {
    match parse_u8(s) {
        None => Step::Fail(Error::Decode),
        Some((c, r1)) => match step_opt_bytes(r1, cap) {
            Step::Done(o, r2, c2) => Step::Done((c, o), r2, c2),
            Step::Fail(e) => Step::Fail(e),
        },
    }
}

pub proof fn lemma_step_resp(v: (u8, Option<Seq<u8>>), rest: Seq<u8>, cap: int)
    requires
        opt_len(v.1) <= cap,
        opt_len(v.1) <= usize::MAX,
    ensures
        step_resp(wire_resp(v) + rest, cap) == Step::Done(v, rest, cap - opt_len(v.1)),
{
    let tail = wire_opt_bytes(v.1) + rest;
    assert(wire_resp(v) + rest =~= seq![v.0] + tail);
    crate::wire::lemma_parse_u8(v.0, tail);
    crate::buffer::data::lemma_step_opt_bytes(v.1, rest, cap);
}

impl Response {
    /// The all-clear: code zero, no reason.
    pub fn success() -> (r: Response)
        ensures
            r.code == SUCCESS,
            r.reason is None,
    {
        Response { code: SUCCESS, reason: None }
    }

    /// A failure with its code and an optional reason.
    pub fn fail(code: u8, reason: Option<ByteStr>) -> (r: Response)
        ensures
            r.code == code,
            r.reason == reason,
    {
        Response { code, reason }
    }

    pub fn code(&self) -> (r: u8)
        ensures
            r == self.code,
    {
        self.code
    }

    pub fn reason(&self) -> (r: &Option<ByteStr>)
        ensures
            r == &self.reason,
    {
        &self.reason
    }

    /// How many bytes this response takes on the wire.
    pub fn encode_len(&self) -> (r: usize)
        requires
            wire_resp(self@).len() <= usize::MAX,
        ensures
            r == wire_resp(self@).len(),
    {
        match &self.reason {
            None => 2,
            Some(bs) => 10 + bs.len(),
        }
    }

    /// Reads the code byte, then the optional reason.
    pub fn decode_owned(reader: &mut Reader, buffer: &mut OwnedImpl) -> (r: Result<Response, Error>)
        requires
            old(reader).wf(),
            old(buffer).wf(),
            old(buffer).filled == 0,
        ensures
            final(reader).wf(),
            final(reader).data == old(reader).data,
            final(buffer).wf(),
            final(buffer).filled == 0,
            match r {
                Ok(resp) => step_resp(old(reader).rem(), old(buffer).cap()) == Step::Done(
                    resp@,
                    final(reader).rem(),
                    final(buffer).cap(),
                ),
                Err(e) => step_resp(old(reader).rem(), old(buffer).cap()) == Step::<
                    (u8, Option<Seq<u8>>),
                >::Fail(e),
            },
    {
        let code = reader.read_u8()?;
        let reason = decode_opt_byte_str(reader, buffer)?;
        Ok(Response { code, reason })
    }

    /// Writes the code byte, then the optional reason.
    pub fn encode(&self, writer: &mut Vec<u8>) -> (r: Result<(), Error>)
        ensures
            r is Ok,
            final(writer)@ == old(writer)@ + wire_resp(self@),
    {
        emit_u8(writer, self.code);
        encode_opt_byte_str(&self.reason, writer)?;
        proof {
            assert(writer@ =~= old(writer)@ + wire_resp(self@));
        }
        Ok(())
    }
}

} // verus!
