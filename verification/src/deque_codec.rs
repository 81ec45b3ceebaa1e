use vstd::prelude::*;

use crate::buffer::data::{
    decode_opt_binary, encode_opt_binary, opt_data_view, opt_len, step_bytes, step_opt_bytes,
    wire_bytes, wire_opt_bytes, BinaryData,
};
use crate::buffer::owned::OwnedImpl;
use crate::buffer::str::ByteStr;
use crate::codes::SUCCESS;
use crate::error::Error;
use crate::header::{wire_header, Header, Uuid, Version};
use crate::kind::Kind;
use crate::response::{step_resp, wire_resp, Response};
use crate::wire::{emit_u64, parse_u64, u64_be, Reader, Step};

verus! {

pub const START: u8 = 0;

pub const ENQUEUE: u8 = START;

pub const ENQUEUE_ACK: u8 = START + 1;

pub const DEQUEUE: u8 = START + 2;

pub const DEQUEUE_ACK: u8 = START + 3;

pub const PEEK: u8 = START + 4;

pub const PEEK_ACK: u8 = START + 5;

pub const LEN: u8 = START + 6;

pub const LEN_ACK: u8 = START + 7;

pub const CREATE: u8 = START + 8;

pub const CREATE_ACK: u8 = START + 9;

pub const DELETE: u8 = START + 10;

pub const DELETE_ACK: u8 = START + 11;

pub const END: u8 = START + 11;

/// Whether a kind byte belongs to the deque family.
pub fn is_dequeue_message(kind: u8) -> (r: bool)
    ensures
        r == (START <= kind <= END),
{
    START <= kind && kind <= END
}

/// The `Enqueue` message of the wire protocol.
#[derive(Debug, Clone, PartialEq, Eq)]
pub struct Enqueue {
    pub header: Header,
    pub path: ByteStr,
    pub value: BinaryData,
}

/// The body bytes of a `Enqueue`.
pub open spec fn wire_enqueue_body(path: Seq<u8>, value: Seq<u8>) -> Seq<u8> {
    wire_bytes(path) + wire_bytes(value)
}

/// Reading a `Enqueue` body off the front of a byte string.
pub open spec fn step_enqueue_body(s0: Seq<u8>, c0: int) -> Step<(Seq<u8>, Seq<u8>)> {
    match step_bytes(s0, c0) {
        Step::Done(v0, s1, c1) => match step_bytes(s1, c1) {
            Step::Done(v1, s2, c2) => Step::Done((v0, v1), s2, c2),
            Step::Fail(e) => Step::Fail(e),
        },
        Step::Fail(e) => Step::Fail(e),
    }
}

#[verifier::rlimit(50)]
#[verifier::spinoff_prover]
pub proof fn lemma_step_enqueue_body(path: Seq<u8>, value: Seq<u8>, rest: Seq<u8>, cap: int)
    requires
        path.len() + value.len() <= cap,
        cap <= usize::MAX,
    ensures
        step_enqueue_body(wire_enqueue_body(path, value) + rest, cap) == Step::Done((path, value), rest, cap - (path.len() + value.len())),
{
    assert(wire_enqueue_body(path, value) + rest =~= wire_bytes(path) + (wire_bytes(value) + (rest)));
    crate::buffer::data::lemma_step_bytes(path, wire_bytes(value) + (rest), cap);
    crate::buffer::data::lemma_step_bytes(value, rest, cap - path.len());
}

impl Enqueue {
    /// Builds the request; the header's `len` is the exact byte count
    /// of the body that `encode` will write after the header.
    pub fn new(version: u8, uuid: u128, path: ByteStr, value: BinaryData) -> (r: Enqueue)
        requires
            wire_enqueue_body(path@, value@).len() <= usize::MAX,
        ensures
            r.header.kind == Kind::Enqueue,
            r.header.version == Version(version),
            r.header.uuid == Uuid(uuid),
            r.header.len == wire_enqueue_body(path@, value@).len(),
            r.path == path,
            r.value == value,
    {
        let path_len = path.len();
        let value_len = value.len();
        let len: usize = 8 + path_len + 8 + value_len;
        Enqueue { header: Header::new(Kind::Enqueue, version, uuid, len), path, value }
    }

    pub fn header(&self) -> (r: Header)
        ensures
            r == self.header,
    {
        self.header
    }

    pub fn path(&self) -> (r: &ByteStr)
        ensures
            r == &self.path,
    {
        &self.path
    }

    pub fn value(&self) -> (r: &BinaryData)
        ensures
            r == &self.value,
    {
        &self.value
    }

    /// The all-clear ack, keeping this request's version and uuid.
    pub fn ack(self) -> (r: EnqueueAck)
        ensures
            r.header.kind == Kind::EnqueueAck,
            r.header.version == self.header.version,
            r.header.uuid == self.header.uuid,
            r.header.len == wire_enqueue_ack_body(r.response@).len(),
            r.response.code == SUCCESS,
            r.response.reason is None,
    {
        let response = Response::success();
        let len = response.encode_len();
        EnqueueAck {
            header: Header::new(Kind::EnqueueAck, self.header.version.0, self.header.uuid.0, len),
            response,
        }
    }

    /// A failure ack, keeping this request's version and uuid.
    pub fn nack(self, response_code: u8, reason: Option<ByteStr>) -> (r: EnqueueAck)
        requires
            (reason matches Some(b) ==> b@.len() + 10 <= usize::MAX),
        ensures
            r.header.kind == Kind::EnqueueAck,
            r.header.version == self.header.version,
            r.header.uuid == self.header.uuid,
            r.header.len == wire_enqueue_ack_body(r.response@).len(),
            r.response.code == response_code,
            r.response.reason == reason,
    {
        let response = Response::fail(response_code, reason);
        let len = response.encode_len();
        EnqueueAck {
            header: Header::new(Kind::EnqueueAck, self.header.version.0, self.header.uuid.0, len),
            response,
        }
    }

    /// Decodes the body once the header is in hand; the header must carry
    /// this message's kind.
    pub fn decode(header: Header, reader: &mut Reader, buffer: &mut OwnedImpl) -> (r: Result<
        Enqueue,
        Error,
    >)
        requires
            header.kind == Kind::Enqueue,
            old(reader).wf(),
            old(buffer).wf(),
            old(buffer).filled == 0,
        ensures
            final(reader).wf(),
            final(reader).data == old(reader).data,
            final(buffer).wf(),
            final(buffer).filled == 0,
            match r {
                Ok(m) => m.header == header && step_enqueue_body(
                    old(reader).rem(),
                    old(buffer).cap(),
                ) == Step::Done((m.path@, m.value@), final(reader).rem(), final(buffer).cap()),
                Err(e) => step_enqueue_body(old(reader).rem(), old(buffer).cap()) == Step::<
                    (Seq<u8>, Seq<u8>),
                >::Fail(e),
            },
    {
        let path = ByteStr::decode_owned(reader, buffer)?;
        let value = BinaryData::decode_owned(reader, buffer)?;
        Ok(Enqueue { header, path, value })
    }

    /// Writes the header, then the body fields in order.
    pub fn encode(&self, writer: &mut Vec<u8>) -> (r: Result<(), Error>)
        ensures
            r is Ok,
            final(writer)@ == old(writer)@ + wire_header(self.header) + wire_enqueue_body(
                self.path@, self.value@,
            ),
    {
        self.header.encode(writer)?;
        self.path.encode(writer)?;
        self.value.encode(writer)?;
        proof {
            assert(writer@ =~= old(writer)@ + wire_header(self.header) + wire_enqueue_body(
                self.path@, self.value@,
            ));
        }
        Ok(())
    }
}


/// The `EnqueueAck` message of the wire protocol.
#[derive(Debug, Clone, PartialEq, Eq)]
pub struct EnqueueAck {
    pub header: Header,
    pub response: Response,
}

/// The body bytes of a `EnqueueAck`.
pub open spec fn wire_enqueue_ack_body(response: (u8, Option<Seq<u8>>)) -> Seq<u8> {
    wire_resp(response)
}

/// Reading a `EnqueueAck` body off the front of a byte string.
pub open spec fn step_enqueue_ack_body(s0: Seq<u8>, c0: int) -> Step<(u8, Option<Seq<u8>>)> {
    match step_resp(s0, c0) {
        Step::Done(v0, s1, c1) => Step::Done(v0, s1, c1),
        Step::Fail(e) => Step::Fail(e),
    }
}

#[verifier::rlimit(50)]
#[verifier::spinoff_prover]
pub proof fn lemma_step_enqueue_ack_body(response: (u8, Option<Seq<u8>>), rest: Seq<u8>, cap: int)
    requires
        opt_len(response.1) <= cap,
        cap <= usize::MAX,
    ensures
        step_enqueue_ack_body(wire_enqueue_ack_body(response) + rest, cap) == Step::Done(response, rest, cap - (opt_len(response.1))),
{
    assert(wire_enqueue_ack_body(response) + rest =~= wire_resp(response) + (rest));
    crate::response::lemma_step_resp(response, rest, cap);
}

impl EnqueueAck {
    pub fn header(&self) -> (r: Header)
        ensures
            r == self.header,
    {
        self.header
    }

    /// An ack assembled outside any request, with a fixed test header.
    pub fn new(response: Response) -> (r: EnqueueAck)
        requires
            wire_resp(response@).len() <= usize::MAX,
        ensures
            r.header.kind == Kind::EnqueueAck,
            r.header.len == wire_enqueue_ack_body(response@).len(),
            r.response == response,
    {
        let len = response.encode_len();
        EnqueueAck { header: Header::new(Kind::EnqueueAck, 1, 1, len), response }
    }


    /// Decodes the body once the header is in hand; the header must carry
    /// this message's kind.
    pub fn decode(header: Header, reader: &mut Reader, buffer: &mut OwnedImpl) -> (r: Result<
        EnqueueAck,
        Error,
    >)
        requires
            header.kind == Kind::EnqueueAck,
            old(reader).wf(),
            old(buffer).wf(),
            old(buffer).filled == 0,
        ensures
            final(reader).wf(),
            final(reader).data == old(reader).data,
            final(buffer).wf(),
            final(buffer).filled == 0,
            match r {
                Ok(m) => m.header == header && step_enqueue_ack_body(
                    old(reader).rem(),
                    old(buffer).cap(),
                ) == Step::Done(m.response@, final(reader).rem(), final(buffer).cap()),
                Err(e) => step_enqueue_ack_body(old(reader).rem(), old(buffer).cap()) == Step::<
                    (u8, Option<Seq<u8>>),
                >::Fail(e),
            },
    {
        let response = Response::decode_owned(reader, buffer)?;
        Ok(EnqueueAck { header, response })
    }

    /// Writes the header, then the body fields in order.
    pub fn encode(&self, writer: &mut Vec<u8>) -> (r: Result<(), Error>)
        ensures
            r is Ok,
            final(writer)@ == old(writer)@ + wire_header(self.header) + wire_enqueue_ack_body(
                self.response@,
            ),
    {
        self.header.encode(writer)?;
        self.response.encode(writer)?;
        proof {
            assert(writer@ =~= old(writer)@ + wire_header(self.header) + wire_enqueue_ack_body(
                self.response@,
            ));
        }
        Ok(())
    }
}

impl crate::Ack for EnqueueAck {
    open spec fn spec_header(&self) -> Header {
        self.header
    }

    open spec fn spec_response(&self) -> (u8, Option<Seq<u8>>) {
        self.response@
    }

    fn header(&self) -> (r: &Header) {
        &self.header
    }

    fn response(&self) -> (r: Response) {
        self.response.clone()
    }
}


/// The `Dequeue` message of the wire protocol.
#[derive(Debug, Clone, PartialEq, Eq)]
pub struct Dequeue {
    pub header: Header,
    pub path: ByteStr,
}

/// The body bytes of a `Dequeue`.
pub open spec fn wire_dequeue_body(path: Seq<u8>) -> Seq<u8> {
    wire_bytes(path)
}

/// Reading a `Dequeue` body off the front of a byte string.
pub open spec fn step_dequeue_body(s0: Seq<u8>, c0: int) -> Step<Seq<u8>> {
    match step_bytes(s0, c0) {
        Step::Done(v0, s1, c1) => Step::Done(v0, s1, c1),
        Step::Fail(e) => Step::Fail(e),
    }
}

#[verifier::rlimit(50)]
#[verifier::spinoff_prover]
pub proof fn lemma_step_dequeue_body(path: Seq<u8>, rest: Seq<u8>, cap: int)
    requires
        path.len() <= cap,
        cap <= usize::MAX,
    ensures
        step_dequeue_body(wire_dequeue_body(path) + rest, cap) == Step::Done(path, rest, cap - (path.len())),
{
    assert(wire_dequeue_body(path) + rest =~= wire_bytes(path) + (rest));
    crate::buffer::data::lemma_step_bytes(path, rest, cap);
}

impl Dequeue {
    /// Builds the request; the header's `len` is the exact byte count
    /// of the body that `encode` will write after the header.
    pub fn new(version: u8, uuid: u128, path: ByteStr) -> (r: Dequeue)
        requires
            wire_dequeue_body(path@).len() <= usize::MAX,
        ensures
            r.header.kind == Kind::Deque,
            r.header.version == Version(version),
            r.header.uuid == Uuid(uuid),
            r.header.len == wire_dequeue_body(path@).len(),
            r.path == path,
    {
        let path_len = path.len();
        let len: usize = 8 + path_len;
        Dequeue { header: Header::new(Kind::Deque, version, uuid, len), path }
    }

    pub fn header(&self) -> (r: Header)
        ensures
            r == self.header,
    {
        self.header
    }

    pub fn path(&self) -> (r: &ByteStr)
        ensures
            r == &self.path,
    {
        &self.path
    }

    /// The all-clear ack carrying the value, keeping this request's
    /// version and uuid.
    pub fn ack(self, value: BinaryData) -> (r: DequeueAck)
        requires
            value@.len() + 11 <= usize::MAX,
        ensures
            r.header.kind == Kind::DequeAck,
            r.header.version == self.header.version,
            r.header.uuid == self.header.uuid,
            r.header.len == wire_dequeue_ack_body(r.response@, opt_data_view(r.value)).len(),
            r.response.code == SUCCESS,
            r.response.reason is None,
            r.value == Some(value),
    {
        let response = Response::success();
        let resp_len = response.encode_len();
        let len = resp_len + 9 + value.len();
        DequeueAck {
            header: Header::new(Kind::DequeAck, self.header.version.0, self.header.uuid.0, len),
            response,
            value: Some(value),
        }
    }

    /// A failure ack with no value, keeping this request's version and uuid.
    pub fn nack(self, response_code: u8, reason: Option<ByteStr>) -> (r: DequeueAck)
        requires
            (reason matches Some(b) ==> b@.len() + 11 <= usize::MAX),
        ensures
            r.header.kind == Kind::DequeAck,
            r.header.version == self.header.version,
            r.header.uuid == self.header.uuid,
            r.header.len == wire_dequeue_ack_body(r.response@, opt_data_view(r.value)).len(),
            r.response.code == response_code,
            r.response.reason == reason,
            r.value is None,
    {
        let response = Response::fail(response_code, reason);
        let resp_len = response.encode_len();
        let len = resp_len + 1;
        DequeueAck {
            header: Header::new(Kind::DequeAck, self.header.version.0, self.header.uuid.0, len),
            response,
            value: None,
        }
    }

    /// Decodes the body once the header is in hand; the header must carry
    /// this message's kind.
    pub fn decode(header: Header, reader: &mut Reader, buffer: &mut OwnedImpl) -> (r: Result<
        Dequeue,
        Error,
    >)
        requires
            header.kind == Kind::Deque,
            old(reader).wf(),
            old(buffer).wf(),
            old(buffer).filled == 0,
        ensures
            final(reader).wf(),
            final(reader).data == old(reader).data,
            final(buffer).wf(),
            final(buffer).filled == 0,
            match r {
                Ok(m) => m.header == header && step_dequeue_body(
                    old(reader).rem(),
                    old(buffer).cap(),
                ) == Step::Done(m.path@, final(reader).rem(), final(buffer).cap()),
                Err(e) => step_dequeue_body(old(reader).rem(), old(buffer).cap()) == Step::<
                    Seq<u8>,
                >::Fail(e),
            },
    {
        let path = ByteStr::decode_owned(reader, buffer)?;
        Ok(Dequeue { header, path })
    }

    /// Writes the header, then the body fields in order.
    pub fn encode(&self, writer: &mut Vec<u8>) -> (r: Result<(), Error>)
        ensures
            r is Ok,
            final(writer)@ == old(writer)@ + wire_header(self.header) + wire_dequeue_body(
                self.path@,
            ),
    {
        self.header.encode(writer)?;
        self.path.encode(writer)?;
        proof {
            assert(writer@ =~= old(writer)@ + wire_header(self.header) + wire_dequeue_body(
                self.path@,
            ));
        }
        Ok(())
    }
}


/// The `DequeueAck` message of the wire protocol.
#[derive(Debug, Clone, PartialEq, Eq)]
pub struct DequeueAck {
    pub header: Header,
    pub response: Response,
    pub value: Option<BinaryData>,
}

/// The body bytes of a `DequeueAck`.
pub open spec fn wire_dequeue_ack_body(response: (u8, Option<Seq<u8>>), value: Option<Seq<u8>>) -> Seq<u8> {
    wire_resp(response) + wire_opt_bytes(value)
}

/// Reading a `DequeueAck` body off the front of a byte string.
pub open spec fn step_dequeue_ack_body(s0: Seq<u8>, c0: int) -> Step<((u8, Option<Seq<u8>>), Option<Seq<u8>>)> {
    match step_resp(s0, c0) {
        Step::Done(v0, s1, c1) => match step_opt_bytes(s1, c1) {
            Step::Done(v1, s2, c2) => Step::Done((v0, v1), s2, c2),
            Step::Fail(e) => Step::Fail(e),
        },
        Step::Fail(e) => Step::Fail(e),
    }
}

#[verifier::rlimit(50)]
#[verifier::spinoff_prover]
pub proof fn lemma_step_dequeue_ack_body(response: (u8, Option<Seq<u8>>), value: Option<Seq<u8>>, rest: Seq<u8>, cap: int)
    requires
        opt_len(response.1) + opt_len(value) <= cap,
        cap <= usize::MAX,
    ensures
        step_dequeue_ack_body(wire_dequeue_ack_body(response, value) + rest, cap) == Step::Done((response, value), rest, cap - (opt_len(response.1) + opt_len(value))),
{
    assert(wire_dequeue_ack_body(response, value) + rest =~= wire_resp(response) + (wire_opt_bytes(value) + (rest)));
    crate::response::lemma_step_resp(response, wire_opt_bytes(value) + (rest), cap);
    crate::buffer::data::lemma_step_opt_bytes(value, rest, cap - opt_len(response.1));
}

impl DequeueAck {
    pub fn header(&self) -> (r: Header)
        ensures
            r == self.header,
    {
        self.header
    }

    /// An ack assembled outside any request, with a fixed test header.
    pub fn new(response: Response, value: Option<BinaryData>) -> (r: DequeueAck)
        requires
            wire_dequeue_ack_body(response@, opt_data_view(value)).len() <= usize::MAX,
        ensures
            r.header.kind == Kind::DequeAck,
            r.header.len == wire_dequeue_ack_body(response@, opt_data_view(value)).len(),
            r.response == response,
            r.value == value,
    {
        let resp_len = response.encode_len();
        let value_len: usize = match &value {
            Some(v) => 9 + v.len(),
            None => 1,
        };
        let len = resp_len + value_len;
        DequeueAck { header: Header::new(Kind::DequeAck, 1, 1, len), response, value }
    }


    /// Decodes the body once the header is in hand; the header must carry
    /// this message's kind.
    pub fn decode(header: Header, reader: &mut Reader, buffer: &mut OwnedImpl) -> (r: Result<
        DequeueAck,
        Error,
    >)
        requires
            header.kind == Kind::DequeAck,
            old(reader).wf(),
            old(buffer).wf(),
            old(buffer).filled == 0,
        ensures
            final(reader).wf(),
            final(reader).data == old(reader).data,
            final(buffer).wf(),
            final(buffer).filled == 0,
            match r {
                Ok(m) => m.header == header && step_dequeue_ack_body(
                    old(reader).rem(),
                    old(buffer).cap(),
                ) == Step::Done((m.response@, opt_data_view(m.value)), final(reader).rem(), final(buffer).cap()),
                Err(e) => step_dequeue_ack_body(old(reader).rem(), old(buffer).cap()) == Step::<
                    ((u8, Option<Seq<u8>>), Option<Seq<u8>>),
                >::Fail(e),
            },
    {
        let response = Response::decode_owned(reader, buffer)?;
        let value = decode_opt_binary(reader, buffer)?;
        Ok(DequeueAck { header, response, value })
    }

    /// Writes the header, then the body fields in order.
    pub fn encode(&self, writer: &mut Vec<u8>) -> (r: Result<(), Error>)
        ensures
            r is Ok,
            final(writer)@ == old(writer)@ + wire_header(self.header) + wire_dequeue_ack_body(
                self.response@, opt_data_view(self.value),
            ),
    {
        self.header.encode(writer)?;
        self.response.encode(writer)?;
        encode_opt_binary(&self.value, writer)?;
        proof {
            assert(writer@ =~= old(writer)@ + wire_header(self.header) + wire_dequeue_ack_body(
                self.response@, opt_data_view(self.value),
            ));
        }
        Ok(())
    }
}

impl crate::Ack for DequeueAck {
    open spec fn spec_header(&self) -> Header {
        self.header
    }

    open spec fn spec_response(&self) -> (u8, Option<Seq<u8>>) {
        self.response@
    }

    fn header(&self) -> (r: &Header) {
        &self.header
    }

    fn response(&self) -> (r: Response) {
        self.response.clone()
    }
}


/// The `Peek` message of the wire protocol.
#[derive(Debug, Clone, PartialEq, Eq)]
pub struct Peek {
    pub header: Header,
    pub path: ByteStr,
    pub sequence: u64,
}

/// The body bytes of a `Peek`.
pub open spec fn wire_peek_body(path: Seq<u8>, sequence: u64) -> Seq<u8> {
    wire_bytes(path) + u64_be(sequence)
}

/// Reading a `Peek` body off the front of a byte string.
pub open spec fn step_peek_body(s0: Seq<u8>, c0: int) -> Step<(Seq<u8>, u64)> {
    match step_bytes(s0, c0) {
        Step::Done(v0, s1, c1) => match parse_u64(s1) {
            None => Step::Fail(Error::Decode),
            Some((v1, s2)) => {
                let c2 = c1;
                Step::Done((v0, v1), s2, c2)
            },
        },
        Step::Fail(e) => Step::Fail(e),
    }
}

#[verifier::rlimit(50)]
#[verifier::spinoff_prover]
pub proof fn lemma_step_peek_body(path: Seq<u8>, sequence: u64, rest: Seq<u8>, cap: int)
    requires
        path.len() <= cap,
        cap <= usize::MAX,
    ensures
        step_peek_body(wire_peek_body(path, sequence) + rest, cap) == Step::Done((path, sequence), rest, cap - (path.len())),
{
    assert(wire_peek_body(path, sequence) + rest =~= wire_bytes(path) + (u64_be(sequence) + (rest)));
    crate::buffer::data::lemma_step_bytes(path, u64_be(sequence) + (rest), cap);
    crate::wire::lemma_parse_u64(sequence, rest);
}

impl Peek {
    /// Builds the request; the header's `len` is the exact byte count
    /// of the body that `encode` will write after the header.
    pub fn new(version: u8, uuid: u128, path: ByteStr, sequence: u64) -> (r: Peek)
        requires
            wire_peek_body(path@, sequence).len() <= usize::MAX,
        ensures
            r.header.kind == Kind::Peek,
            r.header.version == Version(version),
            r.header.uuid == Uuid(uuid),
            r.header.len == wire_peek_body(path@, sequence).len(),
            r.path == path,
            r.sequence == sequence,
    {
        let path_len = path.len();
        let len: usize = 8 + path_len + 8;
        Peek { header: Header::new(Kind::Peek, version, uuid, len), path, sequence }
    }

    pub fn header(&self) -> (r: Header)
        ensures
            r == self.header,
    {
        self.header
    }

    pub fn path(&self) -> (r: &ByteStr)
        ensures
            r == &self.path,
    {
        &self.path
    }

    /// The all-clear ack carrying the value, keeping this request's
    /// version and uuid.
    pub fn ack(self, value: BinaryData) -> (r: PeekAck)
        requires
            value@.len() + 11 <= usize::MAX,
        ensures
            r.header.kind == Kind::PeekAck,
            r.header.version == self.header.version,
            r.header.uuid == self.header.uuid,
            r.header.len == wire_peek_ack_body(r.response@, opt_data_view(r.value)).len(),
            r.response.code == SUCCESS,
            r.response.reason is None,
            r.value == Some(value),
    {
        let response = Response::success();
        let resp_len = response.encode_len();
        let len = resp_len + 9 + value.len();
        PeekAck {
            header: Header::new(Kind::PeekAck, self.header.version.0, self.header.uuid.0, len),
            response,
            value: Some(value),
        }
    }

    /// A failure ack with no value, keeping this request's version and uuid.
    pub fn nack(self, response_code: u8, reason: Option<ByteStr>) -> (r: PeekAck)
        requires
            (reason matches Some(b) ==> b@.len() + 11 <= usize::MAX),
        ensures
            r.header.kind == Kind::PeekAck,
            r.header.version == self.header.version,
            r.header.uuid == self.header.uuid,
            r.header.len == wire_peek_ack_body(r.response@, opt_data_view(r.value)).len(),
            r.response.code == response_code,
            r.response.reason == reason,
            r.value is None,
    {
        let response = Response::fail(response_code, reason);
        let resp_len = response.encode_len();
        let len = resp_len + 1;
        PeekAck {
            header: Header::new(Kind::PeekAck, self.header.version.0, self.header.uuid.0, len),
            response,
            value: None,
        }
    }

    /// Decodes the body once the header is in hand; the header must carry
    /// this message's kind.
    pub fn decode(header: Header, reader: &mut Reader, buffer: &mut OwnedImpl) -> (r: Result<
        Peek,
        Error,
    >)
        requires
            header.kind == Kind::Peek,
            old(reader).wf(),
            old(buffer).wf(),
            old(buffer).filled == 0,
        ensures
            final(reader).wf(),
            final(reader).data == old(reader).data,
            final(buffer).wf(),
            final(buffer).filled == 0,
            match r {
                Ok(m) => m.header == header && step_peek_body(
                    old(reader).rem(),
                    old(buffer).cap(),
                ) == Step::Done((m.path@, m.sequence), final(reader).rem(), final(buffer).cap()),
                Err(e) => step_peek_body(old(reader).rem(), old(buffer).cap()) == Step::<
                    (Seq<u8>, u64),
                >::Fail(e),
            },
    {
        let path = ByteStr::decode_owned(reader, buffer)?;
        let sequence = reader.read_u64()?;
        Ok(Peek { header, path, sequence })
    }

    /// Writes the header, then the body fields in order.
    pub fn encode(&self, writer: &mut Vec<u8>) -> (r: Result<(), Error>)
        ensures
            r is Ok,
            final(writer)@ == old(writer)@ + wire_header(self.header) + wire_peek_body(
                self.path@, self.sequence,
            ),
    {
        self.header.encode(writer)?;
        self.path.encode(writer)?;
        emit_u64(writer, self.sequence);
        proof {
            assert(writer@ =~= old(writer)@ + wire_header(self.header) + wire_peek_body(
                self.path@, self.sequence,
            ));
        }
        Ok(())
    }
}


/// The `PeekAck` message of the wire protocol.
#[derive(Debug, Clone, PartialEq, Eq)]
pub struct PeekAck {
    pub header: Header,
    pub response: Response,
    pub value: Option<BinaryData>,
}

/// The body bytes of a `PeekAck`.
pub open spec fn wire_peek_ack_body(response: (u8, Option<Seq<u8>>), value: Option<Seq<u8>>) -> Seq<u8> {
    wire_resp(response) + wire_opt_bytes(value)
}

/// Reading a `PeekAck` body off the front of a byte string.
pub open spec fn step_peek_ack_body(s0: Seq<u8>, c0: int) -> Step<((u8, Option<Seq<u8>>), Option<Seq<u8>>)> {
    match step_resp(s0, c0) {
        Step::Done(v0, s1, c1) => match step_opt_bytes(s1, c1) {
            Step::Done(v1, s2, c2) => Step::Done((v0, v1), s2, c2),
            Step::Fail(e) => Step::Fail(e),
        },
        Step::Fail(e) => Step::Fail(e),
    }
}

#[verifier::rlimit(50)]
#[verifier::spinoff_prover]
pub proof fn lemma_step_peek_ack_body(response: (u8, Option<Seq<u8>>), value: Option<Seq<u8>>, rest: Seq<u8>, cap: int)
    requires
        opt_len(response.1) + opt_len(value) <= cap,
        cap <= usize::MAX,
    ensures
        step_peek_ack_body(wire_peek_ack_body(response, value) + rest, cap) == Step::Done((response, value), rest, cap - (opt_len(response.1) + opt_len(value))),
{
    assert(wire_peek_ack_body(response, value) + rest =~= wire_resp(response) + (wire_opt_bytes(value) + (rest)));
    crate::response::lemma_step_resp(response, wire_opt_bytes(value) + (rest), cap);
    crate::buffer::data::lemma_step_opt_bytes(value, rest, cap - opt_len(response.1));
}

impl PeekAck {
    pub fn header(&self) -> (r: Header)
        ensures
            r == self.header,
    {
        self.header
    }

    /// An ack assembled outside any request, with a fixed test header.
    pub fn new(response: Response, value: Option<BinaryData>) -> (r: PeekAck)
        requires
            wire_peek_ack_body(response@, opt_data_view(value)).len() <= usize::MAX,
        ensures
            r.header.kind == Kind::PeekAck,
            r.header.len == wire_peek_ack_body(response@, opt_data_view(value)).len(),
            r.response == response,
            r.value == value,
    {
        let resp_len = response.encode_len();
        let value_len: usize = match &value {
            Some(v) => 9 + v.len(),
            None => 1,
        };
        let len = resp_len + value_len;
        PeekAck { header: Header::new(Kind::PeekAck, 1, 1, len), response, value }
    }


    /// Decodes the body once the header is in hand; the header must carry
    /// this message's kind.
    pub fn decode(header: Header, reader: &mut Reader, buffer: &mut OwnedImpl) -> (r: Result<
        PeekAck,
        Error,
    >)
        requires
            header.kind == Kind::PeekAck,
            old(reader).wf(),
            old(buffer).wf(),
            old(buffer).filled == 0,
        ensures
            final(reader).wf(),
            final(reader).data == old(reader).data,
            final(buffer).wf(),
            final(buffer).filled == 0,
            match r {
                Ok(m) => m.header == header && step_peek_ack_body(
                    old(reader).rem(),
                    old(buffer).cap(),
                ) == Step::Done((m.response@, opt_data_view(m.value)), final(reader).rem(), final(buffer).cap()),
                Err(e) => step_peek_ack_body(old(reader).rem(), old(buffer).cap()) == Step::<
                    ((u8, Option<Seq<u8>>), Option<Seq<u8>>),
                >::Fail(e),
            },
    {
        let response = Response::decode_owned(reader, buffer)?;
        let value = decode_opt_binary(reader, buffer)?;
        Ok(PeekAck { header, response, value })
    }

    /// Writes the header, then the body fields in order.
    pub fn encode(&self, writer: &mut Vec<u8>) -> (r: Result<(), Error>)
        ensures
            r is Ok,
            final(writer)@ == old(writer)@ + wire_header(self.header) + wire_peek_ack_body(
                self.response@, opt_data_view(self.value),
            ),
    {
        self.header.encode(writer)?;
        self.response.encode(writer)?;
        encode_opt_binary(&self.value, writer)?;
        proof {
            assert(writer@ =~= old(writer)@ + wire_header(self.header) + wire_peek_ack_body(
                self.response@, opt_data_view(self.value),
            ));
        }
        Ok(())
    }
}

impl crate::Ack for PeekAck {
    open spec fn spec_header(&self) -> Header {
        self.header
    }

    open spec fn spec_response(&self) -> (u8, Option<Seq<u8>>) {
        self.response@
    }

    fn header(&self) -> (r: &Header) {
        &self.header
    }

    fn response(&self) -> (r: Response) {
        self.response.clone()
    }
}


/// The `Len` message of the wire protocol.
#[derive(Debug, Clone, PartialEq, Eq)]
pub struct Len {
    pub header: Header,
    pub path: ByteStr,
}

/// The body bytes of a `Len`.
pub open spec fn wire_len_body(path: Seq<u8>) -> Seq<u8> {
    wire_bytes(path)
}

/// Reading a `Len` body off the front of a byte string.
pub open spec fn step_len_body(s0: Seq<u8>, c0: int) -> Step<Seq<u8>> {
    match step_bytes(s0, c0) {
        Step::Done(v0, s1, c1) => Step::Done(v0, s1, c1),
        Step::Fail(e) => Step::Fail(e),
    }
}

#[verifier::rlimit(50)]
#[verifier::spinoff_prover]
pub proof fn lemma_step_len_body(path: Seq<u8>, rest: Seq<u8>, cap: int)
    requires
        path.len() <= cap,
        cap <= usize::MAX,
    ensures
        step_len_body(wire_len_body(path) + rest, cap) == Step::Done(path, rest, cap - (path.len())),
{
    assert(wire_len_body(path) + rest =~= wire_bytes(path) + (rest));
    crate::buffer::data::lemma_step_bytes(path, rest, cap);
}

impl Len {
    /// Builds the request; the header's `len` is the exact byte count
    /// of the body that `encode` will write after the header.
    pub fn new(version: u8, uuid: u128, path: ByteStr) -> (r: Len)
        requires
            wire_len_body(path@).len() <= usize::MAX,
        ensures
            r.header.kind == Kind::Len,
            r.header.version == Version(version),
            r.header.uuid == Uuid(uuid),
            r.header.len == wire_len_body(path@).len(),
            r.path == path,
    {
        let path_len = path.len();
        let len: usize = 8 + path_len;
        Len { header: Header::new(Kind::Len, version, uuid, len), path }
    }

    pub fn header(&self) -> (r: Header)
        ensures
            r == self.header,
    {
        self.header
    }

    pub fn path(&self) -> (r: &ByteStr)
        ensures
            r == &self.path,
    {
        &self.path
    }

    /// The all-clear ack carrying the queue's length, keeping this
    /// request's version and uuid.
    pub fn ack(self, len: u64) -> (r: LenAck)
        ensures
            r.header.kind == Kind::LenAck,
            r.header.version == self.header.version,
            r.header.uuid == self.header.uuid,
            r.header.len == wire_len_ack_body(r.response@, r.len).len(),
            r.response.code == SUCCESS,
            r.response.reason is None,
            r.len == len,
    {
        let response = Response::success();
        let body_len = response.encode_len() + 8;
        LenAck {
            header: Header::new(Kind::LenAck, self.header.version.0, self.header.uuid.0, body_len),
            response,
            len,
        }
    }

    /// A failure ack reporting a zero length, keeping this request's
    /// version and uuid.
    pub fn nack(self, response_code: u8, reason: Option<ByteStr>) -> (r: LenAck)
        requires
            (reason matches Some(b) ==> b@.len() + 18 <= usize::MAX),
        ensures
            r.header.kind == Kind::LenAck,
            r.header.version == self.header.version,
            r.header.uuid == self.header.uuid,
            r.header.len == wire_len_ack_body(r.response@, r.len).len(),
            r.response.code == response_code,
            r.response.reason == reason,
            r.len == 0,
    {
        let response = Response::fail(response_code, reason);
        let body_len = response.encode_len() + 8;
        LenAck {
            header: Header::new(Kind::LenAck, self.header.version.0, self.header.uuid.0, body_len),
            response,
            len: 0,
        }
    }

    /// Decodes the body once the header is in hand; the header must carry
    /// this message's kind.
    pub fn decode(header: Header, reader: &mut Reader, buffer: &mut OwnedImpl) -> (r: Result<
        Len,
        Error,
    >)
        requires
            header.kind == Kind::Len,
            old(reader).wf(),
            old(buffer).wf(),
            old(buffer).filled == 0,
        ensures
            final(reader).wf(),
            final(reader).data == old(reader).data,
            final(buffer).wf(),
            final(buffer).filled == 0,
            match r {
                Ok(m) => m.header == header && step_len_body(
                    old(reader).rem(),
                    old(buffer).cap(),
                ) == Step::Done(m.path@, final(reader).rem(), final(buffer).cap()),
                Err(e) => step_len_body(old(reader).rem(), old(buffer).cap()) == Step::<
                    Seq<u8>,
                >::Fail(e),
            },
    {
        let path = ByteStr::decode_owned(reader, buffer)?;
        Ok(Len { header, path })
    }

    /// Writes the header, then the body fields in order.
    pub fn encode(&self, writer: &mut Vec<u8>) -> (r: Result<(), Error>)
        ensures
            r is Ok,
            final(writer)@ == old(writer)@ + wire_header(self.header) + wire_len_body(
                self.path@,
            ),
    {
        self.header.encode(writer)?;
        self.path.encode(writer)?;
        proof {
            assert(writer@ =~= old(writer)@ + wire_header(self.header) + wire_len_body(
                self.path@,
            ));
        }
        Ok(())
    }
}


/// The `LenAck` message of the wire protocol.
#[derive(Debug, Clone, PartialEq, Eq)]
pub struct LenAck {
    pub header: Header,
    pub response: Response,
    pub len: u64,
}

/// The body bytes of a `LenAck`.
pub open spec fn wire_len_ack_body(response: (u8, Option<Seq<u8>>), len: u64) -> Seq<u8> {
    wire_resp(response) + u64_be(len)
}

/// Reading a `LenAck` body off the front of a byte string.
pub open spec fn step_len_ack_body(s0: Seq<u8>, c0: int) -> Step<((u8, Option<Seq<u8>>), u64)> {
    match step_resp(s0, c0) {
        Step::Done(v0, s1, c1) => match parse_u64(s1) {
            None => Step::Fail(Error::Decode),
            Some((v1, s2)) => {
                let c2 = c1;
                Step::Done((v0, v1), s2, c2)
            },
        },
        Step::Fail(e) => Step::Fail(e),
    }
}

#[verifier::rlimit(50)]
#[verifier::spinoff_prover]
pub proof fn lemma_step_len_ack_body(response: (u8, Option<Seq<u8>>), len: u64, rest: Seq<u8>, cap: int)
    requires
        opt_len(response.1) <= cap,
        cap <= usize::MAX,
    ensures
        step_len_ack_body(wire_len_ack_body(response, len) + rest, cap) == Step::Done((response, len), rest, cap - (opt_len(response.1))),
{
    assert(wire_len_ack_body(response, len) + rest =~= wire_resp(response) + (u64_be(len) + (rest)));
    crate::response::lemma_step_resp(response, u64_be(len) + (rest), cap);
    crate::wire::lemma_parse_u64(len, rest);
}

impl LenAck {
    pub fn header(&self) -> (r: Header)
        ensures
            r == self.header,
    {
        self.header
    }

    /// An ack assembled outside any request, with a fixed test header.
    pub fn new(response: Response, len: u64) -> (r: LenAck)
        requires
            wire_resp(response@).len() + 8 <= usize::MAX,
        ensures
            r.header.kind == Kind::LenAck,
            r.header.len == wire_len_ack_body(response@, len).len(),
            r.response == response,
            r.len == len,
    {
        let body_len = response.encode_len() + 8;
        LenAck { header: Header::new(Kind::LenAck, 1, 1, body_len), response, len }
    }


    /// Decodes the body once the header is in hand; the header must carry
    /// this message's kind.
    pub fn decode(header: Header, reader: &mut Reader, buffer: &mut OwnedImpl) -> (r: Result<
        LenAck,
        Error,
    >)
        requires
            header.kind == Kind::LenAck,
            old(reader).wf(),
            old(buffer).wf(),
            old(buffer).filled == 0,
        ensures
            final(reader).wf(),
            final(reader).data == old(reader).data,
            final(buffer).wf(),
            final(buffer).filled == 0,
            match r {
                Ok(m) => m.header == header && step_len_ack_body(
                    old(reader).rem(),
                    old(buffer).cap(),
                ) == Step::Done((m.response@, m.len), final(reader).rem(), final(buffer).cap()),
                Err(e) => step_len_ack_body(old(reader).rem(), old(buffer).cap()) == Step::<
                    ((u8, Option<Seq<u8>>), u64),
                >::Fail(e),
            },
    {
        let response = Response::decode_owned(reader, buffer)?;
        let len = reader.read_u64()?;
        Ok(LenAck { header, response, len })
    }

    /// Writes the header, then the body fields in order.
    pub fn encode(&self, writer: &mut Vec<u8>) -> (r: Result<(), Error>)
        ensures
            r is Ok,
            final(writer)@ == old(writer)@ + wire_header(self.header) + wire_len_ack_body(
                self.response@, self.len,
            ),
    {
        self.header.encode(writer)?;
        self.response.encode(writer)?;
        emit_u64(writer, self.len);
        proof {
            assert(writer@ =~= old(writer)@ + wire_header(self.header) + wire_len_ack_body(
                self.response@, self.len,
            ));
        }
        Ok(())
    }
}

impl crate::Ack for LenAck {
    open spec fn spec_header(&self) -> Header {
        self.header
    }

    open spec fn spec_response(&self) -> (u8, Option<Seq<u8>>) {
        self.response@
    }

    fn header(&self) -> (r: &Header) {
        &self.header
    }

    fn response(&self) -> (r: Response) {
        self.response.clone()
    }
}


/// The `Create` message of the wire protocol.
#[derive(Debug, Clone, PartialEq, Eq)]
pub struct Create {
    pub header: Header,
    pub path: ByteStr,
    pub node_size: u64,
    pub max_disk_usage: u64,
}

/// The body bytes of a `Create`.
pub open spec fn wire_create_body(path: Seq<u8>, node_size: u64, max_disk_usage: u64) -> Seq<u8> {
    wire_bytes(path) + u64_be(node_size) + u64_be(max_disk_usage)
}

/// Reading a `Create` body off the front of a byte string.
pub open spec fn step_create_body(s0: Seq<u8>, c0: int) -> Step<(Seq<u8>, u64, u64)> {
    match step_bytes(s0, c0) {
        Step::Done(v0, s1, c1) => match parse_u64(s1) {
            None => Step::Fail(Error::Decode),
            Some((v1, s2)) => {
                let c2 = c1;
                match parse_u64(s2) {
                    None => Step::Fail(Error::Decode),
                    Some((v2, s3)) => {
                        let c3 = c2;
                        Step::Done((v0, v1, v2), s3, c3)
                    },
                }
            },
        },
        Step::Fail(e) => Step::Fail(e),
    }
}

#[verifier::rlimit(50)]
#[verifier::spinoff_prover]
pub proof fn lemma_step_create_body(path: Seq<u8>, node_size: u64, max_disk_usage: u64, rest: Seq<u8>, cap: int)
    requires
        path.len() <= cap,
        cap <= usize::MAX,
    ensures
        step_create_body(wire_create_body(path, node_size, max_disk_usage) + rest, cap) == Step::Done((path, node_size, max_disk_usage), rest, cap - (path.len())),
{
    assert(wire_create_body(path, node_size, max_disk_usage) + rest =~= wire_bytes(path) + (u64_be(node_size) + (u64_be(max_disk_usage) + (rest))));
    crate::buffer::data::lemma_step_bytes(path, u64_be(node_size) + (u64_be(max_disk_usage) + (rest)), cap);
    crate::wire::lemma_parse_u64(node_size, u64_be(max_disk_usage) + (rest));
    crate::wire::lemma_parse_u64(max_disk_usage, rest);
}

impl Create {
    /// Builds the request; the header's `len` is the exact byte count
    /// of the body that `encode` will write after the header.
    pub fn new(version: u8, uuid: u128, path: ByteStr, node_size: u64, max_disk_usage: u64) -> (r: Create)
        requires
            wire_create_body(path@, node_size, max_disk_usage).len() <= usize::MAX,
        ensures
            r.header.kind == Kind::CreateQueue,
            r.header.version == Version(version),
            r.header.uuid == Uuid(uuid),
            r.header.len == wire_create_body(path@, node_size, max_disk_usage).len(),
            r.path == path,
            r.node_size == node_size,
            r.max_disk_usage == max_disk_usage,
    {
        let path_len = path.len();
        let len: usize = 8 + path_len + 8 + 8;
        Create { header: Header::new(Kind::CreateQueue, version, uuid, len), path, node_size, max_disk_usage }
    }

    pub fn header(&self) -> (r: Header)
        ensures
            r == self.header,
    {
        self.header
    }

    pub fn path(&self) -> (r: &ByteStr)
        ensures
            r == &self.path,
    {
        &self.path
    }

    pub fn node_size(&self) -> (r: u64)
        ensures
            r == self.node_size,
    {
        self.node_size
    }

    pub fn max_disk_usage(&self) -> (r: u64)
        ensures
            r == self.max_disk_usage,
    {
        self.max_disk_usage
    }

    /// The all-clear ack, keeping this request's version and uuid.
    pub fn ack(self) -> (r: CreateAck)
        ensures
            r.header.kind == Kind::CreateQueueAck,
            r.header.version == self.header.version,
            r.header.uuid == self.header.uuid,
            r.header.len == wire_create_ack_body(r.response@).len(),
            r.response.code == SUCCESS,
            r.response.reason is None,
    {
        let response = Response::success();
        let len = response.encode_len();
        CreateAck {
            header: Header::new(Kind::CreateQueueAck, self.header.version.0, self.header.uuid.0, len),
            response,
        }
    }

    /// A failure ack, keeping this request's version and uuid.
    pub fn nack(self, response_code: u8, reason: Option<ByteStr>) -> (r: CreateAck)
        requires
            (reason matches Some(b) ==> b@.len() + 10 <= usize::MAX),
        ensures
            r.header.kind == Kind::CreateQueueAck,
            r.header.version == self.header.version,
            r.header.uuid == self.header.uuid,
            r.header.len == wire_create_ack_body(r.response@).len(),
            r.response.code == response_code,
            r.response.reason == reason,
    {
        let response = Response::fail(response_code, reason);
        let len = response.encode_len();
        CreateAck {
            header: Header::new(Kind::CreateQueueAck, self.header.version.0, self.header.uuid.0, len),
            response,
        }
    }

    /// Decodes the body once the header is in hand; the header must carry
    /// this message's kind.
    pub fn decode(header: Header, reader: &mut Reader, buffer: &mut OwnedImpl) -> (r: Result<
        Create,
        Error,
    >)
        requires
            header.kind == Kind::CreateQueue,
            old(reader).wf(),
            old(buffer).wf(),
            old(buffer).filled == 0,
        ensures
            final(reader).wf(),
            final(reader).data == old(reader).data,
            final(buffer).wf(),
            final(buffer).filled == 0,
            match r {
                Ok(m) => m.header == header && step_create_body(
                    old(reader).rem(),
                    old(buffer).cap(),
                ) == Step::Done((m.path@, m.node_size, m.max_disk_usage), final(reader).rem(), final(buffer).cap()),
                Err(e) => step_create_body(old(reader).rem(), old(buffer).cap()) == Step::<
                    (Seq<u8>, u64, u64),
                >::Fail(e),
            },
    {
        let path = ByteStr::decode_owned(reader, buffer)?;
        let node_size = reader.read_u64()?;
        let max_disk_usage = reader.read_u64()?;
        Ok(Create { header, path, node_size, max_disk_usage })
    }

    /// Writes the header, then the body fields in order.
    pub fn encode(&self, writer: &mut Vec<u8>) -> (r: Result<(), Error>)
        ensures
            r is Ok,
            final(writer)@ == old(writer)@ + wire_header(self.header) + wire_create_body(
                self.path@, self.node_size, self.max_disk_usage,
            ),
    {
        self.header.encode(writer)?;
        self.path.encode(writer)?;
        emit_u64(writer, self.node_size);
        emit_u64(writer, self.max_disk_usage);
        proof {
            assert(writer@ =~= old(writer)@ + wire_header(self.header) + wire_create_body(
                self.path@, self.node_size, self.max_disk_usage,
            ));
        }
        Ok(())
    }
}


/// The `CreateAck` message of the wire protocol.
#[derive(Debug, Clone, PartialEq, Eq)]
pub struct CreateAck {
    pub header: Header,
    pub response: Response,
}

/// The body bytes of a `CreateAck`.
pub open spec fn wire_create_ack_body(response: (u8, Option<Seq<u8>>)) -> Seq<u8> {
    wire_resp(response)
}

/// Reading a `CreateAck` body off the front of a byte string.
pub open spec fn step_create_ack_body(s0: Seq<u8>, c0: int) -> Step<(u8, Option<Seq<u8>>)> {
    match step_resp(s0, c0) {
        Step::Done(v0, s1, c1) => Step::Done(v0, s1, c1),
        Step::Fail(e) => Step::Fail(e),
    }
}

#[verifier::rlimit(50)]
#[verifier::spinoff_prover]
pub proof fn lemma_step_create_ack_body(response: (u8, Option<Seq<u8>>), rest: Seq<u8>, cap: int)
    requires
        opt_len(response.1) <= cap,
        cap <= usize::MAX,
    ensures
        step_create_ack_body(wire_create_ack_body(response) + rest, cap) == Step::Done(response, rest, cap - (opt_len(response.1))),
{
    assert(wire_create_ack_body(response) + rest =~= wire_resp(response) + (rest));
    crate::response::lemma_step_resp(response, rest, cap);
}

impl CreateAck {
    pub fn header(&self) -> (r: Header)
        ensures
            r == self.header,
    {
        self.header
    }

    /// An ack assembled outside any request, with a fixed test header.
    pub fn new(response: Response) -> (r: CreateAck)
        requires
            wire_resp(response@).len() <= usize::MAX,
        ensures
            r.header.kind == Kind::CreateQueueAck,
            r.header.len == wire_create_ack_body(response@).len(),
            r.response == response,
    {
        let len = response.encode_len();
        CreateAck { header: Header::new(Kind::CreateQueueAck, 1, 1, len), response }
    }


    /// Decodes the body once the header is in hand; the header must carry
    /// this message's kind.
    pub fn decode(header: Header, reader: &mut Reader, buffer: &mut OwnedImpl) -> (r: Result<
        CreateAck,
        Error,
    >)
        requires
            header.kind == Kind::CreateQueueAck,
            old(reader).wf(),
            old(buffer).wf(),
            old(buffer).filled == 0,
        ensures
            final(reader).wf(),
            final(reader).data == old(reader).data,
            final(buffer).wf(),
            final(buffer).filled == 0,
            match r {
                Ok(m) => m.header == header && step_create_ack_body(
                    old(reader).rem(),
                    old(buffer).cap(),
                ) == Step::Done(m.response@, final(reader).rem(), final(buffer).cap()),
                Err(e) => step_create_ack_body(old(reader).rem(), old(buffer).cap()) == Step::<
                    (u8, Option<Seq<u8>>),
                >::Fail(e),
            },
    {
        let response = Response::decode_owned(reader, buffer)?;
        Ok(CreateAck { header, response })
    }

    /// Writes the header, then the body fields in order.
    pub fn encode(&self, writer: &mut Vec<u8>) -> (r: Result<(), Error>)
        ensures
            r is Ok,
            final(writer)@ == old(writer)@ + wire_header(self.header) + wire_create_ack_body(
                self.response@,
            ),
    {
        self.header.encode(writer)?;
        self.response.encode(writer)?;
        proof {
            assert(writer@ =~= old(writer)@ + wire_header(self.header) + wire_create_ack_body(
                self.response@,
            ));
        }
        Ok(())
    }
}

impl crate::Ack for CreateAck {
    open spec fn spec_header(&self) -> Header {
        self.header
    }

    open spec fn spec_response(&self) -> (u8, Option<Seq<u8>>) {
        self.response@
    }

    fn header(&self) -> (r: &Header) {
        &self.header
    }

    fn response(&self) -> (r: Response) {
        self.response.clone()
    }
}


/// The `Delete` message of the wire protocol.
#[derive(Debug, Clone, PartialEq, Eq)]
pub struct Delete {
    pub header: Header,
    pub path: ByteStr,
}

/// The body bytes of a `Delete`.
pub open spec fn wire_delete_body(path: Seq<u8>) -> Seq<u8> {
    wire_bytes(path)
}

/// Reading a `Delete` body off the front of a byte string.
pub open spec fn step_delete_body(s0: Seq<u8>, c0: int) -> Step<Seq<u8>> {
    match step_bytes(s0, c0) {
        Step::Done(v0, s1, c1) => Step::Done(v0, s1, c1),
        Step::Fail(e) => Step::Fail(e),
    }
}

#[verifier::rlimit(50)]
#[verifier::spinoff_prover]
pub proof fn lemma_step_delete_body(path: Seq<u8>, rest: Seq<u8>, cap: int)
    requires
        path.len() <= cap,
        cap <= usize::MAX,
    ensures
        step_delete_body(wire_delete_body(path) + rest, cap) == Step::Done(path, rest, cap - (path.len())),
{
    assert(wire_delete_body(path) + rest =~= wire_bytes(path) + (rest));
    crate::buffer::data::lemma_step_bytes(path, rest, cap);
}

impl Delete {
    /// Builds the request; the header's `len` is the exact byte count
    /// of the body that `encode` will write after the header.
    pub fn new(version: u8, uuid: u128, path: ByteStr) -> (r: Delete)
        requires
            wire_delete_body(path@).len() <= usize::MAX,
        ensures
            r.header.kind == Kind::DeleteQueue,
            r.header.version == Version(version),
            r.header.uuid == Uuid(uuid),
            r.header.len == wire_delete_body(path@).len(),
            r.path == path,
    {
        let path_len = path.len();
        let len: usize = 8 + path_len;
        Delete { header: Header::new(Kind::DeleteQueue, version, uuid, len), path }
    }

    pub fn header(&self) -> (r: Header)
        ensures
            r == self.header,
    {
        self.header
    }

    pub fn path(&self) -> (r: &ByteStr)
        ensures
            r == &self.path,
    {
        &self.path
    }

    /// The all-clear ack, keeping this request's version and uuid.
    pub fn ack(self) -> (r: DeleteAck)
        ensures
            r.header.kind == Kind::DeleteQueueAck,
            r.header.version == self.header.version,
            r.header.uuid == self.header.uuid,
            r.header.len == wire_delete_ack_body(r.response@).len(),
            r.response.code == SUCCESS,
            r.response.reason is None,
    {
        let response = Response::success();
        let len = response.encode_len();
        DeleteAck {
            header: Header::new(Kind::DeleteQueueAck, self.header.version.0, self.header.uuid.0, len),
            response,
        }
    }

    /// A failure ack, keeping this request's version and uuid.
    pub fn nack(self, response_code: u8, reason: Option<ByteStr>) -> (r: DeleteAck)
        requires
            (reason matches Some(b) ==> b@.len() + 10 <= usize::MAX),
        ensures
            r.header.kind == Kind::DeleteQueueAck,
            r.header.version == self.header.version,
            r.header.uuid == self.header.uuid,
            r.header.len == wire_delete_ack_body(r.response@).len(),
            r.response.code == response_code,
            r.response.reason == reason,
    {
        let response = Response::fail(response_code, reason);
        let len = response.encode_len();
        DeleteAck {
            header: Header::new(Kind::DeleteQueueAck, self.header.version.0, self.header.uuid.0, len),
            response,
        }
    }

    /// Decodes the body once the header is in hand; the header must carry
    /// this message's kind.
    pub fn decode(header: Header, reader: &mut Reader, buffer: &mut OwnedImpl) -> (r: Result<
        Delete,
        Error,
    >)
        requires
            header.kind == Kind::DeleteQueue,
            old(reader).wf(),
            old(buffer).wf(),
            old(buffer).filled == 0,
        ensures
            final(reader).wf(),
            final(reader).data == old(reader).data,
            final(buffer).wf(),
            final(buffer).filled == 0,
            match r {
                Ok(m) => m.header == header && step_delete_body(
                    old(reader).rem(),
                    old(buffer).cap(),
                ) == Step::Done(m.path@, final(reader).rem(), final(buffer).cap()),
                Err(e) => step_delete_body(old(reader).rem(), old(buffer).cap()) == Step::<
                    Seq<u8>,
                >::Fail(e),
            },
    {
        let path = ByteStr::decode_owned(reader, buffer)?;
        Ok(Delete { header, path })
    }

    /// Writes the header, then the body fields in order.
    pub fn encode(&self, writer: &mut Vec<u8>) -> (r: Result<(), Error>)
        ensures
            r is Ok,
            final(writer)@ == old(writer)@ + wire_header(self.header) + wire_delete_body(
                self.path@,
            ),
    {
        self.header.encode(writer)?;
        self.path.encode(writer)?;
        proof {
            assert(writer@ =~= old(writer)@ + wire_header(self.header) + wire_delete_body(
                self.path@,
            ));
        }
        Ok(())
    }
}


/// The `DeleteAck` message of the wire protocol.
#[derive(Debug, Clone, PartialEq, Eq)]
pub struct DeleteAck {
    pub header: Header,
    pub response: Response,
}

/// The body bytes of a `DeleteAck`.
pub open spec fn wire_delete_ack_body(response: (u8, Option<Seq<u8>>)) -> Seq<u8> {
    wire_resp(response)
}

/// Reading a `DeleteAck` body off the front of a byte string.
pub open spec fn step_delete_ack_body(s0: Seq<u8>, c0: int) -> Step<(u8, Option<Seq<u8>>)> {
    match step_resp(s0, c0) {
        Step::Done(v0, s1, c1) => Step::Done(v0, s1, c1),
        Step::Fail(e) => Step::Fail(e),
    }
}

#[verifier::rlimit(50)]
#[verifier::spinoff_prover]
pub proof fn lemma_step_delete_ack_body(response: (u8, Option<Seq<u8>>), rest: Seq<u8>, cap: int)
    requires
        opt_len(response.1) <= cap,
        cap <= usize::MAX,
    ensures
        step_delete_ack_body(wire_delete_ack_body(response) + rest, cap) == Step::Done(response, rest, cap - (opt_len(response.1))),
{
    assert(wire_delete_ack_body(response) + rest =~= wire_resp(response) + (rest));
    crate::response::lemma_step_resp(response, rest, cap);
}

impl DeleteAck {
    pub fn header(&self) -> (r: Header)
        ensures
            r == self.header,
    {
        self.header
    }

    /// An ack assembled outside any request, with a fixed test header.
    pub fn new(response: Response) -> (r: DeleteAck)
        requires
            wire_resp(response@).len() <= usize::MAX,
        ensures
            r.header.kind == Kind::DeleteQueueAck,
            r.header.len == wire_delete_ack_body(response@).len(),
            r.response == response,
    {
        let len = response.encode_len();
        DeleteAck { header: Header::new(Kind::DeleteQueueAck, 1, 1, len), response }
    }


    /// Decodes the body once the header is in hand; the header must carry
    /// this message's kind.
    pub fn decode(header: Header, reader: &mut Reader, buffer: &mut OwnedImpl) -> (r: Result<
        DeleteAck,
        Error,
    >)
        requires
            header.kind == Kind::DeleteQueueAck,
            old(reader).wf(),
            old(buffer).wf(),
            old(buffer).filled == 0,
        ensures
            final(reader).wf(),
            final(reader).data == old(reader).data,
            final(buffer).wf(),
            final(buffer).filled == 0,
            match r {
                Ok(m) => m.header == header && step_delete_ack_body(
                    old(reader).rem(),
                    old(buffer).cap(),
                ) == Step::Done(m.response@, final(reader).rem(), final(buffer).cap()),
                Err(e) => step_delete_ack_body(old(reader).rem(), old(buffer).cap()) == Step::<
                    (u8, Option<Seq<u8>>),
                >::Fail(e),
            },
    {
        let response = Response::decode_owned(reader, buffer)?;
        Ok(DeleteAck { header, response })
    }

    /// Writes the header, then the body fields in order.
    pub fn encode(&self, writer: &mut Vec<u8>) -> (r: Result<(), Error>)
        ensures
            r is Ok,
            final(writer)@ == old(writer)@ + wire_header(self.header) + wire_delete_ack_body(
                self.response@,
            ),
    {
        self.header.encode(writer)?;
        self.response.encode(writer)?;
        proof {
            assert(writer@ =~= old(writer)@ + wire_header(self.header) + wire_delete_ack_body(
                self.response@,
            ));
        }
        Ok(())
    }
}

impl crate::Ack for DeleteAck {
    open spec fn spec_header(&self) -> Header {
        self.header
    }

    open spec fn spec_response(&self) -> (u8, Option<Seq<u8>>) {
        self.response@
    }

    fn header(&self) -> (r: &Header) {
        &self.header
    }

    fn response(&self) -> (r: Response) {
        self.response.clone()
    }
}



} // verus!
