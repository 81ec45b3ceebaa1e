use vstd::prelude::*;

use crate::buffer::data::{
    decode_opt_binary, encode_opt_binary, opt_data_view, opt_len, step_bytes, step_opt_bytes,
    wire_bytes, wire_opt_bytes, BinaryData,
};
use crate::buffer::owned::OwnedImpl;
use crate::buffer::shared::SharedImpl;
use crate::buffer::str::ByteStr;
use crate::codes::SUCCESS;
use crate::error::Error;
use crate::header::{wire_header, Header, Uuid, Version};
use crate::kind::Kind;
use crate::response::{step_resp, wire_resp, Response};
use crate::wire::{Reader, Step};

verus! {

pub const START: u8 = 0x10;

pub const PUT: u8 = START;

pub const PUT_ACK: u8 = START + 1;

pub const GET: u8 = START + 2;

pub const GET_ACK: u8 = START + 3;

pub const DELETE: u8 = START + 4;

pub const DELETE_ACK: u8 = START + 5;

pub const END: u8 = START + 5;

/// The longest key the store accepts.
pub const MAX_KEY_LENGTH: usize = 32;

/// Whether a kind byte belongs to the key-value family.
pub fn is_kv_store_message(kind: u8) -> (r: bool)
    ensures
        r == (START <= kind <= END),
{
    START <= kind && kind <= END
}

/// The `Put` message of the wire protocol.
#[derive(Debug, Clone, PartialEq, Eq)]
pub struct Put {
    pub header: Header,
    pub key: BinaryData,
    pub value: BinaryData,
}

/// The body bytes of a `Put`.
pub open spec fn wire_put_body(key: Seq<u8>, value: Seq<u8>) -> Seq<u8> {
    wire_bytes(key) + wire_bytes(value)
}

/// Reading a `Put` body off the front of a byte string.
pub open spec fn step_put_body(s0: Seq<u8>, c0: int) -> Step<(Seq<u8>, Seq<u8>)> {
    match step_bytes(s0, c0) {
        Step::Done(v0, s1, c1) => match step_bytes(s1, c1) {
            Step::Done(v1, s2, c2) => Step::Done((v0, v1), s2, c2),
            Step::Fail(e) => Step::Fail(e),
        },
        Step::Fail(e) => Step::Fail(e),
    }
}

#[verifier::rlimit(50)]
#[verifier::spinoff_prover]
pub proof fn lemma_step_put_body(key: Seq<u8>, value: Seq<u8>, rest: Seq<u8>, cap: int)
    requires
        key.len() + value.len() <= cap,
        cap <= usize::MAX,
    ensures
        step_put_body(wire_put_body(key, value) + rest, cap) == Step::Done((key, value), rest, cap - (key.len() + value.len())),
{
    assert(wire_put_body(key, value) + rest =~= wire_bytes(key) + (wire_bytes(value) + (rest)));
    crate::buffer::data::lemma_step_bytes(key, wire_bytes(value) + (rest), cap);
    crate::buffer::data::lemma_step_bytes(value, rest, cap - key.len());
}

impl Put {
    /// Builds the request; the header's `len` is the exact byte count
    /// of the body that `encode` will write after the header.
    pub fn new(version: u8, uuid: u128, key: BinaryData, value: BinaryData) -> (r: Put)
        requires
            wire_put_body(key@, value@).len() <= usize::MAX,
        ensures
            r.header.kind == Kind::Put,
            r.header.version == Version(version),
            r.header.uuid == Uuid(uuid),
            r.header.len == wire_put_body(key@, value@).len(),
            r.key == key,
            r.value == value,
    {
        let key_len = key.len();
        let value_len = value.len();
        let len: usize = 8 + key_len + 8 + value_len;
        Put { header: Header::new(Kind::Put, version, uuid, len), key, value }
    }

    pub fn header(&self) -> (r: Header)
        ensures
            r == self.header,
    {
        self.header
    }

    pub fn key(&self) -> (r: &BinaryData)
        ensures
            r == &self.key,
    {
        &self.key
    }

    pub fn value(&self) -> (r: &BinaryData)
        ensures
            r == &self.value,
    {
        &self.value
    }

    /// The all-clear ack, keeping this request's version and uuid.
    pub fn ack(self) -> (r: PutAck)
        ensures
            r.header.kind == Kind::PutAck,
            r.header.version == self.header.version,
            r.header.uuid == self.header.uuid,
            r.header.len == wire_put_ack_body(r.response@).len(),
            r.response.code == SUCCESS,
            r.response.reason is None,
    {
        let response = Response::success();
        let len = response.encode_len();
        PutAck {
            header: Header::new(Kind::PutAck, self.header.version.0, self.header.uuid.0, len),
            response,
        }
    }

    /// A failure ack, keeping this request's version and uuid.
    pub fn nack(self, response_code: u8, reason: Option<ByteStr>) -> (r: PutAck)
        requires
            (reason matches Some(b) ==> b@.len() + 10 <= usize::MAX),
        ensures
            r.header.kind == Kind::PutAck,
            r.header.version == self.header.version,
            r.header.uuid == self.header.uuid,
            r.header.len == wire_put_ack_body(r.response@).len(),
            r.response.code == response_code,
            r.response.reason == reason,
    {
        let response = Response::fail(response_code, reason);
        let len = response.encode_len();
        PutAck {
            header: Header::new(Kind::PutAck, self.header.version.0, self.header.uuid.0, len),
            response,
        }
    }

    /// Decodes the body once the header is in hand; the header must carry
    /// this message's kind.
    pub fn decode(header: Header, reader: &mut Reader, buffer: &mut OwnedImpl) -> (r: Result<
        Put,
        Error,
    >)
        requires
            header.kind == Kind::Put,
            old(reader).wf(),
            old(buffer).wf(),
            old(buffer).filled == 0,
        ensures
            final(reader).wf(),
            final(reader).data == old(reader).data,
            final(buffer).wf(),
            final(buffer).filled == 0,
            match r {
                Ok(m) => m.header == header && step_put_body(
                    old(reader).rem(),
                    old(buffer).cap(),
                ) == Step::Done((m.key@, m.value@), final(reader).rem(), final(buffer).cap()),
                Err(e) => step_put_body(old(reader).rem(), old(buffer).cap()) == Step::<
                    (Seq<u8>, Seq<u8>),
                >::Fail(e),
            },
    {
        let key = BinaryData::decode_owned(reader, buffer)?;
        let value = BinaryData::decode_owned(reader, buffer)?;
        Ok(Put { header, key, value })
    }

    /// Writes the header, then the body fields in order.
    pub fn encode(&self, writer: &mut Vec<u8>) -> (r: Result<(), Error>)
        ensures
            r is Ok,
            final(writer)@ == old(writer)@ + wire_header(self.header) + wire_put_body(
                self.key@, self.value@,
            ),
    {
        self.header.encode(writer)?;
        self.key.encode(writer)?;
        self.value.encode(writer)?;
        proof {
            assert(writer@ =~= old(writer)@ + wire_header(self.header) + wire_put_body(
                self.key@, self.value@,
            ));
        }
        Ok(())
    }
}


/// The `PutAck` message of the wire protocol.
#[derive(Debug, Clone, PartialEq, Eq)]
pub struct PutAck {
    pub header: Header,
    pub response: Response,
}

/// The body bytes of a `PutAck`.
pub open spec fn wire_put_ack_body(response: (u8, Option<Seq<u8>>)) -> Seq<u8> {
    wire_resp(response)
}

/// Reading a `PutAck` body off the front of a byte string.
pub open spec fn step_put_ack_body(s0: Seq<u8>, c0: int) -> Step<(u8, Option<Seq<u8>>)> {
    match step_resp(s0, c0) {
        Step::Done(v0, s1, c1) => Step::Done(v0, s1, c1),
        Step::Fail(e) => Step::Fail(e),
    }
}

#[verifier::rlimit(50)]
#[verifier::spinoff_prover]
pub proof fn lemma_step_put_ack_body(response: (u8, Option<Seq<u8>>), rest: Seq<u8>, cap: int)
    requires
        opt_len(response.1) <= cap,
        cap <= usize::MAX,
    ensures
        step_put_ack_body(wire_put_ack_body(response) + rest, cap) == Step::Done(response, rest, cap - (opt_len(response.1))),
{
    assert(wire_put_ack_body(response) + rest =~= wire_resp(response) + (rest));
    crate::response::lemma_step_resp(response, rest, cap);
}

impl PutAck {
    pub fn header(&self) -> (r: Header)
        ensures
            r == self.header,
    {
        self.header
    }

    /// An ack assembled outside any request, with a fixed test header.
    pub fn new(response: Response) -> (r: PutAck)
        requires
            wire_resp(response@).len() <= usize::MAX,
        ensures
            r.header.kind == Kind::PutAck,
            r.header.len == wire_put_ack_body(response@).len(),
            r.response == response,
    {
        let len = response.encode_len();
        PutAck { header: Header::new(Kind::PutAck, 1, 1, len), response }
    }


    /// Decodes the body once the header is in hand; the header must carry
    /// this message's kind.
    pub fn decode(header: Header, reader: &mut Reader, buffer: &mut OwnedImpl) -> (r: Result<
        PutAck,
        Error,
    >)
        requires
            header.kind == Kind::PutAck,
            old(reader).wf(),
            old(buffer).wf(),
            old(buffer).filled == 0,
        ensures
            final(reader).wf(),
            final(reader).data == old(reader).data,
            final(buffer).wf(),
            final(buffer).filled == 0,
            match r {
                Ok(m) => m.header == header && step_put_ack_body(
                    old(reader).rem(),
                    old(buffer).cap(),
                ) == Step::Done(m.response@, final(reader).rem(), final(buffer).cap()),
                Err(e) => step_put_ack_body(old(reader).rem(), old(buffer).cap()) == Step::<
                    (u8, Option<Seq<u8>>),
                >::Fail(e),
            },
    {
        let response = Response::decode_owned(reader, buffer)?;
        Ok(PutAck { header, response })
    }

    /// Writes the header, then the body fields in order.
    pub fn encode(&self, writer: &mut Vec<u8>) -> (r: Result<(), Error>)
        ensures
            r is Ok,
            final(writer)@ == old(writer)@ + wire_header(self.header) + wire_put_ack_body(
                self.response@,
            ),
    {
        self.header.encode(writer)?;
        self.response.encode(writer)?;
        proof {
            assert(writer@ =~= old(writer)@ + wire_header(self.header) + wire_put_ack_body(
                self.response@,
            ));
        }
        Ok(())
    }
}

impl crate::Ack for PutAck {
    open spec fn spec_header(&self) -> Header {
        self.header
    }

    open spec fn spec_response(&self) -> (u8, Option<Seq<u8>>) {
        self.response@
    }

    fn header(&self) -> (r: &Header) {
        &self.header
    }

    fn response(&self) -> (r: Response) {
        self.response.clone()
    }
}


/// The `Get` message of the wire protocol.
#[derive(Debug, Clone, PartialEq, Eq)]
pub struct Get {
    pub header: Header,
    pub key: BinaryData,
}

/// The body bytes of a `Get`.
pub open spec fn wire_get_body(key: Seq<u8>) -> Seq<u8> {
    wire_bytes(key)
}

/// Reading a `Get` body off the front of a byte string.
pub open spec fn step_get_body(s0: Seq<u8>, c0: int) -> Step<Seq<u8>> {
    match step_bytes(s0, c0) {
        Step::Done(v0, s1, c1) => Step::Done(v0, s1, c1),
        Step::Fail(e) => Step::Fail(e),
    }
}

#[verifier::rlimit(50)]
#[verifier::spinoff_prover]
pub proof fn lemma_step_get_body(key: Seq<u8>, rest: Seq<u8>, cap: int)
    requires
        key.len() <= cap,
        cap <= usize::MAX,
    ensures
        step_get_body(wire_get_body(key) + rest, cap) == Step::Done(key, rest, cap - (key.len())),
{
    assert(wire_get_body(key) + rest =~= wire_bytes(key) + (rest));
    crate::buffer::data::lemma_step_bytes(key, rest, cap);
}

impl Get {
    /// Builds the request; the header's `len` is the exact byte count
    /// of the body that `encode` will write after the header.
    pub fn new(version: u8, uuid: u128, key: BinaryData) -> (r: Get)
        requires
            wire_get_body(key@).len() <= usize::MAX,
        ensures
            r.header.kind == Kind::Get,
            r.header.version == Version(version),
            r.header.uuid == Uuid(uuid),
            r.header.len == wire_get_body(key@).len(),
            r.key == key,
    {
        let key_len = key.len();
        let len: usize = 8 + key_len;
        Get { header: Header::new(Kind::Get, version, uuid, len), key }
    }

    pub fn header(&self) -> (r: Header)
        ensures
            r == self.header,
    {
        self.header
    }

    pub fn key(&self) -> (r: &BinaryData)
        ensures
            r == &self.key,
    {
        &self.key
    }

    /// The all-clear ack carrying the value, keeping this request's
    /// version and uuid.
    pub fn ack(self, value: BinaryData) -> (r: GetAck)
        requires
            value@.len() + 11 <= usize::MAX,
        ensures
            r.header.kind == Kind::GetAck,
            r.header.version == self.header.version,
            r.header.uuid == self.header.uuid,
            r.header.len == wire_get_ack_body(r.response@, opt_data_view(r.value)).len(),
            r.response.code == SUCCESS,
            r.response.reason is None,
            r.value == Some(value),
    {
        let response = Response::success();
        let resp_len = response.encode_len();
        let len = resp_len + 9 + value.len();
        GetAck {
            header: Header::new(Kind::GetAck, self.header.version.0, self.header.uuid.0, len),
            response,
            value: Some(value),
        }
    }

    /// A failure ack with no value, keeping this request's version and uuid.
    pub fn nack(self, response_code: u8, reason: Option<ByteStr>) -> (r: GetAck)
        requires
            (reason matches Some(b) ==> b@.len() + 11 <= usize::MAX),
        ensures
            r.header.kind == Kind::GetAck,
            r.header.version == self.header.version,
            r.header.uuid == self.header.uuid,
            r.header.len == wire_get_ack_body(r.response@, opt_data_view(r.value)).len(),
            r.response.code == response_code,
            r.response.reason == reason,
            r.value is None,
    {
        let response = Response::fail(response_code, reason);
        let resp_len = response.encode_len();
        let len = resp_len + 1;
        GetAck {
            header: Header::new(Kind::GetAck, self.header.version.0, self.header.uuid.0, len),
            response,
            value: None,
        }
    }

    /// Decodes the body once the header is in hand; the header must carry
    /// this message's kind.
    pub fn decode(header: Header, reader: &mut Reader, buffer: &mut OwnedImpl) -> (r: Result<
        Get,
        Error,
    >)
        requires
            header.kind == Kind::Get,
            old(reader).wf(),
            old(buffer).wf(),
            old(buffer).filled == 0,
        ensures
            final(reader).wf(),
            final(reader).data == old(reader).data,
            final(buffer).wf(),
            final(buffer).filled == 0,
            match r {
                Ok(m) => m.header == header && step_get_body(
                    old(reader).rem(),
                    old(buffer).cap(),
                ) == Step::Done(m.key@, final(reader).rem(), final(buffer).cap()),
                Err(e) => step_get_body(old(reader).rem(), old(buffer).cap()) == Step::<
                    Seq<u8>,
                >::Fail(e),
            },
    {
        let key = BinaryData::decode_owned(reader, buffer)?;
        Ok(Get { header, key })
    }

    /// Writes the header, then the body fields in order.
    pub fn encode(&self, writer: &mut Vec<u8>) -> (r: Result<(), Error>)
        ensures
            r is Ok,
            final(writer)@ == old(writer)@ + wire_header(self.header) + wire_get_body(
                self.key@,
            ),
    {
        self.header.encode(writer)?;
        self.key.encode(writer)?;
        proof {
            assert(writer@ =~= old(writer)@ + wire_header(self.header) + wire_get_body(
                self.key@,
            ));
        }
        Ok(())
    }
}


/// The `GetAck` message of the wire protocol.
#[derive(Debug, Clone, PartialEq, Eq)]
pub struct GetAck {
    pub header: Header,
    pub response: Response,
    pub value: Option<BinaryData>,
}

/// The body bytes of a `GetAck`.
pub open spec fn wire_get_ack_body(response: (u8, Option<Seq<u8>>), value: Option<Seq<u8>>) -> Seq<u8> {
    wire_resp(response) + wire_opt_bytes(value)
}

/// Reading a `GetAck` body off the front of a byte string.
pub open spec fn step_get_ack_body(s0: Seq<u8>, c0: int) -> Step<((u8, Option<Seq<u8>>), Option<Seq<u8>>)> {
    match step_resp(s0, c0) {
        Step::Done(v0, s1, c1) => match step_opt_bytes(s1, c1) {
            Step::Done(v1, s2, c2) => Step::Done((v0, v1), s2, c2),
            Step::Fail(e) => Step::Fail(e),
        },
        Step::Fail(e) => Step::Fail(e),
    }
}

#[verifier::rlimit(50)]
#[verifier::spinoff_prover]
pub proof fn lemma_step_get_ack_body(response: (u8, Option<Seq<u8>>), value: Option<Seq<u8>>, rest: Seq<u8>, cap: int)
    requires
        opt_len(response.1) + opt_len(value) <= cap,
        cap <= usize::MAX,
    ensures
        step_get_ack_body(wire_get_ack_body(response, value) + rest, cap) == Step::Done((response, value), rest, cap - (opt_len(response.1) + opt_len(value))),
{
    assert(wire_get_ack_body(response, value) + rest =~= wire_resp(response) + (wire_opt_bytes(value) + (rest)));
    crate::response::lemma_step_resp(response, wire_opt_bytes(value) + (rest), cap);
    crate::buffer::data::lemma_step_opt_bytes(value, rest, cap - opt_len(response.1));
}

impl GetAck {
    pub fn header(&self) -> (r: Header)
        ensures
            r == self.header,
    {
        self.header
    }

    pub fn value(&self) -> (r: &Option<BinaryData>)
        ensures
            r == &self.value,
    {
        &self.value
    }

    /// An ack assembled outside any request, with a fixed test header.
    pub fn new(response: Response, value: Option<BinaryData>) -> (r: GetAck)
        requires
            wire_get_ack_body(response@, opt_data_view(value)).len() <= usize::MAX,
        ensures
            r.header.kind == Kind::GetAck,
            r.header.len == wire_get_ack_body(response@, opt_data_view(value)).len(),
            r.response == response,
            r.value == value,
    {
        let resp_len = response.encode_len();
        let value_len: usize = match &value {
            Some(v) => 9 + v.len(),
            None => 1,
        };
        let len = resp_len + value_len;
        GetAck { header: Header::new(Kind::GetAck, 1, 1, len), response, value }
    }


    /// Decodes the body once the header is in hand; the header must carry
    /// this message's kind.
    pub fn decode(header: Header, reader: &mut Reader, buffer: &mut OwnedImpl) -> (r: Result<
        GetAck,
        Error,
    >)
        requires
            header.kind == Kind::GetAck,
            old(reader).wf(),
            old(buffer).wf(),
            old(buffer).filled == 0,
        ensures
            final(reader).wf(),
            final(reader).data == old(reader).data,
            final(buffer).wf(),
            final(buffer).filled == 0,
            match r {
                Ok(m) => m.header == header && step_get_ack_body(
                    old(reader).rem(),
                    old(buffer).cap(),
                ) == Step::Done((m.response@, opt_data_view(m.value)), final(reader).rem(), final(buffer).cap()),
                Err(e) => step_get_ack_body(old(reader).rem(), old(buffer).cap()) == Step::<
                    ((u8, Option<Seq<u8>>), Option<Seq<u8>>),
                >::Fail(e),
            },
    {
        let response = Response::decode_owned(reader, buffer)?;
        let value = decode_opt_binary(reader, buffer)?;
        Ok(GetAck { header, response, value })
    }

    /// Writes the header, then the body fields in order.
    pub fn encode(&self, writer: &mut Vec<u8>) -> (r: Result<(), Error>)
        ensures
            r is Ok,
            final(writer)@ == old(writer)@ + wire_header(self.header) + wire_get_ack_body(
                self.response@, opt_data_view(self.value),
            ),
    {
        self.header.encode(writer)?;
        self.response.encode(writer)?;
        encode_opt_binary(&self.value, writer)?;
        proof {
            assert(writer@ =~= old(writer)@ + wire_header(self.header) + wire_get_ack_body(
                self.response@, opt_data_view(self.value),
            ));
        }
        Ok(())
    }
}

impl crate::Ack for GetAck {
    open spec fn spec_header(&self) -> Header {
        self.header
    }

    open spec fn spec_response(&self) -> (u8, Option<Seq<u8>>) {
        self.response@
    }

    fn header(&self) -> (r: &Header) {
        &self.header
    }

    fn response(&self) -> (r: Response) {
        self.response.clone()
    }
}


/// The `Delete` message of the wire protocol.
#[derive(Debug, Clone, PartialEq, Eq)]
pub struct Delete {
    pub header: Header,
    pub key: BinaryData,
}

/// The body bytes of a `Delete`.
pub open spec fn wire_delete_body(key: Seq<u8>) -> Seq<u8> {
    wire_bytes(key)
}

/// Reading a `Delete` body off the front of a byte string.
pub open spec fn step_delete_body(s0: Seq<u8>, c0: int) -> Step<Seq<u8>> {
    match step_bytes(s0, c0) {
        Step::Done(v0, s1, c1) => Step::Done(v0, s1, c1),
        Step::Fail(e) => Step::Fail(e),
    }
}

#[verifier::rlimit(50)]
#[verifier::spinoff_prover]
pub proof fn lemma_step_delete_body(key: Seq<u8>, rest: Seq<u8>, cap: int)
    requires
        key.len() <= cap,
        cap <= usize::MAX,
    ensures
        step_delete_body(wire_delete_body(key) + rest, cap) == Step::Done(key, rest, cap - (key.len())),
{
    assert(wire_delete_body(key) + rest =~= wire_bytes(key) + (rest));
    crate::buffer::data::lemma_step_bytes(key, rest, cap);
}

impl Delete {
    /// Builds the request; the header's `len` is the exact byte count
    /// of the body that `encode` will write after the header.
    pub fn new(version: u8, uuid: u128, key: BinaryData) -> (r: Delete)
        requires
            wire_delete_body(key@).len() <= usize::MAX,
        ensures
            r.header.kind == Kind::Delete,
            r.header.version == Version(version),
            r.header.uuid == Uuid(uuid),
            r.header.len == wire_delete_body(key@).len(),
            r.key == key,
    {
        let key_len = key.len();
        let len: usize = 8 + key_len;
        Delete { header: Header::new(Kind::Delete, version, uuid, len), key }
    }

    pub fn header(&self) -> (r: Header)
        ensures
            r == self.header,
    {
        self.header
    }

    pub fn key(&self) -> (r: &BinaryData)
        ensures
            r == &self.key,
    {
        &self.key
    }

    /// The all-clear ack, keeping this request's version and uuid.
    pub fn ack(self) -> (r: DeleteAck)
        ensures
            r.header.kind == Kind::DeleteAck,
            r.header.version == self.header.version,
            r.header.uuid == self.header.uuid,
            r.header.len == wire_delete_ack_body(r.response@).len(),
            r.response.code == SUCCESS,
            r.response.reason is None,
    {
        let response = Response::success();
        let len = response.encode_len();
        DeleteAck {
            header: Header::new(Kind::DeleteAck, self.header.version.0, self.header.uuid.0, len),
            response,
        }
    }

    /// A failure ack, keeping this request's version and uuid.
    pub fn nack(self, response_code: u8, reason: Option<ByteStr>) -> (r: DeleteAck)
        requires
            (reason matches Some(b) ==> b@.len() + 10 <= usize::MAX),
        ensures
            r.header.kind == Kind::DeleteAck,
            r.header.version == self.header.version,
            r.header.uuid == self.header.uuid,
            r.header.len == wire_delete_ack_body(r.response@).len(),
            r.response.code == response_code,
            r.response.reason == reason,
    {
        let response = Response::fail(response_code, reason);
        let len = response.encode_len();
        DeleteAck {
            header: Header::new(Kind::DeleteAck, self.header.version.0, self.header.uuid.0, len),
            response,
        }
    }

    /// Decodes the body once the header is in hand; the header must carry
    /// this message's kind.
    pub fn decode(header: Header, reader: &mut Reader, buffer: &mut OwnedImpl) -> (r: Result<
        Delete,
        Error,
    >)
        requires
            header.kind == Kind::Delete,
            old(reader).wf(),
            old(buffer).wf(),
            old(buffer).filled == 0,
        ensures
            final(reader).wf(),
            final(reader).data == old(reader).data,
            final(buffer).wf(),
            final(buffer).filled == 0,
            match r {
                Ok(m) => m.header == header && step_delete_body(
                    old(reader).rem(),
                    old(buffer).cap(),
                ) == Step::Done(m.key@, final(reader).rem(), final(buffer).cap()),
                Err(e) => step_delete_body(old(reader).rem(), old(buffer).cap()) == Step::<
                    Seq<u8>,
                >::Fail(e),
            },
    {
        let key = BinaryData::decode_owned(reader, buffer)?;
        Ok(Delete { header, key })
    }

    /// Writes the header, then the body fields in order.
    pub fn encode(&self, writer: &mut Vec<u8>) -> (r: Result<(), Error>)
        ensures
            r is Ok,
            final(writer)@ == old(writer)@ + wire_header(self.header) + wire_delete_body(
                self.key@,
            ),
    {
        self.header.encode(writer)?;
        self.key.encode(writer)?;
        proof {
            assert(writer@ =~= old(writer)@ + wire_header(self.header) + wire_delete_body(
                self.key@,
            ));
        }
        Ok(())
    }
}


/// The `DeleteAck` message of the wire protocol.
#[derive(Debug, Clone, PartialEq, Eq)]
pub struct DeleteAck {
    pub header: Header,
    pub response: Response,
}

/// The body bytes of a `DeleteAck`.
pub open spec fn wire_delete_ack_body(response: (u8, Option<Seq<u8>>)) -> Seq<u8> {
    wire_resp(response)
}

/// Reading a `DeleteAck` body off the front of a byte string.
pub open spec fn step_delete_ack_body(s0: Seq<u8>, c0: int) -> Step<(u8, Option<Seq<u8>>)> {
    match step_resp(s0, c0) {
        Step::Done(v0, s1, c1) => Step::Done(v0, s1, c1),
        Step::Fail(e) => Step::Fail(e),
    }
}

#[verifier::rlimit(50)]
#[verifier::spinoff_prover]
pub proof fn lemma_step_delete_ack_body(response: (u8, Option<Seq<u8>>), rest: Seq<u8>, cap: int)
    requires
        opt_len(response.1) <= cap,
        cap <= usize::MAX,
    ensures
        step_delete_ack_body(wire_delete_ack_body(response) + rest, cap) == Step::Done(response, rest, cap - (opt_len(response.1))),
{
    assert(wire_delete_ack_body(response) + rest =~= wire_resp(response) + (rest));
    crate::response::lemma_step_resp(response, rest, cap);
}

impl DeleteAck {
    pub fn header(&self) -> (r: Header)
        ensures
            r == self.header,
    {
        self.header
    }

    /// An ack assembled outside any request, with a fixed test header.
    pub fn new(response: Response) -> (r: DeleteAck)
        requires
            wire_resp(response@).len() <= usize::MAX,
        ensures
            r.header.kind == Kind::DeleteAck,
            r.header.len == wire_delete_ack_body(response@).len(),
            r.response == response,
    {
        let len = response.encode_len();
        DeleteAck { header: Header::new(Kind::DeleteAck, 1, 1, len), response }
    }


    /// Decodes the body once the header is in hand; the header must carry
    /// this message's kind.
    pub fn decode(header: Header, reader: &mut Reader, buffer: &mut OwnedImpl) -> (r: Result<
        DeleteAck,
        Error,
    >)
        requires
            header.kind == Kind::DeleteAck,
            old(reader).wf(),
            old(buffer).wf(),
            old(buffer).filled == 0,
        ensures
            final(reader).wf(),
            final(reader).data == old(reader).data,
            final(buffer).wf(),
            final(buffer).filled == 0,
            match r {
                Ok(m) => m.header == header && step_delete_ack_body(
                    old(reader).rem(),
                    old(buffer).cap(),
                ) == Step::Done(m.response@, final(reader).rem(), final(buffer).cap()),
                Err(e) => step_delete_ack_body(old(reader).rem(), old(buffer).cap()) == Step::<
                    (u8, Option<Seq<u8>>),
                >::Fail(e),
            },
    {
        let response = Response::decode_owned(reader, buffer)?;
        Ok(DeleteAck { header, response })
    }

    /// Writes the header, then the body fields in order.
    pub fn encode(&self, writer: &mut Vec<u8>) -> (r: Result<(), Error>)
        ensures
            r is Ok,
            final(writer)@ == old(writer)@ + wire_header(self.header) + wire_delete_ack_body(
                self.response@,
            ),
    {
        self.header.encode(writer)?;
        self.response.encode(writer)?;
        proof {
            assert(writer@ =~= old(writer)@ + wire_header(self.header) + wire_delete_ack_body(
                self.response@,
            ));
        }
        Ok(())
    }
}

impl crate::Ack for DeleteAck {
    open spec fn spec_header(&self) -> Header {
        self.header
    }

    open spec fn spec_response(&self) -> (u8, Option<Seq<u8>>) {
        self.response@
    }

    fn header(&self) -> (r: &Header) {
        &self.header
    }

    fn response(&self) -> (r: Response) {
        self.response.clone()
    }
}



/// The seven-byte key the tests use.
pub fn test_key() -> (r: BinaryData)
    ensures
        r@.len() == 7,
{
    BinaryData::new(SharedImpl::test_new(&[107u8, 105u8, 116u8, 116u8, 101u8, 110u8, 115u8]))
}

} // verus!
