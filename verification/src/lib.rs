use vstd::prelude::*;

pub mod buffer;
pub mod codes;
pub mod error;
pub mod header;
pub mod kind;
pub mod response;
pub mod wire;

pub use buffer::{
    binary_data, byte_str, fill, BinaryData, BufferOwner, ByteStr, Owned, OwnedImpl, Pool,
    PoolImpl, Shared, SharedImpl,
};
pub use codes::{
    CHAIN_NOT_READY, FAILED_TO_PUSH_TO_TRANSACTION_LOG, INTERNAL_ERROR, KEY_ALREADY_EXISTS,
    KEY_DOES_NOT_EXIST, QUEUE_ALREADY_EXISTS, QUEUE_DOES_NOT_EXIST, QUEUE_EMPTY, QUEUE_FULL,
    SERVER_BUSY, SUCCESS,
};
pub use error::Error;
pub use header::{Header, Uuid, Version};
pub use kind::Kind;
pub use response::Response;
pub use wire::Reader;

pub mod deque_codec;
pub mod kv_store_codec;
pub mod system_codec;

use deque_codec::{
    Create, CreateAck, Delete as DeleteQueue, DeleteAck as DeleteQueueAck, Dequeue, DequeueAck,
    Enqueue, EnqueueAck, Len, LenAck, Peek, PeekAck,
};
use kv_store_codec::{Delete, DeleteAck, Get, GetAck, Put, PutAck};
use system_codec::{Join, JoinAck, Ping, PingAck, Report, ReportAck, Transfer, TransferAck};

use buffer::data::{opt_data_view, opt_len};
use system_codec::{position_need, role_need, PositionView, RoleView};
use wire::Step;

verus! {

/// What every ack offers: its header, and the code with optional reason it
/// reports. A `PingAck` carries no response on the wire and always reports
/// the all-clear.
pub trait Ack {
    /// The header this ack carries.
    spec fn spec_header(&self) -> Header;

    /// The code and reason bytes this ack reports.
    spec fn spec_response(&self) -> (u8, Option<Seq<u8>>);

    fn header(&self) -> (r: &Header)
        ensures
            *r == self.spec_header(),
    ;

    fn response(&self) -> (r: Response)
        ensures
            r@ == self.spec_response(),
    ;
}

/// The sum of every message the protocol carries, discriminated by the
/// embedded header's kind.
#[derive(Debug, Clone, PartialEq, Eq)]
pub enum Packet {
    Enqueue(Enqueue),
    EnqueueAck(EnqueueAck),
    Dequeue(Dequeue),
    DequeueAck(DequeueAck),
    Peek(Peek),
    PeekAck(PeekAck),
    Len(Len),
    LenAck(LenAck),
    CreateQueue(Create),
    CreateQueueAck(CreateAck),
    DeleteQueue(DeleteQueue),
    DeleteQueueAck(DeleteQueueAck),
    Put(Put),
    PutAck(PutAck),
    Get(Get),
    GetAck(GetAck),
    Delete(Delete),
    DeleteAck(DeleteAck),
    Report(Report),
    ReportAck(ReportAck),
    Join(Join),
    JoinAck(JoinAck),
    Transfer(Transfer),
    TransferAck(TransferAck),
    Ping(Ping),
    PingAck(PingAck),
}

/// The header embedded in a packet.
pub open spec fn packet_header(p: Packet) -> Header {
    match p {
        Packet::Enqueue(m) => m.header,
        Packet::EnqueueAck(m) => m.header,
        Packet::Dequeue(m) => m.header,
        Packet::DequeueAck(m) => m.header,
        Packet::Peek(m) => m.header,
        Packet::PeekAck(m) => m.header,
        Packet::Len(m) => m.header,
        Packet::LenAck(m) => m.header,
        Packet::CreateQueue(m) => m.header,
        Packet::CreateQueueAck(m) => m.header,
        Packet::DeleteQueue(m) => m.header,
        Packet::DeleteQueueAck(m) => m.header,
        Packet::Put(m) => m.header,
        Packet::PutAck(m) => m.header,
        Packet::Get(m) => m.header,
        Packet::GetAck(m) => m.header,
        Packet::Delete(m) => m.header,
        Packet::DeleteAck(m) => m.header,
        Packet::Report(m) => m.header,
        Packet::ReportAck(m) => m.header,
        Packet::Join(m) => m.header,
        Packet::JoinAck(m) => m.header,
        Packet::Transfer(m) => m.header,
        Packet::TransferAck(m) => m.header,
        Packet::Ping(m) => m.header,
        Packet::PingAck(m) => m.header,
    }
}

/// A packet's header carries its own variant's kind.
pub open spec fn packet_wf(p: Packet) -> bool {
    match p {
        Packet::Enqueue(m) => m.header.kind == Kind::Enqueue,
        Packet::EnqueueAck(m) => m.header.kind == Kind::EnqueueAck,
        Packet::Dequeue(m) => m.header.kind == Kind::Deque,
        Packet::DequeueAck(m) => m.header.kind == Kind::DequeAck,
        Packet::Peek(m) => m.header.kind == Kind::Peek,
        Packet::PeekAck(m) => m.header.kind == Kind::PeekAck,
        Packet::Len(m) => m.header.kind == Kind::Len,
        Packet::LenAck(m) => m.header.kind == Kind::LenAck,
        Packet::CreateQueue(m) => m.header.kind == Kind::CreateQueue,
        Packet::CreateQueueAck(m) => m.header.kind == Kind::CreateQueueAck,
        Packet::DeleteQueue(m) => m.header.kind == Kind::DeleteQueue,
        Packet::DeleteQueueAck(m) => m.header.kind == Kind::DeleteQueueAck,
        Packet::Put(m) => m.header.kind == Kind::Put,
        Packet::PutAck(m) => m.header.kind == Kind::PutAck,
        Packet::Get(m) => m.header.kind == Kind::Get,
        Packet::GetAck(m) => m.header.kind == Kind::GetAck,
        Packet::Delete(m) => m.header.kind == Kind::Delete,
        Packet::DeleteAck(m) => m.header.kind == Kind::DeleteAck,
        Packet::Report(m) => m.header.kind == Kind::Report,
        Packet::ReportAck(m) => m.header.kind == Kind::ReportAck,
        Packet::Join(m) => m.header.kind == Kind::Join,
        Packet::JoinAck(m) => m.header.kind == Kind::JoinAck,
        Packet::Transfer(m) => m.header.kind == Kind::Transfer,
        Packet::TransferAck(m) => m.header.kind == Kind::TransferAck,
        Packet::Ping(m) => m.header.kind == Kind::Ping,
        Packet::PingAck(m) => m.header.kind == Kind::PingAck,
    }
}

/// The body bytes a packet's variant puts after the header.
pub open spec fn wire_packet_body(p: Packet) -> Seq<u8> {
    match p {
        Packet::Enqueue(m) => deque_codec::wire_enqueue_body(m.path@, m.value@),
        Packet::EnqueueAck(m) => deque_codec::wire_enqueue_ack_body(m.response@),
        Packet::Dequeue(m) => deque_codec::wire_dequeue_body(m.path@),
        Packet::DequeueAck(m) => deque_codec::wire_dequeue_ack_body(m.response@, opt_data_view(m.value)),
        Packet::Peek(m) => deque_codec::wire_peek_body(m.path@, m.sequence),
        Packet::PeekAck(m) => deque_codec::wire_peek_ack_body(m.response@, opt_data_view(m.value)),
        Packet::Len(m) => deque_codec::wire_len_body(m.path@),
        Packet::LenAck(m) => deque_codec::wire_len_ack_body(m.response@, m.len),
        Packet::CreateQueue(m) => deque_codec::wire_create_body(m.path@, m.node_size, m.max_disk_usage),
        Packet::CreateQueueAck(m) => deque_codec::wire_create_ack_body(m.response@),
        Packet::DeleteQueue(m) => deque_codec::wire_delete_body(m.path@),
        Packet::DeleteQueueAck(m) => deque_codec::wire_delete_ack_body(m.response@),
        Packet::Put(m) => kv_store_codec::wire_put_body(m.key@, m.value@),
        Packet::PutAck(m) => kv_store_codec::wire_put_ack_body(m.response@),
        Packet::Get(m) => kv_store_codec::wire_get_body(m.key@),
        Packet::GetAck(m) => kv_store_codec::wire_get_ack_body(m.response@, opt_data_view(m.value)),
        Packet::Delete(m) => kv_store_codec::wire_delete_body(m.key@),
        Packet::DeleteAck(m) => kv_store_codec::wire_delete_ack_body(m.response@),
        Packet::Report(m) => system_codec::wire_report_body(m.position@),
        Packet::ReportAck(m) => system_codec::wire_report_ack_body(m.response@),
        Packet::Join(m) => system_codec::wire_join_body(m.role@, m.instance, m.successor_lost),
        Packet::JoinAck(m) => system_codec::wire_join_ack_body(m.response@),
        Packet::Transfer(m) => system_codec::wire_transfer_body(m.path@, m.offset, m.content@),
        Packet::TransferAck(m) => system_codec::wire_transfer_ack_body(m.response@),
        Packet::Ping(m) => Seq::empty(),
        Packet::PingAck(m) => Seq::empty(),
    }
}

/// The whole frame: the 26 header bytes, then the body.
pub open spec fn wire_packet(p: Packet) -> Seq<u8> {
    header::wire_header(packet_header(p)) + wire_packet_body(p)
}

/// How many buffer bytes decoding a packet's body takes up.
pub open spec fn packet_need(p: Packet) -> int {
    match p {
        Packet::Enqueue(m) => m.path@.len() + m.value@.len() as int,
        Packet::EnqueueAck(m) => opt_len(m.response@.1),
        Packet::Dequeue(m) => m.path@.len() as int,
        Packet::DequeueAck(m) => opt_len(m.response@.1) + opt_len(opt_data_view(m.value)),
        Packet::Peek(m) => m.path@.len() as int,
        Packet::PeekAck(m) => opt_len(m.response@.1) + opt_len(opt_data_view(m.value)),
        Packet::Len(m) => m.path@.len() as int,
        Packet::LenAck(m) => opt_len(m.response@.1),
        Packet::CreateQueue(m) => m.path@.len() as int,
        Packet::CreateQueueAck(m) => opt_len(m.response@.1),
        Packet::DeleteQueue(m) => m.path@.len() as int,
        Packet::DeleteQueueAck(m) => opt_len(m.response@.1),
        Packet::Put(m) => m.key@.len() + m.value@.len() as int,
        Packet::PutAck(m) => opt_len(m.response@.1),
        Packet::Get(m) => m.key@.len() as int,
        Packet::GetAck(m) => opt_len(m.response@.1) + opt_len(opt_data_view(m.value)),
        Packet::Delete(m) => m.key@.len() as int,
        Packet::DeleteAck(m) => opt_len(m.response@.1),
        Packet::Report(m) => position_need(m.position@),
        Packet::ReportAck(m) => opt_len(m.response@.1),
        Packet::Join(m) => role_need(m.role@),
        Packet::JoinAck(m) => opt_len(m.response@.1),
        Packet::Transfer(m) => m.path@.len() + m.content@.len() as int,
        Packet::TransferAck(m) => opt_len(m.response@.1),
        Packet::Ping(m) => 0,
        Packet::PingAck(m) => 0,
    }
}

/// An observer's chain must be countable in a `u64` length prefix that
/// also fits the machine's `usize`.
pub open spec fn packet_chain_ok(p: Packet) -> bool {
    match p {
        Packet::Report(m) => match m.position@ {
            system_codec::PositionView::Observer { chain } => chain.len() <= usize::MAX,
            _ => true,
        },
        _ => true,
    }
}

/// What a successful body decode must have done: the packet adopted the
/// header, and its fields are exactly what a read of the body bytes gives,
/// with the rest of the input and the leftover buffer room as reported.
pub open spec fn decoded_packet_ok(
    h: Header,
    s: Seq<u8>,
    cap: int,
    p: Packet,
    s_end: Seq<u8>,
    cap_end: int,
) -> bool {
    match p {
        Packet::Enqueue(m) => h.kind == Kind::Enqueue && m.header == h
            && deque_codec::step_enqueue_body(s, cap) == Step::Done(
            (m.path@, m.value@),
            s_end,
            cap_end,
        ),
        Packet::EnqueueAck(m) => h.kind == Kind::EnqueueAck && m.header == h
            && deque_codec::step_enqueue_ack_body(s, cap) == Step::Done(
            m.response@,
            s_end,
            cap_end,
        ),
        Packet::Dequeue(m) => h.kind == Kind::Deque && m.header == h
            && deque_codec::step_dequeue_body(s, cap) == Step::Done(
            m.path@,
            s_end,
            cap_end,
        ),
        Packet::DequeueAck(m) => h.kind == Kind::DequeAck && m.header == h
            && deque_codec::step_dequeue_ack_body(s, cap) == Step::Done(
            (m.response@, opt_data_view(m.value)),
            s_end,
            cap_end,
        ),
        Packet::Peek(m) => h.kind == Kind::Peek && m.header == h
            && deque_codec::step_peek_body(s, cap) == Step::Done(
            (m.path@, m.sequence),
            s_end,
            cap_end,
        ),
        Packet::PeekAck(m) => h.kind == Kind::PeekAck && m.header == h
            && deque_codec::step_peek_ack_body(s, cap) == Step::Done(
            (m.response@, opt_data_view(m.value)),
            s_end,
            cap_end,
        ),
        Packet::Len(m) => h.kind == Kind::Len && m.header == h
            && deque_codec::step_len_body(s, cap) == Step::Done(
            m.path@,
            s_end,
            cap_end,
        ),
        Packet::LenAck(m) => h.kind == Kind::LenAck && m.header == h
            && deque_codec::step_len_ack_body(s, cap) == Step::Done(
            (m.response@, m.len),
            s_end,
            cap_end,
        ),
        Packet::CreateQueue(m) => h.kind == Kind::CreateQueue && m.header == h
            && deque_codec::step_create_body(s, cap) == Step::Done(
            (m.path@, m.node_size, m.max_disk_usage),
            s_end,
            cap_end,
        ),
        Packet::CreateQueueAck(m) => h.kind == Kind::CreateQueueAck && m.header == h
            && deque_codec::step_create_ack_body(s, cap) == Step::Done(
            m.response@,
            s_end,
            cap_end,
        ),
        Packet::DeleteQueue(m) => h.kind == Kind::DeleteQueue && m.header == h
            && deque_codec::step_delete_body(s, cap) == Step::Done(
            m.path@,
            s_end,
            cap_end,
        ),
        Packet::DeleteQueueAck(m) => h.kind == Kind::DeleteQueueAck && m.header == h
            && deque_codec::step_delete_ack_body(s, cap) == Step::Done(
            m.response@,
            s_end,
            cap_end,
        ),
        Packet::Put(m) => h.kind == Kind::Put && m.header == h
            && kv_store_codec::step_put_body(s, cap) == Step::Done(
            (m.key@, m.value@),
            s_end,
            cap_end,
        ),
        Packet::PutAck(m) => h.kind == Kind::PutAck && m.header == h
            && kv_store_codec::step_put_ack_body(s, cap) == Step::Done(
            m.response@,
            s_end,
            cap_end,
        ),
        Packet::Get(m) => h.kind == Kind::Get && m.header == h
            && kv_store_codec::step_get_body(s, cap) == Step::Done(
            m.key@,
            s_end,
            cap_end,
        ),
        Packet::GetAck(m) => h.kind == Kind::GetAck && m.header == h
            && kv_store_codec::step_get_ack_body(s, cap) == Step::Done(
            (m.response@, opt_data_view(m.value)),
            s_end,
            cap_end,
        ),
        Packet::Delete(m) => h.kind == Kind::Delete && m.header == h
            && kv_store_codec::step_delete_body(s, cap) == Step::Done(
            m.key@,
            s_end,
            cap_end,
        ),
        Packet::DeleteAck(m) => h.kind == Kind::DeleteAck && m.header == h
            && kv_store_codec::step_delete_ack_body(s, cap) == Step::Done(
            m.response@,
            s_end,
            cap_end,
        ),
        Packet::Report(m) => h.kind == Kind::Report && m.header == h
            && system_codec::step_report_body(s, cap) == Step::Done(
            m.position@,
            s_end,
            cap_end,
        ),
        Packet::ReportAck(m) => h.kind == Kind::ReportAck && m.header == h
            && system_codec::step_report_ack_body(s, cap) == Step::Done(
            m.response@,
            s_end,
            cap_end,
        ),
        Packet::Join(m) => h.kind == Kind::Join && m.header == h
            && system_codec::step_join_body(s, cap) == Step::Done(
            (m.role@, m.instance, m.successor_lost),
            s_end,
            cap_end,
        ),
        Packet::JoinAck(m) => h.kind == Kind::JoinAck && m.header == h
            && system_codec::step_join_ack_body(s, cap) == Step::Done(
            m.response@,
            s_end,
            cap_end,
        ),
        Packet::Transfer(m) => h.kind == Kind::Transfer && m.header == h
            && system_codec::step_transfer_body(s, cap) == Step::Done(
            (m.path@, m.offset, m.content@),
            s_end,
            cap_end,
        ),
        Packet::TransferAck(m) => h.kind == Kind::TransferAck && m.header == h
            && system_codec::step_transfer_ack_body(s, cap) == Step::Done(
            m.response@,
            s_end,
            cap_end,
        ),
        Packet::Ping(m) => h.kind == Kind::Ping && m.header == h && s_end == s
            && cap_end == cap,
        Packet::PingAck(m) => h.kind == Kind::PingAck && m.header == h && s_end == s
            && cap_end == cap,
    }
}

/// What a failed body decode must have hit: the exact error a read of the
/// body bytes runs into for the header's kind. The two empty-bodied kinds
/// never fail.
pub open spec fn decoded_packet_fail(h: Header, s: Seq<u8>, cap: int, e: Error) -> bool {
    match h.kind {
        Kind::Enqueue => deque_codec::step_enqueue_body(s, cap) == Step::<(Seq<u8>, Seq<u8>)>::Fail(e),
        Kind::EnqueueAck => deque_codec::step_enqueue_ack_body(s, cap) == Step::<(u8, Option<Seq<u8>>)>::Fail(e),
        Kind::Deque => deque_codec::step_dequeue_body(s, cap) == Step::<Seq<u8>>::Fail(e),
        Kind::DequeAck => deque_codec::step_dequeue_ack_body(s, cap) == Step::<((u8, Option<Seq<u8>>), Option<Seq<u8>>)>::Fail(e),
        Kind::Peek => deque_codec::step_peek_body(s, cap) == Step::<(Seq<u8>, u64)>::Fail(e),
        Kind::PeekAck => deque_codec::step_peek_ack_body(s, cap) == Step::<((u8, Option<Seq<u8>>), Option<Seq<u8>>)>::Fail(e),
        Kind::Len => deque_codec::step_len_body(s, cap) == Step::<Seq<u8>>::Fail(e),
        Kind::LenAck => deque_codec::step_len_ack_body(s, cap) == Step::<((u8, Option<Seq<u8>>), u64)>::Fail(e),
        Kind::CreateQueue => deque_codec::step_create_body(s, cap) == Step::<(Seq<u8>, u64, u64)>::Fail(e),
        Kind::CreateQueueAck => deque_codec::step_create_ack_body(s, cap) == Step::<(u8, Option<Seq<u8>>)>::Fail(e),
        Kind::DeleteQueue => deque_codec::step_delete_body(s, cap) == Step::<Seq<u8>>::Fail(e),
        Kind::DeleteQueueAck => deque_codec::step_delete_ack_body(s, cap) == Step::<(u8, Option<Seq<u8>>)>::Fail(e),
        Kind::Put => kv_store_codec::step_put_body(s, cap) == Step::<(Seq<u8>, Seq<u8>)>::Fail(e),
        Kind::PutAck => kv_store_codec::step_put_ack_body(s, cap) == Step::<(u8, Option<Seq<u8>>)>::Fail(e),
        Kind::Get => kv_store_codec::step_get_body(s, cap) == Step::<Seq<u8>>::Fail(e),
        Kind::GetAck => kv_store_codec::step_get_ack_body(s, cap) == Step::<((u8, Option<Seq<u8>>), Option<Seq<u8>>)>::Fail(e),
        Kind::Delete => kv_store_codec::step_delete_body(s, cap) == Step::<Seq<u8>>::Fail(e),
        Kind::DeleteAck => kv_store_codec::step_delete_ack_body(s, cap) == Step::<(u8, Option<Seq<u8>>)>::Fail(e),
        Kind::Report => system_codec::step_report_body(s, cap) == Step::<PositionView>::Fail(e),
        Kind::ReportAck => system_codec::step_report_ack_body(s, cap) == Step::<(u8, Option<Seq<u8>>)>::Fail(e),
        Kind::Join => system_codec::step_join_body(s, cap) == Step::<(RoleView, u128, bool)>::Fail(e),
        Kind::JoinAck => system_codec::step_join_ack_body(s, cap) == Step::<(u8, Option<Seq<u8>>)>::Fail(e),
        Kind::Transfer => system_codec::step_transfer_body(s, cap) == Step::<(Seq<u8>, u64, Seq<u8>)>::Fail(e),
        Kind::TransferAck => system_codec::step_transfer_ack_body(s, cap) == Step::<(u8, Option<Seq<u8>>)>::Fail(e),
        Kind::Ping => false,
        Kind::PingAck => false,
    }
}

/// Decodes a body into the packet the header's kind names. The header has
/// been read already; only body bytes are consumed here.
pub fn partial_decode(header: Header, reader: &mut Reader, buffer: &mut OwnedImpl) -> (r:
    Result<Packet, Error>)
    requires
        old(reader).wf(),
        old(buffer).wf(),
        old(buffer).filled == 0,
    ensures
        final(reader).wf(),
        final(reader).data == old(reader).data,
        final(buffer).wf(),
        final(buffer).filled == 0,
        match r {
            Ok(p) => decoded_packet_ok(
                header,
                old(reader).rem(),
                old(buffer).cap(),
                p,
                final(reader).rem(),
                final(buffer).cap(),
            ),
            Err(e) => decoded_packet_fail(header, old(reader).rem(), old(buffer).cap(), e),
        },
{
    match header.kind {
        Kind::Enqueue => Ok(Packet::Enqueue(Enqueue::decode(header, reader, buffer)?)),
        Kind::EnqueueAck => Ok(Packet::EnqueueAck(EnqueueAck::decode(header, reader, buffer)?)),
        Kind::Deque => Ok(Packet::Dequeue(Dequeue::decode(header, reader, buffer)?)),
        Kind::DequeAck => Ok(Packet::DequeueAck(DequeueAck::decode(header, reader, buffer)?)),
        Kind::Peek => Ok(Packet::Peek(Peek::decode(header, reader, buffer)?)),
        Kind::PeekAck => Ok(Packet::PeekAck(PeekAck::decode(header, reader, buffer)?)),
        Kind::Len => Ok(Packet::Len(Len::decode(header, reader, buffer)?)),
        Kind::LenAck => Ok(Packet::LenAck(LenAck::decode(header, reader, buffer)?)),
        Kind::CreateQueue => Ok(Packet::CreateQueue(Create::decode(header, reader, buffer)?)),
        Kind::CreateQueueAck => Ok(Packet::CreateQueueAck(CreateAck::decode(header, reader, buffer)?)),
        Kind::DeleteQueue => Ok(Packet::DeleteQueue(DeleteQueue::decode(header, reader, buffer)?)),
        Kind::DeleteQueueAck => Ok(Packet::DeleteQueueAck(DeleteQueueAck::decode(header, reader, buffer)?)),
        Kind::Put => Ok(Packet::Put(Put::decode(header, reader, buffer)?)),
        Kind::PutAck => Ok(Packet::PutAck(PutAck::decode(header, reader, buffer)?)),
        Kind::Get => Ok(Packet::Get(Get::decode(header, reader, buffer)?)),
        Kind::GetAck => Ok(Packet::GetAck(GetAck::decode(header, reader, buffer)?)),
        Kind::Delete => Ok(Packet::Delete(Delete::decode(header, reader, buffer)?)),
        Kind::DeleteAck => Ok(Packet::DeleteAck(DeleteAck::decode(header, reader, buffer)?)),
        Kind::Report => Ok(Packet::Report(Report::decode(header, reader, buffer)?)),
        Kind::ReportAck => Ok(Packet::ReportAck(ReportAck::decode(header, reader, buffer)?)),
        Kind::Join => Ok(Packet::Join(Join::decode(header, reader, buffer)?)),
        Kind::JoinAck => Ok(Packet::JoinAck(JoinAck::decode(header, reader, buffer)?)),
        Kind::Transfer => Ok(Packet::Transfer(Transfer::decode(header, reader, buffer)?)),
        Kind::TransferAck => Ok(Packet::TransferAck(TransferAck::decode(header, reader, buffer)?)),
        Kind::Ping => Ok(Packet::Ping(Ping::decode(header, reader, buffer)?)),
        Kind::PingAck => Ok(Packet::PingAck(PingAck::decode(header, reader, buffer)?)),
    }
}

/// The outcome `full_decode` owes once the header is in hand: a body too
/// large for the buffer is turned away untouched, with the header handed
/// back for a retry; otherwise the body is decoded as `partial_decode` does.
pub open spec fn full_decode_from(
    h: Header,
    s: Seq<u8>,
    cap: int,
    r: Result<Packet, Error>,
    s_end: Seq<u8>,
    cap_end: int,
) -> bool {
    if h.len > cap {
        &&& r == Err::<Packet, Error>(
            Error::BufferTooSmallForPacketDecode { header: h, size: h.len, capacity: cap as usize },
        )
        &&& s_end == s
        &&& cap_end == cap
    } else {
        match r {
            Ok(p) => decoded_packet_ok(h, s, cap, p, s_end, cap_end),
            Err(e) => decoded_packet_fail(h, s, cap, e),
        }
    }
}

/// Decodes a whole packet: header first, then the body, with a capacity
/// check in between. A caller that already holds the header from an earlier
/// undersized attempt passes it back in so the header bytes are not read
/// again.
pub fn full_decode(
    reader: &mut Reader,
    buffer: &mut OwnedImpl,
    previous_decoded_header: Option<Header>,
) -> (r: Result<Packet, Error>)
    requires
        old(reader).wf(),
        old(buffer).wf(),
        old(buffer).filled == 0,
    ensures
        final(reader).wf(),
        final(reader).data == old(reader).data,
        final(buffer).wf(),
        final(buffer).filled == 0,
        match previous_decoded_header {
            Some(h) => full_decode_from(
                h,
                old(reader).rem(),
                old(buffer).cap(),
                r,
                final(reader).rem(),
                final(buffer).cap(),
            ),
            None => match header::parse_header(old(reader).rem()) {
                Some((h, s1)) => full_decode_from(
                    h,
                    s1,
                    old(buffer).cap(),
                    r,
                    final(reader).rem(),
                    final(buffer).cap(),
                ),
                None => {
                    &&& *final(buffer) == *old(buffer)
                    &&& r == Err::<Packet, Error>(
                        match wire::parse_u8(old(reader).rem()) {
                            Some((kb, _)) => if kind::byte_kind(kb) is None {
                                Error::InvalidHeaderKind(kb)
                            } else {
                                Error::Decode
                            },
                            None => Error::Decode,
                        },
                    )
                },
            },
        },
{
    let header = match previous_decoded_header {
        Some(header) => header,
        None => Header::decode(reader)?,
    };
    let capacity = buffer.unfilled_capacity();
    if header.len > capacity {
        return Err(Error::BufferTooSmallForPacketDecode {
            header,
            size: header.len,
            capacity,
        });
    }
    partial_decode(header, reader, buffer)
}

impl Packet {
    /// The header embedded in the active variant.
    pub fn header(&self) -> (r: Header)
        ensures
            r == packet_header(*self),
    {
        match self {
            Packet::Enqueue(packet) => packet.header,
            Packet::EnqueueAck(packet) => packet.header,
            Packet::Dequeue(packet) => packet.header,
            Packet::DequeueAck(packet) => packet.header,
            Packet::Peek(packet) => packet.header,
            Packet::PeekAck(packet) => packet.header,
            Packet::Len(packet) => packet.header,
            Packet::LenAck(packet) => packet.header,
            Packet::CreateQueue(packet) => packet.header,
            Packet::CreateQueueAck(packet) => packet.header,
            Packet::DeleteQueue(packet) => packet.header,
            Packet::DeleteQueueAck(packet) => packet.header,
            Packet::Put(packet) => packet.header,
            Packet::PutAck(packet) => packet.header,
            Packet::Get(packet) => packet.header,
            Packet::GetAck(packet) => packet.header,
            Packet::Delete(packet) => packet.header,
            Packet::DeleteAck(packet) => packet.header,
            Packet::Report(packet) => packet.header,
            Packet::ReportAck(packet) => packet.header,
            Packet::Join(packet) => packet.header,
            Packet::JoinAck(packet) => packet.header,
            Packet::Transfer(packet) => packet.header,
            Packet::TransferAck(packet) => packet.header,
            Packet::Ping(packet) => packet.header,
            Packet::PingAck(packet) => packet.header,
        }
    }

    /// Turns a request into its failure ack, keeping the request's version
    /// and uuid; an ack has no ack, so it gives `None`.
    pub fn nack(self, response_code: u8, reason: Option<ByteStr>) -> (r: Option<Packet>)
        requires
            (reason matches Some(b) ==> b@.len() + 18 <= usize::MAX),
        ensures
            match self {
            Packet::Enqueue(m) => r matches Some(p2) && p2 matches Packet::EnqueueAck(a) && {
                &&& a.header.kind == Kind::EnqueueAck
                &&& a.header.version == m.header.version
                &&& a.header.uuid == m.header.uuid
                &&& a.response.code == response_code
                &&& a.response.reason == reason
            },
            Packet::EnqueueAck(_) => r is None,
            Packet::Dequeue(m) => r matches Some(p2) && p2 matches Packet::DequeueAck(a) && {
                &&& a.header.kind == Kind::DequeAck
                &&& a.header.version == m.header.version
                &&& a.header.uuid == m.header.uuid
                &&& a.response.code == response_code
                &&& a.response.reason == reason
                &&& a.value is None
            },
            Packet::DequeueAck(_) => r is None,
            Packet::Peek(m) => r matches Some(p2) && p2 matches Packet::PeekAck(a) && {
                &&& a.header.kind == Kind::PeekAck
                &&& a.header.version == m.header.version
                &&& a.header.uuid == m.header.uuid
                &&& a.response.code == response_code
                &&& a.response.reason == reason
                &&& a.value is None
            },
            Packet::PeekAck(_) => r is None,
            Packet::Len(m) => r matches Some(p2) && p2 matches Packet::LenAck(a) && {
                &&& a.header.kind == Kind::LenAck
                &&& a.header.version == m.header.version
                &&& a.header.uuid == m.header.uuid
                &&& a.response.code == response_code
                &&& a.response.reason == reason
                &&& a.len == 0
            },
            Packet::LenAck(_) => r is None,
            Packet::CreateQueue(m) => r matches Some(p2) && p2 matches Packet::CreateQueueAck(a) && {
                &&& a.header.kind == Kind::CreateQueueAck
                &&& a.header.version == m.header.version
                &&& a.header.uuid == m.header.uuid
                &&& a.response.code == response_code
                &&& a.response.reason == reason
            },
            Packet::CreateQueueAck(_) => r is None,
            Packet::DeleteQueue(m) => r matches Some(p2) && p2 matches Packet::DeleteQueueAck(a) && {
                &&& a.header.kind == Kind::DeleteQueueAck
                &&& a.header.version == m.header.version
                &&& a.header.uuid == m.header.uuid
                &&& a.response.code == response_code
                &&& a.response.reason == reason
            },
            Packet::DeleteQueueAck(_) => r is None,
            Packet::Put(m) => r matches Some(p2) && p2 matches Packet::PutAck(a) && {
                &&& a.header.kind == Kind::PutAck
                &&& a.header.version == m.header.version
                &&& a.header.uuid == m.header.uuid
                &&& a.response.code == response_code
                &&& a.response.reason == reason
            },
            Packet::PutAck(_) => r is None,
            Packet::Get(m) => r matches Some(p2) && p2 matches Packet::GetAck(a) && {
                &&& a.header.kind == Kind::GetAck
                &&& a.header.version == m.header.version
                &&& a.header.uuid == m.header.uuid
                &&& a.response.code == response_code
                &&& a.response.reason == reason
                &&& a.value is None
            },
            Packet::GetAck(_) => r is None,
            Packet::Delete(m) => r matches Some(p2) && p2 matches Packet::DeleteAck(a) && {
                &&& a.header.kind == Kind::DeleteAck
                &&& a.header.version == m.header.version
                &&& a.header.uuid == m.header.uuid
                &&& a.response.code == response_code
                &&& a.response.reason == reason
            },
            Packet::DeleteAck(_) => r is None,
            Packet::Report(m) => r matches Some(p2) && p2 matches Packet::ReportAck(a) && {
                &&& a.header.kind == Kind::ReportAck
                &&& a.header.version == m.header.version
                &&& a.header.uuid == m.header.uuid
                &&& a.response.code == response_code
                &&& a.response.reason == reason
            },
            Packet::ReportAck(_) => r is None,
            Packet::Join(m) => r matches Some(p2) && p2 matches Packet::JoinAck(a) && {
                &&& a.header.kind == Kind::JoinAck
                &&& a.header.version == m.header.version
                &&& a.header.uuid == m.header.uuid
                &&& a.response.code == response_code
                &&& a.response.reason == reason
            },
            Packet::JoinAck(_) => r is None,
            Packet::Transfer(m) => r matches Some(p2) && p2 matches Packet::TransferAck(a) && {
                &&& a.header.kind == Kind::TransferAck
                &&& a.header.version == m.header.version
                &&& a.header.uuid == m.header.uuid
                &&& a.response.code == response_code
                &&& a.response.reason == reason
            },
            Packet::TransferAck(_) => r is None,
            Packet::Ping(_) => r is None,
            Packet::PingAck(_) => r is None,
            },
    {
        match self {
            Packet::Enqueue(this) => Some(Packet::EnqueueAck(this.nack(response_code, reason))),
            Packet::EnqueueAck(_) => None,
            Packet::Dequeue(this) => Some(Packet::DequeueAck(this.nack(response_code, reason))),
            Packet::DequeueAck(_) => None,
            Packet::Peek(this) => Some(Packet::PeekAck(this.nack(response_code, reason))),
            Packet::PeekAck(_) => None,
            Packet::Len(this) => Some(Packet::LenAck(this.nack(response_code, reason))),
            Packet::LenAck(_) => None,
            Packet::CreateQueue(this) => Some(Packet::CreateQueueAck(this.nack(response_code, reason))),
            Packet::CreateQueueAck(_) => None,
            Packet::DeleteQueue(this) => Some(Packet::DeleteQueueAck(this.nack(response_code, reason))),
            Packet::DeleteQueueAck(_) => None,
            Packet::Put(this) => Some(Packet::PutAck(this.nack(response_code, reason))),
            Packet::PutAck(_) => None,
            Packet::Get(this) => Some(Packet::GetAck(this.nack(response_code, reason))),
            Packet::GetAck(_) => None,
            Packet::Delete(this) => Some(Packet::DeleteAck(this.nack(response_code, reason))),
            Packet::DeleteAck(_) => None,
            Packet::Report(this) => Some(Packet::ReportAck(this.nack(response_code, reason))),
            Packet::ReportAck(_) => None,
            Packet::Join(this) => Some(Packet::JoinAck(this.nack(response_code, reason))),
            Packet::JoinAck(_) => None,
            Packet::Transfer(this) => Some(Packet::TransferAck(this.nack(response_code, reason))),
            Packet::TransferAck(_) => None,
            Packet::Ping(_) => None,
            Packet::PingAck(_) => None,
        }
    }

    /// Writes the active variant's whole frame.
    pub fn encode(&self, writer: &mut Vec<u8>) -> (r: Result<(), Error>)
        ensures
            r is Ok,
            final(writer)@ == old(writer)@ + wire_packet(*self),
    {
        match self {
            Packet::Enqueue(packet) => packet.encode(writer),
            Packet::EnqueueAck(packet) => packet.encode(writer),
            Packet::Dequeue(packet) => packet.encode(writer),
            Packet::DequeueAck(packet) => packet.encode(writer),
            Packet::Peek(packet) => packet.encode(writer),
            Packet::PeekAck(packet) => packet.encode(writer),
            Packet::Len(packet) => packet.encode(writer),
            Packet::LenAck(packet) => packet.encode(writer),
            Packet::CreateQueue(packet) => packet.encode(writer),
            Packet::CreateQueueAck(packet) => packet.encode(writer),
            Packet::DeleteQueue(packet) => packet.encode(writer),
            Packet::DeleteQueueAck(packet) => packet.encode(writer),
            Packet::Put(packet) => packet.encode(writer),
            Packet::PutAck(packet) => packet.encode(writer),
            Packet::Get(packet) => packet.encode(writer),
            Packet::GetAck(packet) => packet.encode(writer),
            Packet::Delete(packet) => packet.encode(writer),
            Packet::DeleteAck(packet) => packet.encode(writer),
            Packet::Report(packet) => packet.encode(writer),
            Packet::ReportAck(packet) => packet.encode(writer),
            Packet::Join(packet) => packet.encode(writer),
            Packet::JoinAck(packet) => packet.encode(writer),
            Packet::Transfer(packet) => packet.encode(writer),
            Packet::TransferAck(packet) => packet.encode(writer),
            Packet::Ping(packet) => packet.encode(writer),
            Packet::PingAck(packet) => packet.encode(writer),
        }
    }
}

/// Two-phase retry: an attempt refused for want of buffer room reports the
/// exact header it read with the sizes in play, stands on the body's first
/// byte, and spends no buffer room; and the frame's header always parses
/// back to itself, so a second call that passes the header in is held to
/// the same outcome as a fresh decode of the same frame with the larger
/// buffer.
pub proof fn lemma_two_phase_retry(
    h: Header,
    body: Seq<u8>,
    small: int,
    r: Result<Packet, Error>,
    s_end: Seq<u8>,
    cap_end: int,
)
    requires
        h.len > small,
        full_decode_from(h, body, small, r, s_end, cap_end),
    ensures
        r == Err::<Packet, Error>(
            Error::BufferTooSmallForPacketDecode {
                header: h,
                size: h.len,
                capacity: small as usize,
            },
        ),
        s_end == body,
        cap_end == small,
        header::parse_header(header::wire_header(h) + body) == Some((h, body)),
{
    header::lemma_parse_header(h, body);
}

/// Header length fidelity: when a packet's header carries the exact length
/// of its body bytes, as every constructor of this crate arranges, the whole
/// frame is 26 bytes longer than the header says.
pub proof fn lemma_frame_len(p: Packet)
    requires
        packet_header(p).len == wire_packet_body(p).len(),
    ensures
        wire_packet(p).len() == 26 + packet_header(p).len,
{
    header::lemma_wire_header_len(packet_header(p));
}

/// Universal round trip: for every well-formed packet, the frame `encode`
/// writes reads back as that same packet. The header parses off the front of
/// the frame, and the body read that `partial_decode` performs for the
/// header's kind gives back exactly the packet's own fields, consuming the
/// body and nothing more, against any buffer with room for the payloads.
#[verifier::rlimit(100)]
#[verifier::spinoff_prover]
pub proof fn lemma_packet_round_trip(p: Packet, rest: Seq<u8>, cap: int)
    requires
        packet_wf(p),
        packet_need(p) <= cap,
        cap <= usize::MAX,
        packet_chain_ok(p),
    ensures
        header::parse_header(wire_packet(p) + rest) == Some(
            (packet_header(p), wire_packet_body(p) + rest),
        ),
        decoded_packet_ok(
            packet_header(p),
            wire_packet_body(p) + rest,
            cap,
            p,
            rest,
            cap - packet_need(p),
        ),
{
    let h = packet_header(p);
    assert(wire_packet(p) + rest =~= header::wire_header(h) + (wire_packet_body(p) + rest));
    header::lemma_parse_header(h, wire_packet_body(p) + rest);
    match p {
        Packet::Enqueue(m) => {
            deque_codec::lemma_step_enqueue_body(m.path@, m.value@, rest, cap);
        },
        Packet::EnqueueAck(m) => {
            deque_codec::lemma_step_enqueue_ack_body(m.response@, rest, cap);
        },
        Packet::Dequeue(m) => {
            deque_codec::lemma_step_dequeue_body(m.path@, rest, cap);
        },
        Packet::DequeueAck(m) => {
            deque_codec::lemma_step_dequeue_ack_body(m.response@, opt_data_view(m.value), rest, cap);
        },
        Packet::Peek(m) => {
            deque_codec::lemma_step_peek_body(m.path@, m.sequence, rest, cap);
        },
        Packet::PeekAck(m) => {
            deque_codec::lemma_step_peek_ack_body(m.response@, opt_data_view(m.value), rest, cap);
        },
        Packet::Len(m) => {
            deque_codec::lemma_step_len_body(m.path@, rest, cap);
        },
        Packet::LenAck(m) => {
            deque_codec::lemma_step_len_ack_body(m.response@, m.len, rest, cap);
        },
        Packet::CreateQueue(m) => {
            deque_codec::lemma_step_create_body(m.path@, m.node_size, m.max_disk_usage, rest, cap);
        },
        Packet::CreateQueueAck(m) => {
            deque_codec::lemma_step_create_ack_body(m.response@, rest, cap);
        },
        Packet::DeleteQueue(m) => {
            deque_codec::lemma_step_delete_body(m.path@, rest, cap);
        },
        Packet::DeleteQueueAck(m) => {
            deque_codec::lemma_step_delete_ack_body(m.response@, rest, cap);
        },
        Packet::Put(m) => {
            kv_store_codec::lemma_step_put_body(m.key@, m.value@, rest, cap);
        },
        Packet::PutAck(m) => {
            kv_store_codec::lemma_step_put_ack_body(m.response@, rest, cap);
        },
        Packet::Get(m) => {
            kv_store_codec::lemma_step_get_body(m.key@, rest, cap);
        },
        Packet::GetAck(m) => {
            kv_store_codec::lemma_step_get_ack_body(m.response@, opt_data_view(m.value), rest, cap);
        },
        Packet::Delete(m) => {
            kv_store_codec::lemma_step_delete_body(m.key@, rest, cap);
        },
        Packet::DeleteAck(m) => {
            kv_store_codec::lemma_step_delete_ack_body(m.response@, rest, cap);
        },
        Packet::Report(m) => {
            system_codec::lemma_step_report_body(m.position@, rest, cap);
        },
        Packet::ReportAck(m) => {
            system_codec::lemma_step_report_ack_body(m.response@, rest, cap);
        },
        Packet::Join(m) => {
            system_codec::lemma_step_join_body(m.role@, m.instance, m.successor_lost, rest, cap);
        },
        Packet::JoinAck(m) => {
            system_codec::lemma_step_join_ack_body(m.response@, rest, cap);
        },
        Packet::Transfer(m) => {
            system_codec::lemma_step_transfer_body(m.path@, m.offset, m.content@, rest, cap);
        },
        Packet::TransferAck(m) => {
            system_codec::lemma_step_transfer_ack_body(m.response@, rest, cap);
        },
        Packet::Ping(m) => {},
        Packet::PingAck(m) => {},
    }
}


} // verus!
