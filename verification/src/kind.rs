use vstd::prelude::*;

use crate::error::Error;
use crate::wire::{parse_u8, Reader};

verus! {

/// The one-byte message discriminant, partitioned by family: deque messages
/// sit in `0x00..=0x0B`, key-value messages in `0x10..=0x15`, and system
/// messages in `0x70..=0x77`. Any other byte is a decode error.
#[derive(Clone, Copy, Debug, PartialEq, Eq, Structural, Hash)]
pub enum Kind {
    // deque messages
    Enqueue,
    EnqueueAck,
    Deque,
    DequeAck,
    Peek,
    PeekAck,
    Len,
    LenAck,
    CreateQueue,
    CreateQueueAck,
    DeleteQueue,
    DeleteQueueAck,
    // kv store messages
    Put,
    PutAck,
    Get,
    GetAck,
    Delete,
    DeleteAck,
    // internal system messages
    Report,
    ReportAck,
    Join,
    JoinAck,
    Transfer,
    TransferAck,
    Ping,
    PingAck,
}

/// The byte that stands for each kind on the wire.
pub open spec fn kind_byte(k: Kind) -> u8 {
    match k {
        Kind::Enqueue => crate::deque_codec::ENQUEUE,
        Kind::EnqueueAck => crate::deque_codec::ENQUEUE_ACK,
        Kind::Deque => crate::deque_codec::DEQUEUE,
        Kind::DequeAck => crate::deque_codec::DEQUEUE_ACK,
        Kind::Peek => crate::deque_codec::PEEK,
        Kind::PeekAck => crate::deque_codec::PEEK_ACK,
        Kind::Len => crate::deque_codec::LEN,
        Kind::LenAck => crate::deque_codec::LEN_ACK,
        Kind::CreateQueue => crate::deque_codec::CREATE,
        Kind::CreateQueueAck => crate::deque_codec::CREATE_ACK,
        Kind::DeleteQueue => crate::deque_codec::DELETE,
        Kind::DeleteQueueAck => crate::deque_codec::DELETE_ACK,
        Kind::Put => crate::kv_store_codec::PUT,
        Kind::PutAck => crate::kv_store_codec::PUT_ACK,
        Kind::Get => crate::kv_store_codec::GET,
        Kind::GetAck => crate::kv_store_codec::GET_ACK,
        Kind::Delete => crate::kv_store_codec::DELETE,
        Kind::DeleteAck => crate::kv_store_codec::DELETE_ACK,
        Kind::Report => crate::system_codec::REPORT,
        Kind::ReportAck => crate::system_codec::REPORT_ACK,
        Kind::Join => crate::system_codec::JOIN,
        Kind::JoinAck => crate::system_codec::JOIN_ACK,
        Kind::Transfer => crate::system_codec::TRANSFER,
        Kind::TransferAck => crate::system_codec::TRANSFER_ACK,
        Kind::Ping => crate::system_codec::PING,
        Kind::PingAck => crate::system_codec::PING_ACK,
    }
}

/// The kind a byte names, if any.
pub open spec fn byte_kind(value: u8) -> Option<Kind> {
    if value == crate::deque_codec::ENQUEUE {
        Some(Kind::Enqueue)
    } else if value == crate::deque_codec::ENQUEUE_ACK {
        Some(Kind::EnqueueAck)
    } else if value == crate::deque_codec::DEQUEUE {
        Some(Kind::Deque)
    } else if value == crate::deque_codec::DEQUEUE_ACK {
        Some(Kind::DequeAck)
    } else if value == crate::deque_codec::PEEK {
        Some(Kind::Peek)
    } else if value == crate::deque_codec::PEEK_ACK {
        Some(Kind::PeekAck)
    } else if value == crate::deque_codec::LEN {
        Some(Kind::Len)
    } else if value == crate::deque_codec::LEN_ACK {
        Some(Kind::LenAck)
    } else if value == crate::deque_codec::CREATE {
        Some(Kind::CreateQueue)
    } else if value == crate::deque_codec::CREATE_ACK {
        Some(Kind::CreateQueueAck)
    } else if value == crate::deque_codec::DELETE {
        Some(Kind::DeleteQueue)
    } else if value == crate::deque_codec::DELETE_ACK {
        Some(Kind::DeleteQueueAck)
    } else if value == crate::kv_store_codec::PUT {
        Some(Kind::Put)
    } else if value == crate::kv_store_codec::PUT_ACK {
        Some(Kind::PutAck)
    } else if value == crate::kv_store_codec::GET {
        Some(Kind::Get)
    } else if value == crate::kv_store_codec::GET_ACK {
        Some(Kind::GetAck)
    } else if value == crate::kv_store_codec::DELETE {
        Some(Kind::Delete)
    } else if value == crate::kv_store_codec::DELETE_ACK {
        Some(Kind::DeleteAck)
    } else if value == crate::system_codec::REPORT {
        Some(Kind::Report)
    } else if value == crate::system_codec::REPORT_ACK {
        Some(Kind::ReportAck)
    } else if value == crate::system_codec::JOIN {
        Some(Kind::Join)
    } else if value == crate::system_codec::JOIN_ACK {
        Some(Kind::JoinAck)
    } else if value == crate::system_codec::TRANSFER {
        Some(Kind::Transfer)
    } else if value == crate::system_codec::TRANSFER_ACK {
        Some(Kind::TransferAck)
    } else if value == crate::system_codec::PING {
        Some(Kind::Ping)
    } else if value == crate::system_codec::PING_ACK {
        Some(Kind::PingAck)
    } else {
        None
    }
}

pub proof fn lemma_kind_byte(k: Kind)
    ensures
        byte_kind(kind_byte(k)) == Some(k),
{
}

impl Kind {
    /// The kind a byte names, or `None` for a byte outside every family.
    pub fn from_u8(value: u8) -> (r: Option<Kind>)
        ensures
            r == byte_kind(value),
    {
        if value == crate::deque_codec::ENQUEUE {
            Some(Kind::Enqueue)
        } else if value == crate::deque_codec::ENQUEUE_ACK {
            Some(Kind::EnqueueAck)
        } else if value == crate::deque_codec::DEQUEUE {
            Some(Kind::Deque)
        } else if value == crate::deque_codec::DEQUEUE_ACK {
            Some(Kind::DequeAck)
        } else if value == crate::deque_codec::PEEK {
            Some(Kind::Peek)
        } else if value == crate::deque_codec::PEEK_ACK {
            Some(Kind::PeekAck)
        } else if value == crate::deque_codec::LEN {
            Some(Kind::Len)
        } else if value == crate::deque_codec::LEN_ACK {
            Some(Kind::LenAck)
        } else if value == crate::deque_codec::CREATE {
            Some(Kind::CreateQueue)
        } else if value == crate::deque_codec::CREATE_ACK {
            Some(Kind::CreateQueueAck)
        } else if value == crate::deque_codec::DELETE {
            Some(Kind::DeleteQueue)
        } else if value == crate::deque_codec::DELETE_ACK {
            Some(Kind::DeleteQueueAck)
        } else if value == crate::kv_store_codec::PUT {
            Some(Kind::Put)
        } else if value == crate::kv_store_codec::PUT_ACK {
            Some(Kind::PutAck)
        } else if value == crate::kv_store_codec::GET {
            Some(Kind::Get)
        } else if value == crate::kv_store_codec::GET_ACK {
            Some(Kind::GetAck)
        } else if value == crate::kv_store_codec::DELETE {
            Some(Kind::Delete)
        } else if value == crate::kv_store_codec::DELETE_ACK {
            Some(Kind::DeleteAck)
        } else if value == crate::system_codec::REPORT {
            Some(Kind::Report)
        } else if value == crate::system_codec::REPORT_ACK {
            Some(Kind::ReportAck)
        } else if value == crate::system_codec::JOIN {
            Some(Kind::Join)
        } else if value == crate::system_codec::JOIN_ACK {
            Some(Kind::JoinAck)
        } else if value == crate::system_codec::TRANSFER {
            Some(Kind::Transfer)
        } else if value == crate::system_codec::TRANSFER_ACK {
            Some(Kind::TransferAck)
        } else if value == crate::system_codec::PING {
            Some(Kind::Ping)
        } else if value == crate::system_codec::PING_ACK {
            Some(Kind::PingAck)
        } else {
            None
        }
    }

    /// The wire byte of this kind.
    pub fn to_u8(self) -> (r: u8)
        ensures
            r == kind_byte(self),
    {
        match self {
            Kind::Enqueue => crate::deque_codec::ENQUEUE,
            Kind::EnqueueAck => crate::deque_codec::ENQUEUE_ACK,
            Kind::Deque => crate::deque_codec::DEQUEUE,
            Kind::DequeAck => crate::deque_codec::DEQUEUE_ACK,
            Kind::Peek => crate::deque_codec::PEEK,
            Kind::PeekAck => crate::deque_codec::PEEK_ACK,
            Kind::Len => crate::deque_codec::LEN,
            Kind::LenAck => crate::deque_codec::LEN_ACK,
            Kind::CreateQueue => crate::deque_codec::CREATE,
            Kind::CreateQueueAck => crate::deque_codec::CREATE_ACK,
            Kind::DeleteQueue => crate::deque_codec::DELETE,
            Kind::DeleteQueueAck => crate::deque_codec::DELETE_ACK,
            Kind::Put => crate::kv_store_codec::PUT,
            Kind::PutAck => crate::kv_store_codec::PUT_ACK,
            Kind::Get => crate::kv_store_codec::GET,
            Kind::GetAck => crate::kv_store_codec::GET_ACK,
            Kind::Delete => crate::kv_store_codec::DELETE,
            Kind::DeleteAck => crate::kv_store_codec::DELETE_ACK,
            Kind::Report => crate::system_codec::REPORT,
            Kind::ReportAck => crate::system_codec::REPORT_ACK,
            Kind::Join => crate::system_codec::JOIN,
            Kind::JoinAck => crate::system_codec::JOIN_ACK,
            Kind::Transfer => crate::system_codec::TRANSFER,
            Kind::TransferAck => crate::system_codec::TRANSFER_ACK,
            Kind::Ping => crate::system_codec::PING,
            Kind::PingAck => crate::system_codec::PING_ACK,
        }
    }

    /// Reads one byte and rejects any value outside the three families.
    pub fn decode(reader: &mut Reader) -> (r: Result<Kind, Error>)
        requires
            old(reader).wf(),
        ensures
            final(reader).wf(),
            final(reader).data == old(reader).data,
            match r {
                Ok(k) => match parse_u8(old(reader).rem()) {
                    Some((b, rest)) => byte_kind(b) == Some(k) && final(reader).rem() == rest,
                    None => false,
                },
                Err(e) => match parse_u8(old(reader).rem()) {
                    Some((b, _)) => byte_kind(b) is None && e == Error::InvalidHeaderKind(b),
                    None => e == Error::Decode,
                },
            },
    {
        let b = reader.read_u8()?;
        match Kind::from_u8(b) {
            Some(k) => Ok(k),
            None => Err(Error::InvalidHeaderKind(b)),
        }
    }

    /// Writes the single wire byte.
    pub fn encode(&self, writer: &mut Vec<u8>) -> (r: Result<(), Error>)
        ensures
            r is Ok,
            final(writer)@ == old(writer)@ + seq![kind_byte(*self)],
    {
        crate::wire::emit_u8(writer, self.to_u8());
        Ok(())
    }
}

impl From<Kind> for u8 {
    fn from(value: Kind) -> (r: u8) {
        value.to_u8()
    }
}

impl vstd::std_specs::convert::FromSpecImpl<Kind> for u8 {
    open spec fn obeys_from_spec() -> bool {
        true
    }

    open spec fn from_spec(t: Kind) -> u8 {
        kind_byte(t)
    }
}

} // verus!
