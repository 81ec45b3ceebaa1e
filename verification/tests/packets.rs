use necronomicon::deque_codec::{
    Create, CreateAck, Delete as DeleteQueue, DeleteAck as DeleteQueueAck, Dequeue, DequeueAck,
    Enqueue, EnqueueAck, Len, LenAck, Peek, PeekAck,
};
use necronomicon::kv_store_codec::{test_key, Delete, DeleteAck, Get, GetAck, Put, PutAck};
use necronomicon::system_codec::{
    Join, JoinAck, Ping, Position, Report, ReportAck, Role, Transfer, TransferAck,
};
use necronomicon::{
    binary_data, byte_str, full_decode, Ack, Error, Kind, Packet, PoolImpl, Reader, Response,
    KEY_DOES_NOT_EXIST, SUCCESS,
};

fn verify_encode_decode(val: Packet) {
    let mut bytes = vec![];
    val.encode(&mut bytes).unwrap();
    let mut reader = Reader::new(bytes);

    let pool = PoolImpl::new(1024, 1);
    let mut buffer = pool.acquire("full decode").unwrap();

    let decoded = full_decode(&mut reader, &mut buffer, None).unwrap();
    assert_eq!(val, decoded);
}

fn test_packets() -> Vec<Packet> {
    vec![
        Packet::Enqueue(Enqueue::new(123, 456, byte_str(b"hello"), binary_data(&[1, 2, 3]))),
        Packet::EnqueueAck(EnqueueAck::new(Response::success())),
        Packet::Dequeue(Dequeue::new(123, 456, byte_str(b"test"))),
        Packet::DequeueAck(DequeueAck::new(Response::success(), None)),
        Packet::Peek(Peek::new(1, 1, byte_str(b"test"), 0)),
        Packet::PeekAck(PeekAck::new(Response::success(), None)),
        Packet::Len(Len::new(1, 1, byte_str(b"test"))),
        Packet::LenAck(LenAck::new(Response::success(), 1)),
        Packet::CreateQueue(Create::new(1, 1, byte_str(b"test"), 123, 1024)),
        Packet::CreateQueueAck(CreateAck::new(Response::success())),
        Packet::DeleteQueue(DeleteQueue::new(1, 1, byte_str(b"test"))),
        Packet::DeleteQueueAck(DeleteQueueAck::new(Response::success())),
        Packet::Put(Put::new(1, 1, test_key(), binary_data(&[1, 2, 3]))),
        Packet::PutAck(PutAck::new(Response::success())),
        Packet::Get(Get::new(123, 456, test_key())),
        Packet::GetAck(GetAck::new(Response::success(), Some(binary_data(&[1, 2, 3])))),
        Packet::Delete(Delete::new(123, 456, test_key())),
        Packet::DeleteAck(DeleteAck::new(Response::success())),
        Packet::Report(Report::new(123, 456, Position::Middle { next: byte_str(b"next") })),
        Packet::ReportAck(ReportAck::new(Response::success())),
        Packet::Join(Join::new(123, 456, Role::Backend(byte_str(b"backend")), 1, false)),
        Packet::JoinAck(JoinAck::new(Response::success(), 1)),
        Packet::Transfer(Transfer::new(
            123,
            456,
            byte_str(b"/tmp/kitties"),
            42,
            binary_data(&[1, 2, 3]),
        )),
        Packet::TransferAck(TransferAck::new(Response::success())),
    ]
}

#[test]
fn test_full_decode_packets() {
    let packets = test_packets();

    for packet in packets {
        verify_encode_decode(packet);
    }
}

#[test]
fn enqueue_round_trip_frame() {
    let enqueue = Enqueue::new(123, 456, byte_str(b"hello"), binary_data(&[1, 2, 3]));
    assert_eq!(enqueue.header().kind, Kind::Enqueue);
    assert_eq!(enqueue.header().version, 123.into());
    assert_eq!(enqueue.header().uuid, 456.into());
    assert_eq!(enqueue.header().len, 24);

    let mut bytes = vec![];
    Packet::Enqueue(enqueue.clone()).encode(&mut bytes).unwrap();
    assert_eq!(bytes.len(), 50);
    assert_eq!(bytes[0], 0x00);
    assert_eq!(bytes[1], 123);

    let pool = PoolImpl::new(1024, 1);
    let mut buffer = pool.acquire("frame").unwrap();
    let mut reader = Reader::new(bytes);
    let decoded = full_decode(&mut reader, &mut buffer, None).unwrap();
    assert_eq!(decoded, Packet::Enqueue(enqueue));
}

#[test]
fn get_nack_with_empty_value() {
    let get = Get::new(123, 456, test_key());
    let ack = get.nack(KEY_DOES_NOT_EXIST, None);

    assert_eq!(ack.response().code(), KEY_DOES_NOT_EXIST);
    assert!(ack.response().reason().is_none());
    assert!(ack.value().is_none());
    assert_eq!(Ack::header(&ack).len, 3);

    let mut bytes = vec![];
    Packet::GetAck(ack.clone()).encode(&mut bytes).unwrap();
    assert_eq!(bytes.len(), 29);
    assert_eq!(&bytes[26..], &[KEY_DOES_NOT_EXIST, 0, 0]);
}

#[test]
fn buffer_too_small_retry() {
    let value = vec![7u8; 900];
    let put = Put::new(1, 1, test_key(), binary_data(&value));
    let packet = Packet::Put(put);

    let mut bytes = vec![];
    packet.encode(&mut bytes).unwrap();
    let mut reader = Reader::new(bytes);

    let small = PoolImpl::new(64, 1);
    let mut buffer = small.acquire("small").unwrap();
    let err = full_decode(&mut reader, &mut buffer, None).unwrap_err();
    let header = match err {
        Error::BufferTooSmallForPacketDecode { header, size, capacity } => {
            assert!(size >= 915);
            assert_eq!(capacity, 64);
            header
        }
        other => panic!("unexpected error: {:?}", other),
    };

    let large = PoolImpl::new(4096, 1);
    let mut buffer = large.acquire("large").unwrap();
    let decoded = full_decode(&mut reader, &mut buffer, Some(header)).unwrap();
    assert_eq!(decoded, packet);
}

#[test]
fn pool_conserved_after_short_read() {
    let put = Put::new(1, 1, test_key(), binary_data(&[1, 2, 3]));
    let packet = Packet::Put(put);

    let mut bytes = vec![];
    packet.encode(&mut bytes).unwrap();
    bytes.truncate(bytes.len() - 2);
    let mut reader = Reader::new(bytes);

    let pool = PoolImpl::new(1024, 1);
    let mut buffer = pool.acquire("short").unwrap();
    let err = full_decode(&mut reader, &mut buffer, None).unwrap_err();
    assert!(matches!(err, Error::BinaryDataSizeMismatch { expected: 3, read: 1 }));

    drop(buffer);
    let buffer = pool.acquire("again").unwrap();
    assert_eq!(buffer.unfilled_capacity(), 1024);
}

#[test]
fn observer_chain_round_trip() {
    let position = Position::Observer {
        chain: vec![
            Role::Backend(byte_str(b"b")),
            Role::Frontend(byte_str(b"f")),
            Role::Observer,
        ],
    };

    let mut bytes = Vec::new();
    position.encode(&mut bytes).unwrap();

    let pool = PoolImpl::new(1024, 1);
    let mut buffer = pool.acquire("chain").unwrap();
    let mut reader = Reader::new(bytes.clone());
    let decoded = Position::decode_owned(&mut reader, &mut buffer).unwrap();
    assert_eq!(decoded, position);

    bytes[0] = 0;
    let pool = PoolImpl::new(1024, 1);
    let mut buffer = pool.acquire("chain").unwrap();
    let mut reader = Reader::new(bytes);
    assert!(matches!(
        Position::decode_owned(&mut reader, &mut buffer),
        Err(Error::SystemBadPosition(0))
    ));
}

#[test]
fn join_successor_lost_flag() {
    let join = Join::new(123, 456, Role::Backend(byte_str(b"backend")), 1, false);
    let packet = Packet::Join(join);

    let mut bytes = vec![];
    packet.encode(&mut bytes).unwrap();

    let pool = PoolImpl::new(1024, 1);
    let mut buffer = pool.acquire("join").unwrap();
    let mut reader = Reader::new(bytes.clone());
    let decoded = full_decode(&mut reader, &mut buffer, None).unwrap();
    assert_eq!(decoded, packet);

    let last = bytes.len() - 1;
    assert_eq!(bytes[last], 0);
    bytes[last] = 1;
    let pool = PoolImpl::new(1024, 1);
    let mut buffer = pool.acquire("join").unwrap();
    let mut reader = Reader::new(bytes);
    let decoded = full_decode(&mut reader, &mut buffer, None).unwrap();
    match decoded {
        Packet::Join(join) => {
            assert!(join.successor_lost());
            assert_eq!(join.role(), &Role::Backend(byte_str(b"backend")));
            assert_eq!(join.store_version(), 1);
        }
        other => panic!("unexpected packet: {:?}", other),
    }
}

#[test]
fn invalid_kind_byte_is_rejected() {
    let mut bytes = vec![];
    Packet::Ping(Ping::new(1, 2)).encode(&mut bytes).unwrap();
    bytes[0] = 0x20;

    let pool = PoolImpl::new(1024, 1);
    let mut buffer = pool.acquire("bad kind").unwrap();
    let mut reader = Reader::new(bytes);
    assert!(matches!(
        full_decode(&mut reader, &mut buffer, None),
        Err(Error::InvalidHeaderKind(0x20))
    ));
}

#[test]
fn short_header_is_rejected() {
    let pool = PoolImpl::new(1024, 1);
    let mut buffer = pool.acquire("short header").unwrap();
    let mut reader = Reader::new(vec![0u8, 1, 2]);
    assert!(matches!(full_decode(&mut reader, &mut buffer, None), Err(Error::Decode)));
}

#[test]
fn oversized_payload_is_rejected() {
    // A header that promises a small body, whose first field then asks for
    // more bytes than the buffer holds.
    let mut bytes = vec![];
    let get = Get::new(1, 1, test_key());
    Packet::Get(get).encode(&mut bytes).unwrap();
    // Overwrite the key's length prefix (bytes 26..34) with 50.
    for b in &mut bytes[26..34] {
        *b = 0;
    }
    bytes[33] = 50;

    let pool = PoolImpl::new(16, 1);
    let mut buffer = pool.acquire("oversized").unwrap();
    let mut reader = Reader::new(bytes);
    // The header's len (7 byte key plus prefix) fits 16, so the capacity
    // check passes and the payload read trips the buffer limit instead.
    let err = full_decode(&mut reader, &mut buffer, None).unwrap_err();
    assert!(matches!(err, Error::OwnedRemaining { acquire: 50, capacity: 16 }));
}

#[test]
fn nack_preserves_version_and_uuid() {
    let put = Put::new(9, 77, test_key(), binary_data(&[1]));
    let packet = Packet::Put(put);
    let nacked = packet.nack(KEY_DOES_NOT_EXIST, Some(byte_str(b"missing"))).unwrap();
    match nacked {
        Packet::PutAck(ack) => {
            assert_eq!(Ack::header(&ack).version, 9.into());
            assert_eq!(Ack::header(&ack).uuid, 77.into());
            assert_eq!(ack.response().code(), KEY_DOES_NOT_EXIST);
            assert_eq!(
                ack.response().reason().as_ref().map(|r| r.as_slice().to_vec()),
                Some(b"missing".to_vec())
            );
        }
        other => panic!("unexpected packet: {:?}", other),
    }

    let ack_packet = Packet::PutAck(PutAck::new(Response::success()));
    assert!(ack_packet.nack(SUCCESS, None).is_none());
}

#[test]
fn header_len_matches_encoded_body() {
    for packet in test_packets() {
        let mut bytes = vec![];
        packet.clone().encode(&mut bytes).unwrap();
        assert_eq!(packet.header().len, bytes.len() - 26);
    }
}
