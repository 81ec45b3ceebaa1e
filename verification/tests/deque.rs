use necronomicon::deque_codec::{
    Create, CreateAck, Delete, DeleteAck, Dequeue, DequeueAck, Enqueue, EnqueueAck, Len, LenAck,
    Peek, PeekAck, END, START,
};
use necronomicon::{
    binary_data, byte_str, full_decode, Ack, BinaryData, ByteStr, Kind, Packet, PoolImpl, Reader,
    Response, INTERNAL_ERROR, QUEUE_ALREADY_EXISTS, SUCCESS,
};

fn verify_encode_decode(val: Packet) {
    let mut bytes = vec![];
    val.encode(&mut bytes).unwrap();
    let mut reader = Reader::new(bytes);

    let pool = PoolImpl::new(1024, 1);
    let mut buffer = pool.acquire("full decode").unwrap();

    let decoded = full_decode(&mut reader, &mut buffer, None).unwrap();
    assert_eq!(val, decoded);
}

#[test]
fn is_dequeue_message() {
    assert!(necronomicon::deque_codec::is_dequeue_message(START));
    assert!(necronomicon::deque_codec::is_dequeue_message(END));
    assert!(!necronomicon::deque_codec::is_dequeue_message(END + 1));
}

#[test]
fn enqueue_acks() {
    let enqueue = Enqueue::new(0, 0, byte_str(b"test"), binary_data(&[1, 2, 3]));

    let ack = enqueue.clone().ack();
    assert_eq!(ack.response().code(), SUCCESS);

    let nack = enqueue.nack(INTERNAL_ERROR, None);
    assert_eq!(nack.response().code(), INTERNAL_ERROR);
}

#[test]
fn enqueue_encode_decode() {
    verify_encode_decode(Packet::Enqueue(Enqueue::new(
        1,
        1,
        byte_str(b"test"),
        binary_data(&[1, 2, 3]),
    )));
}

#[test]
fn enqueue_ack_test_encode_decode() {
    verify_encode_decode(Packet::EnqueueAck(EnqueueAck::new(Response::success())));
}

#[test]
fn dequeue_acks() {
    let deque = Dequeue::new(1, 2, byte_str(b"test"));

    let ack = deque.clone().ack(binary_data(&[1, 2, 3]));
    assert_eq!(ack.response().code(), SUCCESS);

    let nack = deque.nack(INTERNAL_ERROR, None);
    assert_eq!(nack.response().code(), INTERNAL_ERROR);
}

#[test]
fn dequeue_encode_decode() {
    verify_encode_decode(Packet::Dequeue(Dequeue::new(1, 2, byte_str(b"test"))));
}

#[test]
fn dequeue_ack_encode_decode() {
    verify_encode_decode(Packet::DequeueAck(DequeueAck::new(
        Response::success(),
        Some(binary_data(&[1, 2, 3])),
    )));
}

#[test]
fn dequeue_ack_test_encode_decode() {
    verify_encode_decode(Packet::DequeueAck(DequeueAck::new(Response::success(), None)));
}

#[test]
fn peek_acks() {
    let peek = Peek::new(1, 1, byte_str(b"test"), 0);

    let ack = peek.clone().ack(binary_data(&[1, 2, 3]));
    assert_eq!(ack.response().code(), SUCCESS);

    let nack = peek.nack(INTERNAL_ERROR, None);
    assert_eq!(nack.response().code(), INTERNAL_ERROR);
}

#[test]
fn peek_encode_decode() {
    verify_encode_decode(Packet::Peek(Peek::new(1, 1, byte_str(b"test"), 0)));
}

#[test]
fn peek_ack_encode_decode() {
    verify_encode_decode(Packet::PeekAck(PeekAck::new(
        Response::success(),
        Some(binary_data(&[1, 2, 3])),
    )));
}

#[test]
fn peek_ack_test_encode_decode() {
    verify_encode_decode(Packet::PeekAck(PeekAck::new(Response::success(), None)));
}

#[test]
fn len_test_new() {
    let len = Len::new(0, 1, byte_str(b"test"));

    assert_eq!(len.header().kind, Kind::Len);
    assert_eq!(len.header().version, 0.into());
    assert_eq!(len.header().uuid, 1.into());
    assert_eq!(len.path(), &byte_str(b"test"));
}

#[test]
fn len_acks() {
    let len = Len::new(0, 1, byte_str(b"test"));

    let ack = len.clone().ack(1);
    assert_eq!(ack.response().code(), SUCCESS);

    let nack = len.nack(INTERNAL_ERROR, None);
    assert_eq!(nack.response().code(), INTERNAL_ERROR);
}

#[test]
fn len_encode_decode() {
    verify_encode_decode(Packet::Len(Len::new(0, 1, byte_str(b"test"))));
}

#[test]
fn len_ack_encode_decode() {
    verify_encode_decode(Packet::LenAck(LenAck::new(Response::success(), 123)));
}

#[test]
fn len_ack_test_encode_decode() {
    verify_encode_decode(Packet::LenAck(LenAck::new(Response::success(), 123)));
}

#[test]
fn len_ack_test_ack() {
    let ack = LenAck::new(Response::success(), 123);
    assert_eq!(Ack::header(&ack).kind, Kind::LenAck);
    assert_eq!(ack.response().code(), SUCCESS);
}

#[test]
fn create_test_new() {
    let create = Create::new(0, 1, byte_str(b"test"), 1024, 1024 * 1024);

    assert_eq!(create.header().version, 0.into());
    assert_eq!(create.header().uuid, 1.into());
    assert_eq!(create.path().as_slice(), b"test");
    assert_eq!(create.node_size(), 1024);
}

#[test]
fn create_test_acks() {
    let create = Create::new(0, 1, byte_str(b"test"), 1024, 1024 * 1024);

    let ack = create.clone().ack();
    assert_eq!(ack.response().code(), SUCCESS);

    let nack = create.nack(INTERNAL_ERROR, None);
    assert_eq!(nack.response().code(), INTERNAL_ERROR);
}

#[test]
fn create_test_encode_decode() {
    verify_encode_decode(Packet::CreateQueue(Create::new(
        0,
        1,
        byte_str(b"test"),
        1024,
        1024 * 1024,
    )));
}

#[test]
fn create_ack_encode_decode() {
    let pool = PoolImpl::new(1024, 1024);
    let mut buffer = pool.acquire("test").unwrap();
    let value = ByteStr::new(BinaryData::from_owned(b"kittens", &mut buffer).expect("data"));
    verify_encode_decode(Packet::CreateQueueAck(CreateAck::new(Response::fail(
        QUEUE_ALREADY_EXISTS,
        Some(value),
    ))));

    verify_encode_decode(Packet::CreateQueueAck(CreateAck::new(Response::success())));
}

#[test]
fn create_ack_test_encode_decode() {
    verify_encode_decode(Packet::CreateQueueAck(CreateAck::new(Response::success())));
}

#[test]
fn delete_test_ack() {
    let delete = Delete::new(0, 1, byte_str(b"test"));

    let ack = delete.clone().ack();
    assert_eq!(ack.response().code(), SUCCESS);

    let nack = delete.nack(INTERNAL_ERROR, None);
    assert_eq!(nack.response().code(), INTERNAL_ERROR);
}

#[test]
fn delete_queue_encode_decode() {
    verify_encode_decode(Packet::DeleteQueue(Delete::new(0, 1, byte_str(b"test"))));
}

#[test]
fn delete_ack_test_encode_decode() {
    verify_encode_decode(Packet::DeleteQueueAck(DeleteAck::new(Response::success())));
}

#[test]
fn delete_ack_test_ack() {
    let ack = DeleteAck::new(Response::success());
    assert_eq!(Ack::header(&ack).kind, Kind::DeleteQueueAck);
    assert_eq!(ack.response().code(), SUCCESS);
}
