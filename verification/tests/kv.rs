use necronomicon::kv_store_codec::{
    is_kv_store_message, test_key, Delete, DeleteAck, Get, GetAck, Put, PutAck, END, START,
};
use necronomicon::{
    binary_data, full_decode, Ack, Kind, Packet, PoolImpl, Reader, Response, INTERNAL_ERROR,
    SUCCESS,
};

fn verify_encode_decode(val: Packet) {
    let mut bytes = vec![];
    val.encode(&mut bytes).unwrap();
    let mut reader = Reader::new(bytes);

    let pool = PoolImpl::new(1024, 1);
    let mut buffer = pool.acquire("full decode").unwrap();

    let decoded = full_decode(&mut reader, &mut buffer, None).unwrap();
    assert_eq!(val, decoded);
}

#[test]
fn test_is_kv_store_message() {
    assert!(!is_kv_store_message(START - 1));
    assert!(is_kv_store_message(START));
    assert!(is_kv_store_message(END));
    assert!(!is_kv_store_message(END + 1));
}

#[test]
fn delete_test_new() {
    let delete = Delete::new(0, 1, test_key());

    assert_eq!(delete.header().kind, Kind::Delete);
    assert_eq!(delete.header().version, 0.into());
    assert_eq!(delete.header().uuid, 1.into());
    assert_eq!(delete.key(), &test_key());
}

#[test]
fn delete_acks() {
    let delete = Delete::new(0, 1, test_key());

    let ack = delete.clone().ack();
    assert_eq!(ack.response().code(), SUCCESS);

    let nack = delete.nack(INTERNAL_ERROR, None);
    assert_eq!(nack.response().code(), INTERNAL_ERROR);
}

#[test]
fn delete_encode_decode() {
    verify_encode_decode(Packet::Delete(Delete::new(0, 1, test_key())));
}

#[test]
fn delete_ack_encode_decode() {
    verify_encode_decode(Packet::DeleteAck(DeleteAck::new(Response::success())));
}

#[test]
fn get_test_new() {
    let get = Get::new(1, 1, test_key());

    assert_eq!(get.header().kind, Kind::Get);
    assert_eq!(get.header().version, 1.into());
    assert_eq!(get.header().uuid, 1.into());
    assert_eq!(get.key(), &test_key());
}

#[test]
fn get_acks() {
    let get = Get::new(1, 1, test_key());

    let ack = get.clone().ack(binary_data(&[1, 2, 3]));
    assert_eq!(ack.response().code(), SUCCESS);

    let nack = get.nack(INTERNAL_ERROR, None);
    assert_eq!(nack.response().code(), INTERNAL_ERROR);
}

#[test]
fn get_encode_decode() {
    verify_encode_decode(Packet::Get(Get::new(1, 1, test_key())));
}

#[test]
fn get_ack_encode_decode() {
    verify_encode_decode(Packet::GetAck(GetAck::new(
        Response::success(),
        Some(binary_data(&[1, 2, 3])),
    )));
}

#[test]
fn put_test_ack() {
    let put = Put::new(0, 0, test_key(), binary_data(&[1, 2, 3]));

    let ack = put.clone().ack();
    assert_eq!(ack.response().code(), SUCCESS);

    let nack = put.nack(INTERNAL_ERROR, None);
    assert_eq!(nack.response().code(), INTERNAL_ERROR);
}

#[test]
fn put_encode_decode() {
    verify_encode_decode(Packet::Put(Put::new(1, 1, test_key(), binary_data(&[1, 2, 3]))));
}

#[test]
fn put_ack_encode_decode() {
    verify_encode_decode(Packet::PutAck(PutAck::new(Response::success())));
}
