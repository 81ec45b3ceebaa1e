use necronomicon::system_codec::{
    Join, JoinAck, Ping, PingAck, Position, Report, ReportAck, Role, Transfer, TransferAck, END,
    START,
};
use necronomicon::{
    binary_data, byte_str, full_decode, Ack, Error, Packet, PoolImpl, Reader, Response,
    INTERNAL_ERROR, SUCCESS,
};

fn verify_encode_decode(val: Packet) {
    let mut bytes = vec![];
    val.encode(&mut bytes).unwrap();
    let mut reader = Reader::new(bytes);

    let pool = PoolImpl::new(1024, 1);
    let mut buffer = pool.acquire("full decode").unwrap();

    let decoded = full_decode(&mut reader, &mut buffer, None).unwrap();
    assert_eq!(val, decoded);
}

#[test]
fn is_system_message() {
    assert!(!necronomicon::system_codec::is_system_message(0));
    assert!(necronomicon::system_codec::is_system_message(START));
    assert!(necronomicon::system_codec::is_system_message(END));
    assert!(!necronomicon::system_codec::is_system_message(END + 1));
}

#[test]
fn encode_decode_role() {
    for role in &[
        Role::Backend(byte_str(b"backend")),
        Role::Frontend(byte_str(b"frontend")),
        Role::Observer,
    ] {
        let mut bytes = Vec::new();
        role.encode(&mut bytes).unwrap();

        let pool = PoolImpl::new(1024, 1);
        let mut buffer = pool.acquire("decode role").unwrap();

        let mut reader = Reader::new(bytes);
        let decoded = Role::decode_owned(&mut reader, &mut buffer).unwrap();
        assert_eq!(*role, decoded);
    }

    let pool = PoolImpl::new(1024, 1);
    let mut buffer = pool.acquire("decode role").unwrap();

    let mut reader = Reader::new(vec![0u8]);
    assert!(matches!(
        Role::decode_owned(&mut reader, &mut buffer),
        Err(Error::SystemBadRole(0))
    ));
}

#[test]
fn encode_decode_position() {
    for position in &[
        Position::Head { next: byte_str(b"next") },
        Position::Middle { next: byte_str(b"next") },
        Position::Tail { candidate: Some(byte_str(b"candidate")) },
        Position::Candidate,
        Position::Frontend { head: Some(byte_str(b"head")), tail: Some(byte_str(b"tail")) },
        Position::Observer {
            chain: vec![
                Role::Backend(byte_str(b"backend")),
                Role::Frontend(byte_str(b"frontend")),
                Role::Observer,
            ],
        },
    ] {
        let mut bytes = Vec::new();
        position.encode(&mut bytes).unwrap();

        let pool = PoolImpl::new(1024, 1);
        let mut buffer = pool.acquire("decode position").unwrap();

        let mut reader = Reader::new(bytes);
        let decoded = Position::decode_owned(&mut reader, &mut buffer).unwrap();
        assert_eq!(*position, decoded);
    }

    let pool = PoolImpl::new(1024, 1);
    let mut buffer = pool.acquire("decode position").unwrap();

    let mut reader = Reader::new(vec![0u8]);
    assert!(matches!(
        Position::decode_owned(&mut reader, &mut buffer),
        Err(Error::SystemBadPosition(0))
    ));
}

#[test]
fn join_acks() {
    let join = Join::new(1, 2, Role::Backend(byte_str(b"localhost")), 1, false);

    let ack = join.clone().ack();
    assert_eq!(ack.response().code(), SUCCESS);

    let nack = join.nack(INTERNAL_ERROR, None);
    assert_eq!(nack.response().code(), INTERNAL_ERROR);
}

#[test]
fn join_encode_decode() {
    verify_encode_decode(Packet::Join(Join::new(
        1,
        1,
        Role::Backend(byte_str(b"localhost")),
        1,
        false,
    )));
}

#[test]
fn join_ack_encode_decode() {
    verify_encode_decode(Packet::JoinAck(JoinAck::new(Response::success(), 1)));
}

#[test]
fn report_test_ack() {
    let report = Report::new(1, 2, Position::Head { next: byte_str(b"next") });

    let report_ack = report.clone().ack();
    assert_eq!(report_ack.response().code(), SUCCESS);

    let report_nack = report.nack(INTERNAL_ERROR, None);
    assert_eq!(report_nack.response().code(), INTERNAL_ERROR);
}

#[test]
fn report_encode_decode() {
    verify_encode_decode(Packet::Report(Report::new(
        1,
        2,
        Position::Head { next: byte_str(b"next") },
    )));
}

#[test]
fn report_ack_test_encode_decode() {
    verify_encode_decode(Packet::ReportAck(ReportAck::new(Response::success())));
}

#[test]
fn transfer_acks() {
    let transfer = Transfer::new(
        1,
        2,
        byte_str(b"/tmp/kitty"),
        0,
        binary_data(&[0x01, 0x02, 0x03, 0x04]),
    );

    let ack = transfer.clone().ack();
    assert_eq!(ack.response().code(), SUCCESS);

    let nack = transfer.nack(INTERNAL_ERROR, None);
    assert_eq!(nack.response().code(), INTERNAL_ERROR);
}

#[test]
fn transfer_encode_decode() {
    verify_encode_decode(Packet::Transfer(Transfer::new(
        1,
        2,
        byte_str(b"/tmp/kitty"),
        42,
        binary_data(&[0x01, 0x02, 0x03, 0x04]),
    )));
}

#[test]
fn transfer_ack_encode_decode() {
    verify_encode_decode(Packet::TransferAck(TransferAck::new(Response::success())));
}

#[test]
fn ping_test_ack() {
    let ping = Ping::new(1, 2);
    let ping_ack = ping.ack();

    assert_eq!(ping_ack.response().code(), SUCCESS);
}

#[test]
fn ping_encode_decode() {
    verify_encode_decode(Packet::Ping(Ping::new(1, 2)));
}

#[test]
fn ping_ack_encode_decode() {
    verify_encode_decode(Packet::PingAck(PingAck::new()));
}
