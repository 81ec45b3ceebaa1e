use necronomicon::wire::{
    emit_u128, emit_u16, emit_u32, emit_u64, emit_u8, emit_usize, Reader,
};
use necronomicon::Error;

#[test]
fn u8_encode_decode() {
    let mut bytes = vec![];
    emit_u8(&mut bytes, 1);
    let mut reader = Reader::new(bytes);
    assert_eq!(reader.read_u8().unwrap(), 1);
}

#[test]
fn u16_encode_decode() {
    let mut bytes = vec![];
    emit_u16(&mut bytes, 0x1234);
    assert_eq!(bytes, vec![0x12, 0x34]);
    let mut reader = Reader::new(bytes);
    assert_eq!(reader.read_u16().unwrap(), 0x1234);
}

#[test]
fn u32_encode_decode() {
    let mut bytes = vec![];
    emit_u32(&mut bytes, 0xdead_beef);
    assert_eq!(bytes, vec![0xde, 0xad, 0xbe, 0xef]);
    let mut reader = Reader::new(bytes);
    assert_eq!(reader.read_u32().unwrap(), 0xdead_beef);
}

#[test]
fn u64_encode_decode() {
    let mut bytes = vec![];
    emit_u64(&mut bytes, 0x0102_0304_0506_0708);
    assert_eq!(bytes, vec![1, 2, 3, 4, 5, 6, 7, 8]);
    let mut reader = Reader::new(bytes);
    assert_eq!(reader.read_u64().unwrap(), 0x0102_0304_0506_0708);
}

#[test]
fn u128_encode_decode() {
    let mut bytes = vec![];
    emit_u128(&mut bytes, 456);
    assert_eq!(bytes.len(), 16);
    let mut reader = Reader::new(bytes);
    assert_eq!(reader.read_u128().unwrap(), 456);
}

#[test]
fn usize_encode_decode() {
    let mut bytes = vec![];
    emit_usize(&mut bytes, 24);
    assert_eq!(bytes, vec![0, 0, 0, 0, 0, 0, 0, 24]);
    let mut reader = Reader::new(bytes);
    assert_eq!(reader.read_usize().unwrap(), 24);
}

#[test]
fn short_integer_read_is_rejected() {
    let mut reader = Reader::new(vec![1, 2, 3]);
    assert!(matches!(reader.read_u64(), Err(Error::Decode)));
    // a failed fixed-width read leaves the cursor where it stood
    assert_eq!(reader.read_u8().unwrap(), 1);
}

#[test]
fn read_vec_reports_shortfall() {
    let mut reader = Reader::new(vec![1, 2, 3]);
    let err = reader.read_vec(5).unwrap_err();
    assert!(matches!(err, Error::BinaryDataSizeMismatch { expected: 5, read: 3 }));
    assert_eq!(reader.read_vec(3).unwrap(), vec![1, 2, 3]);
}

#[test]
fn header_encode_decode() {
    for (kind, version, uuid) in [(0u8, 0u8, 0u128), (1, 1, 1), (2, 2, 2)] {
        let kind = necronomicon::Kind::from_u8(kind).expect("kind");
        let header = necronomicon::Header::new(kind, version, uuid, 0);
        let mut buf = Vec::new();
        header.encode(&mut buf).expect("encode");
        assert_eq!(buf.len(), 26);

        let mut reader = Reader::new(buf);
        let actual = necronomicon::Header::decode(&mut reader).expect("decode");
        assert_eq!(actual, header);
        assert_eq!(actual.version, version.into());
        assert_eq!(actual.uuid, uuid.into());
    }
}

#[test]
fn kind_byte_round_trip() {
    let mut seen: usize = 0;
    for b in 0u8..=255 {
        if let Some(kind) = necronomicon::Kind::from_u8(b) {
            assert_eq!(kind.to_u8(), b);
            seen += 1;
        }
    }
    assert_eq!(seen, 26);
    assert!(necronomicon::Kind::from_u8(0x0c).is_none());
    assert!(necronomicon::Kind::from_u8(0x16).is_none());
    assert!(necronomicon::Kind::from_u8(0x78).is_none());
}
