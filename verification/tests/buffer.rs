use necronomicon::buffer::Block;
use necronomicon::{fill, BinaryData, ByteStr, PoolImpl, SharedImpl};

#[test]
fn acquire() {
    let pool = PoolImpl::new(1024, 1);
    let buffer = pool.acquire("test").unwrap();
    assert_eq!(buffer.unfilled_capacity(), 1024);
}

#[test]
fn acquire_multiple() {
    let pool = PoolImpl::new(1024, 2);
    let buffer1 = pool.acquire("test").unwrap();
    let buffer2 = pool.acquire("test").unwrap();
    assert_eq!(buffer1.unfilled_capacity(), 1024);
    assert_eq!(buffer2.unfilled_capacity(), 1024);
}

#[test]
fn acquire_release() {
    let pool = PoolImpl::new(1024, 1);
    let buffer = pool.acquire("test").unwrap();
    assert_eq!(buffer.unfilled_capacity(), 1024);
    drop(buffer);
    let buffer = pool.acquire("test").unwrap();
    assert_eq!(buffer.unfilled_capacity(), 1024);
}

#[test]
fn acquire_release_multiple() {
    let pool = PoolImpl::new(1024, 2);
    let buffer1 = pool.acquire("test").unwrap();
    let buffer2 = pool.acquire("test").unwrap();
    assert_eq!(buffer1.unfilled_capacity(), 1024);
    assert_eq!(buffer2.unfilled_capacity(), 1024);
    drop(buffer1);
    drop(buffer2);
    let mut buffer1 = pool.acquire("test").unwrap();
    let buffer2 = pool.acquire("test").unwrap();
    assert_eq!(buffer1.unfilled_capacity(), 1024);
    assert_eq!(buffer2.unfilled_capacity(), 1024);
    let buffer3 = buffer1.split_at(512);
    assert_eq!(buffer1.unfilled_capacity(), 512);
    assert_eq!(buffer3.unfilled_capacity(), 512);
    let buffer1 = buffer1.into_shared();
    drop(buffer1);
    drop(buffer3);
    let buffer1 = pool.acquire("test").unwrap();
    assert_eq!(buffer1.unfilled_capacity(), 1024);
    drop(buffer2);
}

#[test]
fn binary_data() {
    let data = vec![1, 2, 3, 4, 5];
    let pool = PoolImpl::new(10, 10);
    let mut buffer = pool.acquire("test").unwrap();
    let binary_data = BinaryData::from_owned(&data, &mut buffer).expect("from_owned");
    assert_eq!(binary_data.len(), 5);
    assert!(!binary_data.is_empty());
    assert_eq!(binary_data.data().as_slice(), &[1, 2, 3, 4, 5]);

    let mut buffer = pool.acquire("test").unwrap();
    let binary_data = BinaryData::from_owned(&[0, 1, 2, 3, 4, 5, 6, 7, 8, 9, 10], &mut buffer);
    assert!(binary_data.is_err());
}

#[test]
fn byte_str() {
    let pool = PoolImpl::new(1024, 1024);
    let mut buffer = pool.acquire("test").unwrap();
    let data = "hello world";
    let byte_str = ByteStr::from_owned(data, &mut buffer).expect("byte_str");

    assert_eq!(byte_str.len(), data.len());
    assert_eq!(byte_str.is_empty(), false);
    assert_eq!(byte_str.as_str().expect("str"), data);
    assert_eq!(byte_str.data().as_slice(), b"hello world");
}

#[test]
fn byte_str_rejects_invalid_utf8() {
    let bad = BinaryData::new(SharedImpl::test_new(&[0xff, 0xfe, 0x01]));
    let byte_str = ByteStr::new(bad);
    assert!(byte_str.as_str().is_none());
}

#[test]
fn fill_truncates_to_the_room_left() {
    let pool = PoolImpl::new(4, 1);
    let mut buffer = pool.acquire("fill").unwrap();
    fill(&mut buffer, &[9, 8, 7, 6, 5, 4]);
    assert_eq!(buffer.filled_len(), 4);
    assert_eq!(buffer.unfilled_capacity(), 0);
    assert_eq!(buffer.filled(), &[9, 8, 7, 6]);
}

#[test]
fn split_shares_the_fill_cursor() {
    let pool = PoolImpl::new(8, 1);
    let mut buffer = pool.acquire("split").unwrap();
    fill(&mut buffer, &[1, 2, 3, 4, 5]);
    assert!(!buffer.is_empty());
    let left = buffer.split_at(3);
    assert_eq!(left.filled(), &[1, 2, 3]);
    assert_eq!(left.filled_len(), 3);
    assert_eq!(buffer.filled(), &[4, 5]);
    assert_eq!(buffer.filled_len(), 2);

    let shared = left.into_shared();
    assert_eq!(shared.len(), 3);
    assert_eq!(shared.as_slice(), &[1, 2, 3]);
    assert!(!shared.is_empty());
    assert_eq!(shared, SharedImpl::test_new(&[1, 2, 3]));
}

#[test]
fn block_split_and_release() {
    let mut block = Block::new(8);
    assert_eq!(block.capacity(), 8);
    assert_eq!(block.as_slice(), &[0u8; 8]);

    let left = block.split_at(3);
    assert_eq!(left.capacity(), 3);
    assert_eq!(block.capacity(), 5);

    let recycled = left.release();
    assert_eq!(recycled.capacity(), 3);
    assert_eq!(recycled.as_slice(), &[0u8; 3]);
}
