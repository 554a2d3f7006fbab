use byte_stream::ByteStream;
use bytes::Bytes;
use futures::executor::block_on;
use futures::stream;
use std::io::Read;
use tokio::io::AsyncReadExt;

#[test]
fn test_async_read() {
    let chunks = vec![
        Ok(Bytes::from_static(b"1234")),
        Ok(Bytes::from_static(b"5678")),
    ];
    let stream = ByteStream::new(stream::iter(chunks));
    let mut async_read = stream.into_async_read();

    let mut buf = [0u8; 3];
    assert_eq!(block_on(async_read.read(&mut buf)).unwrap(), 3);
    assert_eq!(&buf[..3], b"123");
    assert_eq!(block_on(async_read.read(&mut buf)).unwrap(), 1);
    assert_eq!(&buf[..1], b"4");
    assert_eq!(block_on(async_read.read(&mut buf)).unwrap(), 3);
    assert_eq!(&buf[..3], b"567");
    assert_eq!(block_on(async_read.read(&mut buf)).unwrap(), 1);
    assert_eq!(&buf[..1], b"8");
    assert_eq!(block_on(async_read.read(&mut buf)).unwrap(), 0);
}

#[test]
fn test_blocking_read() {
    let chunks = vec![
        Ok(Bytes::from_static(b"1234")),
        Ok(Bytes::from_static(b"5678")),
    ];
    let stream = ByteStream::new(stream::iter(chunks));
    let mut async_read = stream.into_blocking_read();

    let mut buf = [0u8; 3];
    assert_eq!(async_read.read(&mut buf).unwrap(), 3);
    assert_eq!(&buf[..3], b"123");
    assert_eq!(async_read.read(&mut buf).unwrap(), 1);
    assert_eq!(&buf[..1], b"4");
    assert_eq!(async_read.read(&mut buf).unwrap(), 3);
    assert_eq!(&buf[..3], b"567");
    assert_eq!(async_read.read(&mut buf).unwrap(), 1);
    assert_eq!(&buf[..1], b"8");
    assert_eq!(async_read.read(&mut buf).unwrap(), 0);
}

#[test]
fn test_new_with_size_read() {
    let chunks = vec![
        Ok(Bytes::from_static(b"1234")),
        Ok(Bytes::from_static(b"5678")),
    ];
    let stream = ByteStream::new_with_size(stream::iter(chunks), 8);

    assert_eq!(stream.size_hint(), Some(8));

    let mut async_read = stream.into_async_read();

    let mut buf = [0u8; 3];
    assert_eq!(block_on(async_read.read(&mut buf)).unwrap(), 3);
    assert_eq!(&buf[..3], b"123");
    assert_eq!(block_on(async_read.read(&mut buf)).unwrap(), 1);
    assert_eq!(&buf[..1], b"4");
    assert_eq!(block_on(async_read.read(&mut buf)).unwrap(), 3);
    assert_eq!(&buf[..3], b"567");
    assert_eq!(block_on(async_read.read(&mut buf)).unwrap(), 1);
    assert_eq!(&buf[..1], b"8");
    assert_eq!(block_on(async_read.read(&mut buf)).unwrap(), 0);
}
