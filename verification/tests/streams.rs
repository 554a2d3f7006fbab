use byte_stream::ByteStream;
use byte_stream::Pulled;
use bytes::Bytes;
use futures::stream;
use futures::task::noop_waker_ref;
use std::io;
use std::io::Read;
use std::sync::atomic::AtomicUsize;
use std::sync::atomic::Ordering;
use std::sync::Arc;
use std::task::Context;
use std::task::Poll;

#[test]
fn new_carries_no_size_hint() {
    let chunks: Vec<io::Result<Bytes>> = vec![Ok(Bytes::from_static(b"1234"))];
    let stream = ByteStream::new(stream::iter(chunks));
    assert_eq!(stream.size_hint(), None);
}

#[test]
fn new_with_size_keeps_the_hint_whatever_the_stream_holds() {
    let chunks: Vec<io::Result<Bytes>> = vec![Ok(Bytes::from_static(b"1234"))];
    let stream = ByteStream::new_with_size(stream::iter(chunks), 1000);
    assert_eq!(stream.size_hint(), Some(1000));
    let empty = ByteStream::new_with_size(stream::empty::<io::Result<Bytes>>(), 0);
    assert_eq!(empty.size_hint(), Some(0));
    let large = ByteStream::new_with_size(stream::empty::<io::Result<Bytes>>(), usize::MAX);
    assert_eq!(large.size_hint(), Some(usize::MAX));
    let mut reader = large.into_blocking_read();
    let mut buf = [0u8; 4];
    assert_eq!(reader.read(&mut buf).unwrap(), 0);
}

#[test]
fn from_bytes_hints_the_length_and_holds_the_chunk() {
    let stream = ByteStream::from(Bytes::from_static(b"hello"));
    assert_eq!(stream.size_hint(), Some(5));
    let mut reader = stream.into_blocking_read();
    let mut buf = [0u8; 8];
    assert_eq!(reader.read(&mut buf).unwrap(), 5);
    assert_eq!(&buf[..5], b"hello");
    assert_eq!(reader.read(&mut buf).unwrap(), 0);
}

#[test]
fn from_vec_hints_the_length_and_holds_the_bytes() {
    let stream = ByteStream::from(vec![9u8, 8, 7]);
    assert_eq!(stream.size_hint(), Some(3));
    let mut reader = stream.into_blocking_read();
    let mut buf = [0u8; 2];
    assert_eq!(reader.read(&mut buf).unwrap(), 2);
    assert_eq!(buf, [9, 8]);
    assert_eq!(reader.read(&mut buf).unwrap(), 1);
    assert_eq!(buf, [7, 8]);
    assert_eq!(reader.read(&mut buf).unwrap(), 0);
}

#[test]
fn from_empty_buffers() {
    assert_eq!(ByteStream::from(Bytes::new()).size_hint(), Some(0));
    let stream = ByteStream::from(Vec::new());
    assert_eq!(stream.size_hint(), Some(0));
    let mut reader = stream.into_blocking_read();
    let mut buf = [0u8; 2];
    assert_eq!(reader.read(&mut buf).unwrap(), 0);
    assert_eq!(reader.read(&mut buf).unwrap(), 0);
}

#[test]
fn poll_next_yields_the_items_in_order() {
    let chunks = vec![
        Ok(Bytes::from_static(b"one")),
        Err(io::Error::new(io::ErrorKind::InvalidData, "bad item")),
        Ok(Bytes::from_static(b"three")),
    ];
    let mut stream = ByteStream::new_with_size(stream::iter(chunks), 8);
    let mut cx = Context::from_waker(noop_waker_ref());
    match stream.poll_next(&mut cx) {
        Pulled::Chunk(chunk) => assert_eq!(&chunk[..], b"one"),
        other => panic!("no chunk: {:?}", other),
    }
    match stream.poll_next(&mut cx) {
        Pulled::Failed(error) => {
            assert_eq!(error.kind(), io::ErrorKind::InvalidData);
            assert_eq!(error.to_string(), "bad item");
        }
        other => panic!("no failure: {:?}", other),
    }
    match stream.poll_next(&mut cx) {
        Pulled::Chunk(chunk) => assert_eq!(&chunk[..], b"three"),
        other => panic!("no chunk: {:?}", other),
    }
    assert!(matches!(stream.poll_next(&mut cx), Pulled::End));
    assert!(matches!(stream.poll_next(&mut cx), Pulled::End));
    assert_eq!(stream.size_hint(), Some(8));
}

#[test]
fn poll_next_stops_asking_after_the_end() {
    let polls = Arc::new(AtomicUsize::new(0));
    let seen = polls.clone();
    let source = stream::poll_fn(move |_cx| {
        let earlier = seen.fetch_add(1, Ordering::SeqCst);
        if earlier == 0 {
            Poll::Ready(Some(Ok(Bytes::from_static(b"x"))))
        } else {
            Poll::Ready(None)
        }
    });
    let mut stream = ByteStream::new(source);
    let mut cx = Context::from_waker(noop_waker_ref());
    assert!(matches!(stream.poll_next(&mut cx), Pulled::Chunk(_)));
    assert!(matches!(stream.poll_next(&mut cx), Pulled::End));
    assert!(matches!(stream.poll_next(&mut cx), Pulled::End));
    assert!(matches!(stream.poll_next(&mut cx), Pulled::End));
    assert_eq!(polls.load(Ordering::SeqCst), 2);
}

#[test]
fn poll_next_reports_a_pending_stream() {
    let mut stream = ByteStream::new(stream::pending::<io::Result<Bytes>>());
    let mut cx = Context::from_waker(noop_waker_ref());
    assert!(matches!(stream.poll_next(&mut cx), Pulled::Pending));
    assert!(matches!(stream.poll_next(&mut cx), Pulled::Pending));
}

#[test]
fn debug_string_shows_the_size_hint_only() {
    let chunks: Vec<io::Result<Bytes>> = vec![Ok(Bytes::from_static(b"secret payload"))];
    let hinted = ByteStream::new_with_size(stream::iter(chunks), 8);
    assert_eq!(hinted.debug_string(), "<ByteStream size_hint=Some(8)>");
    let plain = ByteStream::new(stream::empty::<io::Result<Bytes>>());
    assert_eq!(plain.debug_string(), "<ByteStream size_hint=None>");
    let buffer = ByteStream::from(Bytes::from_static(b"secret payload"));
    assert_eq!(buffer.debug_string(), "<ByteStream size_hint=Some(14)>");
}
