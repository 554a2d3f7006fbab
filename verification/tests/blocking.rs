use byte_stream::ByteStream;
use byte_stream::ImplBlockingRead;
use bytes::Bytes;
use futures::stream;
use std::io;
use std::io::Read;
use std::sync::atomic::AtomicUsize;
use std::sync::atomic::Ordering;
use std::sync::Arc;
use std::task::Poll;

/// A blocking reader over the given chunks whose stream counts how often it
/// is polled and is pending, once, before each item.
fn stuttering_reader(chunks: Vec<&'static [u8]>, polls: Arc<AtomicUsize>) -> ImplBlockingRead {
    let mut rest = chunks.into_iter();
    let mut ready = false;
    let source = stream::poll_fn(move |cx| {
        polls.fetch_add(1, Ordering::SeqCst);
        if ready {
            ready = false;
            Poll::Ready(rest.next().map(|bytes| Ok(Bytes::from_static(bytes))))
        } else {
            ready = true;
            cx.waker().wake_by_ref();
            Poll::Pending
        }
    });
    ByteStream::new(source).into_blocking_read()
}

#[test]
fn blocking_read_waits_for_a_pending_stream() {
    let polls = Arc::new(AtomicUsize::new(0));
    let mut reader = stuttering_reader(vec![b"1234", b"5"], polls.clone());
    let mut buf = [0u8; 3];
    assert_eq!(reader.read(&mut buf).unwrap(), 3);
    assert_eq!(&buf, b"123");
    assert_eq!(polls.load(Ordering::SeqCst), 2);
    assert_eq!(reader.read(&mut buf).unwrap(), 1);
    assert_eq!(&buf, b"423");
    assert_eq!(polls.load(Ordering::SeqCst), 2);
    assert_eq!(reader.read(&mut buf).unwrap(), 1);
    assert_eq!(&buf, b"523");
    assert_eq!(polls.load(Ordering::SeqCst), 4);
    assert_eq!(reader.read(&mut buf).unwrap(), 0);
    assert_eq!(polls.load(Ordering::SeqCst), 6);
    assert_eq!(reader.read(&mut buf).unwrap(), 0);
    assert_eq!(polls.load(Ordering::SeqCst), 6);
    assert_eq!(&buf, b"523");
}

#[test]
fn blocking_read_with_empty_buffer_reads_nothing() {
    let polls = Arc::new(AtomicUsize::new(0));
    let mut reader = stuttering_reader(vec![b"12"], polls.clone());
    let mut none = [0u8; 0];
    assert_eq!(reader.read(&mut none).unwrap(), 0);
    assert_eq!(polls.load(Ordering::SeqCst), 0);
    let mut buf = [0u8; 4];
    assert_eq!(reader.read(&mut buf).unwrap(), 2);
    assert_eq!(&buf, b"12\0\0");
}

#[test]
fn blocking_read_hands_on_a_failure_and_goes_on() {
    let chunks = vec![
        Ok(Bytes::from_static(b"ab")),
        Err(io::Error::new(io::ErrorKind::BrokenPipe, "pipe broke")),
        Ok(Bytes::from_static(b"c")),
    ];
    let mut reader = ByteStream::new(stream::iter(chunks)).into_blocking_read();
    let mut buf = [b'.'; 2];
    assert_eq!(reader.read(&mut buf).unwrap(), 2);
    assert_eq!(&buf, b"ab");
    let error = reader.read(&mut buf).unwrap_err();
    assert_eq!(error.kind(), io::ErrorKind::BrokenPipe);
    assert_eq!(error.to_string(), "pipe broke");
    assert_eq!(&buf, b"ab");
    assert_eq!(reader.read(&mut buf).unwrap(), 1);
    assert_eq!(&buf, b"cb");
    assert_eq!(reader.read(&mut buf).unwrap(), 0);
}

#[test]
fn blocking_read_of_a_larger_buffer_takes_one_chunk() {
    let chunks = vec![Ok(Bytes::from_static(b"1234")), Ok(Bytes::from_static(b"5678"))];
    let mut reader = ByteStream::new(stream::iter(chunks)).into_blocking_read();
    let mut buf = [0u8; 16];
    assert_eq!(reader.read(&mut buf).unwrap(), 4);
    assert_eq!(&buf[..4], b"1234");
    assert_eq!(reader.read(&mut buf).unwrap(), 4);
    assert_eq!(&buf[..4], b"5678");
    assert_eq!(reader.read(&mut buf).unwrap(), 0);
}

#[test]
fn blocking_read_to_end_collects_everything() {
    let chunks = vec![
        Ok(Bytes::from_static(b"he")),
        Ok(Bytes::from_static(b"llo, ")),
        Ok(Bytes::from_static(b"world")),
    ];
    let mut reader = ByteStream::new(stream::iter(chunks)).into_blocking_read();
    let mut all = Vec::new();
    assert_eq!(reader.read_to_end(&mut all).unwrap(), 12);
    assert_eq!(all, b"hello, world");
}

#[test]
fn read_on_hands_on_the_failure_to_set_up_a_runtime() {
    let chunks = vec![Ok(Bytes::from_static(b"abc"))];
    let mut reader = ByteStream::new(stream::iter(chunks)).into_blocking_read();
    let mut buf = [b'.'; 2];
    let failure = io::Error::new(io::ErrorKind::OutOfMemory, "no threads left");
    let error = reader.read_on(Err(failure), &mut buf).unwrap_err();
    assert_eq!(error.kind(), io::ErrorKind::OutOfMemory);
    assert_eq!(error.to_string(), "no threads left");
    assert_eq!(&buf, b"..");
    assert_eq!(reader.read(&mut buf).unwrap(), 2);
    assert_eq!(&buf, b"ab");
    let failure = io::Error::new(io::ErrorKind::Other, "still none");
    assert_eq!(reader.read_on(Err(failure), &mut buf).unwrap_err().to_string(), "still none");
    assert_eq!(&buf, b"ab");
    assert_eq!(reader.read(&mut buf).unwrap(), 1);
    assert_eq!(&buf, b"cb");
}

#[test]
fn read_on_reads_on_the_runtime_given() {
    let polls = Arc::new(AtomicUsize::new(0));
    let mut reader = stuttering_reader(vec![b"1234"], polls.clone());
    let mut buf = [0u8; 3];
    let runtime = tokio::runtime::Builder::new_current_thread().build();
    assert_eq!(reader.read_on(runtime, &mut buf).unwrap(), 3);
    assert_eq!(&buf, b"123");
    assert_eq!(polls.load(Ordering::SeqCst), 2);
    assert_eq!(reader.read_on(tokio::runtime::Runtime::new(), &mut buf).unwrap(), 1);
    assert_eq!(&buf, b"423");
    assert_eq!(reader.read_on(tokio::runtime::Runtime::new(), &mut buf).unwrap(), 0);
    assert_eq!(&buf, b"423");
}

const REFUSAL: &str = "cannot block on a read on a thread that has a runtime";

#[test]
fn blocking_read_inside_a_runtime_is_refused_without_panic() {
    let chunks = vec![Ok(Bytes::from_static(b"abc"))];
    let mut reader = ByteStream::new(stream::iter(chunks)).into_blocking_read();
    let mut buf = [b'.'; 2];
    let runtime = tokio::runtime::Builder::new_current_thread().build().unwrap();
    let error = runtime
        .block_on(futures::future::lazy(|_| reader.read(&mut buf)))
        .unwrap_err();
    assert_eq!(error.kind(), io::ErrorKind::Other);
    assert_eq!(error.to_string(), REFUSAL);
    assert_eq!(&buf, b"..");
    drop(runtime);
    assert_eq!(reader.read(&mut buf).unwrap(), 2);
    assert_eq!(&buf, b"ab");
    assert_eq!(reader.read(&mut buf).unwrap(), 1);
    assert_eq!(&buf, b"cb");
    assert_eq!(reader.read(&mut buf).unwrap(), 0);
}

#[test]
fn blocking_read_on_a_thread_that_holds_a_handle_is_refused() {
    let chunks = vec![Ok(Bytes::from_static(b"abc"))];
    let mut reader = ByteStream::new(stream::iter(chunks)).into_blocking_read();
    let mut buf = [b'.'; 4];
    let runtime = tokio::runtime::Builder::new_current_thread().build().unwrap();
    {
        let _guard = runtime.enter();
        let error = reader.read(&mut buf).unwrap_err();
        assert_eq!(error.kind(), io::ErrorKind::Other);
        assert_eq!(error.to_string(), REFUSAL);
        assert_eq!(&buf, b"....");
    }
    assert_eq!(reader.read(&mut buf).unwrap(), 3);
    assert_eq!(&buf, b"abc.");
}

#[test]
fn read_on_inside_a_runtime_gives_the_runtime_up() {
    let chunks = vec![Ok(Bytes::from_static(b"abc"))];
    let mut reader = ByteStream::new(stream::iter(chunks)).into_blocking_read();
    let mut buf = [b'.'; 4];
    let runtime = tokio::runtime::Runtime::new().unwrap();
    let error = runtime
        .block_on(futures::future::lazy(|_| {
            reader.read_on(tokio::runtime::Runtime::new(), &mut buf)
        }))
        .unwrap_err();
    assert_eq!(error.to_string(), REFUSAL);
    let failure = io::Error::new(io::ErrorKind::Other, "no threads left");
    let error = runtime
        .block_on(futures::future::lazy(|_| reader.read_on(Err(failure), &mut buf)))
        .unwrap_err();
    assert_eq!(error.to_string(), "no threads left");
    assert_eq!(&buf, b"....");
    drop(runtime);
    assert_eq!(reader.read(&mut buf).unwrap(), 3);
    assert_eq!(&buf, b"abc.");
}

#[test]
fn blocking_read_in_a_plain_thread_of_its_own_works() {
    let chunks = vec![Ok(Bytes::from_static(b"abc"))];
    let mut reader = ByteStream::new(stream::iter(chunks)).into_blocking_read();
    let mut buf = [b'.'; 4];
    assert_eq!(reader.read(&mut buf).unwrap(), 3);
    let runtime = tokio::runtime::Builder::new_current_thread().build().unwrap();
    let seen = runtime.block_on(futures::future::lazy(|_| 7));
    assert_eq!(seen, 7);
    drop(runtime);
    assert_eq!(reader.read(&mut buf).unwrap(), 0);
    assert_eq!(&buf, b"abc.");
}
