use byte_stream::ByteStream;
use byte_stream::ImplAsyncRead;
use byte_stream::ImplBlockingRead;
use byte_stream::Polled;
use bytes::Bytes;
use futures::stream;
use futures::task::noop_waker_ref;
use std::io;
use std::io::Read;
use std::task::Context;
use std::task::Poll;

/// What one read gave: the bytes, or the text of the failure.
type Given = Result<Vec<u8>, String>;

fn items(script: &[Result<&'static [u8], &'static str>]) -> Vec<io::Result<Bytes>> {
    script
        .iter()
        .map(|item| match item {
            Ok(bytes) => Ok(Bytes::from_static(bytes)),
            Err(text) => Err(io::Error::new(io::ErrorKind::Other, *text)),
        })
        .collect()
}

/// A stream of the items that is pending, once, before each of them and
/// before its end.
fn stuttering(
    script: &[Result<&'static [u8], &'static str>],
) -> impl futures::Stream<Item = io::Result<Bytes>> + Send + 'static {
    let mut rest = items(script).into_iter();
    let mut ready = false;
    stream::poll_fn(move |cx| {
        if ready {
            ready = false;
            Poll::Ready(rest.next())
        } else {
            ready = true;
            cx.waker().wake_by_ref();
            Poll::Pending
        }
    })
}

/// Reads with the blocking reader, one read for each size.
fn read_blocking(mut reader: ImplBlockingRead, sizes: &[usize]) -> Vec<Given> {
    let mut given = Vec::new();
    for size in sizes {
        let mut buf = vec![0u8; *size];
        given.push(match reader.read(&mut buf) {
            Ok(count) => Ok(buf[..count].to_vec()),
            Err(error) => Err(error.to_string()),
        });
    }
    given
}

/// Reads with the non-blocking reader, one read for each size, each
/// attempted until it is ready.
fn read_cooperative(mut reader: ImplAsyncRead, sizes: &[usize]) -> Vec<Given> {
    let mut cx = Context::from_waker(noop_waker_ref());
    let mut given = Vec::new();
    for size in sizes {
        let mut buf = vec![0u8; *size];
        loop {
            match reader.poll_fill(&mut cx, &mut buf) {
                Polled::Pending => {}
                Polled::Ready(Ok(count)) => {
                    given.push(Ok(buf[..count].to_vec()));
                    break;
                }
                Polled::Ready(Err(error)) => {
                    given.push(Err(error.to_string()));
                    break;
                }
            }
        }
    }
    given
}

fn bytes_of(given: &[Given]) -> Vec<u8> {
    let mut all = Vec::new();
    for read in given {
        if let Ok(bytes) = read {
            all.extend_from_slice(bytes);
        }
    }
    all
}

#[test]
fn chunk_order_is_preserved_for_any_sizes() {
    let script: [Result<&'static [u8], &'static str>; 5] =
        [Ok(b"ab"), Ok(b"cdefg"), Ok(b""), Ok(b"h"), Ok(b"ijklmnop")];
    let whole = b"abcdefghijklmnop".to_vec();
    let plans: [&[usize]; 5] = [
        &[1; 24],
        &[2; 16],
        &[3, 1, 4, 1, 5, 9, 2, 6, 5, 3, 5],
        &[16; 7],
        &[100; 7],
    ];
    for sizes in plans {
        let reader = ByteStream::new(stream::iter(items(&script))).into_async_read();
        assert_eq!(bytes_of(&read_cooperative(reader, sizes)), whole);
        let reader = ByteStream::new(stream::iter(items(&script))).into_blocking_read();
        assert_eq!(bytes_of(&read_blocking(reader, sizes)), whole);
    }
}

#[test]
fn too_few_reads_give_a_prefix() {
    let script: [Result<&'static [u8], &'static str>; 2] = [Ok(b"1234"), Ok(b"5678")];
    let reader = ByteStream::new(stream::iter(items(&script))).into_async_read();
    let given = read_cooperative(reader, &[3, 0, 3]);
    assert_eq!(given, vec![Ok(b"123".to_vec()), Ok(vec![]), Ok(b"4".to_vec())]);
}

#[test]
fn each_read_takes_at_most_one_chunk() {
    let script: [Result<&'static [u8], &'static str>; 3] = [Ok(b"12"), Ok(b"345"), Ok(b"6")];
    let reader = ByteStream::new(stream::iter(items(&script))).into_async_read();
    let given = read_cooperative(reader, &[64, 64, 64, 64]);
    assert_eq!(
        given,
        vec![Ok(b"12".to_vec()), Ok(b"345".to_vec()), Ok(b"6".to_vec()), Ok(vec![])]
    );
}

#[test]
fn the_end_of_the_stream_is_final() {
    let script: [Result<&'static [u8], &'static str>; 1] = [Ok(b"xyz")];
    let reader = ByteStream::new(stream::iter(items(&script))).into_async_read();
    let given = read_cooperative(reader, &[8, 8, 8, 1, 0, 8]);
    assert_eq!(
        given,
        vec![Ok(b"xyz".to_vec()), Ok(vec![]), Ok(vec![]), Ok(vec![]), Ok(vec![]), Ok(vec![])]
    );
    let reader = ByteStream::new(stream::iter(items(&script))).into_blocking_read();
    let given = read_blocking(reader, &[8, 8, 8, 1, 0, 8]);
    assert_eq!(
        given,
        vec![Ok(b"xyz".to_vec()), Ok(vec![]), Ok(vec![]), Ok(vec![]), Ok(vec![]), Ok(vec![])]
    );
}

#[test]
fn an_empty_chunk_reads_as_nothing_before_more_comes() {
    let script: [Result<&'static [u8], &'static str>; 2] = [Ok(b""), Ok(b"abc")];
    let reader = ByteStream::new(stream::iter(items(&script))).into_async_read();
    let given = read_cooperative(reader, &[3, 3, 3]);
    assert_eq!(given, vec![Ok(vec![]), Ok(b"abc".to_vec()), Ok(vec![])]);
}

#[test]
fn a_read_without_room_reads_as_nothing_before_more_comes() {
    let script: [Result<&'static [u8], &'static str>; 1] = [Ok(b"abc")];
    let reader = ByteStream::new(stream::iter(items(&script))).into_blocking_read();
    let given = read_blocking(reader, &[0, 0, 2, 0, 2, 2]);
    assert_eq!(
        given,
        vec![Ok(vec![]), Ok(vec![]), Ok(b"ab".to_vec()), Ok(vec![]), Ok(b"c".to_vec()), Ok(vec![])]
    );
}

#[test]
fn blocking_and_cooperative_readers_agree() {
    let script: [Result<&'static [u8], &'static str>; 6] =
        [Ok(b"1234"), Ok(b"5678"), Err("lost"), Ok(b""), Ok(b"9"), Err("gone")];
    let plans: [&[usize]; 4] = [
        &[3; 10],
        &[1, 0, 2, 7, 0, 1, 1, 1, 5, 5, 5, 5, 5],
        &[8; 8],
        &[0, 0],
    ];
    for sizes in plans {
        let blocking = read_blocking(
            ByteStream::new(stream::iter(items(&script))).into_blocking_read(),
            sizes,
        );
        let cooperative = read_cooperative(
            ByteStream::new(stream::iter(items(&script))).into_async_read(),
            sizes,
        );
        assert_eq!(blocking, cooperative);
        let blocking_stuttering =
            read_blocking(ByteStream::new(stuttering(&script)).into_blocking_read(), sizes);
        let cooperative_stuttering =
            read_cooperative(ByteStream::new(stuttering(&script)).into_async_read(), sizes);
        assert_eq!(blocking_stuttering, blocking);
        assert_eq!(cooperative_stuttering, blocking);
    }
}

#[test]
fn readers_agree_on_the_known_scenario() {
    let script: [Result<&'static [u8], &'static str>; 2] = [Ok(b"1234"), Ok(b"5678")];
    let expected: Vec<Given> = vec![
        Ok(b"123".to_vec()),
        Ok(b"4".to_vec()),
        Ok(b"567".to_vec()),
        Ok(b"8".to_vec()),
        Ok(vec![]),
    ];
    let blocking = ByteStream::new(stream::iter(items(&script))).into_blocking_read();
    assert_eq!(read_blocking(blocking, &[3; 5]), expected);
    let cooperative = ByteStream::new(stream::iter(items(&script))).into_async_read();
    assert_eq!(read_cooperative(cooperative, &[3; 5]), expected);
    assert_eq!(bytes_of(&expected), b"12345678");
}

#[test]
fn enough_single_byte_reads_drain_the_stream() {
    let script: [Result<&'static [u8], &'static str>; 5] =
        [Ok(b"ab"), Ok(b"cdefg"), Ok(b""), Ok(b"h"), Ok(b"ijklmnop")];
    // One read for each of the 16 bytes, one for each of the 5 chunks, and one more.
    let sizes = [1usize; 22];
    let reader = ByteStream::new(stream::iter(items(&script))).into_blocking_read();
    let given = read_blocking(reader, &sizes);
    assert_eq!(bytes_of(&given), b"abcdefghijklmnop");
    assert_eq!(given[21], Ok(vec![]));
    assert_eq!(given.iter().filter(|read| **read == Ok(vec![])).count(), 6);
}
