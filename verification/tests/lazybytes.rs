use bytes::Bytes;
use camcoder::lazybytes::{
    AppendError, ConsistencyError, LazyBytes, LazyBytesStream, Polled, StreamError,
};
use camcoder::shared::Glimpse;
use std::sync::{Arc, RwLock};

fn chunk_of(polled: Polled) -> Vec<u8> {
    match polled {
        Polled::Chunk(bytes) => bytes.to_vec(),
        Polled::NoNewData => panic!("no new data where a chunk was expected"),
        Polled::End => panic!("end where a chunk was expected"),
    }
}

#[test]
fn new_buffer_is_empty_and_open() {
    let buffer = LazyBytes::new();
    assert_eq!(buffer.len(), 0);
    assert!(!buffer.completion);
    assert!(matches!(buffer.poll(0), Ok(Polled::NoNewData)));
}

#[test]
fn reader_follows_the_writer() {
    let mut buffer = LazyBytes::new();
    assert_eq!(buffer.append(b"AB"), Ok(()));
    let mut offset = 0;
    let chunk = chunk_of(buffer.poll(offset).unwrap());
    assert_eq!(chunk, b"AB".to_vec());
    offset += chunk.len();
    assert_eq!(offset, 2);
    assert!(matches!(buffer.poll(offset), Ok(Polled::NoNewData)));
    buffer.finish();
    assert!(matches!(buffer.poll(offset), Ok(Polled::End)));
}

#[test]
fn append_keeps_what_was_written() {
    let mut buffer = LazyBytes::new();
    assert_eq!(buffer.append(b"hello"), Ok(()));
    assert_eq!(buffer.append(b""), Ok(()));
    assert_eq!(buffer.append(b", world"), Ok(()));
    assert_eq!(buffer.len(), 12);
    assert_eq!(&buffer.bytes[..], b"hello, world");
    assert_eq!(chunk_of(buffer.poll(0).unwrap()), b"hello, world".to_vec());
    assert_eq!(chunk_of(buffer.poll(5).unwrap()), b", world".to_vec());
    assert_eq!(chunk_of(buffer.poll(11).unwrap()), b"d".to_vec());
}

#[test]
fn a_long_chunk_is_handed_out_whole() {
    let mut buffer = LazyBytes::new();
    let data: Vec<u8> = (0..1000u32).map(|i| (i % 251) as u8).collect();
    assert_eq!(buffer.append(&data), Ok(()));
    assert_eq!(chunk_of(buffer.poll(0).unwrap()), data);
    assert_eq!(chunk_of(buffer.poll(100).unwrap()), data[100..].to_vec());
}

#[test]
fn finish_is_idempotent_and_freezes_the_bytes() {
    let mut buffer = LazyBytes::new();
    assert_eq!(buffer.append(b"abc"), Ok(()));
    buffer.finish();
    buffer.finish();
    assert!(buffer.completion);
    assert_eq!(buffer.append(b"d"), Err(AppendError::Completed));
    assert_eq!(buffer.append(b""), Err(AppendError::Completed));
    assert_eq!(buffer.len(), 3);
    assert_eq!(&buffer.bytes[..], b"abc");
}

#[test]
fn poll_past_the_end_is_a_consistency_error() {
    let mut buffer = LazyBytes::new();
    assert_eq!(buffer.append(b"abc"), Ok(()));
    match buffer.poll(4) {
        Err(e) => assert_eq!(e, ConsistencyError { offset: 4, len: 3 }),
        Ok(_) => panic!("a poll past the end succeeded"),
    }
    buffer.finish();
    assert!(buffer.poll(4).is_err());
    assert!(matches!(buffer.poll(3), Ok(Polled::End)));
}

#[test]
fn an_empty_finished_buffer_ends_at_once() {
    let mut buffer = LazyBytes::new();
    buffer.finish();
    assert!(matches!(buffer.poll(0), Ok(Polled::End)));
}

#[test]
fn complete_holds_the_given_bytes() {
    let buffer = LazyBytes::complete(Bytes::from(vec![1u8, 2, 3]));
    assert!(buffer.completion);
    assert_eq!(buffer.len(), 3);
    assert_eq!(chunk_of(buffer.poll(1).unwrap()), vec![2u8, 3]);
}

#[test]
fn snapshot_is_independent_of_later_writes() {
    let mut buffer = LazyBytes::new();
    assert_eq!(buffer.append(b"one"), Ok(()));
    let copy = buffer.snapshot();
    assert_eq!(buffer.append(b"two"), Ok(()));
    buffer.finish();
    assert_eq!(&copy.bytes[..], b"one");
    assert!(!copy.completion);
    assert_eq!(&buffer.bytes[..], b"onetwo");
}

#[test]
fn chunks_tile_the_buffer() {
    let mut buffer = LazyBytes::new();
    let mut seen: Vec<u8> = Vec::new();
    let mut offset = 0;
    for piece in [&b"ab"[..], &b""[..], &b"cde"[..], &b"f"[..]] {
        assert_eq!(buffer.append(piece), Ok(()));
        match buffer.poll(offset).unwrap() {
            Polled::Chunk(bytes) => {
                assert!(bytes.len() > 0);
                seen.extend_from_slice(&bytes);
                offset += bytes.len();
            }
            Polled::NoNewData => assert!(piece.is_empty()),
            Polled::End => panic!("end before the writer finished"),
        }
        assert_eq!(offset, buffer.len());
    }
    assert_eq!(seen, b"abcdef".to_vec());
}

#[test]
fn stream_advances_over_a_buffer() {
    let mut buffer = LazyBytes::new();
    let mut stream = LazyBytesStream::new(Arc::new(RwLock::new(LazyBytes::new())));
    assert_eq!(stream.processed_bytes(), 0);
    assert!(matches!(stream.advance(&buffer), Ok(Polled::NoNewData)));
    assert_eq!(buffer.append(b"AB"), Ok(()));
    assert_eq!(chunk_of(stream.advance(&buffer).unwrap()), b"AB".to_vec());
    assert_eq!(stream.processed_bytes(), 2);
    assert!(matches!(stream.advance(&buffer), Ok(Polled::NoNewData)));
    assert_eq!(stream.processed_bytes(), 2);
    buffer.finish();
    assert!(matches!(stream.advance(&buffer), Ok(Polled::End)));
    assert_eq!(stream.processed_bytes(), 2);
}

#[test]
fn stream_refuses_a_buffer_shorter_than_its_offset() {
    let mut long = LazyBytes::new();
    assert_eq!(long.append(b"abcd"), Ok(()));
    let short = LazyBytes::new();
    let mut stream = LazyBytesStream::new(Arc::new(RwLock::new(LazyBytes::new())));
    assert!(stream.advance(&long).is_ok());
    match stream.advance(&short) {
        Err(e) => assert_eq!(e, ConsistencyError { offset: 4, len: 0 }),
        Ok(_) => panic!("a shrunken buffer was accepted"),
    }
    assert_eq!(stream.processed_bytes(), 4);
}

#[test]
fn stream_polls_the_shared_buffer() {
    let shared = Arc::new(RwLock::new(LazyBytes::new()));
    let mut stream = LazyBytesStream::new(shared.clone());
    assert!(matches!(stream.poll(), Ok(Polled::NoNewData)));
    assert_eq!(shared.write().unwrap().append(b"AB"), Ok(()));
    assert_eq!(chunk_of(stream.poll().unwrap()), b"AB".to_vec());
    assert_eq!(stream.processed_bytes(), 2);
    assert!(matches!(stream.poll(), Ok(Polled::NoNewData)));
    assert_eq!(shared.write().unwrap().append(b"CDE"), Ok(()));
    shared.write().unwrap().finish();
    assert_eq!(chunk_of(stream.poll().unwrap()), b"CDE".to_vec());
    assert_eq!(stream.processed_bytes(), 5);
    assert!(matches!(stream.poll(), Ok(Polled::End)));
    assert!(matches!(stream.poll(), Ok(Polled::End)));
}

#[test]
fn stream_does_not_wait_for_the_writer() {
    let shared = Arc::new(RwLock::new(LazyBytes::new()));
    let mut stream = LazyBytesStream::new(shared.clone());
    {
        let mut guard = shared.write().unwrap();
        assert_eq!(guard.append(b"xyz"), Ok(()));
        assert!(matches!(stream.poll(), Ok(Polled::NoNewData)));
        assert_eq!(stream.processed_bytes(), 0);
    }
    assert_eq!(chunk_of(stream.poll().unwrap()), b"xyz".to_vec());
}

#[test]
fn stream_reports_a_shrunken_shared_buffer() {
    let shared = Arc::new(RwLock::new(LazyBytes::new()));
    let mut stream = LazyBytesStream::new(shared.clone());
    assert_eq!(shared.write().unwrap().append(b"abc"), Ok(()));
    assert!(stream.poll().is_ok());
    *shared.write().unwrap() = LazyBytes::new();
    match stream.poll() {
        Err(StreamError::Inconsistent(e)) => {
            assert_eq!(e, ConsistencyError { offset: 3, len: 0 })
        }
        _ => panic!("a shrunken buffer was accepted"),
    }
}

#[test]
fn two_readers_do_not_disturb_each_other() {
    let shared = Arc::new(RwLock::new(LazyBytes::new()));
    let mut first = LazyBytesStream::new(shared.clone());
    let mut second = LazyBytesStream::new(shared.clone());
    assert_eq!(shared.write().unwrap().append(b"12"), Ok(()));
    assert_eq!(chunk_of(first.poll().unwrap()), b"12".to_vec());
    assert_eq!(shared.write().unwrap().append(b"34"), Ok(()));
    assert_eq!(chunk_of(second.poll().unwrap()), b"1234".to_vec());
    assert_eq!(chunk_of(first.poll().unwrap()), b"34".to_vec());
}

#[test]
fn stream_from_bytes_is_complete() {
    let mut stream = LazyBytesStream::from(Bytes::from(vec![9u8, 8, 7]));
    assert_eq!(stream.processed_bytes(), 0);
    assert_eq!(chunk_of(stream.poll().unwrap()), vec![9u8, 8, 7]);
    assert!(matches!(stream.poll(), Ok(Polled::End)));
}

#[test]
fn stream_from_string_holds_its_utf8() {
    let mut stream = LazyBytesStream::from(String::from("h\u{e9}llo"));
    assert_eq!(chunk_of(stream.poll().unwrap()), vec![0x68u8, 0xc3, 0xa9, 0x6c, 0x6c, 0x6f]);
    assert_eq!(stream.processed_bytes(), 6);
    assert!(matches!(stream.poll(), Ok(Polled::End)));
}

#[test]
fn stream_from_vec_holds_its_bytes() {
    let mut stream = LazyBytesStream::from(vec![0u8, 255, 1]);
    assert_eq!(chunk_of(stream.poll().unwrap()), vec![0u8, 255, 1]);
    assert!(matches!(stream.poll(), Ok(Polled::End)));
}

#[test]
fn stream_from_empty_vec_ends_at_once() {
    let mut stream = LazyBytesStream::from(Vec::<u8>::new());
    assert!(matches!(stream.poll(), Ok(Polled::End)));
    assert_eq!(stream.processed_bytes(), 0);
}

#[test]
fn a_busy_buffer_counts_as_no_new_data() {
    let mut stream = LazyBytesStream::new(Arc::new(RwLock::new(LazyBytes::new())));
    assert!(matches!(stream.settle(Glimpse::Busy), Ok(Polled::NoNewData)));
    assert_eq!(stream.processed_bytes(), 0);
}

#[test]
fn a_poisoned_buffer_is_an_error() {
    let mut stream = LazyBytesStream::new(Arc::new(RwLock::new(LazyBytes::new())));
    match stream.settle(Glimpse::Poisoned) {
        Err(e) => assert_eq!(e, StreamError::Poisoned),
        Ok(_) => panic!("a poisoned buffer was read"),
    }
    assert_eq!(stream.processed_bytes(), 0);
}

#[test]
fn a_copy_found_is_polled_at_the_offset() {
    let mut stream = LazyBytesStream::new(Arc::new(RwLock::new(LazyBytes::new())));
    let mut buffer = LazyBytes::new();
    assert_eq!(buffer.append(b"abc"), Ok(()));
    assert_eq!(chunk_of(stream.settle(Glimpse::Held(buffer.snapshot())).unwrap()), b"abc".to_vec());
    assert_eq!(stream.processed_bytes(), 3);
    assert!(matches!(stream.settle(Glimpse::Held(buffer.snapshot())), Ok(Polled::NoNewData)));
    match stream.settle(Glimpse::Held(LazyBytes::new())) {
        Err(e) => assert_eq!(e, StreamError::Inconsistent(ConsistencyError { offset: 3, len: 0 })),
        Ok(_) => panic!("a shrunken buffer was accepted"),
    }
}
