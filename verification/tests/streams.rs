use c2pa_wasm::error::{FetchFailure, WasmError};
use c2pa_wasm::stream::{BlobStream, BufferStream, ByteRange, SeekFrom};

const SOURCE: [u8; 4] = [0, 1, 2, 3];

/// Reads from a chunked stream as a host does that hands over exactly the
/// range asked for.
fn blob_read(stream: &mut BlobStream, source: &[u8], buf: &mut [u8]) -> Result<usize, WasmError> {
    let fetched = match stream.next_fetch(buf.len()) {
        Some(range) => Ok(source[range.start as usize..range.end as usize].to_vec()),
        None => Ok(Vec::new()),
    };
    stream.read(fetched, buf)
}

#[test]
fn buffer_read_in_sequence() {
    let mut stream = BufferStream::new(&SOURCE);

    let mut buf = vec![0; 2];
    let bytes_read = stream.read(&mut buf);
    assert_eq!(buf, vec![0, 1]);
    assert_eq!(bytes_read, 2);

    let mut next_buf = vec![0; 2];
    let next_bytes_read = stream.read(&mut next_buf);
    assert_eq!(next_buf, vec![2, 3]);
    assert_eq!(next_bytes_read, 2);
    assert_eq!(stream.offset(), 4);
}

#[test]
fn buffer_read_into_oversize_buffer() {
    let mut stream = BufferStream::new(&SOURCE);
    let mut buf = vec![0; 6];
    let bytes_read = stream.read(&mut buf);
    assert_eq!(buf, vec![0, 1, 2, 3, 0, 0]);
    assert_eq!(bytes_read, 4);
}

#[test]
fn buffer_read_keeps_the_rest_of_the_buffer() {
    let mut stream = BufferStream::new(&SOURCE);
    let mut buf = vec![9; 6];
    let bytes_read = stream.read(&mut buf);
    assert_eq!(buf, vec![0, 1, 2, 3, 9, 9]);
    assert_eq!(bytes_read, 4);
    assert_eq!(stream.offset(), 4);
}

#[test]
fn buffer_read_and_seek() {
    let mut stream = BufferStream::new(&SOURCE);

    assert_eq!(stream.seek(SeekFrom::Start(2)), 2);
    let mut buf = vec![0; 2];
    stream.read(&mut buf);
    assert_eq!(buf, vec![2, 3]);

    assert_eq!(stream.seek(SeekFrom::Current(-4)), 0);
    let mut next_buf = vec![0; 2];
    stream.read(&mut next_buf);
    assert_eq!(next_buf, vec![0, 1]);

    assert_eq!(stream.seek(SeekFrom::End(-2)), 2);
    let mut final_buf = vec![0; 2];
    stream.read(&mut final_buf);
    assert_eq!(final_buf, vec![2, 3]);
}

#[test]
fn buffer_seek_past_end_and_read() {
    let mut stream = BufferStream::new(&SOURCE);
    assert_eq!(stream.seek(SeekFrom::Start(10)), 10);
    let mut buf = vec![0; 2];
    let bytes_read = stream.read(&mut buf);
    assert_eq!(buf, vec![0, 0]);
    assert_eq!(bytes_read, 0);
    assert_eq!(stream.offset(), 10);
}

#[test]
fn buffer_end_to_end() {
    let mut stream = BufferStream::new(&SOURCE);
    let mut buf = [7u8; 2];

    assert_eq!(stream.read(&mut buf), 2);
    assert_eq!(buf, [0, 1]);
    assert_eq!(stream.read(&mut buf), 2);
    assert_eq!(buf, [2, 3]);

    stream.seek(SeekFrom::Start(2));
    assert_eq!(stream.read(&mut buf), 2);
    assert_eq!(buf, [2, 3]);

    stream.seek(SeekFrom::Current(-4));
    assert_eq!(stream.read(&mut buf), 2);
    assert_eq!(buf, [0, 1]);

    stream.seek(SeekFrom::End(-2));
    assert_eq!(stream.read(&mut buf), 2);
    assert_eq!(buf, [2, 3]);

    stream.seek(SeekFrom::Start(10));
    let mut last = [7u8; 2];
    assert_eq!(stream.read(&mut last), 0);
    assert_eq!(last, [7, 7]);
}

#[test]
fn buffer_reads_concatenate_to_a_prefix() {
    let source: Vec<u8> = (0u8..10).collect();
    let mut stream = BufferStream::new(&source);
    let mut all = Vec::new();
    for want in [3usize, 0, 4, 5, 2] {
        let mut buf = vec![0xee; want];
        let n = stream.read(&mut buf);
        all.extend_from_slice(&buf[..n]);
    }
    assert_eq!(all, source);
    assert_eq!(stream.offset(), 10);

    let mut short = BufferStream::new(&source);
    let mut taken = Vec::new();
    for want in [3usize, 4] {
        let mut buf = vec![0xee; want];
        let n = short.read(&mut buf);
        taken.extend_from_slice(&buf[..n]);
    }
    assert_eq!(taken, vec![0, 1, 2, 3, 4, 5, 6]);
    assert_eq!(short.offset(), 7);
}

#[test]
fn buffer_seek_from_start_forgets_earlier_reads() {
    let source: Vec<u8> = (0u8..10).collect();
    let mut fresh = BufferStream::new(&source);
    let mut used = BufferStream::new(&source);
    let mut scratch = [0u8; 7];
    used.read(&mut scratch);
    used.seek(SeekFrom::End(3));

    assert_eq!(fresh.seek(SeekFrom::Start(4)), 4);
    assert_eq!(used.seek(SeekFrom::Start(4)), 4);
    let mut a = [0u8; 3];
    let mut b = [0u8; 3];
    assert_eq!(fresh.read(&mut a), used.read(&mut b));
    assert_eq!(a, [4, 5, 6]);
    assert_eq!(a, b);
}

#[test]
fn buffer_seek_from_end_reads_the_tail() {
    let source: Vec<u8> = (0u8..10).collect();
    let mut stream = BufferStream::new(&source);
    assert_eq!(stream.seek(SeekFrom::End(-3)), 7);
    let mut buf = [0u8; 3];
    assert_eq!(stream.read(&mut buf), 3);
    assert_eq!(buf, [7, 8, 9]);

    assert_eq!(stream.seek(SeekFrom::End(-10)), 0);
    let mut whole = [0u8; 10];
    assert_eq!(stream.read(&mut whole), 10);
    assert_eq!(whole.to_vec(), source);
}

#[test]
fn buffer_seek_from_current_composes() {
    let source: Vec<u8> = (0u8..10).collect();
    let mut twice = BufferStream::new(&source);
    let mut once = BufferStream::new(&source);
    twice.seek(SeekFrom::Start(2));
    once.seek(SeekFrom::Start(2));

    twice.seek(SeekFrom::Current(5));
    assert_eq!(twice.seek(SeekFrom::Current(-3)), 4);
    assert_eq!(once.seek(SeekFrom::Current(2)), 4);
}

#[test]
fn seek_before_the_start_stops_at_zero() {
    let mut stream = BufferStream::new(&SOURCE);
    assert_eq!(stream.seek(SeekFrom::Current(-1)), 0);
    assert_eq!(stream.seek(SeekFrom::End(-5)), 0);
    assert_eq!(stream.seek(SeekFrom::End(i64::MIN)), 0);
    // The first of two seeks ran against the start, so the two do not add up.
    assert_eq!(stream.seek(SeekFrom::Current(-1)), 0);
    assert_eq!(stream.seek(SeekFrom::Current(1)), 1);
    let mut buf = [0u8; 1];
    assert_eq!(stream.read(&mut buf), 1);
    assert_eq!(buf, [1]);
}

#[test]
fn seek_beyond_the_largest_offset_stops_there() {
    let mut stream = BufferStream::new(&SOURCE);
    assert_eq!(stream.seek(SeekFrom::Start(u64::MAX)), u64::MAX);
    assert_eq!(stream.seek(SeekFrom::Current(1)), u64::MAX);
    assert_eq!(stream.seek(SeekFrom::Current(i64::MAX)), u64::MAX);
    assert_eq!(stream.seek(SeekFrom::Current(-1)), u64::MAX - 1);
    let mut buf = [5u8; 2];
    assert_eq!(stream.read(&mut buf), 0);
    assert_eq!(buf, [5, 5]);

    let mut blob = BlobStream::new(4);
    assert_eq!(blob.seek(SeekFrom::End(i64::MAX)), 4 + i64::MAX as u64);
    assert_eq!(blob.seek(SeekFrom::Current(i64::MAX)), u64::MAX);
}

#[test]
fn reading_at_the_end_returns_nothing() {
    let mut stream = BufferStream::new(&SOURCE);
    stream.seek(SeekFrom::End(0));
    let mut buf = [5u8; 3];
    assert_eq!(stream.read(&mut buf), 0);
    assert_eq!(buf, [5, 5, 5]);
    assert_eq!(stream.offset(), 4);

    let empty: [u8; 0] = [];
    let mut nothing = BufferStream::new(&empty);
    assert_eq!(nothing.read(&mut buf), 0);
    assert_eq!(buf, [5, 5, 5]);
}

#[test]
fn reading_into_an_empty_buffer_reads_nothing() {
    let mut stream = BufferStream::new(&SOURCE);
    let mut buf: [u8; 0] = [];
    assert_eq!(stream.read(&mut buf), 0);
    assert_eq!(stream.offset(), 0);

    let blob = BlobStream::new(4);
    assert_eq!(blob.next_fetch(0), Some(ByteRange { start: 0, end: 0 }));
}

#[test]
fn buffer_stream_gives_its_source_back() {
    let stream = BufferStream::new(&SOURCE);
    assert_eq!(stream.buffer(), &SOURCE);
    assert_eq!(stream.offset(), 0);
}

#[test]
fn blob_read_in_sequence() {
    let mut stream = BlobStream::new(4);

    let mut buf = vec![0; 2];
    let bytes_read = blob_read(&mut stream, &SOURCE, &mut buf).unwrap();
    assert_eq!(buf, vec![0, 1]);
    assert_eq!(bytes_read, 2);

    let mut next_buf = vec![0; 2];
    let next_bytes_read = blob_read(&mut stream, &SOURCE, &mut next_buf).unwrap();
    assert_eq!(next_buf, vec![2, 3]);
    assert_eq!(next_bytes_read, 2);
}

#[test]
fn blob_read_into_oversize_buffer() {
    let mut stream = BlobStream::new(4);
    let mut buf = vec![0; 6];
    assert_eq!(stream.next_fetch(6), Some(ByteRange { start: 0, end: 4 }));
    let bytes_read = blob_read(&mut stream, &SOURCE, &mut buf).unwrap();
    assert_eq!(buf, vec![0, 1, 2, 3, 0, 0]);
    assert_eq!(bytes_read, 4);
    assert_eq!(stream.offset(), 4);
}

#[test]
fn blob_read_and_seek() {
    let mut stream = BlobStream::new(4);

    stream.seek(SeekFrom::Start(2));
    let mut buf = vec![0; 2];
    blob_read(&mut stream, &SOURCE, &mut buf).unwrap();
    assert_eq!(buf, vec![2, 3]);

    stream.seek(SeekFrom::Current(-4));
    let mut next_buf = vec![0; 2];
    blob_read(&mut stream, &SOURCE, &mut next_buf).unwrap();
    assert_eq!(next_buf, vec![0, 1]);

    stream.seek(SeekFrom::End(-2));
    let mut final_buf = vec![0; 2];
    blob_read(&mut stream, &SOURCE, &mut final_buf).unwrap();
    assert_eq!(final_buf, vec![2, 3]);
}

#[test]
fn blob_seek_past_end_and_read() {
    let mut stream = BlobStream::new(4);
    stream.seek(SeekFrom::Start(10));
    assert_eq!(stream.next_fetch(2), None);
    let mut buf = vec![0; 2];
    let bytes_read = blob_read(&mut stream, &SOURCE, &mut buf).unwrap();
    assert_eq!(buf, vec![0, 0]);
    assert_eq!(bytes_read, 0);
}

#[test]
fn blob_end_to_end() {
    let mut stream = BlobStream::new(4);
    assert_eq!(stream.size(), 4);
    let mut buf = [7u8; 2];

    assert_eq!(blob_read(&mut stream, &SOURCE, &mut buf), Ok(2));
    assert_eq!(buf, [0, 1]);
    assert_eq!(blob_read(&mut stream, &SOURCE, &mut buf), Ok(2));
    assert_eq!(buf, [2, 3]);

    assert_eq!(stream.seek(SeekFrom::Start(2)), 2);
    assert_eq!(blob_read(&mut stream, &SOURCE, &mut buf), Ok(2));
    assert_eq!(buf, [2, 3]);

    assert_eq!(stream.seek(SeekFrom::Current(-4)), 0);
    assert_eq!(blob_read(&mut stream, &SOURCE, &mut buf), Ok(2));
    assert_eq!(buf, [0, 1]);

    assert_eq!(stream.seek(SeekFrom::End(-2)), 2);
    assert_eq!(blob_read(&mut stream, &SOURCE, &mut buf), Ok(2));
    assert_eq!(buf, [2, 3]);

    assert_eq!(stream.seek(SeekFrom::Start(10)), 10);
    let mut last = [7u8; 2];
    assert_eq!(blob_read(&mut stream, &SOURCE, &mut last), Ok(0));
    assert_eq!(last, [7, 7]);
}

#[test]
fn blob_asks_for_the_range_from_the_cursor() {
    let mut stream = BlobStream::new(10);
    assert_eq!(stream.next_fetch(4), Some(ByteRange { start: 0, end: 4 }));
    stream.seek(SeekFrom::Start(7));
    assert_eq!(stream.next_fetch(4), Some(ByteRange { start: 7, end: 10 }));
    assert_eq!(stream.next_fetch(usize::MAX), Some(ByteRange { start: 7, end: 10 }));
    stream.seek(SeekFrom::Start(10));
    assert_eq!(stream.next_fetch(4), None);
}

#[test]
fn blob_failed_fetch_fails_the_read_and_moves_nothing() {
    let mut stream = BlobStream::new(4);
    stream.seek(SeekFrom::Start(1));
    let mut buf = [9u8; 2];
    let result = stream.read(Err(FetchFailure::Read("gone".to_string())), &mut buf);
    assert_eq!(
        result,
        Err(WasmError::SourceFetchFailed(FetchFailure::Read("gone".to_string())))
    );
    assert_eq!(buf, [9, 9]);
    assert_eq!(stream.offset(), 1);

    // The same read can be tried again from the same place.
    assert_eq!(stream.read(Ok(vec![1, 2]), &mut buf), Ok(2));
    assert_eq!(buf, [1, 2]);
    assert_eq!(stream.offset(), 3);
}

#[test]
fn blob_each_fetch_failure_is_handed_on() {
    for failure in [
        FetchFailure::Slice("a".to_string()),
        FetchFailure::Reader("b".to_string()),
        FetchFailure::Read("c".to_string()),
    ] {
        let mut stream = BlobStream::new(4);
        let mut buf = [0u8; 4];
        let expected = format!("{:?}", failure);
        match stream.read(Err(failure), &mut buf) {
            Err(WasmError::SourceFetchFailed(got)) => assert_eq!(format!("{:?}", got), expected),
            other => panic!("unexpected {:?}", other),
        }
    }
}

#[test]
fn blob_short_chunk_moves_the_cursor_by_its_length() {
    let mut stream = BlobStream::new(10);
    let mut buf = [9u8; 4];
    assert_eq!(stream.read(Ok(vec![0, 1]), &mut buf), Ok(2));
    assert_eq!(buf, [0, 1, 9, 9]);
    assert_eq!(stream.offset(), 2);
}

#[test]
fn blob_oversized_chunk_fails_the_read() {
    let mut stream = BlobStream::new(10);
    stream.seek(SeekFrom::Start(8));
    let mut buf = [9u8; 4];
    let result = stream.read(Ok(vec![8, 9, 10]), &mut buf);
    assert_eq!(
        result,
        Err(WasmError::SourceFetchFailed(FetchFailure::Oversized { asked: 2, got: 3 }))
    );
    assert_eq!(buf, [9, 9, 9, 9]);
    assert_eq!(stream.offset(), 8);
}

#[test]
fn blob_read_at_the_end_ignores_the_host() {
    let mut stream = BlobStream::new(4);
    stream.seek(SeekFrom::End(0));
    let mut buf = [9u8; 2];
    assert_eq!(stream.read(Err(FetchFailure::Read("gone".to_string())), &mut buf), Ok(0));
    assert_eq!(stream.read(Ok(vec![1, 2]), &mut buf), Ok(0));
    assert_eq!(buf, [9, 9]);
    assert_eq!(stream.offset(), 4);
}

#[test]
fn fetch_failures_have_their_headlines() {
    assert_eq!(
        FetchFailure::Slice(String::new()).headline(),
        "Failed to create slice from blob"
    );
    assert_eq!(
        FetchFailure::Reader(String::new()).headline(),
        "Failed to create FileReaderSync on blob slice"
    );
    assert_eq!(FetchFailure::Read(String::new()).headline(), "Failed to read blob slice");
    assert_eq!(
        FetchFailure::Oversized { asked: 1, got: 2 }.headline(),
        "Blob slice is longer than the range asked for"
    );
}
