//! A stream over a source whose bytes the host hands over range by range.
//!
//! Fetching a range is the work of the host and may fail. The stream decides
//! which range a read needs and what becomes of the bytes that came back; the
//! caller fetches in between.

use vstd::prelude::*;
use crate::error::{FetchFailure, WasmError};
use crate::stream::cursor::{
    buffer_after, copy_front, count_read, read_count, resolve_seek, seek_offset, SeekFrom,
};

verus! {

/// The bytes of a source from `start` up to, and without, `end`.
#[derive(Debug, Clone, Copy, PartialEq, Eq)]
pub struct ByteRange {
    pub start: u64,
    pub end: u64,
}

/// The range that a read into a buffer of `want` bytes needs from a source of
/// `total` bytes whose cursor stands at `offset`: none at or beyond the end.
pub open spec fn fetch_range(total: int, offset: int, want: int) -> Option<ByteRange> {
    if offset >= total {
        None
    } else {
        Some(
            ByteRange {
                start: offset as u64,
                end: (offset + read_count(total, offset, want)) as u64,
            },
        )
    }
}

/// What the host answered to a fetch, with the bytes as a sequence.
pub open spec fn fetched_view(fetched: Result<Vec<u8>, FetchFailure>) -> Result<
    Seq<u8>,
    FetchFailure,
> {
    match fetched {
        Ok(chunk) => Ok(chunk@),
        Err(failure) => Err(failure),
    }
}

/// A read as it ends: what it returns, where the cursor stands and what the
/// buffer holds.
pub struct ReadOutcome {
    pub result: Result<usize, WasmError>,
    pub position: int,
    pub buf: Seq<u8>,
}

/// How a read of a chunked source of `total` bytes ends, with the cursor at
/// `offset`, for each answer of the host.
///
/// At or beyond the end the read returns `0` whatever the answer is. A failed
/// fetch fails the read. So does a chunk that is longer than the range asked
/// for. In both cases cursor and buffer stay as they were. Any other chunk is
/// copied to the front of the buffer, and the cursor moves by its length.
pub open spec fn chunked_read(
    total: int,
    offset: int,
    fetched: Result<Seq<u8>, FetchFailure>,
    buf: Seq<u8>,
) -> ReadOutcome {
    let asked = read_count(total, offset, buf.len() as int);
    if offset >= total {
        ReadOutcome { result: Ok(0), position: offset, buf }
    } else {
        match fetched {
            Err(failure) => ReadOutcome {
                result: Err(WasmError::SourceFetchFailed(failure)),
                position: offset,
                buf,
            },
            Ok(chunk) => if chunk.len() > asked {
                ReadOutcome {
                    result: Err(
                        WasmError::SourceFetchFailed(
                            FetchFailure::Oversized { asked: asked as u64, got: chunk.len() as u64 },
                        ),
                    ),
                    position: offset,
                    buf,
                }
            } else {
                ReadOutcome {
                    result: Ok(chunk.len() as usize),
                    position: offset + chunk.len(),
                    buf: buffer_after(buf, chunk),
                }
            },
        }
    }
}

/// A cursor over a chunked source of known length.
pub struct BlobStream {
    offset: u64,
    size: u64,
}

impl BlobStream {
    /// Where the cursor stands.
    pub closed spec fn position(&self) -> int {
        self.offset as int
    }

    /// The length of the source.
    pub closed spec fn total(&self) -> int {
        self.size as int
    }

    /// A stream over a source of `size` bytes, with its cursor at the first byte.
    pub fn new(size: u64) -> (stream: Self)
        ensures
            stream.total() == size,
            stream.position() == 0,
    {
        Self { offset: 0, size }
    }

    /// Where the cursor stands.
    pub fn offset(&self) -> (offset: u64)
        ensures
            offset == self.position(),
    {
        self.offset
    }

    /// The length of the source.
    pub fn size(&self) -> (size: u64)
        ensures
            size == self.total(),
    {
        self.size
    }

    /// The range that the host has to fetch before a read into a buffer of
    /// `want` bytes: from the cursor on, as many bytes as the buffer holds or
    /// as the source has left. At or beyond the end there is nothing to fetch.
    pub fn next_fetch(&self, want: usize) -> (range: Option<ByteRange>)
        ensures
            range == fetch_range(self.total(), self.position(), want as int),
    {
        if self.offset >= self.size {
            None
        } else {
            let count: usize = count_read(self.size, self.offset, want);
            Some(ByteRange { start: self.offset, end: self.offset + count as u64 })
        }
    }

    /// Ends a read into `buf` with what the host answered to the fetch of
    /// `next_fetch(buf.len())`, and returns how many bytes were read.
    pub fn read(&mut self, fetched: Result<Vec<u8>, FetchFailure>, buf: &mut [u8]) -> (result:
        Result<usize, WasmError>)
        ensures
            final(self).total() == old(self).total(),
            (ReadOutcome {
                result,
                position: final(self).position(),
                buf: final(buf)@,
            }) == chunked_read(
                old(self).total(),
                old(self).position(),
                fetched_view(fetched),
                old(buf)@,
            ),
    {
        if self.offset >= self.size {
            return Ok(0);
        }
        match fetched {
            Err(failure) => Err(WasmError::SourceFetchFailed(failure)),
            Ok(chunk) => {
                let asked: usize = count_read(self.size, self.offset, buf.len());
                if chunk.len() > asked {
                    Err(
                        WasmError::SourceFetchFailed(
                            FetchFailure::Oversized { asked: asked as u64, got: chunk.len() as u64 },
                        ),
                    )
                } else {
                    copy_front(buf, chunk.as_slice());
                    self.offset = self.offset + chunk.len() as u64;
                    Ok(chunk.len())
                }
            },
        }
    }

    /// Moves the cursor. A position before the first byte becomes `0`; one
    /// beyond the end is kept, and reads from it find nothing. Returns the
    /// new offset.
    pub fn seek(&mut self, pos: SeekFrom) -> (offset: u64)
        ensures
            final(self).total() == old(self).total(),
            offset == seek_offset(old(self).total(), old(self).position(), pos),
            final(self).position() == offset,
    {
        self.offset = resolve_seek(self.size, self.offset, pos);
        self.offset
    }
}

} // verus!
