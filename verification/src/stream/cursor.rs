//! The arithmetic of a stream cursor, shared by every kind of byte source.

use vstd::prelude::*;

verus! {

/// Where a seek is measured from, and by how much.
#[derive(Debug, Clone, Copy, PartialEq, Eq)]
pub enum SeekFrom {
    /// An absolute offset from the first byte of the source.
    Start(u64),
    /// An offset relative to the end of the source.
    End(i64),
    /// An offset relative to the cursor.
    Current(i64),
}

/// The largest offset a cursor can hold.
pub open spec fn max_offset() -> int {
    u64::MAX as int
}

/// The position that a seek names, before it is brought into the range of a cursor.
pub open spec fn seek_target(total: int, offset: int, pos: SeekFrom) -> int {
    match pos {
        SeekFrom::Start(n) => n as int,
        SeekFrom::End(n) => total + n,
        SeekFrom::Current(n) => offset + n,
    }
}

/// Brings a position into the range of a cursor: a position before the first
/// byte becomes `0`, one beyond the largest offset becomes the largest offset.
pub open spec fn clamp_offset(target: int) -> int {
    if target < 0 {
        0
    } else if target > max_offset() {
        max_offset()
    } else {
        target
    }
}

/// The offset of a cursor after a seek on a source of `total` bytes.
pub open spec fn seek_offset(total: int, offset: int, pos: SeekFrom) -> int {
    clamp_offset(seek_target(total, offset, pos))
}

/// How many bytes a read into a buffer of `want` bytes takes from a source of
/// `total` bytes when the cursor stands at `offset`.
pub open spec fn read_count(total: int, offset: int, want: int) -> int {
    if offset >= total {
        0
    } else if want <= total - offset {
        want
    } else {
        total - offset
    }
}

/// The bytes that such a read takes from `source`.
pub open spec fn read_bytes(source: Seq<u8>, offset: int, want: int) -> Seq<u8> {
    let count = read_count(source.len() as int, offset, want);
    if count <= 0 {
        Seq::empty()
    } else {
        source.subrange(offset, offset + count)
    }
}

/// A buffer after `chunk` was copied to its front: what lies behind the chunk
/// keeps its earlier contents.
pub open spec fn buffer_after(buf: Seq<u8>, chunk: Seq<u8>) -> Seq<u8> {
    chunk + buf.skip(chunk.len() as int)
}

/// Computes the offset of a cursor after a seek.
pub fn resolve_seek(total: u64, offset: u64, pos: SeekFrom) -> (r: u64)
    ensures
        r == seek_offset(total as int, offset as int, pos),
{
    match pos {
        SeekFrom::Start(n) => n,
        SeekFrom::End(n) => shift(total, n),
        SeekFrom::Current(n) => shift(offset, n),
    }
}

/// Moves `base` by `delta`, staying within the range of a cursor.
pub fn shift(base: u64, delta: i64) -> (r: u64)
    ensures
        r == clamp_offset(base + delta),
{
    let target: i128 = base as i128 + delta as i128;
    if target < 0 {
        0
    } else if target > u64::MAX as i128 {
        u64::MAX
    } else {
        target as u64
    }
}

/// Computes how many bytes a read takes.
pub fn count_read(total: u64, offset: u64, want: usize) -> (n: usize)
    ensures
        n == read_count(total as int, offset as int, want as int),
{
    if offset >= total {
        0
    } else {
        let left: u64 = total - offset;
        if want as u64 <= left {
            want
        } else {
            left as usize
        }
    }
}

/// Copies `chunk` to the front of `buf`.
pub fn copy_front(buf: &mut [u8], chunk: &[u8])
    requires
        chunk@.len() <= old(buf)@.len(),
    ensures
        final(buf)@ == buffer_after(old(buf)@, chunk@),
{
    let mut i: usize = 0;
    while i < chunk.len()
        invariant
            i <= chunk@.len(),
            chunk@.len() <= buf@.len(),
            buf@.len() == old(buf)@.len(),
            buf@ == chunk@.take(i as int) + old(buf)@.skip(i as int),
        decreases chunk@.len() - i,
    {
        buf[i] = chunk[i];
        i += 1;
    }
}

} // verus!
