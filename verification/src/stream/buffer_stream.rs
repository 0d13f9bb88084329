//! A stream over bytes that are already in memory.

use vstd::prelude::*;
use crate::stream::cursor::{
    buffer_after, copy_front, count_read, read_bytes, read_count, resolve_seek, seek_offset,
    SeekFrom,
};

verus! {

/// A cursor over a contiguous source. Reading never fails: the bytes are
/// at hand.
pub struct BufferStream<'a> {
    offset: u64,
    buffer: &'a [u8],
}

impl<'a> BufferStream<'a> {
    /// Where the cursor stands.
    pub closed spec fn position(&self) -> int {
        self.offset as int
    }

    /// The bytes of the source.
    pub closed spec fn source(&self) -> Seq<u8> {
        self.buffer@
    }

    /// A stream over `buffer`, with its cursor at the first byte.
    pub fn new(buffer: &'a [u8]) -> (stream: Self)
        ensures
            stream.source() == buffer@,
            stream.position() == 0,
    {
        Self { offset: 0, buffer }
    }

    /// The bytes of the source.
    pub fn buffer(&self) -> (buffer: &'a [u8])
        ensures
            buffer@ == self.source(),
    {
        self.buffer
    }

    /// Where the cursor stands.
    pub fn offset(&self) -> (offset: u64)
        ensures
            offset == self.position(),
    {
        self.offset
    }

    /// Reads from the cursor on into the front of `buf` and moves the cursor
    /// behind what was read. Returns how many bytes were read: as many as
    /// `buf` holds, or as the source has left if those are fewer. The rest of
    /// `buf` keeps its contents. At or beyond the end nothing is read.
    pub fn read(&mut self, buf: &mut [u8]) -> (count: usize)
        ensures
            final(self).source() == old(self).source(),
            count == read_count(
                old(self).source().len() as int,
                old(self).position(),
                old(buf)@.len() as int,
            ),
            final(self).position() == old(self).position() + count,
            final(buf)@ == buffer_after(
                old(buf)@,
                read_bytes(old(self).source(), old(self).position(), old(buf)@.len() as int),
            ),
    {
        let total: u64 = self.buffer.len() as u64;
        let count: usize = count_read(total, self.offset, buf.len());
        if count == 0 {
            assert(buf@ =~= buffer_after(buf@, Seq::empty()));
            return 0;
        }
        let start: usize = self.offset as usize;
        let chunk: &[u8] = vstd::slice::slice_subrange(self.buffer, start, start + count);
        copy_front(buf, chunk);
        self.offset = self.offset + count as u64;
        count
    }

    /// Moves the cursor. A position before the first byte becomes `0`; one
    /// beyond the end is kept, and reads from it find nothing. Returns the
    /// new offset.
    pub fn seek(&mut self, pos: SeekFrom) -> (offset: u64)
        ensures
            final(self).source() == old(self).source(),
            offset == seek_offset(old(self).source().len() as int, old(self).position(), pos),
            final(self).position() == offset,
    {
        let total: u64 = self.buffer.len() as u64;
        self.offset = resolve_seek(total, self.offset, pos);
        self.offset
    }
}

} // verus!
