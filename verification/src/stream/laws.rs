//! What holds of every sequence of reads and seeks on one cursor.

use vstd::prelude::*;
use crate::error::FetchFailure;
use crate::stream::blob_stream::{chunked_read, fetch_range, ReadOutcome};
use crate::stream::cursor::{
    buffer_after, max_offset, read_bytes, read_count, seek_offset, SeekFrom,
};

verus! {

/// The sum of the buffer sizes of a sequence of reads.
pub open spec fn total_wanted(wants: Seq<nat>) -> nat
    decreases wants.len(),
{
    if wants.len() == 0 {
        0
    } else {
        total_wanted(wants.drop_last()) + wants.last()
    }
}

/// Where the cursor stands after reads with buffers of the sizes `wants`, in
/// that order, on a source of `total` bytes, when it stood at `offset` before.
pub open spec fn offset_after_reads(total: int, offset: int, wants: Seq<nat>) -> int
    decreases wants.len(),
{
    if wants.len() == 0 {
        offset
    } else {
        let before = offset_after_reads(total, offset, wants.drop_last());
        before + read_count(total, before, wants.last() as int)
    }
}

/// The bytes that those reads return, one read after the other.
pub open spec fn bytes_of_reads(source: Seq<u8>, offset: int, wants: Seq<nat>) -> Seq<u8>
    decreases wants.len(),
{
    if wants.len() == 0 {
        Seq::empty()
    } else {
        let before = offset_after_reads(source.len() as int, offset, wants.drop_last());
        bytes_of_reads(source, offset, wants.drop_last()) + read_bytes(
            source,
            before,
            wants.last() as int,
        )
    }
}

/// The smaller of two numbers.
pub open spec fn smaller(a: int, b: int) -> int {
    if a <= b {
        a
    } else {
        b
    }
}

/// Reads in sequence walk through the source without a gap: from a cursor
/// inside the source they return, taken together, the bytes from the cursor
/// up to the sum of the buffer sizes further on, or up to the end of the
/// source if that comes first, and leave the cursor behind the last of them.
/// From a cursor at or beyond the end they return nothing and leave the
/// cursor where it was.
pub proof fn reads_walk_the_source(source: Seq<u8>, offset: int, wants: Seq<nat>)
    requires
        0 <= offset,
    ensures
        offset < source.len() ==> {
            let end = smaller(source.len() as int, offset + total_wanted(wants));
            &&& offset_after_reads(source.len() as int, offset, wants) == end
            &&& bytes_of_reads(source, offset, wants) == source.subrange(offset, end)
        },
        offset >= source.len() ==> {
            &&& offset_after_reads(source.len() as int, offset, wants) == offset
            &&& bytes_of_reads(source, offset, wants) == Seq::<u8>::empty()
        },
    decreases wants.len(),
{
    if wants.len() > 0 {
        reads_walk_the_source(source, offset, wants.drop_last());
        if offset < source.len() {
            let before = smaller(
                source.len() as int,
                offset + total_wanted(wants.drop_last()),
            );
            let end = smaller(source.len() as int, offset + total_wanted(wants));
            assert(source.subrange(offset, before) + read_bytes(
                source,
                before,
                wants.last() as int,
            ) =~= source.subrange(offset, end));
        }
    } else if offset < source.len() {
        assert(source.subrange(offset, offset) =~= Seq::<u8>::empty());
    }
}

/// On a stream whose cursor stands at the first byte, reads with buffers of
/// the sizes `wants` return, taken together, the first bytes of the source,
/// as many as the sizes add up to or as the source holds if those are fewer,
/// and leave the cursor behind them.
pub proof fn reads_return_a_prefix(source: Seq<u8>, wants: Seq<nat>)
    ensures
        offset_after_reads(source.len() as int, 0, wants) == smaller(
            source.len() as int,
            total_wanted(wants) as int,
        ),
        bytes_of_reads(source, 0, wants) == source.take(
            smaller(source.len() as int, total_wanted(wants) as int),
        ),
{
    reads_walk_the_source(source, 0, wants);
    if source.len() == 0 {
        assert(source.take(0) =~= Seq::<u8>::empty());
    }
}

/// A seek from the start decides the position alone: wherever two cursors on
/// one source stood before, after the same seek from the start they stand at
/// the offset named, and a read returns the same bytes from both.
pub proof fn seek_from_start_forgets(
    source: Seq<u8>,
    first: int,
    second: int,
    n: u64,
    want: int,
)
    ensures
        seek_offset(source.len() as int, first, SeekFrom::Start(n)) == n,
        seek_offset(source.len() as int, second, SeekFrom::Start(n)) == n,
        read_count(
            source.len() as int,
            seek_offset(source.len() as int, first, SeekFrom::Start(n)),
            want,
        ) == read_count(
            source.len() as int,
            seek_offset(source.len() as int, second, SeekFrom::Start(n)),
            want,
        ),
        read_bytes(source, seek_offset(source.len() as int, first, SeekFrom::Start(n)), want)
            == read_bytes(
            source,
            seek_offset(source.len() as int, second, SeekFrom::Start(n)),
            want,
        ),
{
}

/// A seek to `back` bytes before the end, followed by a read into a buffer of
/// that many bytes, returns the last `back` bytes of the source, wherever the
/// cursor stood before.
pub proof fn seek_from_end_reads_the_tail(source: Seq<u8>, offset: int, back: i64)
    requires
        source.len() <= max_offset(),
        0 <= back <= source.len(),
    ensures
        seek_offset(source.len() as int, offset, SeekFrom::End((-back) as i64)) == source.len()
            - back,
        read_count(
            source.len() as int,
            seek_offset(source.len() as int, offset, SeekFrom::End((-back) as i64)),
            back as int,
        ) == back,
        read_bytes(
            source,
            seek_offset(source.len() as int, offset, SeekFrom::End((-back) as i64)),
            back as int,
        ) == source.subrange(source.len() - back, source.len() as int),
{
    if back == 0 {
        assert(source.subrange(source.len() as int, source.len() as int) =~= Seq::<u8>::empty());
    }
}

/// Whether a seek by `d1` from `offset` leaves room for a seek by `d2` to
/// compose with it: the first seek stays inside the range of a cursor, or the
/// second moves further in the direction in which the first left it.
pub open spec fn seeks_compose(offset: int, d1: i64, d2: i64) -> bool {
    ||| 0 <= offset + d1 <= max_offset()
    ||| (offset + d1 < 0 && d2 <= 0)
    ||| (offset + d1 > max_offset() && d2 >= 0)
}

/// Seeks from the cursor compose: a seek by `d1` followed by one by `d2`
/// leaves the cursor where one seek by `d1 + d2` leaves it, as long as the
/// first seek did not run against a bound of the range that the second moves
/// away from; and only so long.
pub proof fn seek_from_current_composes(total: int, offset: int, d1: i64, d2: i64)
    requires
        0 <= offset <= max_offset(),
        i64::MIN <= d1 + d2 <= i64::MAX,
    ensures
        seeks_compose(offset, d1, d2) <==> seek_offset(
            total,
            seek_offset(total, offset, SeekFrom::Current(d1)),
            SeekFrom::Current(d2),
        ) == seek_offset(total, offset, SeekFrom::Current((d1 + d2) as i64)),
{
}

/// At or beyond the end of the source a read returns no bytes and leaves the
/// buffer as it was.
pub proof fn read_at_end_is_empty(source: Seq<u8>, offset: int, buf: Seq<u8>)
    requires
        offset >= source.len(),
    ensures
        read_count(source.len() as int, offset, buf.len() as int) == 0,
        read_bytes(source, offset, buf.len() as int) == Seq::<u8>::empty(),
        buffer_after(buf, read_bytes(source, offset, buf.len() as int)) == buf,
{
    assert(buffer_after(buf, Seq::<u8>::empty()) =~= buf);
}

/// At or beyond the end of a chunked source a read asks the host for nothing,
/// returns no bytes and does not fail, whatever the host answers.
pub proof fn chunked_read_at_end_is_empty(
    total: int,
    offset: int,
    fetched: Result<Seq<u8>, FetchFailure>,
    buf: Seq<u8>,
)
    requires
        offset >= total,
    ensures
        fetch_range(total, offset, buf.len() as int) is None,
        chunked_read(total, offset, fetched, buf) == (ReadOutcome {
            result: Ok(0),
            position: offset,
            buf,
        }),
{
}

/// A read of a chunked source that is handed the bytes of the range it asked
/// for ends as a read of the same bytes in memory does: it returns their
/// number, copies them to the front of the buffer and moves the cursor behind
/// them.
pub proof fn chunked_read_of_faithful_fetch(source: Seq<u8>, offset: int, buf: Seq<u8>)
    requires
        0 <= offset < source.len() <= max_offset(),
        buf.len() <= usize::MAX,
    ensures
        fetch_range(source.len() as int, offset, buf.len() as int) matches Some(range)
            && range.start == offset && range.end == offset + read_count(
            source.len() as int,
            offset,
            buf.len() as int,
        ) && chunked_read(
            source.len() as int,
            offset,
            Ok(source.subrange(range.start as int, range.end as int)),
            buf,
        ) == (ReadOutcome {
            result: Ok(read_count(source.len() as int, offset, buf.len() as int) as usize),
            position: offset + read_count(source.len() as int, offset, buf.len() as int),
            buf: buffer_after(buf, read_bytes(source, offset, buf.len() as int)),
        }),
{
}

} // verus!
