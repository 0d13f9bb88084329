//! PEM: text that wraps base64 between a line that begins a block and a line
//! that ends it. One text may hold several blocks, one after the other.

use vstd::prelude::*;
use crate::text::{contains_mark, find, find_from, lemma_find_from_is_a_position};

verus! {

/// The bytes of `-----BEGIN`, which open the line before a block.
pub open spec fn begin_mark() -> Seq<u8> {
    seq![45u8, 45, 45, 45, 45, 66, 69, 71, 73, 78]
}

/// The bytes of `-----END`, which open the line behind a block.
pub open spec fn end_mark() -> Seq<u8> {
    seq![45u8, 45, 45, 45, 45, 69, 78, 68]
}

/// The bytes of `-----`, which close both lines.
pub open spec fn dashes() -> Seq<u8> {
    seq![45u8, 45, 45, 45, 45]
}

/// Where a block lies in a text: its body, and the position behind its last
/// line, from which the search for the next block goes on.
pub struct BlockBounds {
    pub body_start: int,
    pub body_end: int,
    pub resume: int,
}

/// The first complete block at or behind `from`.
///
/// A block is: `-----BEGIN`; a label, which ends at the next `-----`; the
/// body, which ends at the next `-----END`; a label, which ends at the next
/// `-----`. The labels are not looked at.
pub open spec fn next_block(text: Seq<u8>, from: int) -> Option<BlockBounds> {
    match find_from(text, begin_mark(), from) {
        None => None,
        Some(begin) => match find_from(text, dashes(), begin + 10) {
            None => None,
            Some(head_end) => match find_from(text, end_mark(), head_end + 5) {
                None => None,
                Some(end) => match find_from(text, dashes(), end + 8) {
                    None => None,
                    Some(tail_end) => Some(
                        BlockBounds {
                            body_start: head_end + 5,
                            body_end: end,
                            resume: tail_end + 5,
                        },
                    ),
                },
            },
        },
    }
}

/// A block that was found lies inside the text, behind where the search began.
pub proof fn lemma_next_block_bounds(text: Seq<u8>, from: int)
    ensures
        next_block(text, from) matches Some(block) ==> {
            &&& 0 <= from
            &&& from + 15 <= block.body_start <= block.body_end
            &&& block.body_end + 13 <= block.resume <= text.len()
        },
{
    lemma_find_from_is_a_position(text, begin_mark(), from);
    if let Some(begin) = find_from(text, begin_mark(), from) {
        lemma_find_from_is_a_position(text, dashes(), begin + 10);
        if let Some(head_end) = find_from(text, dashes(), begin + 10) {
            lemma_find_from_is_a_position(text, end_mark(), head_end + 5);
            if let Some(end) = find_from(text, end_mark(), head_end + 5) {
                lemma_find_from_is_a_position(text, dashes(), end + 8);
            }
        }
    }
}

/// The complete blocks of `text` that start at or behind `from`, in the
/// order of the text. The search for the next block goes on behind the last
/// line of the block before.
pub open spec fn blocks_from(text: Seq<u8>, from: int) -> Seq<BlockBounds>
    decreases text.len() - from,
{
    match next_block(text, from) {
        Some(block) => {
            proof {
                lemma_next_block_bounds(text, from);
            }
            seq![block] + blocks_from(text, block.resume)
        },
        None => Seq::empty(),
    }
}

/// The body of a block: what stands between its two lines.
pub open spec fn body_of(text: Seq<u8>, block: BlockBounds) -> Seq<u8> {
    text.subrange(block.body_start, block.body_end)
}

/// The bodies of the complete blocks of `text`, in the order of the text.
pub open spec fn block_bodies(text: Seq<u8>) -> Seq<Seq<u8>> {
    blocks_from(text, 0).map_values(|block: BlockBounds| body_of(text, block))
}

/// Where a block lies in a text, as the program holds it.
#[derive(Debug, Clone, Copy, PartialEq, Eq)]
pub struct Block {
    pub body_start: usize,
    pub body_end: usize,
    pub resume: usize,
}

impl Block {
    /// The same bounds as numbers without a limit.
    pub open spec fn bounds(self) -> BlockBounds {
        BlockBounds {
            body_start: self.body_start as int,
            body_end: self.body_end as int,
            resume: self.resume as int,
        }
    }
}

/// Whether `text` holds the mark that opens the line before a block.
pub fn has_begin_mark(text: &[u8]) -> (found: bool)
    ensures
        found == contains_mark(text@, begin_mark()),
{
    let begin_line: [u8; 10] = [45, 45, 45, 45, 45, 66, 69, 71, 73, 78];
    assert(begin_line@ =~= begin_mark());
    find(text, begin_line.as_slice(), 0).is_some()
}

/// Finds the first complete block at or behind `from`.
pub fn find_block(text: &[u8], from: usize) -> (found: Option<Block>)
    ensures
        match found {
            Some(block) => next_block(text@, from as int) == Some(block.bounds()),
            None => next_block(text@, from as int) is None,
        },
{
    let begin_line: [u8; 10] = [45, 45, 45, 45, 45, 66, 69, 71, 73, 78];
    let end_line: [u8; 8] = [45, 45, 45, 45, 45, 69, 78, 68];
    let closing: [u8; 5] = [45, 45, 45, 45, 45];
    assert(begin_line@ =~= begin_mark());
    assert(end_line@ =~= end_mark());
    assert(closing@ =~= dashes());
    assert(begin_mark().len() == 10 && end_mark().len() == 8 && dashes().len() == 5);
    proof {
        lemma_next_block_bounds(text@, from as int);
        lemma_find_from_is_a_position(text@, begin_mark(), from as int);
    }
    let begin: usize = match find(text, begin_line.as_slice(), from) {
        Some(at) => at,
        None => {
            return None;
        },
    };
    proof {
        lemma_find_from_is_a_position(text@, dashes(), begin + 10);
    }
    let head_end: usize = match find(text, closing.as_slice(), begin + 10) {
        Some(at) => at,
        None => {
            return None;
        },
    };
    proof {
        lemma_find_from_is_a_position(text@, end_mark(), head_end + 5);
    }
    let end: usize = match find(text, end_line.as_slice(), head_end + 5) {
        Some(at) => at,
        None => {
            return None;
        },
    };
    proof {
        lemma_find_from_is_a_position(text@, dashes(), end + 8);
    }
    let tail_end: usize = match find(text, closing.as_slice(), end + 8) {
        Some(at) => at,
        None => {
            return None;
        },
    };
    Some(Block { body_start: head_end + 5, body_end: end, resume: tail_end + 5 })
}

/// Finds the complete blocks of `text`, in the order of the text.
pub fn find_blocks(text: &[u8]) -> (blocks: Vec<Block>)
    ensures
        blocks@.len() == blocks_from(text@, 0).len(),
        forall|i: int|
            0 <= i < blocks@.len() ==> {
                &&& (#[trigger] blocks@[i]).bounds() == blocks_from(text@, 0)[i]
                &&& blocks@[i].body_start <= blocks@[i].body_end <= text@.len()
            },
{
    let mut blocks: Vec<Block> = Vec::new();
    let mut from: usize = 0;
    let ghost mut found: Seq<BlockBounds> = Seq::empty();
    assert(found + blocks_from(text@, 0) =~= blocks_from(text@, 0));
    loop
        invariant
            from <= text@.len(),
            blocks_from(text@, 0) == found + blocks_from(text@, from as int),
            blocks@.len() == found.len(),
            forall|i: int|
                0 <= i < blocks@.len() ==> {
                    &&& (#[trigger] blocks@[i]).bounds() == found[i]
                    &&& blocks@[i].body_start <= blocks@[i].body_end <= text@.len()
                },
        decreases text@.len() - from,
    {
        proof {
            lemma_next_block_bounds(text@, from as int);
        }
        match find_block(text, from) {
            None => {
                assert(blocks_from(text@, from as int) =~= Seq::<BlockBounds>::empty());
                assert(found + Seq::<BlockBounds>::empty() =~= found);
                return blocks;
            },
            Some(block) => {
                let ghost earlier = blocks@;
                proof {
                    assert(blocks_from(text@, from as int) == seq![block.bounds()] + blocks_from(
                        text@,
                        block.resume as int,
                    ));
                    assert((found + seq![block.bounds()]) + blocks_from(
                        text@,
                        block.resume as int,
                    ) =~= found + (seq![block.bounds()] + blocks_from(
                        text@,
                        block.resume as int,
                    )));
                    found = found + seq![block.bounds()];
                }
                blocks.push(block);
                from = block.resume;
                assert forall|i: int| 0 <= i < blocks@.len() implies {
                    &&& (#[trigger] blocks@[i]).bounds() == found[i]
                    &&& blocks@[i].body_start <= blocks@[i].body_end <= text@.len()
                } by {
                    if i < earlier.len() {
                        assert(blocks@[i] == earlier[i]);
                    }
                }
            },
        }
    }
}

} // verus!
