//! Text as bytes: white space, and the search for a mark.

use vstd::prelude::*;

verus! {

/// Whether a byte is white space: a space, a tab, a line feed, a form feed or
/// a carriage return.
pub open spec fn is_space(b: u8) -> bool {
    b == 32 || b == 9 || b == 10 || b == 12 || b == 13
}

/// `text` without its white space.
pub open spec fn strip_spaces(text: Seq<u8>) -> Seq<u8> {
    text.filter(|b: u8| !is_space(b))
}

/// Whether `mark` stands in `text` at the position `at`.
pub open spec fn occurs_at(text: Seq<u8>, mark: Seq<u8>, at: int) -> bool {
    &&& 0 <= at
    &&& at + mark.len() <= text.len()
    &&& text.subrange(at, at + mark.len()) == mark
}

/// The first position at or behind `from` at which `mark` stands in `text`.
pub open spec fn find_from(text: Seq<u8>, mark: Seq<u8>, from: int) -> Option<int>
    decreases text.len() - from + 1,
{
    if from < 0 || from + mark.len() > text.len() {
        None
    } else if occurs_at(text, mark, from) {
        Some(from)
    } else {
        find_from(text, mark, from + 1)
    }
}

/// Whether `mark` stands anywhere in `text`.
pub open spec fn contains_mark(text: Seq<u8>, mark: Seq<u8>) -> bool {
    find_from(text, mark, 0) is Some
}

/// What `find_from` finds is a position of the mark, not before `from`.
pub proof fn lemma_find_from_is_a_position(text: Seq<u8>, mark: Seq<u8>, from: int)
    ensures
        find_from(text, mark, from) matches Some(at) ==> from <= at && occurs_at(text, mark, at),
    decreases text.len() - from + 1,
{
    if !(from < 0 || from + mark.len() > text.len()) && !occurs_at(text, mark, from) {
        lemma_find_from_is_a_position(text, mark, from + 1);
    }
}

/// Stripping a text that holds no white space changes nothing, so stripping
/// twice is stripping once.
pub proof fn lemma_strip_is_idempotent(text: Seq<u8>)
    ensures
        strip_spaces(strip_spaces(text)) == strip_spaces(text),
    decreases text.len(),
{
    reveal(Seq::filter);
    let keep = |b: u8| !is_space(b);
    if text.len() > 0 {
        lemma_strip_is_idempotent(text.drop_last());
        let front = text.drop_last().filter(keep);
        if keep(text.last()) {
            assert(front.push(text.last()).drop_last() =~= front);
            assert(text.filter(keep) == front.push(text.last()));
            assert(front.push(text.last()).filter(keep) == front.filter(keep).push(text.last()));
        }
    }
}

/// Whether a byte is white space.
pub fn is_space_byte(b: u8) -> (space: bool)
    ensures
        space == is_space(b),
{
    b == 32 || b == 9 || b == 10 || b == 12 || b == 13
}

/// Copies `text` without its white space.
pub fn strip(text: &[u8]) -> (stripped: Vec<u8>)
    ensures
        stripped@ == strip_spaces(text@),
{
    let mut out: Vec<u8> = Vec::new();
    let mut i: usize = 0;
    proof {
        reveal(Seq::filter);
        assert(text@.take(0) =~= Seq::<u8>::empty());
    }
    while i < text.len()
        invariant
            i <= text@.len(),
            out@ == strip_spaces(text@.take(i as int)),
        decreases text@.len() - i,
    {
        proof {
            reveal(Seq::filter);
            assert(text@.take(i + 1).drop_last() =~= text@.take(i as int));
        }
        if !is_space_byte(text[i]) {
            out.push(text[i]);
        }
        i += 1;
    }
    assert(text@.take(text@.len() as int) =~= text@);
    out
}

/// Whether `mark` stands in `text` at the position `at`.
pub fn matches_at(text: &[u8], mark: &[u8], at: usize) -> (found: bool)
    ensures
        found == occurs_at(text@, mark@, at as int),
{
    if mark.len() > text.len() || at > text.len() - mark.len() {
        return false;
    }
    let mut k: usize = 0;
    while k < mark.len()
        invariant
            k <= mark@.len(),
            at + mark@.len() <= text@.len() <= usize::MAX,
            forall|j: int| 0 <= j < k ==> text@[at + j] == mark@[j],
        decreases mark@.len() - k,
    {
        if text[at + k] != mark[k] {
            assert(text@.subrange(at as int, at + mark@.len())[k as int] != mark@[k as int]);
            return false;
        }
        k += 1;
    }
    assert(text@.subrange(at as int, at + mark@.len()) =~= mark@);
    true
}

/// Finds the first position at or behind `from` at which `mark` stands in
/// `text`.
pub fn find(text: &[u8], mark: &[u8], from: usize) -> (found: Option<usize>)
    ensures
        match found {
            Some(at) => find_from(text@, mark@, from as int) == Some(at as int),
            None => find_from(text@, mark@, from as int) is None,
        },
        found matches Some(at) ==> from <= at && at + mark@.len() <= text@.len() <= usize::MAX,
{
    if mark.len() > text.len() {
        return None;
    }
    let last: usize = text.len() - mark.len();
    let mut at: usize = from;
    while at <= last
        invariant
            last + mark@.len() == text@.len() <= usize::MAX,
            from <= at,
            find_from(text@, mark@, from as int) == find_from(text@, mark@, at as int),
        decreases last - at,
    {
        if matches_at(text, mark, at) {
            return Some(at);
        }
        if at == last {
            assert(find_from(text@, mark@, at + 1) is None);
            return None;
        }
        at += 1;
    }
    None
}

} // verus!
