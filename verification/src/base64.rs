//! Base64 with the standard alphabet and mandatory padding.

use vstd::prelude::*;

verus! {

/// The character `=`, which fills the last group of an encoding up to four.
pub const PAD: u8 = 61;

/// The character `A`, first of the alphabet.
pub const UPPER_A: u8 = 65;

/// The character `Z`.
pub const UPPER_Z: u8 = 90;

/// The character `a`.
pub const LOWER_A: u8 = 97;

/// The character `z`.
pub const LOWER_Z: u8 = 122;

/// The character `0`.
pub const DIGIT_0: u8 = 48;

/// The character `9`.
pub const DIGIT_9: u8 = 57;

/// The character `+`.
pub const PLUS: u8 = 43;

/// The character `/`, last of the alphabet.
pub const SLASH: u8 = 47;

/// The six bits that a character of the alphabet stands for.
pub open spec fn sextet(c: u8) -> Option<u8> {
    if UPPER_A <= c <= UPPER_Z {
        Some((c - UPPER_A) as u8)
    } else if LOWER_A <= c <= LOWER_Z {
        Some((c - LOWER_A + 26) as u8)
    } else if DIGIT_0 <= c <= DIGIT_9 {
        Some((c - DIGIT_0 + 52) as u8)
    } else if c == PLUS {
        Some(62)
    } else if c == SLASH {
        Some(63)
    } else {
        None
    }
}

/// The three bytes that four sextets hold.
pub open spec fn group_bytes(a: u8, b: u8, c: u8, d: u8) -> Seq<u8> {
    seq![(a * 4 + b / 16) as u8, ((b % 16) * 16 + c / 4) as u8, ((c % 4) * 64 + d) as u8]
}

/// What a group of four characters without padding decodes to.
pub open spec fn decode_group(group: Seq<u8>) -> Option<Seq<u8>> {
    match (sextet(group[0]), sextet(group[1]), sextet(group[2]), sextet(group[3])) {
        (Some(a), Some(b), Some(c), Some(d)) => Some(group_bytes(a, b, c, d)),
        _ => None,
    }
}

/// What the last group of an encoding decodes to. It may end in one or two
/// padding characters and stands for two bytes or one in that case; the bits
/// that belong to no byte have to be zero.
pub open spec fn decode_last_group(group: Seq<u8>) -> Option<Seq<u8>> {
    if group[3] != PAD {
        decode_group(group)
    } else if group[2] != PAD {
        match (sextet(group[0]), sextet(group[1]), sextet(group[2])) {
            (Some(a), Some(b), Some(c)) => if c % 4 == 0 {
                Some(group_bytes(a, b, c, 0).take(2))
            } else {
                None
            },
            _ => None,
        }
    } else {
        match (sextet(group[0]), sextet(group[1])) {
            (Some(a), Some(b)) => if b % 16 == 0 {
                Some(group_bytes(a, b, 0, 0).take(1))
            } else {
                None
            },
            _ => None,
        }
    }
}

/// The bytes that `text` encodes, if it is well formed: groups of four
/// characters of the alphabet, of which only the last may be padded. The
/// empty text encodes no bytes.
pub open spec fn decode(text: Seq<u8>) -> Option<Seq<u8>>
    decreases text.len(),
{
    if text.len() == 0 {
        Some(Seq::empty())
    } else if text.len() < 4 {
        None
    } else if text.len() == 4 {
        decode_last_group(text)
    } else {
        match (decode_group(text.take(4)), decode(text.skip(4))) {
            (Some(head), Some(tail)) => Some(head + tail),
            _ => None,
        }
    }
}

/// The bytes in `done` followed by what is still to come, if that is
/// well formed.
pub open spec fn decode_after(done: Seq<u8>, rest: Option<Seq<u8>>) -> Option<Seq<u8>> {
    match rest {
        Some(tail) => Some(done + tail),
        None => None,
    }
}

/// A text whose length is no multiple of four is not well formed.
pub proof fn lemma_decode_needs_groups(text: Seq<u8>)
    requires
        text.len() % 4 != 0,
    ensures
        decode(text) is None,
    decreases text.len(),
{
    if text.len() > 4 {
        lemma_decode_needs_groups(text.skip(4));
    }
}

/// A text that is well formed holds characters of the alphabet and padding
/// only.
pub proof fn lemma_decoded_text_is_alphabet(text: Seq<u8>)
    requires
        decode(text) is Some,
    ensures
        forall|i: int| 0 <= i < text.len() ==> sextet(#[trigger] text[i]) is Some || text[i] == PAD,
    decreases text.len(),
{
    if text.len() > 4 {
        let head = text.take(4);
        let tail = text.skip(4);
        lemma_decoded_text_is_alphabet(tail);
        assert forall|i: int| 0 <= i < text.len() implies sextet(#[trigger] text[i]) is Some
            || text[i] == PAD by {
            if i < 4 {
                assert(text[i] == head[i]);
            } else {
                assert(text[i] == tail[i - 4]);
            }
        }
    }
}

/// Looks up the six bits of a character.
pub fn sextet_of(c: u8) -> (value: Option<u8>)
    ensures
        value == sextet(c),
        value matches Some(v) ==> v < 64,
{
    if UPPER_A <= c && c <= UPPER_Z {
        Some(c - UPPER_A)
    } else if LOWER_A <= c && c <= LOWER_Z {
        Some(c - LOWER_A + 26)
    } else if DIGIT_0 <= c && c <= DIGIT_9 {
        Some(c - DIGIT_0 + 52)
    } else if c == PLUS {
        Some(62)
    } else if c == SLASH {
        Some(63)
    } else {
        None
    }
}

/// A text of more than one group decodes group by group.
pub proof fn lemma_decode_unfolds(text: Seq<u8>, at: int)
    requires
        0 <= at,
        at + 4 < text.len(),
    ensures
        decode(text.skip(at)) == match decode_group(text.subrange(at, at + 4)) {
            Some(head) => decode_after(head, decode(text.skip(at + 4))),
            None => None,
        },
{
    let rest = text.skip(at);
    assert(rest.take(4) =~= text.subrange(at, at + 4));
    assert(rest.skip(4) =~= text.skip(at + 4));
}

/// Decodes the group of four characters that starts at `at` and is not the
/// last one.
pub fn decode_group_at(text: &[u8], at: usize) -> (bytes: Option<[u8; 3]>)
    requires
        at + 4 <= text@.len(),
    ensures
        match bytes {
            Some(b) => decode_group(text@.subrange(at as int, at + 4)) == Some(b@),
            None => decode_group(text@.subrange(at as int, at + 4)) is None,
        },
{
    let ghost group = text@.subrange(at as int, at + 4);
    assert(group[0] == text@[at as int] && group[1] == text@[at + 1] && group[2] == text@[at + 2]
        && group[3] == text@[at + 3]);
    let a: u8 = match sextet_of(text[at]) {
        Some(v) => v,
        None => {
            return None;
        },
    };
    let b: u8 = match sextet_of(text[at + 1]) {
        Some(v) => v,
        None => {
            return None;
        },
    };
    let c: u8 = match sextet_of(text[at + 2]) {
        Some(v) => v,
        None => {
            return None;
        },
    };
    let d: u8 = match sextet_of(text[at + 3]) {
        Some(v) => v,
        None => {
            return None;
        },
    };
    let bytes: [u8; 3] = [a * 4 + b / 16, (b % 16) * 16 + c / 4, (c % 4) * 64 + d];
    assert(bytes@ =~= group_bytes(a, b, c, d));
    Some(bytes)
}

/// Decodes the last group of four characters of `text` and appends its bytes
/// to `out`. A group that is not well formed leaves `out` as it was.
pub fn decode_last_group_into(text: &[u8], out: &mut Vec<u8>) -> (well_formed: bool)
    requires
        text@.len() >= 4,
    ensures
        match decode_last_group(text@.skip(text@.len() - 4)) {
            Some(bytes) => well_formed && final(out)@ == old(out)@ + bytes,
            None => !well_formed && final(out)@ == old(out)@,
        },
{
    let at: usize = text.len() - 4;
    let ghost group = text@.skip(at as int);
    assert(group[0] == text@[at as int] && group[1] == text@[at + 1] && group[2] == text@[at + 2]
        && group[3] == text@[at + 3]);
    if text[at + 3] != PAD {
        assert(group =~= text@.subrange(at as int, at + 4));
        match decode_group_at(text, at) {
            Some(bytes) => {
                out.push(bytes[0]);
                out.push(bytes[1]);
                out.push(bytes[2]);
                assert(out@ =~= old(out)@ + bytes@);
                true
            },
            None => false,
        }
    } else {
        let a: u8 = match sextet_of(text[at]) {
            Some(v) => v,
            None => {
                return false;
            },
        };
        let b: u8 = match sextet_of(text[at + 1]) {
            Some(v) => v,
            None => {
                return false;
            },
        };
        if text[at + 2] != PAD {
            let c: u8 = match sextet_of(text[at + 2]) {
                Some(v) => v,
                None => {
                    return false;
                },
            };
            if c % 4 != 0 {
                return false;
            }
            out.push(a * 4 + b / 16);
            out.push((b % 16) * 16 + c / 4);
            assert(out@ =~= old(out)@ + group_bytes(a, b, c, 0).take(2));
            true
        } else {
            if b % 16 != 0 {
                return false;
            }
            out.push(a * 4 + b / 16);
            assert(out@ =~= old(out)@ + group_bytes(a, b, 0, 0).take(1));
            true
        }
    }
}

/// Decodes `text`, or finds that it is not well formed.
pub fn decode_base64(text: &[u8]) -> (bytes: Option<Vec<u8>>)
    ensures
        match bytes {
            Some(b) => decode(text@) == Some(b@),
            None => decode(text@) is None,
        },
{
    let n: usize = text.len();
    if n % 4 != 0 {
        proof {
            lemma_decode_needs_groups(text@);
        }
        return None;
    }
    let mut out: Vec<u8> = Vec::new();
    if n == 0 {
        return Some(out);
    }
    let mut i: usize = 0;
    assert(text@.skip(0) =~= text@);
    assert(decode(text@) == decode_after(out@, decode(text@))) by {
        if let Some(all) = decode(text@) {
            assert(out@ + all =~= all);
        }
    }
    while i + 4 < n
        invariant
            n == text@.len(),
            n % 4 == 0,
            i % 4 == 0,
            i + 4 <= n,
            decode(text@) == decode_after(out@, decode(text@.skip(i as int))),
        decreases n - i,
    {
        let ghost done = out@;
        proof {
            lemma_decode_unfolds(text@, i as int);
        }
        match decode_group_at(text, i) {
            None => {
                return None;
            },
            Some(bytes) => {
                out.push(bytes[0]);
                out.push(bytes[1]);
                out.push(bytes[2]);
                assert(out@ =~= done + bytes@);
                proof {
                    if let Some(tail) = decode(text@.skip(i + 4)) {
                        assert((done + bytes@) + tail =~= done + (bytes@ + tail));
                    }
                }
            },
        }
        i += 4;
    }
    let ghost done = out@;
    assert(text@.skip(i as int).len() == 4);
    assert(text@.skip(i as int) =~= text@.skip(text@.len() - 4));
    if decode_last_group_into(text, &mut out) {
        Some(out)
    } else {
        None
    }
}

} // verus!
