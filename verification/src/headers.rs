//! The headers that go with a request to a time stamp authority.

use vstd::prelude::*;
use crate::error::ConfigError;
use crate::host_value::{HeaderEntry, HostValue};

verus! {

/// The name and the value that an entry declares: its first two items, if it
/// is a list of at least two and both are strings.
pub open spec fn header_pair(entry: HeaderEntry) -> Option<(Seq<char>, Seq<char>)> {
    match entry {
        HeaderEntry::Items(items) => if items@.len() >= 2 {
            match (items@[0], items@[1]) {
                (HostValue::Text(name), HostValue::Text(value)) => Some((name@, value@)),
                _ => None,
            }
        } else {
            None
        },
        HeaderEntry::NotAList => None,
    }
}

/// The headers that the entries declare, in their order; or the position of
/// the first entry that declares none.
pub open spec fn header_pairs(entries: Seq<HeaderEntry>) -> Result<
    Seq<(Seq<char>, Seq<char>)>,
    ConfigError,
>
    decreases entries.len(),
{
    if entries.len() == 0 {
        Ok(Seq::empty())
    } else {
        match header_pairs(entries.drop_last()) {
            Err(error) => Err(error),
            Ok(pairs) => match header_pair(entries.last()) {
                Some(pair) => Ok(pairs.push(pair)),
                None => Err(ConfigError::MalformedHeader { index: (entries.len() - 1) as usize }),
            },
        }
    }
}

/// Headers as a sequence of pairs of texts.
pub open spec fn headers_view(headers: Vec<(String, String)>) -> Seq<(Seq<char>, Seq<char>)> {
    Seq::new(headers@.len(), |i: int| (headers@[i].0@, headers@[i].1@))
}

/// The outcome of reading headers, with the headers as a sequence of pairs of
/// texts.
pub open spec fn headers_outcome_view(outcome: Result<Vec<(String, String)>, ConfigError>)
    -> Result<Seq<(Seq<char>, Seq<char>)>, ConfigError> {
    match outcome {
        Ok(headers) => Ok(headers_view(headers)),
        Err(error) => Err(error),
    }
}

/// Reads the name and the value that an entry declares.
pub fn parse_header(entry: &HeaderEntry) -> (pair: Option<(String, String)>)
    ensures
        match pair {
            Some(p) => header_pair(*entry) == Some((p.0@, p.1@)),
            None => header_pair(*entry) is None,
        },
{
    match entry {
        HeaderEntry::Items(items) => {
            if items.len() < 2 {
                return None;
            }
            match (&items[0], &items[1]) {
                (HostValue::Text(name), HostValue::Text(value)) => Some(
                    (name.clone(), value.clone()),
                ),
                _ => None,
            }
        },
        HeaderEntry::NotAList => None,
    }
}

/// Reads the time stamp headers of a configuration, in their order. The
/// first entry that declares no header ends the reading.
pub fn parse_headers(entries: &[HeaderEntry]) -> (outcome: Result<
    Vec<(String, String)>,
    ConfigError,
>)
    ensures
        headers_outcome_view(outcome) == header_pairs(entries@),
{
    let mut headers: Vec<(String, String)> = Vec::new();
    let mut i: usize = 0;
    assert(entries@.take(0) =~= Seq::<HeaderEntry>::empty());
    assert(headers_view(headers) =~= Seq::<(Seq<char>, Seq<char>)>::empty());
    while i < entries.len()
        invariant
            i <= entries@.len(),
            header_pairs(entries@.take(i as int)) == Ok::<
                Seq<(Seq<char>, Seq<char>)>,
                ConfigError,
            >(headers_view(headers)),
        decreases entries@.len() - i,
    {
        let ghost before = headers_view(headers);
        assert(entries@.take(i + 1).drop_last() =~= entries@.take(i as int));
        assert(entries@.take(i + 1).last() == entries@[i as int]);
        match parse_header(&entries[i]) {
            None => {
                proof {
                    lemma_fault_is_final(entries@, i + 1);
                }
                return Err(ConfigError::MalformedHeader { index: i });
            },
            Some(pair) => {
                let ghost added = (pair.0@, pair.1@);
                headers.push(pair);
                assert(headers_view(headers) =~= before.push(added));
            },
        }
        i += 1;
    }
    assert(entries@.take(entries@.len() as int) =~= entries@);
    Ok(headers)
}

/// Once the entries up to a position are at fault, so are all the entries.
pub proof fn lemma_fault_is_final(entries: Seq<HeaderEntry>, upto: int)
    requires
        0 <= upto <= entries.len(),
        header_pairs(entries.take(upto)) is Err,
    ensures
        header_pairs(entries) == header_pairs(entries.take(upto)),
    decreases entries.len() - upto,
{
    if upto < entries.len() {
        assert(entries.take(upto + 1).drop_last() =~= entries.take(upto));
        lemma_fault_is_final(entries, upto + 1);
    } else {
        assert(entries.take(upto) =~= entries);
    }
}

/// Reading the entries either succeeds on each of them, and the headers are
/// what the entries declare, one for one and in their order; or it fails and
/// names the position of the first entry that declares no header.
pub proof fn headers_follow_the_entries(entries: Seq<HeaderEntry>)
    ensures
        match header_pairs(entries) {
            Ok(pairs) => {
                &&& pairs.len() == entries.len()
                &&& forall|i: int|
                    0 <= i < entries.len() ==> (#[trigger] header_pair(entries[i])) == Some(
                        pairs[i],
                    )
            },
            Err(error) => exists|i: int|
                {
                    &&& 0 <= i < entries.len()
                    &&& (#[trigger] header_pair(entries[i])) is None
                    &&& error == ConfigError::MalformedHeader { index: i as usize }
                    &&& forall|k: int| 0 <= k < i ==> (#[trigger] header_pair(entries[k])) is Some
                },
        },
    decreases entries.len(),
{
    if entries.len() > 0 {
        let front = entries.drop_last();
        headers_follow_the_entries(front);
        match header_pairs(front) {
            Ok(pairs) => {
                assert forall|i: int| 0 <= i < front.len() implies (#[trigger] header_pair(
                    entries[i],
                )) == Some(pairs[i]) by {
                    assert(front[i] == entries[i]);
                    assert(header_pair(front[i]) == Some(pairs[i]));
                }
                if header_pair(entries.last()) is None {
                    let i = entries.len() - 1;
                    assert(header_pair(entries[i]) is None);
                    assert forall|k: int| 0 <= k < i implies (#[trigger] header_pair(
                        entries[k],
                    )) is Some by {
                        assert(header_pair(entries[k]) == Some(pairs[k]));
                    }
                }
            },
            Err(error) => {
                let i = choose|i: int|
                    {
                        &&& 0 <= i < front.len()
                        &&& (#[trigger] header_pair(front[i])) is None
                        &&& error == ConfigError::MalformedHeader { index: i as usize }
                        &&& forall|k: int|
                            0 <= k < i ==> (#[trigger] header_pair(front[k])) is Some
                    };
                assert(front[i] == entries[i]);
                assert forall|k: int| 0 <= k < i implies (#[trigger] header_pair(
                    entries[k],
                )) is Some by {
                    assert(front[k] == entries[k]);
                    assert(header_pair(front[k]) is Some);
                }
                assert(header_pair(entries[i]) is None);
            },
        }
    }
}

} // verus!
