//! Certificate chains: from the entries of a configuration to DER, leaf first.
//!
//! An entry is text or binary. Text is PEM, if it holds the line that begins a
//! PEM block, and base64 otherwise. Binary that is UTF-8 is read as text;
//! any other binary is taken for DER as it stands. What the DER holds is not
//! looked at.

use vstd::prelude::*;
use vstd::slice::{slice_subrange, slice_to_vec};
use vstd::utf8::{encode_utf8, valid_utf8};
use crate::base64::{decode, decode_base64, lemma_decoded_text_is_alphabet};
use crate::error::ConfigError;
use crate::host_value::HostValue;
use crate::pem::{begin_mark, block_bodies, blocks_from, find_blocks, has_begin_mark, Block};
use crate::text::{
    contains_mark, find_from, lemma_find_from_is_a_position, lemma_strip_is_idempotent, strip,
    strip_spaces,
};

verus! {

/// What is wrong with one certificate entry.
#[derive(Debug, Clone, Copy, PartialEq, Eq)]
pub enum CertFault {
    /// The entry is neither text nor binary.
    NotTextOrBinary,
    /// The entry holds nothing but white space.
    Empty,
    /// The entry opens a PEM block and holds no complete one.
    NoPemEntries,
    /// The entry, or a PEM block of it, is not base64.
    MalformedBase64,
}

/// The error that names a fault and the position of the entry that has it.
pub open spec fn fault_at(fault: CertFault, index: usize) -> ConfigError {
    match fault {
        CertFault::NotTextOrBinary => ConfigError::CertificateNotTextOrBinary { index },
        CertFault::Empty => ConfigError::EmptyCertificate { index },
        CertFault::NoPemEntries => ConfigError::NoPemEntries { index },
        CertFault::MalformedBase64 => ConfigError::MalformedBase64 { index },
    }
}

/// What the body of a PEM block, or a base64 entry, encodes: the white space
/// in it does not count.
pub open spec fn der_of(body: Seq<u8>) -> Option<Seq<u8>> {
    decode(strip_spaces(body))
}

/// The chain that PEM text holds: one certificate for each complete block, in
/// the order of the text.
pub open spec fn pem_chain(text: Seq<u8>) -> Result<Seq<Seq<u8>>, CertFault> {
    let bodies = block_bodies(text);
    if bodies.len() == 0 {
        Err(CertFault::NoPemEntries)
    } else if forall|i: int| 0 <= i < bodies.len() ==> (#[trigger] der_of(bodies[i])) is Some {
        Ok(Seq::new(bodies.len(), |i: int| der_of(bodies[i]).unwrap()))
    } else {
        Err(CertFault::MalformedBase64)
    }
}

/// The chain that a text entry holds.
pub open spec fn text_chain(text: Seq<u8>) -> Result<Seq<Seq<u8>>, CertFault> {
    if strip_spaces(text).len() == 0 {
        Err(CertFault::Empty)
    } else if contains_mark(text, begin_mark()) {
        pem_chain(text)
    } else {
        match der_of(text) {
            Some(der) => Ok(seq![der]),
            None => Err(CertFault::MalformedBase64),
        }
    }
}

/// The chain that one entry holds.
pub open spec fn entry_chain(entry: HostValue) -> Result<Seq<Seq<u8>>, CertFault> {
    match entry {
        HostValue::Text(text) => text_chain(encode_utf8(text@)),
        HostValue::Bytes(bytes) => if valid_utf8(bytes@) {
            text_chain(bytes@)
        } else {
            Ok(seq![bytes@])
        },
        HostValue::Other => Err(CertFault::NotTextOrBinary),
    }
}

/// The chain that the entries hold, one after the other; or the fault of the
/// first entry that has one, with its position.
pub open spec fn certificate_chain(entries: Seq<HostValue>) -> Result<Seq<Seq<u8>>, ConfigError>
    decreases entries.len(),
{
    if entries.len() == 0 {
        Ok(Seq::empty())
    } else {
        match certificate_chain(entries.drop_last()) {
            Err(error) => Err(error),
            Ok(chain) => match entry_chain(entries.last()) {
                Ok(more) => Ok(chain + more),
                Err(fault) => Err(fault_at(fault, (entries.len() - 1) as usize)),
            },
        }
    }
}

/// A chain as a sequence of sequences of bytes.
pub open spec fn chain_view(chain: Vec<Vec<u8>>) -> Seq<Seq<u8>> {
    Seq::new(chain@.len(), |i: int| chain@[i]@)
}

/// The outcome of parsing, with the chain as a sequence of sequences of bytes.
pub open spec fn outcome_view<E>(outcome: Result<Vec<Vec<u8>>, E>) -> Result<Seq<Seq<u8>>, E> {
    match outcome {
        Ok(chain) => Ok(chain_view(chain)),
        Err(error) => Err(error),
    }
}

/// Whether `bytes` are UTF-8.
///
/// Trusted: calls `std::str::from_utf8` and states that it accepts exactly
/// the well-formed UTF-8 byte sequences.
#[verifier::external_body]
fn is_utf8(bytes: &[u8]) -> (valid: bool)
    ensures
        valid == valid_utf8(bytes@),
{
    std::str::from_utf8(bytes).is_ok()
}

/// Reads PEM text.
pub fn parse_pem(text: &[u8]) -> (outcome: Result<Vec<Vec<u8>>, CertFault>)
    ensures
        outcome_view(outcome) == pem_chain(text@),
{
    let blocks: Vec<Block> = find_blocks(text);
    if blocks.len() == 0 {
        return Err(CertFault::NoPemEntries);
    }
    let ghost bodies = block_bodies(text@);
    let mut chain: Vec<Vec<u8>> = Vec::new();
    let mut i: usize = 0;
    while i < blocks.len()
        invariant
            i <= blocks@.len(),
            bodies == block_bodies(text@),
            blocks@.len() == bodies.len(),
            forall|k: int|
                0 <= k < blocks@.len() ==> {
                    &&& (#[trigger] blocks@[k]).bounds() == blocks_from(text@, 0)[k]
                    &&& blocks@[k].body_start <= blocks@[k].body_end <= text@.len()
                },
            chain@.len() == i,
            forall|k: int| 0 <= k < i ==> der_of(bodies[k]) == Some((#[trigger] chain@[k])@),
        decreases blocks@.len() - i,
    {
        let block: Block = blocks[i];
        let body: &[u8] = slice_subrange(text, block.body_start, block.body_end);
        assert(body@ == bodies[i as int]);
        let stripped: Vec<u8> = strip(body);
        match decode_base64(stripped.as_slice()) {
            None => {
                assert(der_of(bodies[i as int]) is None);
                return Err(CertFault::MalformedBase64);
            },
            Some(der) => {
                chain.push(der);
            },
        }
        i += 1;
    }
    assert forall|k: int| 0 <= k < bodies.len() implies (#[trigger] der_of(bodies[k])) is Some by {
        assert(der_of(bodies[k]) == Some(chain@[k]@));
    }
    assert(chain_view(chain) =~= Seq::new(bodies.len(), |k: int| der_of(bodies[k]).unwrap())) by {
        assert forall|k: int| 0 <= k < bodies.len() implies chain_view(chain)[k] == der_of(
            bodies[k],
        ).unwrap() by {
            assert(der_of(bodies[k]) == Some(chain@[k]@));
        }
    }
    Ok(chain)
}

/// Reads a text entry.
pub fn parse_text(text: &[u8]) -> (outcome: Result<Vec<Vec<u8>>, CertFault>)
    ensures
        outcome_view(outcome) == text_chain(text@),
{
    let stripped: Vec<u8> = strip(text);
    if stripped.len() == 0 {
        return Err(CertFault::Empty);
    }
    if has_begin_mark(text) {
        return parse_pem(text);
    }
    match decode_base64(stripped.as_slice()) {
        None => Err(CertFault::MalformedBase64),
        Some(der) => {
            let mut chain: Vec<Vec<u8>> = Vec::new();
            chain.push(der);
            assert(chain_view(chain) =~= seq![der@]);
            Ok(chain)
        },
    }
}

/// Reads one entry.
pub fn parse_entry(entry: &HostValue) -> (outcome: Result<Vec<Vec<u8>>, CertFault>)
    ensures
        outcome_view(outcome) == entry_chain(*entry),
{
    match entry {
        HostValue::Text(text) => parse_text(text.as_str().as_bytes()),
        HostValue::Bytes(bytes) => {
            if is_utf8(bytes.as_slice()) {
                parse_text(bytes.as_slice())
            } else {
                let mut chain: Vec<Vec<u8>> = Vec::new();
                chain.push(slice_to_vec(bytes.as_slice()));
                assert(chain_view(chain) =~= seq![bytes@]);
                Ok(chain)
            }
        },
        HostValue::Other => Err(CertFault::NotTextOrBinary),
    }
}

/// Names a fault and the position of the entry that has it.
pub fn locate(fault: CertFault, index: usize) -> (error: ConfigError)
    ensures
        error == fault_at(fault, index),
{
    match fault {
        CertFault::NotTextOrBinary => ConfigError::CertificateNotTextOrBinary { index },
        CertFault::Empty => ConfigError::EmptyCertificate { index },
        CertFault::NoPemEntries => ConfigError::NoPemEntries { index },
        CertFault::MalformedBase64 => ConfigError::MalformedBase64 { index },
    }
}

/// Reads the certificate entries of a configuration into one chain, in their
/// order. The first entry that is at fault ends the reading.
pub fn parse_certificates(entries: &[HostValue]) -> (outcome: Result<Vec<Vec<u8>>, ConfigError>)
    ensures
        outcome_view(outcome) == certificate_chain(entries@),
{
    let mut chain: Vec<Vec<u8>> = Vec::new();
    let mut i: usize = 0;
    assert(entries@.take(0) =~= Seq::<HostValue>::empty());
    assert(chain_view(chain) =~= Seq::<Seq<u8>>::empty());
    while i < entries.len()
        invariant
            i <= entries@.len(),
            certificate_chain(entries@.take(i as int)) == Ok::<Seq<Seq<u8>>, ConfigError>(
                chain_view(chain),
            ),
        decreases entries@.len() - i,
    {
        let ghost before = chain_view(chain);
        assert(entries@.take(i + 1).drop_last() =~= entries@.take(i as int));
        assert(entries@.take(i + 1).last() == entries@[i as int]);
        match parse_entry(&entries[i]) {
            Err(fault) => {
                proof {
                    lemma_fault_is_final(entries@, i + 1);
                }
                return Err(locate(fault, i));
            },
            Ok(mut more) => {
                let ghost added = chain_view(more);
                chain.append(&mut more);
                assert(chain_view(chain) =~= before + added);
            },
        }
        i += 1;
    }
    assert(entries@.take(entries@.len() as int) =~= entries@);
    Ok(chain)
}

/// Once the entries up to a position are at fault, so are all the entries.
pub proof fn lemma_fault_is_final(entries: Seq<HostValue>, upto: int)
    requires
        0 <= upto <= entries.len(),
        certificate_chain(entries.take(upto)) is Err,
    ensures
        certificate_chain(entries) == certificate_chain(entries.take(upto)),
    decreases entries.len() - upto,
{
    if upto < entries.len() {
        assert(entries.take(upto + 1).drop_last() =~= entries.take(upto));
        lemma_fault_is_final(entries, upto + 1);
    } else {
        assert(entries.take(upto) =~= entries);
    }
}

/// Text that holds the line that begins a PEM block is not base64.
pub proof fn lemma_pem_text_is_not_base64(text: Seq<u8>)
    requires
        contains_mark(text, begin_mark()),
    ensures
        decode(text) is None,
{
    lemma_find_from_is_a_position(text, begin_mark(), 0);
    let at = find_from(text, begin_mark(), 0).unwrap();
    assert(text[at] == text.subrange(at, at + begin_mark().len())[0]);
    if decode(text) is Some {
        lemma_decoded_text_is_alphabet(text);
    }
}

/// White space in a base64 entry does not count: an entry that does not hold
/// the line that begins a PEM block is read as the same text without its
/// white space is. There is one exception, and no other: taking the white
/// space out can bring that line about. The text is PEM from there on, and is
/// read as before only if one of its blocks is not base64.
pub proof fn base64_entry_ignores_spaces(text: Seq<u8>)
    requires
        !contains_mark(text, begin_mark()),
    ensures
        text_chain(text) == text_chain(strip_spaces(text)) <==> {
            ||| !contains_mark(strip_spaces(text), begin_mark())
            ||| pem_chain(strip_spaces(text)) == Err::<Seq<Seq<u8>>, CertFault>(
                CertFault::MalformedBase64,
            )
        },
{
    lemma_strip_is_idempotent(text);
    if contains_mark(strip_spaces(text), begin_mark()) {
        lemma_pem_text_is_not_base64(strip_spaces(text));
        lemma_find_from_is_a_position(strip_spaces(text), begin_mark(), 0);
    }
}

/// The chains of the entries, each in its place.
pub open spec fn entry_chains(entries: Seq<HostValue>) -> Seq<Seq<Seq<u8>>> {
    Seq::new(entries.len(), |i: int| entry_chain(entries[i]).unwrap())
}

/// Reading the entries either succeeds on each of them, and the chain holds
/// their certificates in the order of the entries; or it fails with the fault
/// of the first entry that has one, and names the position of that entry.
pub proof fn chain_follows_the_entries(entries: Seq<HostValue>)
    ensures
        match certificate_chain(entries) {
            Ok(chain) => {
                &&& forall|i: int|
                    0 <= i < entries.len() ==> (#[trigger] entry_chain(entries[i])) is Ok
                &&& chain == entry_chains(entries).flatten()
            },
            Err(error) => exists|i: int|
                {
                    &&& 0 <= i < entries.len()
                    &&& (#[trigger] entry_chain(entries[i])) matches Err(fault)
                    &&& error == fault_at(fault, i as usize)
                    &&& forall|k: int| 0 <= k < i ==> (#[trigger] entry_chain(entries[k])) is Ok
                },
        },
    decreases entries.len(),
{
    if entries.len() > 0 {
        let front = entries.drop_last();
        chain_follows_the_entries(front);
        match certificate_chain(front) {
            Ok(chain) => {
                assert forall|i: int| 0 <= i < front.len() implies (#[trigger] entry_chain(
                    entries[i],
                )) is Ok by {
                    assert(front[i] == entries[i]);
                    assert(entry_chain(front[i]) is Ok);
                }
                match entry_chain(entries.last()) {
                    Err(fault) => {
                        let i = entries.len() - 1;
                        assert(entry_chain(entries[i]) is Err);
                    },
                    Ok(more) => {
                        assert(entry_chains(entries) =~= entry_chains(front).push(more));
                        entry_chains(front).lemma_flatten_push(more);
                    },
                }
            },
            Err(error) => {
                let i = choose|i: int|
                    {
                        &&& 0 <= i < front.len()
                        &&& (#[trigger] entry_chain(front[i])) matches Err(fault)
                        &&& error == fault_at(fault, i as usize)
                        &&& forall|k: int|
                            0 <= k < i ==> (#[trigger] entry_chain(front[k])) is Ok
                    };
                assert(front[i] == entries[i]);
                assert forall|k: int| 0 <= k < i implies (#[trigger] entry_chain(
                    entries[k],
                )) is Ok by {
                    assert(front[k] == entries[k]);
                    assert(entry_chain(front[k]) is Ok);
                }
                assert(entry_chain(entries[i]) is Err);
            },
        }
    }
}

} // verus!
