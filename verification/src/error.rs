//! The errors of the bridge: one value per failure, with what is needed to
//! find its cause.

use vstd::prelude::*;

verus! {

/// A configuration that cannot become a signer. Where the fault lies in one
/// entry of a list, `index` is the position of that entry.
#[derive(Debug, Clone, Copy, PartialEq, Eq)]
pub enum ConfigError {
    /// The certificates are not a list.
    CertificatesNotAList,
    /// A certificate entry is neither text nor binary.
    CertificateNotTextOrBinary { index: usize },
    /// A certificate entry holds nothing but white space.
    EmptyCertificate { index: usize },
    /// A certificate entry opens a PEM block and holds no complete one.
    NoPemEntries { index: usize },
    /// A certificate entry holds text that is not base64.
    MalformedBase64 { index: usize },
    /// The time stamp headers are not a list.
    HeadersNotAList,
    /// A time stamp header is not a list that starts with two strings.
    MalformedHeader { index: usize },
    /// The time stamp request body is neither text nor binary.
    MalformedBody,
}

/// Why the host could not hand over a range of a chunked source.
#[derive(Debug, PartialEq, Eq)]
pub enum FetchFailure {
    /// The host could not cut the range out of the source.
    Slice(String),
    /// The host could not make a reader for the range.
    Reader(String),
    /// The host could not read the range.
    Read(String),
    /// The host handed over more bytes than the range holds.
    Oversized { asked: u64, got: u64 },
}

/// Why the signing callback of the host gave no signature.
#[derive(Debug, PartialEq, Eq)]
pub enum SignFailure {
    /// Calling the callback failed.
    Call(String),
    /// The callback returned something other than a promise.
    NotAPromise(String),
    /// The promise of the callback was rejected.
    Rejected(String),
}

/// Every failure of the bridge.
#[derive(Debug, PartialEq, Eq)]
pub enum WasmError {
    /// The signer configuration is malformed; no signer was made.
    Configuration(ConfigError),
    /// Fetching from a chunked source failed; the read was given up.
    SourceFetchFailed(FetchFailure),
    /// The signing callback failed; the signing was given up.
    SignCallbackFailed(SignFailure),
    /// A failure of the manifest engine, in its own words.
    Engine(String),
}

impl FetchFailure {
    /// The text that introduces this failure in a message.
    pub open spec fn spec_headline(self) -> Seq<char> {
        match self {
            FetchFailure::Slice(_) => "Failed to create slice from blob"@,
            FetchFailure::Reader(_) => "Failed to create FileReaderSync on blob slice"@,
            FetchFailure::Read(_) => "Failed to read blob slice"@,
            FetchFailure::Oversized { .. } => "Blob slice is longer than the range asked for"@,
        }
    }

    /// The text that introduces this failure in a message.
    pub fn headline(&self) -> (text: &'static str)
        ensures
            text@ == self.spec_headline(),
    {
        match self {
            FetchFailure::Slice(_) => "Failed to create slice from blob",
            FetchFailure::Reader(_) => "Failed to create FileReaderSync on blob slice",
            FetchFailure::Read(_) => "Failed to read blob slice",
            FetchFailure::Oversized { .. } => "Blob slice is longer than the range asked for",
        }
    }
}

impl SignFailure {
    /// The text that introduces this failure in a message.
    pub open spec fn spec_headline(self) -> Seq<char> {
        match self {
            SignFailure::Call(_) => "Error calling signer"@,
            SignFailure::NotAPromise(_) => "Failed to convert sign result to promise"@,
            SignFailure::Rejected(_) => "Error awaiting sign promise"@,
        }
    }

    /// The text that introduces this failure in a message.
    pub fn headline(&self) -> (text: &'static str)
        ensures
            text@ == self.spec_headline(),
    {
        match self {
            SignFailure::Call(_) => "Error calling signer",
            SignFailure::NotAPromise(_) => "Failed to convert sign result to promise",
            SignFailure::Rejected(_) => "Error awaiting sign promise",
        }
    }
}

} // verus!
