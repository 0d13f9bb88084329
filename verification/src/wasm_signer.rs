//! The signer that the manifest engine asks: what a configuration declares,
//! checked once when the signer is made, and the signature that the host
//! gives when it is asked to sign.

use vstd::prelude::*;
use vstd::slice::slice_to_vec;
use vstd::utf8::encode_utf8;
use crate::certs::{certificate_chain, chain_view, parse_certificates};
use crate::error::{ConfigError, SignFailure, WasmError};
use crate::headers::{header_pairs, headers_view, parse_headers};
use crate::host_value::{HeaderEntry, HostList, HostValue};
use crate::signing_alg::{alg_or_default, SigningAlg};

verus! {

/// What the host declares of a signer. The signing callback itself stays
/// with the host.
#[derive(Debug, PartialEq, Eq)]
pub struct SignerDefinition {
    /// An upper bound for the size of a signature with its certificates.
    pub reserve_size: usize,
    /// The name of the signature algorithm, if the host gave one as a string.
    pub alg: Option<String>,
    /// The certificate entries, leaf first, if the host gave any.
    pub certs: Option<HostList<HostValue>>,
    /// Whether the callback makes the COSE structure itself.
    pub direct_cose_handling: Option<bool>,
    /// The address of the time stamp authority.
    pub tsa_url: Option<String>,
    /// The headers for requests to the time stamp authority.
    pub tsa_headers: Option<HostList<HeaderEntry>>,
    /// A body for requests to the time stamp authority, in place of the
    /// usual one.
    pub tsa_body: Option<HostValue>,
}

/// What a signer answers to the manifest engine.
pub struct SignerConfig {
    pub alg: SigningAlg,
    pub reserve_size: usize,
    pub certs: Seq<Seq<u8>>,
    pub direct_cose_handling: bool,
    pub tsa_url: Option<Seq<char>>,
    pub tsa_headers: Option<Seq<(Seq<char>, Seq<char>)>>,
    pub tsa_body: Option<Seq<u8>>,
}

/// The bytes of a request body that the host declared: those of a text in
/// UTF-8, or those of a buffer.
pub open spec fn body_bytes(value: HostValue) -> Option<Seq<u8>> {
    match value {
        HostValue::Text(text) => Some(encode_utf8(text@)),
        HostValue::Bytes(bytes) => Some(bytes@),
        HostValue::Other => None,
    }
}

/// The chain that a definition declares: empty where it declares none.
/// Certificates that are not a list are a fault.
pub open spec fn declared_chain(certs: Option<HostList<HostValue>>) -> Result<
    Seq<Seq<u8>>,
    ConfigError,
> {
    match certs {
        Some(HostList::Entries(entries)) => certificate_chain(entries@),
        Some(HostList::NotAList) => Err(ConfigError::CertificatesNotAList),
        None => Ok(Seq::empty()),
    }
}

/// The time stamp headers that a definition declares. Headers that are not
/// a list are a fault.
pub open spec fn declared_headers(headers: Option<HostList<HeaderEntry>>) -> Result<
    Option<Seq<(Seq<char>, Seq<char>)>>,
    ConfigError,
> {
    match headers {
        Some(HostList::Entries(entries)) => match header_pairs(entries@) {
            Ok(pairs) => Ok(Some(pairs)),
            Err(error) => Err(error),
        },
        Some(HostList::NotAList) => Err(ConfigError::HeadersNotAList),
        None => Ok(None),
    }
}

/// The time stamp request body that a definition declares.
pub open spec fn declared_body(body: Option<HostValue>) -> Result<Option<Seq<u8>>, ConfigError> {
    match body {
        Some(value) => match body_bytes(value) {
            Some(bytes) => Ok(Some(bytes)),
            None => Err(ConfigError::MalformedBody),
        },
        None => Ok(None),
    }
}

/// The text of an optional string.
pub open spec fn text_view(text: Option<String>) -> Option<Seq<char>> {
    match text {
        Some(text) => Some(text@),
        None => None,
    }
}

/// The signer that a definition makes, or why it makes none. The
/// certificates are checked first, the headers next, the body last; the
/// first fault found is the one reported. An algorithm that is not known
/// is no fault: the signer uses `Ps256`. Without a word on it the callback
/// makes the COSE structure itself.
pub open spec fn signer_config(def: SignerDefinition) -> Result<SignerConfig, WasmError> {
    match declared_chain(def.certs) {
        Err(error) => Err(WasmError::Configuration(error)),
        Ok(certs) => match declared_headers(def.tsa_headers) {
            Err(error) => Err(WasmError::Configuration(error)),
            Ok(tsa_headers) => match declared_body(def.tsa_body) {
                Err(error) => Err(WasmError::Configuration(error)),
                Ok(tsa_body) => Ok(
                    SignerConfig {
                        alg: alg_or_default(def.alg),
                        reserve_size: def.reserve_size,
                        certs,
                        direct_cose_handling: match def.direct_cose_handling {
                            Some(direct) => direct,
                            None => true,
                        },
                        tsa_url: text_view(def.tsa_url),
                        tsa_headers,
                        tsa_body,
                    },
                ),
            },
        },
    }
}

/// How a call of the signing callback ended.
#[derive(Debug, PartialEq, Eq)]
pub enum CallbackOutcome {
    /// The call itself failed.
    CallFailed(String),
    /// The callback returned something other than a promise.
    NotAPromise(String),
    /// The promise was rejected.
    Rejected(String),
    /// The promise gave these bytes.
    Resolved(Vec<u8>),
}

/// The signature that a call of the callback gave, or why it gave none.
pub open spec fn signature_of(outcome: CallbackOutcome) -> Result<Vec<u8>, WasmError> {
    match outcome {
        CallbackOutcome::Resolved(signature) => Ok(signature),
        CallbackOutcome::CallFailed(detail) => Err(
            WasmError::SignCallbackFailed(SignFailure::Call(detail)),
        ),
        CallbackOutcome::NotAPromise(detail) => Err(
            WasmError::SignCallbackFailed(SignFailure::NotAPromise(detail)),
        ),
        CallbackOutcome::Rejected(detail) => Err(
            WasmError::SignCallbackFailed(SignFailure::Rejected(detail)),
        ),
    }
}

/// The request body that the engine offers where the configuration declares
/// none, or the failure of the engine in its own words.
pub open spec fn engine_body(made: Result<Vec<u8>, String>) -> Result<Vec<u8>, WasmError> {
    match made {
        Ok(body) => Ok(body),
        Err(detail) => Err(WasmError::Engine(detail)),
    }
}

/// Whether `body` opens as a DER sequence does: with the byte `0x30`.
pub open spec fn opens_sequence(body: Seq<u8>) -> bool {
    body.len() > 0 && body[0] == 0x30
}

/// Makes the usual request to a time stamp authority for `message`.
///
/// Trusted: calls `c2pa::crypto::time_stamp::default_rfc3161_message`. The
/// request holds a number drawn at random, so two calls on one message
/// differ, and nothing is stated of how the request depends on the message.
/// What is stated is what its source shows of every request: it is written
/// as one DER sequence, whose tag comes first.
#[verifier::external_body]
fn default_timestamp_request(message: &[u8]) -> (made: Result<
    Vec<u8>,
    c2pa::crypto::time_stamp::TimeStampError,
>)
    ensures
        made matches Ok(body) ==> opens_sequence(body@),
{
    c2pa::crypto::time_stamp::default_rfc3161_message(message)
}

/// The words of a failure of the time stamp code of the engine.
///
/// Trusted: calls `to_string` on a `c2pa::crypto::time_stamp::TimeStampError`;
/// nothing is stated of the text.
#[verifier::external_body]
fn timestamp_error_text(error: &c2pa::crypto::time_stamp::TimeStampError) -> (text: String) {
    error.to_string()
}

/// A signer as the manifest engine sees it. All that the configuration
/// declares was checked when the signer was made.
#[derive(Debug)]
pub struct WasmSigner {
    reserve_size: usize,
    signing_alg: SigningAlg,
    certs: Vec<Vec<u8>>,
    direct_cose_handling: bool,
    tsa_url: Option<String>,
    tsa_headers: Option<Vec<(String, String)>>,
    tsa_body: Option<Vec<u8>>,
}

impl View for WasmSigner {
    type V = SignerConfig;

    closed spec fn view(&self) -> SignerConfig {
        SignerConfig {
            alg: self.signing_alg,
            reserve_size: self.reserve_size,
            certs: chain_view(self.certs),
            direct_cose_handling: self.direct_cose_handling,
            tsa_url: text_view(self.tsa_url),
            tsa_headers: match self.tsa_headers {
                Some(headers) => Some(headers_view(headers)),
                None => None,
            },
            tsa_body: match self.tsa_body {
                Some(body) => Some(body@),
                None => None,
            },
        }
    }
}

impl WasmSigner {
    /// Makes a signer from what the host declares, or reports the first
    /// fault of the declaration.
    pub fn from_definition(def: &SignerDefinition) -> (made: Result<WasmSigner, WasmError>)
        ensures
            match made {
                Ok(signer) => signer_config(*def) == Ok::<SignerConfig, WasmError>(signer@),
                Err(error) => signer_config(*def) == Err::<SignerConfig, WasmError>(error),
            },
    {
        let certs: Vec<Vec<u8>> = match &def.certs {
            None => {
                let empty: Vec<Vec<u8>> = Vec::new();
                assert(chain_view(empty) =~= Seq::<Seq<u8>>::empty());
                empty
            },
            Some(HostList::NotAList) => {
                return Err(WasmError::Configuration(ConfigError::CertificatesNotAList));
            },
            Some(HostList::Entries(entries)) => match parse_certificates(entries.as_slice()) {
                Ok(chain) => chain,
                Err(error) => {
                    return Err(WasmError::Configuration(error));
                },
            },
        };
        let tsa_headers: Option<Vec<(String, String)>> = match &def.tsa_headers {
            None => None,
            Some(HostList::NotAList) => {
                return Err(WasmError::Configuration(ConfigError::HeadersNotAList));
            },
            Some(HostList::Entries(entries)) => match parse_headers(entries.as_slice()) {
                Ok(headers) => Some(headers),
                Err(error) => {
                    return Err(WasmError::Configuration(error));
                },
            },
        };
        let tsa_body: Option<Vec<u8>> = match &def.tsa_body {
            None => None,
            Some(HostValue::Text(text)) => Some(slice_to_vec(text.as_str().as_bytes())),
            Some(HostValue::Bytes(bytes)) => Some(slice_to_vec(bytes.as_slice())),
            Some(HostValue::Other) => {
                return Err(WasmError::Configuration(ConfigError::MalformedBody));
            },
        };
        let direct_cose_handling: bool = match def.direct_cose_handling {
            Some(direct) => direct,
            None => true,
        };
        let tsa_url: Option<String> = match &def.tsa_url {
            Some(url) => Some(url.clone()),
            None => None,
        };
        Ok(
            WasmSigner {
                reserve_size: def.reserve_size,
                signing_alg: SigningAlg::resolve(&def.alg),
                certs,
                direct_cose_handling,
                tsa_url,
                tsa_headers,
                tsa_body,
            },
        )
    }

    /// The signature algorithm.
    pub fn alg(&self) -> (alg: SigningAlg)
        ensures
            alg == self@.alg,
    {
        self.signing_alg
    }

    /// The certificate chain, leaf first.
    pub fn certs(&self) -> (chain: Vec<Vec<u8>>)
        ensures
            chain_view(chain) == self@.certs,
    {
        let mut chain: Vec<Vec<u8>> = Vec::new();
        let mut i: usize = 0;
        while i < self.certs.len()
            invariant
                i <= self.certs@.len(),
                chain@.len() == i,
                forall|k: int| 0 <= k < i ==> (#[trigger] chain@[k])@ == self.certs@[k]@,
            decreases self.certs@.len() - i,
        {
            chain.push(slice_to_vec(self.certs[i].as_slice()));
            i += 1;
        }
        assert(chain_view(chain) =~= chain_view(self.certs));
        chain
    }

    /// The upper bound that the host declared for the size of a signature
    /// with its certificates.
    pub fn reserve_size(&self) -> (size: usize)
        ensures
            size == self@.reserve_size,
    {
        self.reserve_size
    }

    /// Whether the callback makes the COSE structure itself.
    pub fn direct_cose_handling(&self) -> (direct: bool)
        ensures
            direct == self@.direct_cose_handling,
    {
        self.direct_cose_handling
    }

    /// The address of the time stamp authority, if one was declared.
    pub fn time_authority_url(&self) -> (url: Option<String>)
        ensures
            text_view(url) == self@.tsa_url,
    {
        match &self.tsa_url {
            Some(url) => Some(url.clone()),
            None => None,
        }
    }

    /// The headers for requests to the time stamp authority, if any were
    /// declared, in the order of the declaration.
    pub fn timestamp_request_headers(&self) -> (headers: Option<Vec<(String, String)>>)
        ensures
            match headers {
                Some(h) => self@.tsa_headers == Some(headers_view(h)),
                None => self@.tsa_headers is None,
            },
    {
        match &self.tsa_headers {
            None => None,
            Some(declared) => {
                let mut headers: Vec<(String, String)> = Vec::new();
                let mut i: usize = 0;
                while i < declared.len()
                    invariant
                        i <= declared@.len(),
                        headers@.len() == i,
                        forall|k: int|
                            0 <= k < i ==> (#[trigger] headers@[k]).0@ == declared@[k].0@
                                && headers@[k].1@ == declared@[k].1@,
                    decreases declared@.len() - i,
                {
                    headers.push((declared[i].0.clone(), declared[i].1.clone()));
                    i += 1;
                }
                assert(headers_view(headers) =~= headers_view(*declared));
                Some(headers)
            },
        }
    }

    /// The body that the configuration declares for requests to the time
    /// stamp authority, if it declares one.
    pub fn declared_timestamp_body(&self) -> (body: Option<Vec<u8>>)
        ensures
            match body {
                Some(b) => self@.tsa_body == Some(b@),
                None => self@.tsa_body is None,
            },
    {
        match &self.tsa_body {
            Some(body) => Some(slice_to_vec(body.as_slice())),
            None => None,
        }
    }

    /// What becomes of the request that the engine made where the
    /// configuration declares no body: the request itself, or the failure of
    /// the engine in its own words.
    pub fn engine_timestamp_body(made: Result<Vec<u8>, String>) -> (body: Result<
        Vec<u8>,
        WasmError,
    >)
        ensures
            body == engine_body(made),
    {
        match made {
            Ok(body) => Ok(body),
            Err(detail) => Err(WasmError::Engine(detail)),
        }
    }

    /// The body of a request to the time stamp authority for `message`: the
    /// one that the configuration declares, whatever the message is, and else
    /// the one that the engine makes for the message, which is a DER
    /// sequence. A declared body never fails; where the engine fails, its
    /// words are handed on.
    pub fn timestamp_request_body(&self, message: &[u8]) -> (body: Result<Vec<u8>, WasmError>)
        ensures
            self@.tsa_body matches Some(declared) ==> body matches Ok(b) && b@ == declared,
            self@.tsa_body is None ==> (body matches Ok(b) ==> opens_sequence(b@)),
            self@.tsa_body is None ==> (body matches Err(error) ==> error is Engine),
    {
        match self.declared_timestamp_body() {
            Some(body) => Ok(body),
            None => {
                let made: Result<Vec<u8>, String> = match default_timestamp_request(message) {
                    Ok(body) => Ok(body),
                    Err(error) => Err(timestamp_error_text(&error)),
                };
                Self::engine_timestamp_body(made)
            },
        }
    }

    /// Ends a signing with what came of the one call of the callback: the
    /// bytes that the promise gave are the signature; any failure of the call
    /// ends the signing, and none is tried again.
    pub fn sign(&self, outcome: CallbackOutcome) -> (signature: Result<Vec<u8>, WasmError>)
        ensures
            signature == signature_of(outcome),
    {
        match outcome {
            CallbackOutcome::Resolved(signature) => Ok(signature),
            CallbackOutcome::CallFailed(detail) => Err(
                WasmError::SignCallbackFailed(SignFailure::Call(detail)),
            ),
            CallbackOutcome::NotAPromise(detail) => Err(
                WasmError::SignCallbackFailed(SignFailure::NotAPromise(detail)),
            ),
            CallbackOutcome::Rejected(detail) => Err(
                WasmError::SignCallbackFailed(SignFailure::Rejected(detail)),
            ),
        }
    }
}

/// The type of the failures of the time stamp code of the engine.
#[verifier::external_type_specification]
#[verifier::external_body]
pub struct ExTimeStampError(c2pa::crypto::time_stamp::TimeStampError);

} // verus!
