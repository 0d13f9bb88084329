//! The signature algorithms that a manifest may be signed with.

use vstd::prelude::*;

verus! {

/// A signature algorithm.
#[derive(Debug, Clone, Copy, PartialEq, Eq)]
pub enum SigningAlg {
    /// ECDSA with SHA-256.
    Es256,
    /// ECDSA with SHA-384.
    Es384,
    /// ECDSA with SHA-512.
    Es512,
    /// RSASSA-PSS with SHA-256.
    Ps256,
    /// RSASSA-PSS with SHA-384.
    Ps384,
    /// RSASSA-PSS with SHA-512.
    Ps512,
    /// EdDSA on the curve Ed25519.
    Ed25519,
}

/// The algorithm that a name stands for. Names are in lower case.
pub open spec fn alg_named(name: Seq<char>) -> Option<SigningAlg> {
    if name == "es256"@ {
        Some(SigningAlg::Es256)
    } else if name == "es384"@ {
        Some(SigningAlg::Es384)
    } else if name == "es512"@ {
        Some(SigningAlg::Es512)
    } else if name == "ps256"@ {
        Some(SigningAlg::Ps256)
    } else if name == "ps384"@ {
        Some(SigningAlg::Ps384)
    } else if name == "ps512"@ {
        Some(SigningAlg::Ps512)
    } else if name == "ed25519"@ {
        Some(SigningAlg::Ed25519)
    } else {
        None
    }
}

/// The algorithm that a configuration asks for: the one it names, and
/// `Ps256` where it names none or one that is not known.
pub open spec fn alg_or_default(name: Option<String>) -> SigningAlg {
    match name {
        Some(name) => match alg_named(name@) {
            Some(alg) => alg,
            None => SigningAlg::Ps256,
        },
        None => SigningAlg::Ps256,
    }
}

/// Looks up the algorithm that a name stands for.
///
/// Trusted: calls `from_str` of `c2pa::SigningAlg` and states what its source
/// shows, that it knows the seven names of `alg_named`, each for the variant
/// of that name, and no other.
#[verifier::external_body]
fn parse_alg(name: &str) -> (alg: Option<SigningAlg>)
    ensures
        alg == alg_named(name@),
{
    match name.parse::<c2pa::SigningAlg>() {
        Ok(c2pa::SigningAlg::Es256) => Some(SigningAlg::Es256),
        Ok(c2pa::SigningAlg::Es384) => Some(SigningAlg::Es384),
        Ok(c2pa::SigningAlg::Es512) => Some(SigningAlg::Es512),
        Ok(c2pa::SigningAlg::Ps256) => Some(SigningAlg::Ps256),
        Ok(c2pa::SigningAlg::Ps384) => Some(SigningAlg::Ps384),
        Ok(c2pa::SigningAlg::Ps512) => Some(SigningAlg::Ps512),
        Ok(c2pa::SigningAlg::Ed25519) => Some(SigningAlg::Ed25519),
        Err(_) => None,
    }
}

impl SigningAlg {
    /// The algorithm that a configuration asks for.
    pub fn resolve(name: &Option<String>) -> (alg: SigningAlg)
        ensures
            alg == alg_or_default(*name),
    {
        match name {
            Some(name) => match parse_alg(name.as_str()) {
                Some(alg) => alg,
                None => SigningAlg::Ps256,
            },
            None => SigningAlg::Ps256,
        }
    }
}

} // verus!
