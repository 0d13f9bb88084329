//! Bridges between a host and a content-provenance manifest engine: random-access
//! byte streams over host-owned data, and the configuration of a signer whose
//! signing capability lives in the host.

pub mod base64;
pub mod certs;
pub mod error;
pub mod headers;
pub mod host_value;
pub mod pem;
pub mod signing_alg;
pub mod stream;
pub mod text;
pub mod utils;
pub mod wasm_signer;
