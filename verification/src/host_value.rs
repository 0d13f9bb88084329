//! Values of the host, as far as the bridge reads them.

use vstd::prelude::*;

verus! {

/// A value that the host put where text or binary data is expected.
#[derive(Debug, PartialEq, Eq)]
pub enum HostValue {
    /// A string.
    Text(String),
    /// A buffer of bytes.
    Bytes(Vec<u8>),
    /// Anything else.
    Other,
}

/// A value that the host put where a list is expected.
#[derive(Debug, PartialEq, Eq)]
pub enum HostList<T> {
    /// A list, with its entries in order.
    Entries(Vec<T>),
    /// Anything else.
    NotAList,
}

/// A value that the host put where a time stamp header is expected.
#[derive(Debug, PartialEq, Eq)]
pub enum HeaderEntry {
    /// A list, with its items in order.
    Items(Vec<HostValue>),
    /// Anything else.
    NotAList,
}

} // verus!
