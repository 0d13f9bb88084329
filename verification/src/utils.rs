//! What the host limits.

use vstd::prelude::*;

verus! {

/// The length of a buffer of the host for `len` bytes: such a buffer holds
/// at most `u32::MAX` bytes, and there is none for more.
pub open spec fn array_length(len: usize) -> Option<u32> {
    if len <= u32::MAX {
        Some(len as u32)
    } else {
        None
    }
}

/// The length of a buffer of the host for `len` bytes, if there is one.
pub fn byte_length(len: usize) -> (length: Option<u32>)
    ensures
        length == array_length(len),
{
    if len <= u32::MAX as usize {
        Some(len as u32)
    } else {
        None
    }
}

} // verus!
