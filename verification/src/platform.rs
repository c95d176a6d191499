//! Values that the operating system defines.

use vstd::prelude::*;

verus! {

/// `libc::O_APPEND`: the bit of the open flags that asks for appending. Its
/// value differs between systems, so nothing is claimed about it.
#[verifier::external_body]
pub(crate) fn o_append() -> (flag: u32)
{
    libc::O_APPEND as u32
}

} // verus!
