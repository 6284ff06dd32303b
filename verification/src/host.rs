//! What the library asks of the operating system.

use vstd::prelude::*;

verus! {

/// The page size of the host.
///
/// This is `region::page::size`, which asks the operating system once and
/// keeps the answer. Nothing is claimed of the number: callers test it
/// before they build on it.
#[verifier::external_body]
pub(crate) fn host_page_size() -> (size: usize) {
    region::page::size()
}

} // verus!
