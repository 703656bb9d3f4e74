//! Account identifiers.

use vstd::prelude::*;

verus! {

/// An account identifier. The hosting environment hands callers in as opaque
/// identities; the ledger only ever compares them for equality, so a plain
/// numeric identifier models them completely.
#[derive(Clone, Copy, Debug, PartialEq, Eq, Structural, Hash)]
pub struct Address {
    pub id: u64,
}

impl Address {
    /// Builds the identifier with the given number.
    pub fn new(id: u64) -> (r: Address)
        ensures
            r.id == id,
    {
        Address { id }
    }
}

} // verus!
