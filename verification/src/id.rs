//! Node identifiers.
use vstd::prelude::*;

verus! {

/// Identifier of a document node. `0` is the root.
#[derive(Clone, Copy, Default, Debug, PartialEq, Eq, Hash, Structural)]
pub struct Id(pub u64);

impl Id {
    pub fn value(&self) -> (r: u64)
        ensures
            r == self.0,
    {
        self.0
    }

    pub fn as_u64(&self) -> (r: u64)
        ensures
            r == self.0,
    {
        self.0
    }

    pub fn from_u64(value: u64) -> (r: Self)
        ensures
            r.0 == value,
    {
        Id(value)
    }
}

/// The id of the root node.
pub open spec fn root_id_value() -> u64 {
    0
}

} // verus!
