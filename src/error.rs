//! What can go wrong when reading a record back from disk.
use vstd::prelude::*;

verus! {

/// A record read from disk does not hold a value of the expected type.
#[derive(Clone, Copy, Debug, PartialEq, Eq, Structural)]
pub enum DiskError {
    /// The bytes violate the record's width, range or tag constraints.
    CorruptRecord,
}

} // verus!
