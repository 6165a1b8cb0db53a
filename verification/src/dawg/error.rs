//! What can go wrong when a dictionary is loaded or queried.

use vstd::prelude::*;

verus! {

/// The failures of loading and of lookup.
#[derive(Debug, Clone, Copy, PartialEq, Eq, Structural)]
pub enum DawgError {
    /// The bytes end before the header, or before the last of the units
    /// that the header declares.
    TruncatedInput,
    /// A lookup was led to an index outside the array of units: the array
    /// is corrupt, or was built for another layout.
    IndexOutOfRange,
    /// The compressed bytes are not a gzip stream that decodes to its end.
    Decompression,
}

} // verus!
