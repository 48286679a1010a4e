use vstd::prelude::*;

verus! {

/// Why an operation was refused.
#[derive(Clone, Copy, Debug, PartialEq, Eq)]
pub enum Error {
    /// An empty index set, an index out of range, a tag too long, or lengths
    /// that do not agree.
    InvalidArgument,
    /// A supplied or derived point failed decoding or the subgroup check.
    InvalidPoint,
    /// The verification equation of a signature did not hold.
    InvalidSignature,
    /// The verification equation of a proof did not hold.
    InvalidProof,
    /// The generators could not be extended far enough.
    InsufficientGenerators,
    /// An arithmetic anomaly, such as the inverse of zero while signing.
    Internal,
}

} // verus!
