//! The errors that the map's operations return.

use vstd::prelude::*;

verus! {

/// An ordinary, recoverable failure of a map operation.
#[derive(Debug, Clone, Copy, PartialEq, Eq, Structural)]
pub enum Error {
    /// The requested key was not found in the map.
    KeyNotFound,
    /// The target key already exists (used in rename operations).
    KeyAlreadyExists,
    /// The shard count is invalid (must be a power of two and greater than 0).
    InvalidShardCount,
}

impl Error {
    /// A human-readable description of the error.
    pub fn message(&self) -> (r: &'static str)
        ensures
            *self == Error::KeyNotFound ==> r@ == "key not found"@,
            *self == Error::KeyAlreadyExists ==> r@ == "key already exists"@,
            *self == Error::InvalidShardCount ==> r@
                == "shard count must be a power of two and greater than 0"@,
    {
        match self {
            Error::KeyNotFound => "key not found",
            Error::KeyAlreadyExists => "key already exists",
            Error::InvalidShardCount => "shard count must be a power of two and greater than 0",
        }
    }
}

} // verus!
