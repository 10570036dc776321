//! The digest functions that place keys on shards.

use std::hash::{Hash, Hasher};
use vstd::prelude::*;

verus! {

/// The digest function of a map.
#[derive(Debug, Clone, Copy, PartialEq, Eq, Structural)]
pub enum ShardHasher {
    /// aHash (the default: fast and well distributed).
    AHash,
    /// FxHash (faster, possibly less well distributed).
    FxHash,
}

/// Relies on ahash's `AHasher::default`, `Hash::hash` and `Hasher::finish`: the key's
/// aHash digest. Its keys are drawn once per process, so nothing is stated of the value.
#[verifier::external_body]
fn ahash_digest<K: Hash + ?Sized>(key: &K) -> u64 {
    let mut hasher = ahash::AHasher::default();
    key.hash(&mut hasher);
    hasher.finish()
}

/// Relies on fxhash's `FxHasher::default`, `Hash::hash` and `Hasher::finish`: the key's
/// FxHash digest.
#[verifier::external_body]
fn fx_digest<K: Hash + ?Sized>(key: &K) -> u64 {
    let mut hasher = fxhash::FxHasher::default();
    key.hash(&mut hasher);
    hasher.finish()
}

impl ShardHasher {
    /// The digest of `key` that places it on a shard.
    pub fn hash_key<K: Hash + ?Sized>(&self, key: &K) -> u64 {
        match self {
            ShardHasher::AHash => ahash_digest(key),
            ShardHasher::FxHash => fx_digest(key),
        }
    }
}

impl Default for ShardHasher {
    fn default() -> (r: ShardHasher)
        ensures
            r == ShardHasher::AHash,
    {
        ShardHasher::AHash
    }
}

} // verus!
