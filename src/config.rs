//! Configuration, routing and the builder.

use crate::error::Error;
use crate::hash::ShardHasher;
use crate::shardmap::ShardMap;
use std::hash::Hash;
use vstd::arithmetic::power::{lemma_pow_positive, pow};
use vstd::arithmetic::power2::{is_pow2, is_pow2_equiv, is_pow2_exists, pow2};
use vstd::prelude::*;
use vstd::std_specs::hash::obeys_key_model;

verus! {

/// The shard count of a map built without one.
pub const DEFAULT_SHARD_COUNT: usize = 16;

/// `n` is `2^k` for some `k`.
pub open spec fn is_power_of_two(n: int) -> bool {
    exists|k: nat| pow2(k) == n
}

/// A shard count that a map accepts: a power of two, hence above zero.
pub open spec fn valid_shard_count(n: usize) -> bool {
    n > 0 && is_power_of_two(n as int)
}

/// Whether `n` is `2^k` for some `k`: halves `n` while it is even.
fn power_of_two(n: usize) -> (r: bool)
    ensures
        r == is_power_of_two(n as int),
{
    let mut m = n;
    while m > 1 && m % 2 == 0
        invariant
            m <= n,
            is_pow2(m as int) == is_pow2(n as int),
        decreases m,
    {
        proof {
            reveal(is_pow2);
        }
        m = m / 2;
    }
    proof {
        reveal(is_pow2);
        is_pow2_equiv(n as int);
        assert(is_pow2_exists(n as int) == is_power_of_two(n as int)) by {
            if is_power_of_two(n as int) {
                let k = choose|k: nat| pow2(k) == n as int;
                lemma_pow_positive(2, k);
                assert(pow(2, k) == n as int);
            }
            if is_pow2_exists(n as int) {
                let k = choose|k: nat| pow(2, k) == n as int;
                lemma_pow_positive(2, k);
                assert(pow2(k) == n as int);
            }
        }
    }
    m == 1
}

/// Checks a shard count.
pub fn check_shard_count(count: usize) -> (r: bool)
    ensures
        r == valid_shard_count(count),
{
    count != 0 && power_of_two(count)
}

/// Which digest function places keys on shards.
#[derive(Debug, Clone, Copy, PartialEq, Eq, Structural)]
pub enum HashFunction {
    /// Use aHash (default, fast and well-distributed).
    AHash,
    /// Use FxHash (faster but potentially less distributed).
    FxHash,
}

impl Default for HashFunction {
    fn default() -> (r: HashFunction)
        ensures
            r == HashFunction::AHash,
    {
        HashFunction::AHash
    }
}

/// User-provided shard selection. Enables stateful or custom routing.
///
/// An implementation must return an index below `shard_count`: the map indexes its
/// shards with the result and relies on that promise.
pub trait ShardRouter: Send + Sync {
    /// Return the shard index in `[0, shard_count)` for the given key hash.
    fn route(&self, key_hash: u64, shard_count: usize) -> (r: usize)
        requires
            shard_count > 0,
        ensures
            r < shard_count,
    ;
}

/// The default placement: the low bits of the digest, `hash & (shard_count - 1)`.
pub open spec fn mask_route(key_hash: u64, shard_count: usize) -> usize {
    (key_hash as usize) & ((shard_count - 1) as usize)
}

/// Places a digest on a shard by its low bits.
pub fn masked(key_hash: u64, shard_count: usize) -> (r: usize)
    requires
        shard_count > 0,
    ensures
        r == mask_route(key_hash, shard_count),
        r < shard_count,
{
    let mask: usize = shard_count - 1;
    let h = key_hash as usize;
    let r = h & mask;
    assert(h & mask <= mask) by (bit_vector);
    r
}

/// Default routing: `(hash as usize) & (shard_count - 1)`.
#[derive(Debug, Clone, Copy)]
pub struct DefaultRouter;

impl ShardRouter for DefaultRouter {
    fn route(&self, key_hash: u64, shard_count: usize) -> (r: usize) {
        masked(key_hash, shard_count)
    }
}

/// Routing strategy for shard selection.
pub enum RoutingConfig {
    /// Default: hash & (shard_count - 1).
    Default,
    /// User-provided router (e.g. stateful or custom distribution).
    Custom(Box<dyn ShardRouter>),
}

impl Default for RoutingConfig {
    fn default() -> (r: RoutingConfig)
        ensures
            r is Default,
    {
        RoutingConfig::Default
    }
}

/// Configuration for a map.
pub struct Config {
    pub(crate) shard_count: usize,
    pub(crate) hash_function: HashFunction,
    pub(crate) capacity_per_shard: Option<usize>,
    pub(crate) routing: RoutingConfig,
}

impl Config {
    /// The shard count that this configuration asks for.
    pub closed spec fn spec_shard_count(&self) -> usize {
        self.shard_count
    }

    /// The digest function that this configuration asks for.
    pub closed spec fn spec_hash_function(&self) -> HashFunction {
        self.hash_function
    }

    /// The initial capacity of each shard, if one was set.
    pub closed spec fn spec_capacity_per_shard(&self) -> Option<usize> {
        self.capacity_per_shard
    }

    /// Whether this configuration routes by the digest's low bits.
    pub closed spec fn spec_default_routing(&self) -> bool {
        self.routing is Default
    }

    /// What the accessors above return.
    pub(crate) proof fn reveal_fields(&self)
        ensures
            self.spec_shard_count() == self.shard_count,
            self.spec_hash_function() == self.hash_function,
            self.spec_capacity_per_shard() == self.capacity_per_shard,
            self.spec_default_routing() == (self.routing is Default),
    {
    }

    /// A configuration with the defaults: 16 shards, aHash, default routing.
    pub fn new() -> (r: Config)
        ensures
            r.spec_shard_count() == DEFAULT_SHARD_COUNT,
            r.spec_hash_function() == HashFunction::AHash,
            r.spec_capacity_per_shard() is None,
            r.spec_default_routing(),
    {
        Config {
            shard_count: DEFAULT_SHARD_COUNT,
            hash_function: HashFunction::AHash,
            capacity_per_shard: None,
            routing: RoutingConfig::Default,
        }
    }

    /// Sets the number of shards, which must be a power of two and greater than 0.
    pub fn shard_count(self, count: usize) -> (r: Result<Config, Error>)
        ensures
            r is Ok <==> valid_shard_count(count),
            r is Err ==> r->Err_0 == Error::InvalidShardCount,
            r matches Ok(c) ==> c.spec_shard_count() == count && c.spec_hash_function()
                == self.spec_hash_function() && c.spec_capacity_per_shard()
                == self.spec_capacity_per_shard() && c.spec_default_routing()
                == self.spec_default_routing(),
    {
        if !check_shard_count(count) {
            return Err(Error::InvalidShardCount);
        }
        let mut c = self;
        c.shard_count = count;
        Ok(c)
    }

    /// Sets the digest function.
    pub fn hash_function(self, hash_fn: HashFunction) -> (r: Config)
        ensures
            r.spec_hash_function() == hash_fn,
            r.spec_shard_count() == self.spec_shard_count(),
            r.spec_capacity_per_shard() == self.spec_capacity_per_shard(),
            r.spec_default_routing() == self.spec_default_routing(),
    {
        let mut c = self;
        c.hash_function = hash_fn;
        c
    }

    /// Sets the initial capacity of each shard.
    pub fn capacity_per_shard(self, capacity: usize) -> (r: Config)
        ensures
            r.spec_capacity_per_shard() == Some(capacity),
            r.spec_shard_count() == self.spec_shard_count(),
            r.spec_hash_function() == self.spec_hash_function(),
            r.spec_default_routing() == self.spec_default_routing(),
    {
        let mut c = self;
        c.capacity_per_shard = Some(capacity);
        c
    }
}

impl Default for Config {
    fn default() -> (r: Config)
        ensures
            r.spec_shard_count() == DEFAULT_SHARD_COUNT,
            r.spec_hash_function() == HashFunction::AHash,
            r.spec_capacity_per_shard() is None,
            r.spec_default_routing(),
    {
        Config::new()
    }
}

/// Builder for a map with a custom configuration.
pub struct ShardMapBuilder {
    config: Config,
}

impl ShardMapBuilder {
    /// The configuration built so far.
    pub closed spec fn spec_config(&self) -> Config {
        self.config
    }

    /// A builder that starts from the default configuration.
    pub fn new() -> (r: ShardMapBuilder)
        ensures
            r.spec_config().spec_shard_count() == DEFAULT_SHARD_COUNT,
            r.spec_config().spec_hash_function() == HashFunction::AHash,
            r.spec_config().spec_capacity_per_shard() is None,
            r.spec_config().spec_default_routing(),
    {
        ShardMapBuilder { config: Config::new() }
    }

    /// Sets the number of shards, which must be a power of two and greater than 0.
    pub fn shard_count(self, count: usize) -> (r: Result<ShardMapBuilder, Error>)
        ensures
            r is Ok <==> valid_shard_count(count),
            r is Err ==> r->Err_0 == Error::InvalidShardCount,
            r matches Ok(b) ==> b.spec_config().spec_shard_count() == count
                && b.spec_config().spec_hash_function() == self.spec_config().spec_hash_function()
                && b.spec_config().spec_capacity_per_shard()
                == self.spec_config().spec_capacity_per_shard()
                && b.spec_config().spec_default_routing()
                == self.spec_config().spec_default_routing(),
    {
        match self.config.shard_count(count) {
            Ok(c) => Ok(ShardMapBuilder { config: c }),
            Err(e) => Err(e),
        }
    }

    /// Sets the digest function.
    pub fn hash_function(self, hash_fn: HashFunction) -> (r: ShardMapBuilder)
        ensures
            r.spec_config().spec_hash_function() == hash_fn,
            r.spec_config().spec_shard_count() == self.spec_config().spec_shard_count(),
            r.spec_config().spec_capacity_per_shard() == self.spec_config().spec_capacity_per_shard(),
            r.spec_config().spec_default_routing() == self.spec_config().spec_default_routing(),
    {
        ShardMapBuilder { config: self.config.hash_function(hash_fn) }
    }

    /// Sets the initial capacity of each shard.
    pub fn capacity_per_shard(self, capacity: usize) -> (r: ShardMapBuilder)
        ensures
            r.spec_config().spec_capacity_per_shard() == Some(capacity),
            r.spec_config().spec_shard_count() == self.spec_config().spec_shard_count(),
            r.spec_config().spec_hash_function() == self.spec_config().spec_hash_function(),
            r.spec_config().spec_default_routing() == self.spec_config().spec_default_routing(),
    {
        ShardMapBuilder { config: self.config.capacity_per_shard(capacity) }
    }

    /// Sets the routing strategy.
    pub fn routing(self, routing: RoutingConfig) -> (r: ShardMapBuilder)
        ensures
            r.spec_config().spec_default_routing() == (routing is Default),
            r.spec_config().spec_shard_count() == self.spec_config().spec_shard_count(),
            r.spec_config().spec_hash_function() == self.spec_config().spec_hash_function(),
            r.spec_config().spec_capacity_per_shard() == self.spec_config().spec_capacity_per_shard(),
    {
        let mut c = self.config;
        c.routing = routing;
        ShardMapBuilder { config: c }
    }

    /// Builds a map with the configured settings.
    pub fn build<K: Hash + Eq, V>(self) -> (r: Result<ShardMap<K, V>, Error>)
        requires
            obeys_key_model::<K>(),
        ensures
            r is Ok <==> valid_shard_count(self.spec_config().spec_shard_count()),
            r is Err ==> r->Err_0 == Error::InvalidShardCount,
            r matches Ok(m) ==> m.wf() && m.shard_count() == self.spec_config().spec_shard_count()
                && m.default_routing() == self.spec_config().spec_default_routing() && m.hasher()
                == hasher_for(self.spec_config().spec_hash_function()) && m.starts_empty(),
    {
        ShardMap::with_config(self.config)
    }
}

impl Default for ShardMapBuilder {
    fn default() -> (r: ShardMapBuilder)
        ensures
            r.spec_config().spec_shard_count() == DEFAULT_SHARD_COUNT,
            r.spec_config().spec_default_routing(),
    {
        ShardMapBuilder::new()
    }
}

/// The digest function that `hash_fn` names.
pub open spec fn hasher_for(hash_fn: HashFunction) -> ShardHasher {
    match hash_fn {
        HashFunction::AHash => ShardHasher::AHash,
        HashFunction::FxHash => ShardHasher::FxHash,
    }
}

/// The digest function that `hash_fn` names.
pub fn create_hasher(hash_fn: HashFunction) -> (r: ShardHasher)
    ensures
        r == hasher_for(hash_fn),
{
    match hash_fn {
        HashFunction::AHash => ShardHasher::AHash,
        HashFunction::FxHash => ShardHasher::FxHash,
    }
}

} // verus!
