//! # shardmap
//!
//! A concurrent map that splits its keys over a fixed number of independently locked
//! shards. Each key's digest picks its shard; each shard guards its table with its own
//! reader/writer lock, so operations on different shards never wait for each other.
//! Values live in shared cells (`Arc<V>`) that readers keep without copying.
//!
//! Other threads may act between two calls, so each operation's contract states the
//! transition that it performed on its shard's table at one instant (see `table`), and
//! the module `laws` proves what follows when such transitions are chained.

pub mod config;
pub mod error;
pub mod hash;
pub mod iter;
pub mod laws;
pub mod lock;
pub mod shard;
pub mod shardmap;
pub mod stats;
pub mod table;

pub use config::{Config, DefaultRouter, HashFunction, RoutingConfig, ShardMapBuilder, ShardRouter};
pub use error::Error;
pub use shardmap::ShardMap;
pub use stats::{Diagnostics, LoadRatio, ShardDiagnostics, ShardOps, Stats};
