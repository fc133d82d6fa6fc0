//! A brute-force nonce search over rotating block headers, with digests
//! classified into nested rarity tiers.

mod bytes;
mod digest;

pub mod aggregator;
pub mod block;
pub mod manager;
pub mod resource;
pub mod worker;

pub use aggregator::{thread_count, Aggregator};
pub use block::{get_time_ms, Block, Nonce, CHUNK_SIZE};
pub use bytes::{be_value, lemma_be_value_lex, satisfies};
pub use manager::{lemma_chunks_partition, BlockManager, NONCE_MAX};
pub use resource::{
    lemma_tiers_nested, meets_threshold, ConfigError, Resource, ResourceKind, ResourceMatcher,
};
pub use worker::mine_chunk;
