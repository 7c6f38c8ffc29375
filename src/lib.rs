//! Single-node block storage engine: placement of write slots over volumes and
//! buckets, a column-family metadata store with atomic batches, the block
//! lifecycle (live, tombstoned, purged), garbage collection and revalidation.

pub mod text;
pub mod digest;
pub mod codec;
pub mod ledger;
pub mod meta;
pub mod store;
pub mod catalog;
pub mod bucket;
pub mod volume;
pub mod disk;
pub mod laws;
pub mod engine;
pub mod config;
pub mod status;
pub mod cluster;
pub mod build_info;
pub mod route;
