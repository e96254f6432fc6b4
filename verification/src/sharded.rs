//! A layer over a blobstore that serializes access to virtual slices of it, indexed
//! by key, and deduplicates reads and writes through a cache.

pub mod bytes_model;
pub mod cache_key;
pub mod counters;
pub mod data;
pub mod frame;
pub mod shards;
pub mod store;
pub mod get;
pub mod present;
pub mod put;
pub mod inner;
pub mod runs;
pub mod protocol;
pub mod serialization;
pub mod concurrency;
