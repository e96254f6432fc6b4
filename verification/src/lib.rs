//! The decision logic of a source-control storage server: the virtually sharded
//! blobstore layer, and the two administration commands that create commits.
//!
//! Every function here is verified. What talks to a cache, a blobstore or a
//! repository lives outside and is driven by the state machines of this crate.

pub mod order;
pub mod sorted_map;
pub mod path;
pub mod exclude;
pub mod bonsai;
pub mod nonzero;
pub mod rsync;
pub mod listing;
pub mod rsync_options;
pub mod create_bonsai;
pub mod sharded;
