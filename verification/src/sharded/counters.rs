//! The performance counters that the layer keeps.

use vstd::prelude::*;

verus! {

#[derive(Clone, Copy, Debug, PartialEq, Eq, Structural)]
pub enum PerfCounterType {
    /// Milliseconds that reads waited for their slice.
    BlobGetsShardAccessWait,
    /// Milliseconds that writes waited for their slice.
    BlobPutsShardAccessWait,
    /// Reads that the cache answered at once.
    CachelibHits,
    /// Reads that the cache did not answer at once.
    CachelibMisses,
    /// Reads that the cache answered after they had waited.
    BlobGetsDeduplicated,
    /// Writes of blobs that were known to be present.
    BlobPutsDeduplicated,
}

} // verus!
