//! The layer itself: the blobstore it stands on, its slices and its cache pools.

use std::sync::Arc;

use bytes::Bytes;
use vstd::prelude::*;

use crate::nonzero::NonZeroUsize;
use crate::sharded::counters::PerfCounterType;
use crate::sharded::shards::{permits_made_with, Shards};

verus! {

/// The filter does not let a blob pass.
#[derive(Clone, Copy, Debug, PartialEq, Eq, Structural)]
pub struct Rejected;

/// What decides which encoded blobs may be cached.
pub trait CacheFilter {
    fn check(&self, encoded: &Bytes) -> Result<(), Rejected>;
}

/// Lets every encoded blob pass.
pub fn allow_all_filter(_encoded: &Bytes) -> (result: Result<(), Rejected>)
    ensures
        result is Ok,
{
    Ok(())
}

/// The filter that lets every encoded blob pass.
#[derive(Clone, Copy, Debug, PartialEq, Eq, Structural)]
pub struct AllowAll;

impl CacheFilter for AllowAll {
    fn check(&self, encoded: &Bytes) -> (result: Result<(), Rejected>)
        ensures
            result is Ok,
    {
        allow_all_filter(encoded)
    }
}

/// What the handles to one layer share. `T` is the blobstore underneath, `C` a cache
/// pool and `F` the filter for what is cached.
pub struct Inner<T, C, F> {
    pub blobstore: T,
    pub write_shards: Shards,
    pub read_shards: Shards,
    pub presence_pool: C,
    pub blob_pool: C,
    pub cache_filter: F,
}

/// The slices are that many, each of them admits one access at a time, and the time
/// spent waiting for one is counted by `counter`.
pub open spec fn sliced(shards: Shards, count: usize, counter: PerfCounterType) -> bool {
    &&& shards.semaphores().len() == count
    &&& forall|i: int|
        0 <= i < shards.semaphores().len() ==> permits_made_with(
            #[trigger] shards.semaphores()[i],
        ) == 1
    &&& shards.counter() == counter
}

impl<T, C, F> Inner<T, C, F> {
    /// A layer over the blobstore with the given number of slices for reads and as many
    /// for writes.
    pub fn new(
        blobstore: T,
        blob_pool: C,
        presence_pool: C,
        shards: NonZeroUsize,
        cache_filter: F,
    ) -> (inner: Self)
        ensures
            inner.blobstore == blobstore,
            sliced(
                inner.write_shards,
                shards.value(),
                PerfCounterType::BlobPutsShardAccessWait,
            ),
            sliced(inner.read_shards, shards.value(), PerfCounterType::BlobGetsShardAccessWait),
            inner.presence_pool == presence_pool,
            inner.blob_pool == blob_pool,
            inner.cache_filter == cache_filter,
    {
        Inner {
            blobstore,
            write_shards: Shards::new(shards, PerfCounterType::BlobPutsShardAccessWait),
            read_shards: Shards::new(shards, PerfCounterType::BlobGetsShardAccessWait),
            presence_pool,
            blob_pool,
            cache_filter,
        }
    }
}

/// A layer over an existing blobstore that serializes access to virtual slices of the
/// blobstore, indexed by key. It also deduplicates writes for data that is already
/// present.
pub struct VirtuallyShardedBlobstore<T, C, F> {
    pub inner: Arc<Inner<T, C, F>>,
}

impl<T, C, F> Clone for VirtuallyShardedBlobstore<T, C, F> {
    /// Another handle to the same layer.
    fn clone(&self) -> (handle: Self)
        ensures
            handle.inner == self.inner,
    {
        VirtuallyShardedBlobstore { inner: self.inner.clone() }
    }
}

impl<T, C> VirtuallyShardedBlobstore<T, C, AllowAll> {
    /// A layer over the blobstore that caches everything it can.
    pub fn new(
        blobstore: T,
        blob_pool: C,
        presence_pool: C,
        shards: NonZeroUsize,
    ) -> (layer: Self)
        ensures
            layer.inner.blobstore == blobstore,
            sliced(
                layer.inner.write_shards,
                shards.value(),
                PerfCounterType::BlobPutsShardAccessWait,
            ),
            sliced(
                layer.inner.read_shards,
                shards.value(),
                PerfCounterType::BlobGetsShardAccessWait,
            ),
            layer.inner.presence_pool == presence_pool,
            layer.inner.blob_pool == blob_pool,
    {
        let inner = Inner::new(blobstore, blob_pool, presence_pool, shards, AllowAll);
        VirtuallyShardedBlobstore { inner: Arc::new(inner) }
    }
}

/// A sliced part has as many slices as were asked for, one permit each, and its own
/// counter.
pub proof fn slices_are_as_many_as_asked_for(
    shards: Shards,
    count: usize,
    counter: PerfCounterType,
    i: int,
)
    requires
        sliced(shards, count, counter),
    ensures
        shards.semaphores().len() == count,
        0 <= i < count ==> permits_made_with(shards.semaphores()[i]) == 1,
        shards.counter() == counter,
{
}

} // verus!
