//! Reads and writes are deduplicated through the cache.
//!
//! Many reads or writes run at the same time, in any order of their steps. Besides what
//! the slices do, the cache is taken to hold what it was given, by them or by anything
//! else that runs meanwhile: one that forgets or fails lets a blob be read or written
//! again.

use vstd::prelude::*;

use crate::sharded::frame::CacheData;
use crate::sharded::get::GetEvent;
use crate::sharded::put::PutEvent;
use crate::sharded::serialization::{
    cacheable_reads_hold, lemma_one_reader_per_slice, lemma_one_writer_per_slice,
    one_reader_per_slice, one_writer_per_slice, read_goes_on, reader_holds, write_goes_on,
    writer_holds, Reads, Writes,
};

verus! {

/// Writes that run at the same time, each with its key.
pub struct Writers<P> {
    pub tasks: Writes<P>,
    /// The keys that the presence pool holds.
    pub known: Set<Seq<char>>,
    /// The keys whose blobs the blobstore took, in the order in which it did.
    pub written: Seq<Seq<char>>,
}

impl<P> Writers<P> {
    /// No write has begun, and none has happened.
    pub open spec fn at_start(&self) -> bool {
        &&& forall|i: int|
            0 <= i < self.tasks.len() ==> (#[trigger] self.tasks[i]).1 is FirstCheck
        &&& self.written.len() == 0
    }

    /// What the outside may answer the write at `i`, and what is known and written then.
    /// Reads and questions may mark further keys meanwhile.
    pub open spec fn answers<E>(
        &self,
        after: Writers<P>,
        i: int,
        event: PutEvent<P, E>,
    ) -> bool {
        let key = self.tasks[i].0;
        match event {
            PutEvent::Known(result) => {
                &&& result == Ok::<bool, E>(self.known.contains(key))
                &&& self.known.subset_of(after.known)
                &&& after.written == self.written
            },
            PutEvent::Permit(_) => {
                &&& self.known.subset_of(after.known)
                &&& after.written == self.written
            },
            PutEvent::Written(Ok(_)) => {
                &&& self.known.subset_of(after.known)
                &&& after.written == self.written.push(key)
            },
            PutEvent::Written(Err(_)) => {
                &&& self.known.subset_of(after.known)
                &&& after.written == self.written
            },
            PutEvent::Cached => {
                &&& self.known.insert(key).subset_of(after.known)
                &&& after.written == self.written
            },
        }
    }

    /// The write at `i` takes in the event and goes on; the others stay where they are.
    pub open spec fn goes_on<E>(
        &self,
        shard: spec_fn(Seq<char>) -> int,
        after: Writers<P>,
        i: int,
        event: PutEvent<P, E>,
    ) -> bool {
        &&& write_goes_on(shard, self.tasks, after.tasks, i, event)
        &&& self.answers(after, i, event)
    }

    /// Some write goes on.
    pub open spec fn steps_to<E>(
        &self,
        shard: spec_fn(Seq<char>) -> int,
        after: Writers<P>,
    ) -> bool {
        exists|i: int, event: PutEvent<P, E>| #[trigger] self.goes_on(shard, after, i, event)
    }

    /// The blob of the key is about to be put in the cache.
    pub open spec fn is_being_cached(&self, key: Seq<char>) -> bool {
        exists|j: int|
            0 <= j < self.tasks.len() && (#[trigger] self.tasks[j]).0 == key
                && self.tasks[j].1 is Caching
    }

    /// What every step keeps.
    pub open spec fn consistent(&self, shard: spec_fn(Seq<char>) -> int) -> bool {
        &&& one_writer_per_slice(shard, self.tasks)
        &&& forall|i: int|
            0 <= i < self.tasks.len() && (#[trigger] self.tasks[i]).1 is Writing
                ==> !self.written.contains(self.tasks[i].0)
        &&& forall|n: int|
            0 <= n < self.written.len() ==> self.known.contains(#[trigger] self.written[n])
                || self.is_being_cached(self.written[n])
        &&& self.written.no_duplicates()
    }
}

/// One step keeps the writes consistent.
proof fn lemma_writers_step<P, E>(
    shard: spec_fn(Seq<char>) -> int,
    before: Writers<P>,
    after: Writers<P>,
    i: int,
    event: PutEvent<P, E>,
)
    requires
        before.consistent(shard),
        before.goes_on(shard, after, i, event),
    ensures
        after.consistent(shard),
{
    let key = before.tasks[i].0;
    let old_state = before.tasks[i].1;
    assert forall|j: int| 0 <= j < before.tasks.len() && j != i implies #[trigger] after.tasks[j]
        == before.tasks[j] by {}
    lemma_one_writer_per_slice(shard, before.tasks, after.tasks, i, event);
    // A write that holds a permit is alone with its key.
    assert forall|j: int|
        0 <= j < before.tasks.len() && j != i && writer_holds(old_state) && (
        #[trigger] before.tasks[j]).0 == key implies !writer_holds(before.tasks[j].1) by {
        assert(before.tasks[i].0 == key);
    }
    assert forall|j: int|
        0 <= j < after.tasks.len() && (
        #[trigger] after.tasks[j]).1 is Writing implies !after.written.contains(
        after.tasks[j].0,
    ) by {
        if j == i {
            assert(old_state is SecondCheck);
            if before.written.contains(key) {
                let n = choose|n: int| 0 <= n < before.written.len() && before.written[n] == key;
                assert(before.known.contains(before.written[n]) || before.is_being_cached(
                    before.written[n],
                ));
                let k = choose|k: int|
                    0 <= k < before.tasks.len() && (#[trigger] before.tasks[k]).0 == key
                        && before.tasks[k].1 is Caching;
                assert(k == i || !writer_holds(before.tasks[k].1));
            }
        } else {
            assert(before.tasks[j].1 is Writing);
            assert(!before.written.contains(before.tasks[j].0));
            if after.written.contains(after.tasks[j].0) {
                let n = choose|n: int|
                    0 <= n < after.written.len() && after.written[n] == after.tasks[j].0;
                assert(n < before.written.len() ==> before.written[n] == after.written[n]);
                assert(before.tasks[j].0 == key);
            }
        }
    }
    assert forall|n: int| 0 <= n < after.written.len() implies after.known.contains(
        #[trigger] after.written[n],
    ) || after.is_being_cached(after.written[n]) by {
        if n < before.written.len() {
            assert(after.written[n] == before.written[n]);
            if !before.known.contains(before.written[n]) {
                let k = choose|k: int|
                    0 <= k < before.tasks.len() && (#[trigger] before.tasks[k]).0
                        == before.written[n] && before.tasks[k].1 is Caching;
                assert(after.tasks[k].0 == before.written[n]);
            }
        } else {
            assert(after.tasks[i].0 == key);
        }
    }
    assert(after.written.no_duplicates()) by {
        if event matches PutEvent::Written(Ok(_)) {
            assert(!before.written.contains(before.tasks[i].0));
            assert forall|a: int, b: int|
                0 <= a < after.written.len() && 0 <= b < after.written.len() && a
                    != b implies after.written[a] != after.written[b] by {
                let n = before.written.len() as int;
                if a < n {
                    assert(before.written.contains(before.written[a]));
                }
                if b < n {
                    assert(before.written.contains(before.written[b]));
                }
            }
        }
    }
}

/// Every step of the trace is one of some write.
pub open spec fn writers_trace<P, E>(
    shard: spec_fn(Seq<char>) -> int,
    trace: Seq<Writers<P>>,
) -> bool {
    &&& trace.len() > 0
    &&& trace[0].at_start()
    &&& forall|n: int|
        0 < n < trace.len() ==> trace[n - 1].steps_to::<E>(shard, #[trigger] trace[n])
}

proof fn lemma_writers_trace<P, E>(
    shard: spec_fn(Seq<char>) -> int,
    trace: Seq<Writers<P>>,
    n: int,
)
    requires
        writers_trace::<P, E>(shard, trace),
        0 <= n < trace.len(),
    ensures
        trace[n].consistent(shard),
    decreases n,
{
    if n > 0 {
        lemma_writers_trace::<P, E>(shard, trace, n - 1);
        let before = trace[n - 1];
        assert(before.steps_to::<E>(shard, trace[n]));
        let (i, event) = choose|i: int, event: PutEvent<P, E>| #[trigger]
            before.goes_on(shard, trace[n], i, event);
        lemma_writers_step(shard, before, trace[n], i, event);
    }
}

/// Writes are deduplicated: however many writes of one key run at the same time, the
/// blobstore takes its blob at most once.
pub proof fn no_blob_is_written_twice<P, E>(
    shard: spec_fn(Seq<char>) -> int,
    trace: Seq<Writers<P>>,
    n: int,
)
    requires
        writers_trace::<P, E>(shard, trace),
        0 <= n < trace.len(),
    ensures
        trace[n].written.no_duplicates(),
{
    lemma_writers_trace::<P, E>(shard, trace, n);
}

/// Reads that run at the same time, each with its key.
pub struct Readers<P> {
    pub tasks: Reads<P>,
    /// What the blob pool holds of a key: the blob, or that it does not fit.
    pub cache: Map<Seq<char>, bool>,
    /// The keys whose blobs the blobstore returned, in the order in which it did.
    pub read: Seq<Seq<char>>,
}

impl<P> Readers<P> {
    /// No read has begun, and none has happened. The cache may hold blobs from before.
    pub open spec fn at_start(&self, fits: spec_fn(Seq<char>) -> bool) -> bool {
        &&& forall|i: int|
            0 <= i < self.tasks.len() ==> (#[trigger] self.tasks[i]).1 is FirstLookup
        &&& self.read.len() == 0
        &&& self.cache_is_right(fits)
    }

    /// What the cache holds of a key says whether its blob fits.
    pub open spec fn cache_is_right(&self, fits: spec_fn(Seq<char>) -> bool) -> bool {
        forall|key: Seq<char>| #[trigger]
            self.cache.contains_key(key) ==> self.cache[key] == fits(key)
    }

    /// The reply is what the cache holds of the key.
    pub open spec fn is_cached_reply<E>(
        &self,
        key: Seq<char>,
        reply: Result<Option<CacheData>, E>,
    ) -> bool {
        if self.cache.contains_key(key) {
            if self.cache[key] {
                reply matches Ok(Some(CacheData::Stored(_)))
            } else {
                reply matches Ok(Some(CacheData::NotStorable))
            }
        } else {
            reply matches Ok(None)
        }
    }

    /// What the outside may answer the read at `i`, and what is cached and read then.
    /// Writes may fill the cache meanwhile.
    pub open spec fn answers<E>(
        &self,
        fits: spec_fn(Seq<char>) -> bool,
        after: Readers<P>,
        i: int,
        event: GetEvent<P, E>,
    ) -> bool {
        let key = self.tasks[i].0;
        &&& self.cache.dom().subset_of(after.cache.dom())
        &&& after.cache_is_right(fits)
        &&& match event {
            GetEvent::Cache(reply) => {
                &&& self.is_cached_reply(key, reply)
                &&& after.read == self.read
            },
            GetEvent::Permit(_) => after.read == self.read,
            GetEvent::Blob(Ok(Some(_))) => after.read == self.read.push(key),
            GetEvent::Blob(_) => after.read == self.read,
            GetEvent::Cached => {
                &&& after.cache.contains_key(key)
                &&& after.read == self.read
            },
        }
    }

    /// The read at `i` takes in the event and goes on; the others stay where they are.
    pub open spec fn goes_on<E>(
        &self,
        shard: spec_fn(Seq<char>) -> int,
        fits: spec_fn(Seq<char>) -> bool,
        after: Readers<P>,
        i: int,
        event: GetEvent<P, E>,
    ) -> bool {
        &&& read_goes_on(shard, fits, self.tasks, after.tasks, i, event)
        &&& self.answers(fits, after, i, event)
    }

    /// Some read goes on.
    pub open spec fn steps_to<E>(
        &self,
        shard: spec_fn(Seq<char>) -> int,
        fits: spec_fn(Seq<char>) -> bool,
        after: Readers<P>,
    ) -> bool {
        exists|i: int, event: GetEvent<P, E>| #[trigger]
            self.goes_on(shard, fits, after, i, event)
    }

    /// The blob of the key is about to be put in the cache.
    pub open spec fn is_being_cached(&self, key: Seq<char>) -> bool {
        exists|j: int|
            0 <= j < self.tasks.len() && (#[trigger] self.tasks[j]).0 == key
                && self.tasks[j].1 is Caching
    }

    /// No blob that fits in the cache was read twice.
    pub open spec fn reads_once(&self, fits: spec_fn(Seq<char>) -> bool) -> bool {
        forall|a: int, b: int|
            0 <= a < b < self.read.len() && fits(#[trigger] self.read[a]) ==> self.read[a]
                != #[trigger] self.read[b]
    }

    /// What every step keeps.
    pub open spec fn consistent(
        &self,
        shard: spec_fn(Seq<char>) -> int,
        fits: spec_fn(Seq<char>) -> bool,
    ) -> bool {
        &&& one_reader_per_slice(shard, self.tasks)
        &&& cacheable_reads_hold(fits, self.tasks)
        &&& self.cache_is_right(fits)
        &&& forall|i: int|
            0 <= i < self.tasks.len() && fits((#[trigger] self.tasks[i]).0)
                && self.tasks[i].1 is Reading ==> !self.read.contains(self.tasks[i].0)
        &&& forall|n: int|
            0 <= n < self.read.len() && fits(#[trigger] self.read[n]) ==> self.cache.contains_key(
                self.read[n],
            ) || self.is_being_cached(self.read[n])
        &&& self.reads_once(fits)
    }
}

/// One step keeps the reads consistent.
proof fn lemma_readers_step<P, E>(
    shard: spec_fn(Seq<char>) -> int,
    fits: spec_fn(Seq<char>) -> bool,
    before: Readers<P>,
    after: Readers<P>,
    i: int,
    event: GetEvent<P, E>,
)
    requires
        before.consistent(shard, fits),
        before.goes_on(shard, fits, after, i, event),
    ensures
        after.consistent(shard, fits),
{
    let key = before.tasks[i].0;
    let old_state = before.tasks[i].1;
    assert forall|j: int| 0 <= j < before.tasks.len() && j != i implies #[trigger] after.tasks[j]
        == before.tasks[j] by {}
    lemma_one_reader_per_slice(shard, fits, before.tasks, after.tasks, i, event);
    // A read that holds a permit is alone with its key.
    assert forall|j: int|
        0 <= j < before.tasks.len() && j != i && reader_holds(old_state) && (
        #[trigger] before.tasks[j]).0 == key implies !reader_holds(before.tasks[j].1) by {
        assert(before.tasks[i].0 == key);
    }
    assert forall|j: int|
        0 <= j < after.tasks.len() && fits((#[trigger] after.tasks[j]).0)
            && after.tasks[j].1 is Reading implies !after.read.contains(after.tasks[j].0) by {
        if j == i {
            assert(old_state is SecondLookup);
            if before.read.contains(key) {
                let n = choose|n: int| 0 <= n < before.read.len() && before.read[n] == key;
                assert(before.cache.contains_key(before.read[n]) || before.is_being_cached(
                    before.read[n],
                ));
                let k = choose|k: int|
                    0 <= k < before.tasks.len() && (#[trigger] before.tasks[k]).0 == key
                        && before.tasks[k].1 is Caching;
                assert(k == i || !reader_holds(before.tasks[k].1));
            }
        } else {
            assert(before.tasks[j].1 is Reading);
            assert(!before.read.contains(before.tasks[j].0));
            if after.read.contains(after.tasks[j].0) {
                let n = choose|n: int|
                    0 <= n < after.read.len() && after.read[n] == after.tasks[j].0;
                assert(n < before.read.len() ==> before.read[n] == after.read[n]);
                assert(before.tasks[j].0 == key);
            }
        }
    }
    assert forall|n: int|
        0 <= n < after.read.len() && fits(
            #[trigger] after.read[n],
        ) implies after.cache.contains_key(after.read[n]) || after.is_being_cached(
        after.read[n],
    ) by {
        if n < before.read.len() {
            assert(after.read[n] == before.read[n]);
            if !before.cache.contains_key(before.read[n]) {
                let k = choose|k: int|
                    0 <= k < before.tasks.len() && (#[trigger] before.tasks[k]).0
                        == before.read[n] && before.tasks[k].1 is Caching;
                assert(after.tasks[k].0 == before.read[n]);
            }
        } else {
            assert(after.tasks[i].0 == key);
        }
    }
    assert(after.reads_once(fits)) by {
        if event matches GetEvent::Blob(Ok(Some(_))) {
            assert(fits(before.tasks[i].0) ==> !before.read.contains(before.tasks[i].0));
            assert forall|a: int, b: int|
                0 <= a < b < after.read.len() && fits(
                    #[trigger] after.read[a],
                ) implies after.read[a] != #[trigger] after.read[b] by {
                assert(before.read[a] == after.read[a]);
                assert(before.read.contains(before.read[a]));
            }
        }
    }
}

/// Every step of the trace is one of some read.
pub open spec fn readers_trace<P, E>(
    shard: spec_fn(Seq<char>) -> int,
    fits: spec_fn(Seq<char>) -> bool,
    trace: Seq<Readers<P>>,
) -> bool {
    &&& trace.len() > 0
    &&& trace[0].at_start(fits)
    &&& forall|n: int|
        0 < n < trace.len() ==> trace[n - 1].steps_to::<E>(shard, fits, #[trigger] trace[n])
}

proof fn lemma_readers_trace<P, E>(
    shard: spec_fn(Seq<char>) -> int,
    fits: spec_fn(Seq<char>) -> bool,
    trace: Seq<Readers<P>>,
    n: int,
)
    requires
        readers_trace::<P, E>(shard, fits, trace),
        0 <= n < trace.len(),
    ensures
        trace[n].consistent(shard, fits),
    decreases n,
{
    if n > 0 {
        lemma_readers_trace::<P, E>(shard, fits, trace, n - 1);
        let before = trace[n - 1];
        assert(before.steps_to::<E>(shard, fits, trace[n]));
        let (i, event) = choose|i: int, event: GetEvent<P, E>| #[trigger]
            before.goes_on(shard, fits, trace[n], i, event);
        lemma_readers_step(shard, fits, before, trace[n], i, event);
    }
}

/// Reads are deduplicated: however many reads of one key run at the same time, the
/// blobstore returns a blob that fits in the cache at most once.
pub proof fn no_cacheable_blob_is_read_twice<P, E>(
    shard: spec_fn(Seq<char>) -> int,
    fits: spec_fn(Seq<char>) -> bool,
    trace: Seq<Readers<P>>,
    n: int,
    a: int,
    b: int,
)
    requires
        readers_trace::<P, E>(shard, fits, trace),
        0 <= n < trace.len(),
        0 <= a < b < trace[n].read.len(),
        fits(trace[n].read[a]),
    ensures
        trace[n].read[a] != trace[n].read[b],
{
    lemma_readers_trace::<P, E>(shard, fits, trace, n);
}

} // verus!
