//! Access to a slice is serialized, whatever the cache and the blobstore answer.
//!
//! Many reads or writes run at the same time, in any order of their steps. Of the
//! outside only one thing is taken for granted: that a permit is granted while none of
//! its slice is out, which is what a semaphore with one permit does. The pools may fail
//! and forget, and so may the blobstore.

use vstd::prelude::*;

use crate::sharded::get::{get_after, get_awaits, GetEvent, GetState};
use crate::sharded::put::{put_after, put_awaits, PutEvent, PutState};
use crate::sharded::runs::is_not_storable;

verus! {

/// Writes that run at the same time, each with its key.
pub type Writes<P> = Seq<(Seq<char>, PutState<P>)>;

/// A write that stands here holds a permit.
pub open spec fn writer_holds<P>(state: PutState<P>) -> bool {
    match state {
        PutState::SecondCheck(_, _) | PutState::Writing(_, _) | PutState::Caching(_) => true,
        _ => false,
    }
}

/// A write holds the permit of the slice.
pub open spec fn held_by_a_writer<P>(
    shard: spec_fn(Seq<char>) -> int,
    writes: Writes<P>,
    slice: int,
) -> bool {
    exists|j: int|
        0 <= j < writes.len() && writer_holds((#[trigger] writes[j]).1) && shard(writes[j].0)
            == slice
}

/// The write at `i` takes in the event and goes on; the others stay where they are.
pub open spec fn write_goes_on<P, E>(
    shard: spec_fn(Seq<char>) -> int,
    before: Writes<P>,
    after: Writes<P>,
    i: int,
    event: PutEvent<P, E>,
) -> bool {
    &&& 0 <= i < before.len()
    &&& put_awaits(before[i].1, event)
    &&& event is Permit ==> !held_by_a_writer(shard, before, shard(before[i].0))
    &&& after == before.update(i, (before[i].0, put_after(before[i].1, event).state))
}

/// Some write goes on.
pub open spec fn writes_step<P, E>(
    shard: spec_fn(Seq<char>) -> int,
    before: Writes<P>,
    after: Writes<P>,
) -> bool {
    exists|i: int, event: PutEvent<P, E>| #[trigger] write_goes_on(shard, before, after, i, event)
}

/// No write has begun at first, and every step of the trace is one of some write.
pub open spec fn writes_trace<P, E>(
    shard: spec_fn(Seq<char>) -> int,
    trace: Seq<Writes<P>>,
) -> bool {
    &&& trace.len() > 0
    &&& forall|i: int| 0 <= i < trace[0].len() ==> (#[trigger] trace[0][i]).1 is FirstCheck
    &&& forall|n: int|
        0 < n < trace.len() ==> writes_step::<P, E>(shard, trace[n - 1], #[trigger] trace[n])
}

/// No two writes hold the permit of one slice.
pub open spec fn one_writer_per_slice<P>(
    shard: spec_fn(Seq<char>) -> int,
    writes: Writes<P>,
) -> bool {
    forall|i: int, j: int|
        0 <= i < writes.len() && 0 <= j < writes.len() && i != j && writer_holds(
            (#[trigger] writes[i]).1,
        ) && writer_holds((#[trigger] writes[j]).1) ==> shard(writes[i].0) != shard(writes[j].0)
}

/// One step of a write leaves no slice with two.
pub proof fn lemma_one_writer_per_slice<P, E>(
    shard: spec_fn(Seq<char>) -> int,
    before: Writes<P>,
    after: Writes<P>,
    i: int,
    event: PutEvent<P, E>,
)
    requires
        one_writer_per_slice(shard, before),
        write_goes_on(shard, before, after, i, event),
    ensures
        one_writer_per_slice(shard, after),
{
    assert forall|a: int, b: int|
        0 <= a < after.len() && 0 <= b < after.len() && a != b && writer_holds(
            (#[trigger] after[a]).1,
        ) && writer_holds((#[trigger] after[b]).1) implies shard(after[a].0) != shard(
        after[b].0,
    ) by {
        assert(writer_holds(after[i].1) ==> writer_holds(before[i].1) || event is Permit);
        assert(before[a].0 == after[a].0);
        assert(before[b].0 == after[b].0);
    }
}

proof fn lemma_writes_trace<P, E>(
    shard: spec_fn(Seq<char>) -> int,
    trace: Seq<Writes<P>>,
    n: int,
)
    requires
        writes_trace::<P, E>(shard, trace),
        0 <= n < trace.len(),
    ensures
        one_writer_per_slice(shard, trace[n]),
    decreases n,
{
    if n > 0 {
        lemma_writes_trace::<P, E>(shard, trace, n - 1);
        let before = trace[n - 1];
        assert(writes_step::<P, E>(shard, before, trace[n]));
        let (i, event) = choose|i: int, event: PutEvent<P, E>| #[trigger]
            write_goes_on(shard, before, trace[n], i, event);
        lemma_one_writer_per_slice(shard, before, trace[n], i, event);
    }
}

/// Of all the writes that run at the same time, at most one to each slice is past its
/// wait and not over, so at most one writes the blobstore. This holds whatever the
/// presence pool, the cache and the blobstore answer.
pub proof fn a_slice_admits_one_writer_at_a_time<P, E>(
    shard: spec_fn(Seq<char>) -> int,
    trace: Seq<Writes<P>>,
    n: int,
    i: int,
    j: int,
)
    requires
        writes_trace::<P, E>(shard, trace),
        0 <= n < trace.len(),
        0 <= i < trace[n].len(),
        0 <= j < trace[n].len(),
        shard(trace[n][i].0) == shard(trace[n][j].0),
        writer_holds(trace[n][i].1),
        writer_holds(trace[n][j].1),
    ensures
        i == j,
{
    lemma_writes_trace::<P, E>(shard, trace, n);
}

/// Reads that run at the same time, each with its key.
pub type Reads<P> = Seq<(Seq<char>, GetState<P>)>;

/// A read that stands here holds a permit.
pub open spec fn reader_holds<P>(state: GetState<P>) -> bool {
    match state {
        GetState::SecondLookup(Some(_))
        | GetState::Reading(Some(_))
        | GetState::Caching(Some(_), _) => true,
        _ => false,
    }
}

/// A read that stands here is past the wait for a permit, and not over.
pub open spec fn past_the_wait<P>(state: GetState<P>) -> bool {
    state is SecondLookup || state is Reading || state is Caching
}

/// A read holds the permit of the slice.
pub open spec fn held_by_a_reader<P>(
    shard: spec_fn(Seq<char>) -> int,
    reads: Reads<P>,
    slice: int,
) -> bool {
    exists|j: int|
        0 <= j < reads.len() && reader_holds((#[trigger] reads[j]).1) && shard(reads[j].0) == slice
}

/// The read at `i` takes in the event and goes on; the others stay where they are. Of a
/// blob that is `cacheable` the cache does not say that it cannot be stored.
pub open spec fn read_goes_on<P, E>(
    shard: spec_fn(Seq<char>) -> int,
    cacheable: spec_fn(Seq<char>) -> bool,
    before: Reads<P>,
    after: Reads<P>,
    i: int,
    event: GetEvent<P, E>,
) -> bool {
    &&& 0 <= i < before.len()
    &&& get_awaits(before[i].1, event)
    &&& event is Permit ==> !held_by_a_reader(shard, before, shard(before[i].0))
    &&& cacheable(before[i].0) ==> !is_not_storable(event)
    &&& after == before.update(i, (before[i].0, get_after(before[i].1, event).state))
}

/// Some read goes on.
pub open spec fn reads_step<P, E>(
    shard: spec_fn(Seq<char>) -> int,
    cacheable: spec_fn(Seq<char>) -> bool,
    before: Reads<P>,
    after: Reads<P>,
) -> bool {
    exists|i: int, event: GetEvent<P, E>| #[trigger]
        read_goes_on(shard, cacheable, before, after, i, event)
}

/// No read has begun at first, and every step of the trace is one of some read.
pub open spec fn reads_trace<P, E>(
    shard: spec_fn(Seq<char>) -> int,
    cacheable: spec_fn(Seq<char>) -> bool,
    trace: Seq<Reads<P>>,
) -> bool {
    &&& trace.len() > 0
    &&& forall|i: int| 0 <= i < trace[0].len() ==> (#[trigger] trace[0][i]).1 is FirstLookup
    &&& forall|n: int|
        0 < n < trace.len() ==> reads_step::<P, E>(
            shard,
            cacheable,
            trace[n - 1],
            #[trigger] trace[n],
        )
}

/// No two reads hold the permit of one slice.
pub open spec fn one_reader_per_slice<P>(
    shard: spec_fn(Seq<char>) -> int,
    reads: Reads<P>,
) -> bool {
    forall|i: int, j: int|
        0 <= i < reads.len() && 0 <= j < reads.len() && i != j && reader_holds(
            (#[trigger] reads[i]).1,
        ) && reader_holds((#[trigger] reads[j]).1) ==> shard(reads[i].0) != shard(reads[j].0)
}

/// A read of a cacheable blob that is past the wait and not over holds a permit.
pub open spec fn cacheable_reads_hold<P>(
    cacheable: spec_fn(Seq<char>) -> bool,
    reads: Reads<P>,
) -> bool {
    forall|i: int|
        0 <= i < reads.len() && cacheable((#[trigger] reads[i]).0) && past_the_wait(reads[i].1)
            ==> reader_holds(reads[i].1)
}

/// One step of a read leaves no slice with two, and none of a cacheable blob without a
/// permit.
pub proof fn lemma_one_reader_per_slice<P, E>(
    shard: spec_fn(Seq<char>) -> int,
    cacheable: spec_fn(Seq<char>) -> bool,
    before: Reads<P>,
    after: Reads<P>,
    i: int,
    event: GetEvent<P, E>,
)
    requires
        one_reader_per_slice(shard, before),
        cacheable_reads_hold(cacheable, before),
        read_goes_on(shard, cacheable, before, after, i, event),
    ensures
        one_reader_per_slice(shard, after),
        cacheable_reads_hold(cacheable, after),
{
    assert forall|a: int, b: int|
        0 <= a < after.len() && 0 <= b < after.len() && a != b && reader_holds(
            (#[trigger] after[a]).1,
        ) && reader_holds((#[trigger] after[b]).1) implies shard(after[a].0) != shard(
        after[b].0,
    ) by {
        assert(reader_holds(after[i].1) ==> reader_holds(before[i].1) || event is Permit);
        assert(before[a].0 == after[a].0);
        assert(before[b].0 == after[b].0);
    }
    assert forall|a: int|
        0 <= a < after.len() && cacheable((#[trigger] after[a]).0) && past_the_wait(
            after[a].1,
        ) implies reader_holds(after[a].1) by {
        assert(before[a].0 == after[a].0);
    }
}

proof fn lemma_reads_trace<P, E>(
    shard: spec_fn(Seq<char>) -> int,
    cacheable: spec_fn(Seq<char>) -> bool,
    trace: Seq<Reads<P>>,
    n: int,
)
    requires
        reads_trace::<P, E>(shard, cacheable, trace),
        0 <= n < trace.len(),
    ensures
        one_reader_per_slice(shard, trace[n]),
        cacheable_reads_hold(cacheable, trace[n]),
    decreases n,
{
    if n > 0 {
        lemma_reads_trace::<P, E>(shard, cacheable, trace, n - 1);
        let before = trace[n - 1];
        assert(reads_step::<P, E>(shard, cacheable, before, trace[n]));
        let (i, event) = choose|i: int, event: GetEvent<P, E>| #[trigger]
            read_goes_on(shard, cacheable, before, trace[n], i, event);
        lemma_one_reader_per_slice(shard, cacheable, before, trace[n], i, event);
    }
}

/// Of all the reads that run at the same time, at most one holds the permit of a slice,
/// whatever the cache and the blobstore answer.
pub proof fn a_permit_is_held_by_one_reader_at_a_time<P, E>(
    shard: spec_fn(Seq<char>) -> int,
    cacheable: spec_fn(Seq<char>) -> bool,
    trace: Seq<Reads<P>>,
    n: int,
    i: int,
    j: int,
)
    requires
        reads_trace::<P, E>(shard, cacheable, trace),
        0 <= n < trace.len(),
        0 <= i < trace[n].len(),
        0 <= j < trace[n].len(),
        shard(trace[n][i].0) == shard(trace[n][j].0),
        reader_holds(trace[n][i].1),
        reader_holds(trace[n][j].1),
    ensures
        i == j,
{
    lemma_reads_trace::<P, E>(shard, cacheable, trace, n);
}

/// Of all the reads of blobs that the cache does not say it cannot store, at most one to
/// each slice is past its wait and not over, so at most one reads the blobstore. This
/// holds whatever else the cache answers, and whatever the blobstore does.
pub proof fn a_slice_admits_one_reader_at_a_time<P, E>(
    shard: spec_fn(Seq<char>) -> int,
    cacheable: spec_fn(Seq<char>) -> bool,
    trace: Seq<Reads<P>>,
    n: int,
    i: int,
    j: int,
)
    requires
        reads_trace::<P, E>(shard, cacheable, trace),
        0 <= n < trace.len(),
        0 <= i < trace[n].len(),
        0 <= j < trace[n].len(),
        shard(trace[n][i].0) == shard(trace[n][j].0),
        cacheable(trace[n][i].0),
        cacheable(trace[n][j].0),
        past_the_wait(trace[n][i].1),
        past_the_wait(trace[n][j].1),
    ensures
        i == j,
{
    lemma_reads_trace::<P, E>(shard, cacheable, trace, n);
    assert(reader_holds(trace[n][i].1));
    assert(reader_holds(trace[n][j].1));
}

} // verus!
