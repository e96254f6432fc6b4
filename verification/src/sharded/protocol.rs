//! How each answer from outside leads a read, a write, a question or the caching of a
//! blob on: what is done next follows from what was asked for and what came back.

use vstd::prelude::*;

use crate::sharded::bytes_model::contents;
use crate::sharded::counters::PerfCounterType;
use crate::sharded::data::{Blob, BlobstoreBytes, BlobstoreGetData, BlobstoreMetadata};
use crate::sharded::frame::CacheData;
use crate::sharded::get::{get_awaits, GetAction, GetEvent, GetStep};
use crate::sharded::present::{present_awaits, PresentActionModel, PresentEvent};
use crate::sharded::put::{put_awaits, PutActionModel, PutEvent, PutStep};
use crate::sharded::runs::{
    get_run, lemma_get_history, lemma_present_history, lemma_put_history, lemma_store_history,
    present_run, put_run, store_run,
};
use crate::sharded::store::{store_awaits, StoreActionModel, StoreEvent};

verus! {

/// A blob that is encoded within four mebibytes less one kibibyte, and that the filter
/// lets pass, is stored as a one and the whole encoded blob, whatever its size. When the
/// pool takes that, the blob is cached, and nothing else is set.
pub proof fn a_blob_that_can_be_stored_is_stored<E>(
    blob: BlobstoreGetData,
    marked: bool,
    encoded: bytes::Bytes,
)
    ensures
        ({
            let start = Seq::<StoreEvent<E>>::empty();
            let encoding = start.push(StoreEvent::Taken(Ok(marked)));
            let filtering = encoding.push(StoreEvent::Encoded(Ok(encoded)));
            let storing = filtering.push(StoreEvent::Filtered(true));
            let over = storing.push(StoreEvent::Taken(Ok(true)));
            &&& store_run(blob, start) matches Some((_, action)) && action == StoreActionModel::<
                E,
            >::SetPresent(seq![80u8])
            &&& store_run(blob, encoding) matches Some((_, action)) && action
                == StoreActionModel::<E>::Encode(blob@, 4193280)
            &&& store_run(blob, filtering) matches Some((_, action)) && action
                == StoreActionModel::<E>::Filter(contents(encoded))
            &&& store_run(blob, storing) matches Some((_, action)) && action
                == StoreActionModel::<E>::SetBlob(seq![1u8] + contents(encoded))
            &&& store_run(blob, over) matches Some((_, action)) && (action
                matches StoreActionModel::Return(Ok(_)))
        }),
{
    let start = Seq::<StoreEvent<E>>::empty();
    let encoding = start.push(StoreEvent::Taken(Ok(marked)));
    let filtering = encoding.push(StoreEvent::Encoded(Ok(encoded)));
    let storing = filtering.push(StoreEvent::Filtered(true));
    let over = storing.push(StoreEvent::Taken(Ok(true)));
    assert(encoding.drop_last() =~= start);
    assert(filtering.drop_last() =~= encoding);
    assert(storing.drop_last() =~= filtering);
    assert(over.drop_last() =~= storing);
}

/// The blob is said not to be storable exactly when it could not be encoded, the filter
/// did not let it pass, or the pool did not take its entry.
pub proof fn a_blob_is_given_up_only_when_it_cannot_be_stored<E>(
    blob: BlobstoreGetData,
    events: Seq<StoreEvent<E>>,
)
    requires
        events.len() > 0,
        store_run(blob, events) is Some,
    ensures
        store_run(blob, events)->Some_0.1 == StoreActionModel::<E>::SetBlob(seq![0u8]) <==> {
            ||| events.last() matches StoreEvent::Encoded(Err(_))
            ||| events.last() == StoreEvent::<E>::Filtered(false)
            ||| events.len() == 4 && events[2] == StoreEvent::<E>::Filtered(true)
                && events.last() != StoreEvent::<E>::Taken(Ok(true))
        },
{
    let front = events.drop_last();
    lemma_store_history(blob, front);
    assert(forall|i: int| 0 <= i < front.len() ==> #[trigger] front[i] == events[i]);
    assert(seq![1u8] + contents(events[1]->Encoded_0->Ok_0) != seq![0u8]) by {
        assert((seq![1u8] + contents(events[1]->Encoded_0->Ok_0))[0] == 1u8);
        assert(seq![0u8][0] == 0u8);
    }
    if front.len() > 0 {
        lemma_store_history(blob, front.drop_last());
        if front.drop_last().len() > 0 {
            lemma_store_history(blob, front.drop_last().drop_last());
        }
    }
}

/// A pool that fails to mark the key, or to take the entry that says that the blob
/// cannot be stored, ends the attempt with its error. Once that entry is set, the
/// attempt has ended well.
pub proof fn the_error_of_a_pool_is_returned<E>(
    blob: BlobstoreGetData,
    events: Seq<StoreEvent<E>>,
    reply: Result<bool, E>,
)
    requires
        store_run(blob, events) is Some,
        events.len() == 0 || store_run(blob, events)->Some_0.1 == StoreActionModel::<E>::SetBlob(
            seq![0u8],
        ),
    ensures
        ({
            let longer = events.push(StoreEvent::Taken(reply));
            match (store_run(blob, longer), reply) {
                (Some((_, action)), Err(error)) => action == StoreActionModel::<E>::Return(
                    Err(error),
                ),
                (Some((_, action)), Ok(_)) => events.len() > 0 ==> (action
                    matches StoreActionModel::Return(Ok(_))),
                _ => false,
            }
        }),
{
    let longer = events.push(StoreEvent::Taken(reply));
    assert(longer.drop_last() =~= events);
    if events.len() > 0 {
        let front = events.drop_last();
        lemma_store_history(blob, front);
        lemma_store_history(blob, events);
        assert((seq![1u8] + contents(events[1]->Encoded_0->Ok_0))[0] == 1u8);
        assert(seq![0u8][0] == 0u8);
        assert(forall|i: int| 0 <= i < front.len() ==> #[trigger] front[i] == events[i]);
    }
}

/// The attempt to cache a blob waits for the answer to what it asked for last, and for
/// nothing else.
pub proof fn caching_waits_for_its_answer<E>(
    blob: BlobstoreGetData,
    events: Seq<StoreEvent<E>>,
    event: StoreEvent<E>,
)
    requires
        store_run(blob, events) is Some,
    ensures
        store_awaits(store_run(blob, events)->Some_0.0, event) <==> match store_run(
            blob,
            events,
        )->Some_0.1 {
            StoreActionModel::SetPresent(_) => event is Taken,
            StoreActionModel::Encode(_, _) => event is Encoded,
            StoreActionModel::Filter(_) => event is Filtered,
            StoreActionModel::SetBlob(_) => event is Taken,
            StoreActionModel::Return(_) => false,
        },
{
    if events.len() > 0 {
        lemma_store_history(blob, events.drop_last());
    }
}

/// What a read does next, and the counter it raises, when `event` comes after `events`.
pub open spec fn next_of_read<P, E>(
    events: Seq<GetEvent<P, E>>,
    event: GetEvent<P, E>,
) -> GetStep<P, Blob, E> {
    get_run(events.push(event))->Some_0
}

/// The first answer of the cache decides whether a read waits: a blob is returned and
/// counted as a hit, one that cannot be stored is looked up again without a permit and
/// counted as a miss, and where there is nothing a permit is waited for, which then
/// counts as a miss and leads to a second look.
pub proof fn the_first_look_at_the_cache_decides<P, E>(
    data: BlobstoreGetData,
    permit: P,
    error: E,
)
    ensures
        ({
            let start = Seq::<GetEvent<P, E>>::empty();
            let missed = start.push(GetEvent::Cache(Ok(None)));
            let hit = next_of_read(start, GetEvent::Cache(Ok(Some(CacheData::Stored(data)))));
            let large = next_of_read(start, GetEvent::Cache(Ok(Some(CacheData::NotStorable))));
            let miss = next_of_read(start, GetEvent::Cache(Ok(None)));
            let failed = next_of_read(start, GetEvent::Cache(Err(error)));
            let admitted = next_of_read(missed, GetEvent::Permit(permit));
            &&& get_run(start) matches Some(step) && step.action is LookUpCache
                && step.counter is None
            &&& hit.action == GetAction::<Blob, E>::Return(Ok(Some(data@)))
            &&& hit.counter == Some(PerfCounterType::CachelibHits)
            &&& large.action is LookUpCache
            &&& large.counter == Some(PerfCounterType::CachelibMisses)
            &&& miss.action is AcquirePermit
            &&& miss.counter is None
            &&& failed.action == GetAction::<Blob, E>::Return(Err(error))
            &&& failed.counter is None
            &&& admitted.action is LookUpCache
            &&& admitted.counter == Some(PerfCounterType::CachelibMisses)
        }),
{
    let start = Seq::<GetEvent<P, E>>::empty();
    let missed = start.push(GetEvent::Cache(Ok(None)));
    assert(start.push(
        GetEvent::Cache(Ok(Some(CacheData::Stored(data)))),
    ).drop_last() =~= start);
    assert(start.push(GetEvent::Cache(Ok(Some(CacheData::NotStorable)))).drop_last() =~= start);
    assert(missed.drop_last() =~= start);
    assert(start.push(GetEvent::Cache(Err(error))).drop_last() =~= start);
    assert(missed.push(GetEvent::Permit(permit)).drop_last() =~= missed);
}

/// A second look at the cache that finds the blob returns it and counts a read that was
/// spared; one that does not leads to the blobstore; one that fails is the answer.
pub proof fn the_second_look_at_the_cache_decides<P, E>(
    events: Seq<GetEvent<P, E>>,
    data: BlobstoreGetData,
    error: E,
)
    requires
        events.len() > 0,
        get_run(events) matches Some(step) && step.action is LookUpCache,
    ensures
        ({
            let found = next_of_read(events, GetEvent::Cache(Ok(Some(CacheData::Stored(data)))));
            let large = next_of_read(events, GetEvent::Cache(Ok(Some(CacheData::NotStorable))));
            let miss = next_of_read(events, GetEvent::Cache(Ok(None)));
            let failed = next_of_read(events, GetEvent::Cache(Err(error)));
            &&& found.action == GetAction::<Blob, E>::Return(Ok(Some(data@)))
            &&& found.counter == Some(PerfCounterType::BlobGetsDeduplicated)
            &&& large.action is ReadBlobstore
            &&& large.counter is None
            &&& miss.action is ReadBlobstore
            &&& miss.counter is None
            &&& failed.action == GetAction::<Blob, E>::Return(Err(error))
            &&& failed.counter is None
        }),
{
    lemma_get_history(events);
    lemma_get_history(events.drop_last());
    assert(events.push(
        GetEvent::Cache(Ok(Some(CacheData::Stored(data)))),
    ).drop_last() =~= events);
    assert(events.push(GetEvent::Cache(Ok(Some(CacheData::NotStorable)))).drop_last() =~= events);
    assert(events.push(GetEvent::Cache(Ok(None))).drop_last() =~= events);
    assert(events.push(GetEvent::Cache(Err(error))).drop_last() =~= events);
}

/// What the blobstore returns, a read returns: a blob after an attempt to cache that
/// very blob, nothing where there is nothing, and an error as it is. No counter is
/// raised for it.
pub proof fn the_blobstore_answers_a_read<P, E>(
    events: Seq<GetEvent<P, E>>,
    data: BlobstoreGetData,
    error: E,
)
    requires
        get_run(events) matches Some(step) && step.action is ReadBlobstore,
    ensures
        ({
            let found = next_of_read(events, GetEvent::Blob(Ok(Some(data))));
            let over = next_of_read(
                events.push(GetEvent::Blob(Ok(Some(data)))),
                GetEvent::Cached,
            );
            let none = next_of_read(events, GetEvent::Blob(Ok(None)));
            let failed = next_of_read(events, GetEvent::Blob(Err(error)));
            &&& found.action == GetAction::<Blob, E>::SetInCache(data@)
            &&& found.counter is None
            &&& over.action == GetAction::<Blob, E>::Return(Ok(Some(data@)))
            &&& over.counter is None
            &&& none.action == GetAction::<Blob, E>::Return(Ok(None))
            &&& none.counter is None
            &&& failed.action == GetAction::<Blob, E>::Return(Err(error))
            &&& failed.counter is None
        }),
{
    lemma_get_history(events);
    if events.len() > 0 {
        lemma_get_history(events.drop_last());
    }
    let read = events.push(GetEvent::Blob(Ok(Some(data))));
    assert(read.drop_last() =~= events);
    assert(read.push(GetEvent::Cached).drop_last() =~= read);
    assert(events.push(GetEvent::Blob(Ok(None))).drop_last() =~= events);
    assert(events.push(GetEvent::Blob(Err(error))).drop_last() =~= events);
}

/// A read waits for the answer to what it asked for last, and for nothing else.
pub proof fn a_read_waits_for_its_answer<P, E>(
    events: Seq<GetEvent<P, E>>,
    event: GetEvent<P, E>,
)
    requires
        get_run(events) is Some,
    ensures
        get_awaits(get_run(events)->Some_0.state, event) <==> match get_run(
            events,
        )->Some_0.action {
            GetAction::LookUpCache => event is Cache,
            GetAction::AcquirePermit => event is Permit,
            GetAction::ReadBlobstore => event is Blob,
            GetAction::SetInCache(_) => event is Cached,
            GetAction::Return(_) => false,
        },
{
    if events.len() > 0 {
        lemma_get_history(events.drop_last());
    }
}

/// What a write does next, and the counter it raises, when `event` comes after `events`.
pub open spec fn next_of_write<P, E>(
    value: BlobstoreBytes,
    events: Seq<PutEvent<P, E>>,
    event: PutEvent<P, E>,
) -> PutStep<P, PutActionModel<E>> {
    put_run(value, events.push(event))->Some_0
}

/// A write of a blob that is known to be present is over, and counted as spared,
/// whenever it asks. Otherwise, and also where the pool fails, it goes on: the first time
/// to wait for a permit and ask again, the second time to write its bytes.
pub proof fn presence_decides_a_write<P, E>(
    value: BlobstoreBytes,
    events: Seq<PutEvent<P, E>>,
    error: E,
)
    requires
        put_run(value, events) matches Some(step) && step.action is CheckPresence,
    ensures
        ({
            let known = next_of_write(value, events, PutEvent::Known(Ok(true)));
            let unknown = next_of_write(value, events, PutEvent::Known(Ok(false)));
            let failed = next_of_write(value, events, PutEvent::Known(Err(error)));
            &&& known.action matches PutActionModel::Return(Ok(_))
            &&& known.counter == Some(PerfCounterType::BlobPutsDeduplicated)
            &&& unknown.counter is None
            &&& failed.counter is None
            &&& unknown.action == failed.action
            &&& events.len() == 0 ==> unknown.action is AcquirePermit
            &&& events.len() > 0 ==> unknown.action == PutActionModel::<E>::WriteBlobstore(value@)
        }),
{
    lemma_put_history(value, events);
    if events.len() > 0 {
        lemma_put_history(value, events.drop_last());
    }
    assert(events.push(PutEvent::Known(Ok(true))).drop_last() =~= events);
    assert(events.push(PutEvent::Known(Ok(false))).drop_last() =~= events);
    assert(events.push(PutEvent::Known(Err(error))).drop_last() =~= events);
}

/// A write that gets its permit asks again whether the blob is known to be present.
pub proof fn an_admitted_write_asks_again<P, E>(
    value: BlobstoreBytes,
    events: Seq<PutEvent<P, E>>,
    permit: P,
)
    requires
        put_run(value, events) matches Some(step) && step.action is AcquirePermit,
    ensures
        next_of_write(value, events, PutEvent::Permit(permit)).action is CheckPresence,
        next_of_write(value, events, PutEvent::Permit(permit)).counter is None,
        put_run(value, Seq::<PutEvent<P, E>>::empty()) matches Some(step) && step.action
            is CheckPresence && step.counter is None,
{
    lemma_put_history(value, events);
    assert(events.push(PutEvent::Permit(permit)).drop_last() =~= events);
}

/// What the blobstore took is put in the cache with the bytes that were written and no
/// time of creation, and then the write has succeeded, whatever came of caching. What
/// the blobstore did not take fails with its error. No counter is raised for it.
pub proof fn the_blobstore_answers_a_write<P, E>(
    value: BlobstoreBytes,
    events: Seq<PutEvent<P, E>>,
    error: E,
)
    requires
        put_run(value, events) matches Some(step) && step.action is WriteBlobstore,
    ensures
        ({
            let taken = next_of_write(value, events, PutEvent::Written(Ok(())));
            let over = next_of_write(
                value,
                events.push(PutEvent::Written(Ok(()))),
                PutEvent::Cached,
            );
            let failed = next_of_write(value, events, PutEvent::Written(Err(error)));
            &&& taken.action == PutActionModel::<E>::SetInCache(
                Blob { meta: BlobstoreMetadata { ctime: None }, bytes: value@ },
            )
            &&& taken.counter is None
            &&& over.action matches PutActionModel::Return(Ok(_))
            &&& over.counter is None
            &&& failed.action == PutActionModel::<E>::Return(Err(error))
            &&& failed.counter is None
        }),
{
    lemma_put_history(value, events);
    let written = events.push(PutEvent::<P, E>::Written(Ok(())));
    assert(written.drop_last() =~= events);
    assert(written.push(PutEvent::Cached).drop_last() =~= written);
    assert(events.push(PutEvent::Written(Err(error))).drop_last() =~= events);
}

/// A write waits for the answer to what it asked for last, and for nothing else.
pub proof fn a_write_waits_for_its_answer<P, E>(
    value: BlobstoreBytes,
    events: Seq<PutEvent<P, E>>,
    event: PutEvent<P, E>,
)
    requires
        put_run(value, events) is Some,
    ensures
        put_awaits(put_run(value, events)->Some_0.state, event) <==> match put_run(
            value,
            events,
        )->Some_0.action {
            PutActionModel::CheckPresence => event is Known,
            PutActionModel::AcquirePermit => event is Permit,
            PutActionModel::WriteBlobstore(_) => event is Written,
            PutActionModel::SetInCache(_) => event is Cached,
            PutActionModel::Return(_) => false,
        },
{
    if events.len() > 0 {
        lemma_put_history(value, events.drop_last());
    }
}

/// A question is answered with yes at once where the blob is known to be present.
/// Otherwise, and also where the pool fails, the blobstore is asked, and its answer is
/// the answer; a yes is first noted in the presence pool, whatever comes of that.
pub proof fn a_question_is_answered<E>(error: E)
    ensures
        ({
            let start = Seq::<PresentEvent<E>>::empty();
            let asked = start.push(PresentEvent::Known(Ok(false)));
            let unsure = start.push(PresentEvent::Known(Err(error)));
            let yes = asked.push(PresentEvent::Exists(Ok(true)));
            &&& present_run(start) matches Some((_, action)) && action is CheckPresence
            &&& present_run(start.push(PresentEvent::Known(Ok(true)))) matches Some((_, action))
                && action == PresentActionModel::<E>::Return(Ok(true))
            &&& present_run(asked) matches Some((_, action)) && action is AskBlobstore
            &&& present_run(unsure) == present_run(asked)
            &&& present_run(asked.push(PresentEvent::Exists(Ok(false)))) matches Some((_, action))
                && action == PresentActionModel::<E>::Return(Ok(false))
            &&& present_run(asked.push(PresentEvent::Exists(Err(error)))) matches Some((_, action))
                && action == PresentActionModel::<E>::Return(Err(error))
            &&& present_run(yes) matches Some((_, action)) && action == PresentActionModel::<
                E,
            >::SetPresent(seq![80u8])
            &&& present_run(yes.push(PresentEvent::Marked)) matches Some((_, action)) && action
                == PresentActionModel::<E>::Return(Ok(true))
        }),
{
    let start = Seq::<PresentEvent<E>>::empty();
    let asked = start.push(PresentEvent::Known(Ok(false)));
    let unsure = start.push(PresentEvent::Known(Err(error)));
    let yes = asked.push(PresentEvent::Exists(Ok(true)));
    assert(start.push(PresentEvent::Known(Ok(true))).drop_last() =~= start);
    assert(asked.drop_last() =~= start);
    assert(unsure.drop_last() =~= start);
    assert(asked.push(PresentEvent::Exists(Ok(false))).drop_last() =~= asked);
    assert(asked.push(PresentEvent::Exists(Err(error))).drop_last() =~= asked);
    assert(yes.drop_last() =~= asked);
    assert(yes.push(PresentEvent::Marked).drop_last() =~= yes);
}

/// A question waits for the answer to what it asked for last, and for nothing else.
pub proof fn a_question_waits_for_its_answer<E>(
    events: Seq<PresentEvent<E>>,
    event: PresentEvent<E>,
)
    requires
        present_run(events) is Some,
    ensures
        present_awaits(present_run(events)->Some_0.0, event) <==> match present_run(
            events,
        )->Some_0.1 {
            PresentActionModel::CheckPresence => event is Known,
            PresentActionModel::AskBlobstore => event is Exists,
            PresentActionModel::SetPresent(_) => event is Marked,
            PresentActionModel::Return(_) => false,
        },
{
    if events.len() > 0 {
        lemma_present_history(events.drop_last());
    }
}

} // verus!
