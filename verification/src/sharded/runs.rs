//! What holds of whole reads, writes and questions, whatever the cache, the slices and
//! the blobstore answer.

use vstd::prelude::*;

use crate::sharded::bytes_model::contents;
use crate::sharded::cache_key::cache_key_of;
use crate::sharded::counters::PerfCounterType;
use crate::sharded::data::{Blob, BlobstoreBytes, BlobstoreGetData};
use crate::sharded::frame::{
    a_stored_entry_gives_back_the_blob, frame_of, not_storable_entry, presence_entry, stored_entry,
    CacheData, FrameModel,
};
use crate::sharded::get::{get_after, get_awaits, GetAction, GetEvent, GetState, GetStep};
use crate::sharded::present::{
    present_after, present_awaits, PresentActionModel, PresentEvent, PresentState,
};
use crate::sharded::put::{
    put_after, put_awaits, written_blob, PutActionModel, PutEvent, PutState, PutStep,
};
use crate::sharded::store::{
    first_store_action, store_after, store_awaits, StoreActionModel, StoreEvent, StoreState,
};

verus! {

/// The step that a read comes to after the events. None when an event came that was
/// not waited for.
pub open spec fn get_run<P, E>(events: Seq<GetEvent<P, E>>) -> Option<GetStep<P, Blob, E>>
    decreases events.len(),
{
    if events.len() == 0 {
        Some(
            GetStep {
                state: GetState::FirstLookup,
                counter: None,
                action: GetAction::LookUpCache,
            },
        )
    } else {
        match get_run(events.drop_last()) {
            Some(step) if get_awaits(step.state, events.last()) => Some(
                get_after(step.state, events.last()),
            ),
            _ => None,
        }
    }
}

/// The event says that the cache holds nothing for the key.
pub open spec fn is_miss<P, E>(event: GetEvent<P, E>) -> bool {
    event matches GetEvent::Cache(Ok(None))
}

/// The event says that the blob is known not to fit in the cache.
pub open spec fn is_not_storable<P, E>(event: GetEvent<P, E>) -> bool {
    event matches GetEvent::Cache(Ok(Some(CacheData::NotStorable)))
}

/// What has happened when a read stands here.
pub open spec fn get_history<P, E>(state: GetState<P>, events: Seq<GetEvent<P, E>>) -> bool {
    match state {
        GetState::FirstLookup => events.len() == 0,
        GetState::AwaitingPermit => events.len() == 1 && is_miss(events[0]),
        GetState::SecondLookup(None) => events.len() == 1 && is_not_storable(events[0]),
        GetState::SecondLookup(Some(permit)) => events.len() == 2 && is_miss(events[0])
            && events[1] == GetEvent::<P, E>::Permit(permit),
        GetState::Reading(None) => {
            ||| events.len() == 2 && is_not_storable(events[0])
            ||| events.len() == 3 && is_not_storable(events[2])
        },
        GetState::Reading(Some(permit)) => events.len() == 3 && is_miss(events[0]) && events[1]
            == GetEvent::<P, E>::Permit(permit) && is_miss(events[2]),
        GetState::Caching(_, data) => 3 <= events.len() <= 4 && events.last() == GetEvent::<
            P,
            E,
        >::Blob(Ok(Some(data))),
        GetState::Finished => 1 <= events.len() <= 5,
    }
}

pub proof fn lemma_get_history<P, E>(events: Seq<GetEvent<P, E>>)
    requires
        get_run(events) is Some,
    ensures
        get_history(get_run(events)->Some_0.state, events),
    decreases events.len(),
{
    if events.len() > 0 {
        let front = events.drop_last();
        lemma_get_history(front);
        assert(forall|i: int| 0 <= i < front.len() ==> #[trigger] front[i] == events[i]);
    }
}

/// The blobstore is read either under a permit, after the cache was found to hold
/// nothing both before and after the wait for it, or, without a permit, because the
/// cache said that the blob does not fit in it.
pub proof fn reads_are_serialized_unless_the_blob_cannot_be_cached<P, E>(
    events: Seq<GetEvent<P, E>>,
)
    requires
        get_run(events) matches Some(step) && step.action is ReadBlobstore,
    ensures
        match get_run(events)->Some_0.state {
            GetState::Reading(Some(permit)) => events.len() == 3 && is_miss(events[0])
                && events[1] == GetEvent::<P, E>::Permit(permit) && is_miss(events[2]),
            GetState::Reading(None) => {
                ||| events.len() == 2 && is_not_storable(events[0])
                ||| events.len() == 3 && is_not_storable(events[2])
            },
            _ => false,
        },
{
    lemma_get_history(events);
}

/// A read returns a blob that the cache or the blobstore gave; it finds nothing only
/// where the blobstore did; and it fails only with an error that one of them gave.
pub proof fn a_read_returns_what_it_was_given<P, E>(
    events: Seq<GetEvent<P, E>>,
    result: Result<Option<Blob>, E>,
)
    requires
        get_run(events) matches Some(step) && step.action == GetAction::<Blob, E>::Return(result),
    ensures
        0 < events.len() <= 5,
        match result {
            Ok(Some(blob)) => {
                ||| events.last() matches GetEvent::Cache(Ok(Some(CacheData::Stored(data))))
                    && data@ == blob
                ||| events.len() > 1 && events.last() is Cached && (events[events.len() - 2]
                    matches GetEvent::Blob(Ok(Some(data))) && data@ == blob)
            },
            Ok(None) => events.last() matches GetEvent::Blob(Ok(None)),
            Err(error) => events.last() == GetEvent::<P, E>::Cache(Err(error)) || events.last()
                == GetEvent::<P, E>::Blob(Err(error)),
        },
{
    lemma_get_history(events);
    let front = events.drop_last();
    lemma_get_history(front);
}

/// A blob that the cache holds is returned at once: the blobstore is not read.
pub proof fn a_cached_blob_is_returned_at_once<P, E>(
    events: Seq<GetEvent<P, E>>,
    data: BlobstoreGetData,
)
    requires
        events.len() > 0,
        get_run(events) is Some,
        events.last() == GetEvent::<P, E>::Cache(Ok(Some(CacheData::Stored(data)))),
    ensures
        get_run(events)->Some_0.action == GetAction::<Blob, E>::Return(Ok(Some(data@))),
{
}

/// What the blobstore returned is returned, whatever came of the attempt to cache it.
pub proof fn caching_does_not_change_what_is_returned<P, E>(
    events: Seq<GetEvent<P, E>>,
    data: BlobstoreGetData,
)
    requires
        events.len() > 0,
        get_run(events) is Some,
        events.last() == GetEvent::<P, E>::Blob(Ok(Some(data))),
    ensures
        get_run(events)->Some_0.action == GetAction::<Blob, E>::SetInCache(data@),
        get_run(events.push(GetEvent::Cached)) matches Some(step) && step.action
            == GetAction::<Blob, E>::Return(Ok(Some(data@))),
{
    let longer = events.push(GetEvent::Cached);
    assert(longer.drop_last() =~= events);
}

/// The step that a write of `value` comes to after the events. None when an event came
/// that was not waited for.
pub open spec fn put_run<P, E>(value: BlobstoreBytes, events: Seq<PutEvent<P, E>>) -> Option<
    PutStep<P, PutActionModel<E>>,
>
    decreases events.len(),
{
    if events.len() == 0 {
        Some(
            PutStep {
                state: PutState::FirstCheck(value),
                counter: None,
                action: PutActionModel::CheckPresence,
            },
        )
    } else {
        match put_run(value, events.drop_last()) {
            Some(step) if put_awaits(step.state, events.last()) => Some(
                put_after(step.state, events.last()),
            ),
            _ => None,
        }
    }
}

/// The event says that the blob is known to be present.
pub open spec fn is_known<P, E>(event: PutEvent<P, E>) -> bool {
    event matches PutEvent::Known(Ok(true))
}

/// What has happened when a write of `value` stands here.
pub open spec fn put_history<P, E>(
    value: BlobstoreBytes,
    state: PutState<P>,
    events: Seq<PutEvent<P, E>>,
) -> bool {
    match state {
        PutState::FirstCheck(held) => held == value && events.len() == 0,
        PutState::AwaitingPermit(held) => held == value && events.len() == 1 && !is_known(
            events[0],
        ),
        PutState::SecondCheck(permit, held) => held == value && events.len() == 2 && !is_known(
            events[0],
        ) && events[1] == PutEvent::<P, E>::Permit(permit),
        PutState::Writing(permit, held) => held == value && events.len() == 3 && !is_known(
            events[0],
        ) && events[1] == PutEvent::<P, E>::Permit(permit) && !is_known(events[2]),
        PutState::Caching(permit) => events.len() == 4 && events[1] == PutEvent::<
            P,
            E,
        >::Permit(permit) && (events[3] matches PutEvent::Written(Ok(_))),
        PutState::Finished => 1 <= events.len() <= 5,
    }
}

pub proof fn lemma_put_history<P, E>(value: BlobstoreBytes, events: Seq<PutEvent<P, E>>)
    requires
        put_run(value, events) is Some,
    ensures
        put_history(value, put_run(value, events)->Some_0.state, events),
    decreases events.len(),
{
    if events.len() > 0 {
        let front = events.drop_last();
        lemma_put_history(value, front);
        assert(forall|i: int| 0 <= i < front.len() ==> #[trigger] front[i] == events[i]);
    }
}

/// The blobstore is written only under a permit, only when the blob was not known to be
/// present before and after the wait for it, and with the bytes that were to be
/// written.
pub proof fn writes_are_serialized_and_deduplicated<P, E>(
    value: BlobstoreBytes,
    events: Seq<PutEvent<P, E>>,
    written: Seq<u8>,
)
    requires
        put_run(value, events) matches Some(step) && step.action == PutActionModel::<
            E,
        >::WriteBlobstore(written),
    ensures
        written == value@,
        events.len() == 3,
        !is_known(events[0]),
        events[1] matches PutEvent::Permit(permit) && put_run(value, events)->Some_0.state
            == PutState::Writing(permit, value),
        !is_known(events[2]),
{
    lemma_put_history(value, events);
}

/// A write succeeds only where the blob was known to be present or the blobstore took
/// it, and fails only with the error of the blobstore.
pub proof fn a_write_succeeds_only_when_the_blob_is_there<P, E>(
    value: BlobstoreBytes,
    events: Seq<PutEvent<P, E>>,
    result: Result<(), E>,
)
    requires
        put_run(value, events) matches Some(step) && step.action == PutActionModel::<E>::Return(
            result,
        ),
    ensures
        0 < events.len() <= 5,
        match result {
            Ok(_) => {
                ||| is_known(events.last())
                ||| events.len() == 5 && (events[3] matches PutEvent::Written(Ok(_)))
            },
            Err(error) => events.last() == PutEvent::<P, E>::Written(Err(error)),
        },
{
    lemma_put_history(value, events);
    let front = events.drop_last();
    lemma_put_history(value, front);
    assert(forall|i: int| 0 <= i < front.len() ==> #[trigger] front[i] == events[i]);
}

/// What a write puts in the cache is the blob with the bytes that the blobstore took.
pub proof fn what_was_written_is_cached<P, E>(
    value: BlobstoreBytes,
    events: Seq<PutEvent<P, E>>,
    blob: Blob,
)
    requires
        put_run(value, events) matches Some(step) && step.action == PutActionModel::<
            E,
        >::SetInCache(blob),
    ensures
        blob == written_blob(value@),
        events.len() == 4,
        events[3] matches PutEvent::Written(Ok(_)),
{
    lemma_put_history(value, events);
    lemma_put_history(value, events.drop_last());
}

/// Where putting `blob` in the cache stands after the events, and what to do then. None
/// when an event came that was not waited for.
pub open spec fn store_run<E>(blob: BlobstoreGetData, events: Seq<StoreEvent<E>>) -> Option<
    (StoreState, StoreActionModel<E>),
>
    decreases events.len(),
{
    if events.len() == 0 {
        Some((StoreState::Marking(blob), first_store_action()))
    } else {
        match store_run(blob, events.drop_last()) {
            Some((state, _)) if store_awaits(state, events.last()) => Some(
                store_after(state, events.last()),
            ),
            _ => None,
        }
    }
}

/// The event says that the pool did not fail.
pub open spec fn is_taken<E>(event: StoreEvent<E>) -> bool {
    event matches StoreEvent::Taken(Ok(_))
}

/// What has happened when putting `blob` in the cache stands here.
pub open spec fn store_history<E>(
    blob: BlobstoreGetData,
    state: StoreState,
    events: Seq<StoreEvent<E>>,
) -> bool {
    match state {
        StoreState::Marking(held) => held == blob && events.len() == 0,
        StoreState::Encoding => events.len() == 1 && is_taken(events[0]),
        StoreState::Filtering(encoded) => events.len() == 2 && is_taken(events[0]) && events[1]
            == StoreEvent::<E>::Encoded(Ok(encoded)),
        StoreState::Storing => events.len() == 3 && is_taken(events[0]) && (events[1]
            matches StoreEvent::Encoded(Ok(_))) && events[2] == StoreEvent::<E>::Filtered(true),
        StoreState::GivingUp => 2 <= events.len() <= 4 && is_taken(events[0]),
        StoreState::Finished => 1 <= events.len() <= 5,
    }
}

pub proof fn lemma_store_history<E>(blob: BlobstoreGetData, events: Seq<StoreEvent<E>>)
    requires
        store_run(blob, events) is Some,
    ensures
        store_history(blob, store_run(blob, events)->Some_0.0, events),
    decreases events.len(),
{
    if events.len() > 0 {
        let front = events.drop_last();
        lemma_store_history(blob, front);
        assert(forall|i: int| 0 <= i < front.len() ==> #[trigger] front[i] == events[i]);
    }
}

/// The entry is that of the blob as it was encoded and let pass by the filter.
pub open spec fn is_encoded_entry<E>(events: Seq<StoreEvent<E>>, entry: Seq<u8>) -> bool {
    &&& events.len() == 3
    &&& events[1] matches StoreEvent::Encoded(Ok(encoded)) && entry == stored_entry(
        contents(encoded),
    )
    &&& events[2] == StoreEvent::<E>::Filtered(true)
}

/// The events lead to setting an entry in the blob pool.
pub open spec fn sets_an_entry<E>(blob: BlobstoreGetData, events: Seq<StoreEvent<E>>) -> bool {
    store_run(blob, events) matches Some((_, action)) && action is SetBlob
}

/// Nothing is set in the blob pool before the key was marked as present. What is set
/// there is the encoded blob, where there is one and the filter let it pass, or the
/// entry that says that the blob cannot be stored.
pub proof fn only_the_encoded_blob_is_stored<E>(
    blob: BlobstoreGetData,
    events: Seq<StoreEvent<E>>,
    entry: Seq<u8>,
)
    requires
        store_run(blob, events) matches Some((_, action)) && action == StoreActionModel::<
            E,
        >::SetBlob(entry),
    ensures
        2 <= events.len() <= 4,
        is_taken(events[0]),
        entry == not_storable_entry() || is_encoded_entry(events, entry),
{
    lemma_store_history(blob, events);
    let front = events.drop_last();
    lemma_store_history(blob, front);
    assert(forall|i: int| 0 <= i < front.len() ==> #[trigger] front[i] == events[i]);
}

/// Once the key is marked as present, the attempt to cache the blob ends well only with
/// an entry for it that the pool took or that says that the blob cannot be stored; no
/// attempt takes more than five answers.
pub proof fn caching_ends_with_an_entry<E>(
    blob: BlobstoreGetData,
    events: Seq<StoreEvent<E>>,
    result: Result<(), E>,
)
    requires
        store_run(blob, events) matches Some((_, action)) && action == StoreActionModel::<
            E,
        >::Return(result),
    ensures
        1 <= events.len() <= 5,
        match result {
            Ok(_) => is_taken(events[0]) && is_taken(events.last()) && sets_an_entry(
                blob,
                events.drop_last(),
            ),
            Err(error) => events.last() == StoreEvent::<E>::Taken(Err(error)),
        },
{
    lemma_store_history(blob, events);
    let front = events.drop_last();
    lemma_store_history(blob, front);
    assert(forall|i: int| 0 <= i < front.len() ==> #[trigger] front[i] == events[i]);
    if front.len() > 0 {
        lemma_store_history(blob, front.drop_last());
    }
}

/// A read gives back what was written. When a write of `value` puts its blob in the
/// cache, and the pool is then set to `entry` for an encoded form of that blob, a read
/// that finds `entry` in the cache decodes that same encoded form; where this gives
/// the blob again, the read returns the bytes of `value` at once, without a permit and
/// without reading the blobstore.
pub proof fn a_read_gives_back_what_was_written<P, E>(
    value: BlobstoreBytes,
    writing: Seq<PutEvent<P, E>>,
    cached: BlobstoreGetData,
    storing: Seq<StoreEvent<E>>,
    entry: Seq<u8>,
    decoded: BlobstoreGetData,
)
    requires
        put_run(value, writing) matches Some(step) && step.action == PutActionModel::<
            E,
        >::SetInCache(cached@),
        store_run(cached, storing) matches Some((StoreState::Storing, action)) && action
            == StoreActionModel::<E>::SetBlob(entry),
        decoded@ == cached@,
    ensures
        storing[1] matches StoreEvent::Encoded(Ok(encoded)) && frame_of(entry)
            == FrameModel::Stored(contents(encoded)),
        decoded@.bytes == value@,
        get_run(seq![GetEvent::<P, E>::Cache(Ok(Some(CacheData::Stored(decoded))))]) matches Some(
            step,
        ) && step.action == GetAction::<Blob, E>::Return(Ok(Some(written_blob(value@)))),
{
    what_was_written_is_cached(value, writing, cached@);
    lemma_store_history(cached, storing);
    let front = storing.drop_last();
    lemma_store_history(cached, front);
    assert(forall|i: int| 0 <= i < front.len() ==> #[trigger] front[i] == storing[i]);
    let encoded = storing[1]->Encoded_0->Ok_0;
    a_stored_entry_gives_back_the_blob(contents(encoded));
    let reading = seq![GetEvent::<P, E>::Cache(Ok(Some(CacheData::Stored(decoded))))];
    reveal_with_fuel(get_run, 2);
    a_cached_blob_is_returned_at_once(reading, decoded);
}

/// Where the question whether a blob is present stands after the events, and what to do
/// then. None when an event came that was not waited for.
pub open spec fn present_run<E>(events: Seq<PresentEvent<E>>) -> Option<
    (PresentState, PresentActionModel<E>),
>
    decreases events.len(),
{
    if events.len() == 0 {
        Some((PresentState::Checking, PresentActionModel::CheckPresence))
    } else {
        match present_run(events.drop_last()) {
            Some((state, _)) if present_awaits(state, events.last()) => Some(
                present_after(state, events.last()),
            ),
            _ => None,
        }
    }
}

/// What has happened when the question stands here.
pub open spec fn present_history<E>(state: PresentState, events: Seq<PresentEvent<E>>) -> bool {
    match state {
        PresentState::Checking => events.len() == 0,
        PresentState::Asking => events.len() == 1 && !(events[0]
            matches PresentEvent::Known(Ok(true))),
        PresentState::Marking => events.len() == 2 && events[1] == PresentEvent::<E>::Exists(
            Ok(true),
        ),
        PresentState::Finished => 1 <= events.len() <= 3,
    }
}

pub proof fn lemma_present_history<E>(events: Seq<PresentEvent<E>>)
    requires
        present_run(events) is Some,
    ensures
        present_history(present_run(events)->Some_0.0, events),
    decreases events.len(),
{
    if events.len() > 0 {
        let front = events.drop_last();
        lemma_present_history(front);
        assert(forall|i: int| 0 <= i < front.len() ==> #[trigger] front[i] == events[i]);
    }
}

/// A blob is said to be present only when it was known to be or the blobstore said so,
/// and absent only when the blobstore said so.
pub proof fn presence_is_what_the_blobstore_says<E>(
    events: Seq<PresentEvent<E>>,
    result: Result<bool, E>,
)
    requires
        present_run(events) matches Some((_, action)) && action == PresentActionModel::<
            E,
        >::Return(result),
    ensures
        1 <= events.len() <= 3,
        match result {
            Ok(true) => {
                ||| events.len() == 1 && events[0] == PresentEvent::<E>::Known(Ok(true))
                ||| events.len() == 3 && events[1] == PresentEvent::<E>::Exists(Ok(true))
            },
            _ => events.len() == 2 && events[1] == PresentEvent::<E>::Exists(result),
        },
{
    lemma_present_history(events);
    let front = events.drop_last();
    lemma_present_history(front);
    assert(forall|i: int| 0 <= i < front.len() ==> #[trigger] front[i] == events[i]);
}

/// The presence pool with the key marked as present.
pub open spec fn marked(pool: Map<Seq<char>, Seq<u8>>, key: Seq<char>) -> Map<
    Seq<char>,
    Seq<u8>,
> {
    pool.insert(cache_key_of(key), presence_entry())
}

/// A write of the key that has come so far and now asks the presence pool is over
/// without writing the blobstore.
pub open spec fn is_spared<P, E>(
    value: BlobstoreBytes,
    writing: Seq<PutEvent<P, E>>,
    pool: Map<Seq<char>, Seq<u8>>,
    key: Seq<char>,
) -> bool {
    let reply = PutEvent::<P, E>::Known(Ok(pool.contains_key(cache_key_of(key))));
    &&& put_run(value, writing.push(reply)) matches Some(step)
    &&& step.counter == Some(PerfCounterType::BlobPutsDeduplicated)
    &&& step.action matches PutActionModel::Return(Ok(_))
}

/// The write asks the presence pool, for the first or for the second time.
pub open spec fn asks_presence<P, E>(value: BlobstoreBytes, writing: Seq<PutEvent<P, E>>) -> bool {
    put_run(value, writing) matches Some(step) && step.action is CheckPresence
}

proof fn lemma_known_is_spared<P, E>(
    value: BlobstoreBytes,
    writing: Seq<PutEvent<P, E>>,
    pool: Map<Seq<char>, Seq<u8>>,
    key: Seq<char>,
)
    requires
        asks_presence(value, writing),
        pool.contains_key(cache_key_of(key)),
    ensures
        is_spared(value, writing, pool, key),
{
    let longer = writing.push(PutEvent::<P, E>::Known(Ok(true)));
    assert(longer.drop_last() =~= writing);
}

/// A read that got its blob from the blobstore first marks the key as present; once the
/// presence pool has taken that, a write of the key is spared, wherever it stands when
/// it asks the pool.
pub proof fn a_write_is_spared_after_a_read<P, E>(
    reading: Seq<GetEvent<P, E>>,
    cached: BlobstoreGetData,
    pool: Map<Seq<char>, Seq<u8>>,
    key: Seq<char>,
    value: BlobstoreBytes,
    writing: Seq<PutEvent<P, E>>,
)
    requires
        get_run(reading) matches Some(step) && step.action == GetAction::<Blob, E>::SetInCache(
            cached@,
        ),
        asks_presence(value, writing),
    ensures
        reading.last() matches GetEvent::Blob(Ok(Some(data))) && data@ == cached@,
        store_run::<E>(cached, Seq::empty()) matches Some((_, action)) && action
            == StoreActionModel::<E>::SetPresent(presence_entry()),
        is_spared(value, writing, marked(pool, key), key),
{
    lemma_known_is_spared(value, writing, marked(pool, key), key);
}

/// A question that the blobstore answered with yes marks the key as present; once the
/// presence pool has taken that, a write of the key is spared, wherever it stands when
/// it asks the pool.
pub proof fn a_write_is_spared_after_a_question<P, E>(
    asking: Seq<PresentEvent<E>>,
    pool: Map<Seq<char>, Seq<u8>>,
    key: Seq<char>,
    value: BlobstoreBytes,
    writing: Seq<PutEvent<P, E>>,
)
    requires
        asking.len() > 0,
        present_run(asking) is Some,
        asking.last() == PresentEvent::<E>::Exists(Ok(true)),
        asks_presence(value, writing),
    ensures
        present_run(asking) matches Some((_, action)) && action == PresentActionModel::<
            E,
        >::SetPresent(presence_entry()),
        is_spared(value, writing, marked(pool, key), key),
{
    lemma_known_is_spared(value, writing, marked(pool, key), key);
}

/// What the event says of the blob is true where the blobstore holds `held`.
pub open spec fn is_coherent<P, E>(event: GetEvent<P, E>, held: Option<Blob>) -> bool {
    match event {
        GetEvent::Cache(Ok(Some(CacheData::Stored(data)))) => held == Some(data@),
        GetEvent::Blob(Ok(Some(data))) => held == Some(data@),
        GetEvent::Blob(Ok(None)) => held is None,
        _ => true,
    }
}

/// The event says that the cache or the blobstore failed.
pub open spec fn is_failure<P, E>(event: GetEvent<P, E>) -> bool {
    ||| event matches GetEvent::Cache(Err(_))
    ||| event matches GetEvent::Blob(Err(_))
}

/// Where the cache holds of the blob nothing but what the blobstore does, a read answers
/// as the blobstore would, unless one of them fails.
pub proof fn a_read_over_a_coherent_cache_answers_as_the_blobstore_does<P, E>(
    events: Seq<GetEvent<P, E>>,
    held: Option<Blob>,
    result: Result<Option<Blob>, E>,
)
    requires
        get_run(events) matches Some(step) && step.action == GetAction::<Blob, E>::Return(result),
        forall|i: int| 0 <= i < events.len() ==> is_coherent(#[trigger] events[i], held),
    ensures
        result matches Ok(found) ==> found == held,
        (forall|i: int| 0 <= i < events.len() ==> !is_failure(#[trigger] events[i])) ==> result
            == Ok::<Option<Blob>, E>(held),
{
    a_read_returns_what_it_was_given(events, result);
    assert(is_coherent(events[events.len() - 1], held));
    if events.len() > 1 {
        assert(is_coherent(events[events.len() - 2], held));
    }
    if result is Err {
        assert(is_failure(events[events.len() - 1]));
    }
}

} // verus!
