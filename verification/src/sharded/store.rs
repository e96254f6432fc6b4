//! Putting a blob in the cache: the key is marked as present, then the blob is stored,
//! or, where that does not work, an entry that says that it cannot be.

use bytes::Bytes;
use vstd::prelude::*;

use crate::sharded::bytes_model::{chain_contents, contents};
use crate::sharded::data::{Blob, BlobstoreGetData};
use crate::sharded::frame::{
    not_storable_entry, presence_entry, presence_marker, stored_entry, Entry,
    MAX_CACHELIB_VALUE_SIZE,
};

verus! {

/// Where putting a blob in the cache stands.
pub enum StoreState {
    /// The key is being marked as present.
    Marking(BlobstoreGetData),
    /// The blob is being encoded.
    Encoding,
    /// The encoded blob is being put to the filter.
    Filtering(Bytes),
    /// The entry with the encoded blob is being set.
    Storing,
    /// The entry that says that the blob cannot be stored is being set.
    GivingUp,
    /// Nothing is left to do.
    Finished,
}

/// What came of the last action.
pub enum StoreEvent<E> {
    /// Whether the cache took the entry.
    Taken(Result<bool, E>),
    /// The encoded blob, unless it is too large.
    Encoded(Result<Bytes, ()>),
    /// Whether the filter lets the encoded blob pass.
    Filtered(bool),
}

/// What to do next.
pub enum StoreAction<E> {
    /// Set this entry in the presence pool.
    SetPresent(Bytes),
    /// Encode the blob, in at most so many bytes.
    Encode(BlobstoreGetData, u64),
    /// Put the encoded blob to the filter.
    Filter(Bytes),
    /// Set this entry in the blob pool.
    SetBlob(Entry),
    /// Return.
    Return(Result<(), E>),
}

/// The model of a [`StoreAction`].
pub enum StoreActionModel<E> {
    SetPresent(Seq<u8>),
    Encode(Blob, u64),
    Filter(Seq<u8>),
    SetBlob(Seq<u8>),
    Return(Result<(), E>),
}

impl<E> View for StoreAction<E> {
    type V = StoreActionModel<E>;

    open spec fn view(&self) -> StoreActionModel<E> {
        match *self {
            StoreAction::SetPresent(marker) => StoreActionModel::SetPresent(contents(marker)),
            StoreAction::Encode(blob, limit) => StoreActionModel::Encode(blob@, limit),
            StoreAction::Filter(encoded) => StoreActionModel::Filter(contents(encoded)),
            StoreAction::SetBlob(entry) => StoreActionModel::SetBlob(entry@),
            StoreAction::Return(result) => StoreActionModel::Return(result),
        }
    }
}

/// What is done first.
pub open spec fn first_store_action<E>() -> StoreActionModel<E> {
    StoreActionModel::SetPresent(presence_entry())
}

/// The event is one that the state waits for.
pub open spec fn store_awaits<E>(state: StoreState, event: StoreEvent<E>) -> bool {
    match state {
        StoreState::Marking(_) => event is Taken,
        StoreState::Encoding => event is Encoded,
        StoreState::Filtering(_) => event is Filtered,
        StoreState::Storing => event is Taken,
        StoreState::GivingUp => event is Taken,
        StoreState::Finished => false,
    }
}

/// The step to the entry that says that the blob cannot be stored.
pub open spec fn give_up<E>() -> (StoreState, StoreActionModel<E>) {
    (StoreState::GivingUp, StoreActionModel::SetBlob(not_storable_entry()))
}

/// Where it stands after the event, and what to do then.
pub open spec fn store_after<E>(state: StoreState, event: StoreEvent<E>) -> (
    StoreState,
    StoreActionModel<E>,
) {
    match (state, event) {
        (StoreState::Marking(_), StoreEvent::Taken(Err(error))) => (
            StoreState::Finished,
            StoreActionModel::Return(Err(error)),
        ),
        (StoreState::Marking(blob), StoreEvent::Taken(Ok(_))) => (
            StoreState::Encoding,
            StoreActionModel::Encode(blob@, MAX_CACHELIB_VALUE_SIZE),
        ),
        (StoreState::Encoding, StoreEvent::Encoded(Ok(encoded))) => (
            StoreState::Filtering(encoded),
            StoreActionModel::Filter(contents(encoded)),
        ),
        (StoreState::Encoding, StoreEvent::Encoded(Err(_))) => give_up(),
        (StoreState::Filtering(encoded), StoreEvent::Filtered(true)) => (
            StoreState::Storing,
            StoreActionModel::SetBlob(stored_entry(contents(encoded))),
        ),
        (StoreState::Filtering(_), StoreEvent::Filtered(false)) => give_up(),
        (StoreState::Storing, StoreEvent::Taken(Ok(true))) => (
            StoreState::Finished,
            StoreActionModel::Return(Ok(())),
        ),
        (StoreState::Storing, StoreEvent::Taken(_)) => give_up(),
        (StoreState::GivingUp, StoreEvent::Taken(Ok(_))) => (
            StoreState::Finished,
            StoreActionModel::Return(Ok(())),
        ),
        (StoreState::GivingUp, StoreEvent::Taken(Err(error))) => (
            StoreState::Finished,
            StoreActionModel::Return(Err(error)),
        ),
        _ => (StoreState::Finished, arbitrary()),
    }
}

impl StoreState {
    /// Starts to put the blob in the cache.
    pub fn set_in_cache<E>(value: BlobstoreGetData) -> (started: (StoreState, StoreAction<E>))
        ensures
            started.0 == StoreState::Marking(value),
            started.1@ == first_store_action::<E>(),
    {
        (StoreState::Marking(value), StoreAction::SetPresent(presence_marker()))
    }

    /// Whether the event is one that the state waits for.
    pub fn expects<E>(&self, event: &StoreEvent<E>) -> (expected: bool)
        ensures
            expected == store_awaits(*self, *event),
    {
        match (self, event) {
            (StoreState::Marking(_), StoreEvent::Taken(_)) => true,
            (StoreState::Encoding, StoreEvent::Encoded(_)) => true,
            (StoreState::Filtering(_), StoreEvent::Filtered(_)) => true,
            (StoreState::Storing, StoreEvent::Taken(_)) => true,
            (StoreState::GivingUp, StoreEvent::Taken(_)) => true,
            _ => false,
        }
    }

    /// Takes in what came of the last action and says what to do next. A blob that
    /// could not be stored for a passing reason gets an entry that says that it cannot
    /// be stored at all: the next reads then bypass the slices, and store it.
    pub fn step<E>(self, event: StoreEvent<E>) -> (next: (StoreState, StoreAction<E>))
        requires
            store_awaits(self, event),
        ensures
            (next.0, next.1@) == store_after(self, event),
    {
        match (self, event) {
            (StoreState::Marking(blob), StoreEvent::Taken(Ok(_))) => (
                StoreState::Encoding,
                StoreAction::Encode(blob, MAX_CACHELIB_VALUE_SIZE),
            ),
            (StoreState::Encoding, StoreEvent::Encoded(Ok(encoded))) => {
                let copy = encoded.clone();
                (StoreState::Filtering(encoded), StoreAction::Filter(copy))
            },
            (StoreState::Filtering(encoded), StoreEvent::Filtered(true)) => (
                StoreState::Storing,
                StoreAction::SetBlob(Entry::stored(encoded)),
            ),
            (StoreState::Storing, StoreEvent::Taken(Ok(true)))
            | (StoreState::GivingUp, StoreEvent::Taken(Ok(_))) => (
                StoreState::Finished,
                StoreAction::Return(Ok(())),
            ),
            (StoreState::Marking(_), StoreEvent::Taken(Err(error)))
            | (StoreState::GivingUp, StoreEvent::Taken(Err(error))) => (
                StoreState::Finished,
                StoreAction::Return(Err(error)),
            ),
            _ => (StoreState::GivingUp, StoreAction::SetBlob(Entry::not_storable())),
        }
    }
}

/// The model of an action of caching is the action with what its buffers hold.
pub proof fn an_action_of_caching_is_modelled_as_it_is<E>(action: StoreAction<E>)
    ensures
        match action {
            StoreAction::SetPresent(marker) => action@ == StoreActionModel::<E>::SetPresent(
                contents(marker),
            ),
            StoreAction::Encode(blob, limit) => action@ == StoreActionModel::<E>::Encode(
                blob@,
                limit,
            ),
            StoreAction::Filter(encoded) => action@ == StoreActionModel::<E>::Filter(
                contents(encoded),
            ),
            StoreAction::SetBlob(Entry::Stored(chain)) => action@ == StoreActionModel::<
                E,
            >::SetBlob(chain_contents(chain)),
            StoreAction::SetBlob(Entry::NotStorable(bytes)) => action@ == StoreActionModel::<
                E,
            >::SetBlob(contents(bytes)),
            StoreAction::Return(result) => action@ == StoreActionModel::<E>::Return(result),
        },
{
}

} // verus!
