//! Reading a blob.

use vstd::prelude::*;

use crate::sharded::counters::PerfCounterType;
use crate::sharded::data::{Blob, BlobstoreGetData};
use crate::sharded::frame::CacheData;

verus! {

/// Where a read stands. `P` is a permit for the slice of the key; it is given back
/// when it is dropped.
pub enum GetState<P> {
    /// The cache is being asked.
    FirstLookup,
    /// A permit is being waited for.
    AwaitingPermit,
    /// The cache is being asked again.
    SecondLookup(Option<P>),
    /// The blobstore is being read.
    Reading(Option<P>),
    /// What was read is being put in the cache.
    Caching(Option<P>, BlobstoreGetData),
    /// Nothing is left to do.
    Finished,
}

/// What came of the last action.
pub enum GetEvent<P, E> {
    /// What the cache says of the blob.
    Cache(Result<Option<CacheData>, E>),
    /// A permit for the slice of the key.
    Permit(P),
    /// What the blobstore returned.
    Blob(Result<Option<BlobstoreGetData>, E>),
    /// The attempt to put the blob in the cache is over, whatever came of it.
    Cached,
}

/// What to do next. `D` is a blob.
pub enum GetAction<D, E> {
    /// Ask the cache.
    LookUpCache,
    /// Wait for a permit for the slice of the key.
    AcquirePermit,
    /// Read the blobstore.
    ReadBlobstore,
    /// Try to put the blob in the cache.
    SetInCache(D),
    /// Return.
    Return(Result<Option<D>, E>),
}

impl<E> View for GetAction<BlobstoreGetData, E> {
    type V = GetAction<Blob, E>;

    open spec fn view(&self) -> GetAction<Blob, E> {
        match *self {
            GetAction::LookUpCache => GetAction::LookUpCache,
            GetAction::AcquirePermit => GetAction::AcquirePermit,
            GetAction::ReadBlobstore => GetAction::ReadBlobstore,
            GetAction::SetInCache(data) => GetAction::SetInCache(data@),
            GetAction::Return(Ok(Some(data))) => GetAction::Return(Ok(Some(data@))),
            GetAction::Return(Ok(None)) => GetAction::Return(Ok(None)),
            GetAction::Return(Err(error)) => GetAction::Return(Err(error)),
        }
    }
}

/// A step of a read: where it stands then, the counter to raise by one, if any, and
/// what to do.
pub struct GetStep<P, D, E> {
    pub state: GetState<P>,
    pub counter: Option<PerfCounterType>,
    pub action: GetAction<D, E>,
}

/// The event is one that the state waits for.
pub open spec fn get_awaits<P, E>(state: GetState<P>, event: GetEvent<P, E>) -> bool {
    match state {
        GetState::FirstLookup => event is Cache,
        GetState::AwaitingPermit => event is Permit,
        GetState::SecondLookup(_) => event is Cache,
        GetState::Reading(_) => event is Blob,
        GetState::Caching(_, _) => event is Cached,
        GetState::Finished => false,
    }
}

/// The step that ends the read.
pub open spec fn get_returns<P, E>(
    counter: Option<PerfCounterType>,
    result: Result<Option<Blob>, E>,
) -> GetStep<P, Blob, E> {
    GetStep { state: GetState::Finished, counter, action: GetAction::Return(result) }
}

/// The step that follows the event.
pub open spec fn get_after<P, E>(state: GetState<P>, event: GetEvent<P, E>) -> GetStep<P, Blob, E> {
    match (state, event) {
        // A blob in the cache is returned. One that cannot be cached is read without a
        // permit, since there is no use in waiting for it to be cached.
        (GetState::FirstLookup, GetEvent::Cache(Ok(Some(CacheData::Stored(data))))) => get_returns(
            Some(PerfCounterType::CachelibHits),
            Ok(Some(data@)),
        ),
        (GetState::FirstLookup, GetEvent::Cache(Ok(Some(CacheData::NotStorable)))) => GetStep {
            state: GetState::SecondLookup(None),
            counter: Some(PerfCounterType::CachelibMisses),
            action: GetAction::LookUpCache,
        },
        (GetState::FirstLookup, GetEvent::Cache(Ok(None))) => GetStep {
            state: GetState::AwaitingPermit,
            counter: None,
            action: GetAction::AcquirePermit,
        },
        (GetState::AwaitingPermit, GetEvent::Permit(permit)) => GetStep {
            state: GetState::SecondLookup(Some(permit)),
            counter: Some(PerfCounterType::CachelibMisses),
            action: GetAction::LookUpCache,
        },
        // While the permit was waited for, the blob may have been cached, or found not
        // to be cacheable: then the permit is given back before the blobstore is read.
        (
            GetState::SecondLookup(_),
            GetEvent::Cache(Ok(Some(CacheData::Stored(data)))),
        ) => get_returns(Some(PerfCounterType::BlobGetsDeduplicated), Ok(Some(data@))),
        (GetState::SecondLookup(_), GetEvent::Cache(Ok(Some(CacheData::NotStorable)))) => GetStep {
            state: GetState::Reading(None),
            counter: None,
            action: GetAction::ReadBlobstore,
        },
        (GetState::SecondLookup(permit), GetEvent::Cache(Ok(None))) => GetStep {
            state: GetState::Reading(permit),
            counter: None,
            action: GetAction::ReadBlobstore,
        },
        (_, GetEvent::Cache(Err(error))) => get_returns(None, Err(error)),
        // What was read is returned, whether or not it can be cached.
        (GetState::Reading(permit), GetEvent::Blob(Ok(Some(data)))) => GetStep {
            state: GetState::Caching(permit, data),
            counter: None,
            action: GetAction::SetInCache(data@),
        },
        (GetState::Reading(_), GetEvent::Blob(Ok(None))) => get_returns(None, Ok(None)),
        (GetState::Reading(_), GetEvent::Blob(Err(error))) => get_returns(None, Err(error)),
        (GetState::Caching(_, data), GetEvent::Cached) => get_returns(None, Ok(Some(data@))),
        _ => get_returns(None, arbitrary()),
    }
}

/// The same step with models of the blobs in its action.
pub open spec fn get_step_model<P, E>(step: GetStep<P, BlobstoreGetData, E>) -> GetStep<
    P,
    Blob,
    E,
> {
    GetStep { state: step.state, counter: step.counter, action: step.action@ }
}

impl<P> GetState<P> {
    /// Starts a read.
    pub fn start<E>() -> (step: GetStep<P, BlobstoreGetData, E>)
        ensures
            step.state == GetState::<P>::FirstLookup,
            step.counter is None,
            step.action is LookUpCache,
    {
        GetStep { state: GetState::FirstLookup, counter: None, action: GetAction::LookUpCache }
    }

    /// Whether the event is one that the state waits for.
    pub fn expects<E>(&self, event: &GetEvent<P, E>) -> (expected: bool)
        ensures
            expected == get_awaits(*self, *event),
    {
        match (self, event) {
            (GetState::FirstLookup, GetEvent::Cache(_)) => true,
            (GetState::AwaitingPermit, GetEvent::Permit(_)) => true,
            (GetState::SecondLookup(_), GetEvent::Cache(_)) => true,
            (GetState::Reading(_), GetEvent::Blob(_)) => true,
            (GetState::Caching(_, _), GetEvent::Cached) => true,
            _ => false,
        }
    }

    /// Takes in what came of the last action and says what to do next.
    pub fn step<E>(self, event: GetEvent<P, E>) -> (step: GetStep<P, BlobstoreGetData, E>)
        requires
            get_awaits(self, event),
        ensures
            step.state == get_after(self, event).state,
            step.counter == get_after(self, event).counter,
            step.action@ == get_after(self, event).action,
            get_step_model(step) == get_after(self, event),
    {
        let (state, counter, action) = match (self, event) {
            (GetState::FirstLookup, GetEvent::Cache(Ok(Some(CacheData::Stored(data))))) => (
                GetState::Finished,
                Some(PerfCounterType::CachelibHits),
                GetAction::Return(Ok(Some(data))),
            ),
            (GetState::FirstLookup, GetEvent::Cache(Ok(Some(CacheData::NotStorable)))) => (
                GetState::SecondLookup(None),
                Some(PerfCounterType::CachelibMisses),
                GetAction::LookUpCache,
            ),
            (GetState::FirstLookup, GetEvent::Cache(Ok(None))) => (
                GetState::AwaitingPermit,
                None,
                GetAction::AcquirePermit,
            ),
            (_, GetEvent::Permit(permit)) => (
                GetState::SecondLookup(Some(permit)),
                Some(PerfCounterType::CachelibMisses),
                GetAction::LookUpCache,
            ),
            (
                GetState::SecondLookup(_),
                GetEvent::Cache(Ok(Some(CacheData::Stored(data)))),
            ) => (
                GetState::Finished,
                Some(PerfCounterType::BlobGetsDeduplicated),
                GetAction::Return(Ok(Some(data))),
            ),
            (GetState::SecondLookup(permit), GetEvent::Cache(Ok(None))) => (
                GetState::Reading(permit),
                None,
                GetAction::ReadBlobstore,
            ),
            (_, GetEvent::Cache(Err(error))) => (
                GetState::Finished,
                None,
                GetAction::Return(Err(error)),
            ),
            (GetState::Reading(permit), GetEvent::Blob(Ok(Some(data)))) => {
                let copy = data.clone();
                (GetState::Caching(permit, data), None, GetAction::SetInCache(copy))
            },
            (_, GetEvent::Blob(Ok(_))) => (GetState::Finished, None, GetAction::Return(Ok(None))),
            (_, GetEvent::Blob(Err(error))) => (
                GetState::Finished,
                None,
                GetAction::Return(Err(error)),
            ),
            (GetState::Caching(_, data), _) => (
                GetState::Finished,
                None,
                GetAction::Return(Ok(Some(data))),
            ),
            _ => (GetState::Reading(None), None, GetAction::ReadBlobstore),
        };
        GetStep { state, counter, action }
    }
}

/// The model of an action of a read is the action with the models of its blobs.
pub proof fn an_action_of_a_read_is_modelled_as_it_is<E>(
    action: GetAction<BlobstoreGetData, E>,
)
    ensures
        match action {
            GetAction::LookUpCache => action@ is LookUpCache,
            GetAction::AcquirePermit => action@ is AcquirePermit,
            GetAction::ReadBlobstore => action@ is ReadBlobstore,
            GetAction::SetInCache(data) => action@ == GetAction::<Blob, E>::SetInCache(data@),
            GetAction::Return(Ok(Some(data))) => action@ == GetAction::<Blob, E>::Return(
                Ok(Some(data@)),
            ),
            GetAction::Return(Ok(None)) => action@ == GetAction::<Blob, E>::Return(Ok(None)),
            GetAction::Return(Err(error)) => action@ == GetAction::<Blob, E>::Return(Err(error)),
        },
{
}

} // verus!
