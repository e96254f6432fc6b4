//! Writing a blob.

use vstd::prelude::*;

use crate::sharded::counters::PerfCounterType;
use crate::sharded::data::{Blob, BlobstoreBytes, BlobstoreGetData, BlobstoreMetadata};

verus! {

/// Where a write stands. `P` is a permit for the slice of the key; it is given back
/// when it is dropped.
pub enum PutState<P> {
    /// The presence pool is being asked.
    FirstCheck(BlobstoreBytes),
    /// A permit is being waited for.
    AwaitingPermit(BlobstoreBytes),
    /// The presence pool is being asked again.
    SecondCheck(P, BlobstoreBytes),
    /// The blobstore is being written.
    Writing(P, BlobstoreBytes),
    /// What was written is being put in the cache.
    Caching(P),
    /// Nothing is left to do.
    Finished,
}

/// What came of the last action.
pub enum PutEvent<P, E> {
    /// Whether the blob is known to be present.
    Known(Result<bool, E>),
    /// A permit for the slice of the key.
    Permit(P),
    /// Whether the blobstore was written.
    Written(Result<(), E>),
    /// The attempt to put the blob in the cache is over, whatever came of it.
    Cached,
}

/// What to do next.
pub enum PutAction<E> {
    /// Ask the presence pool.
    CheckPresence,
    /// Wait for a permit for the slice of the key.
    AcquirePermit,
    /// Write these bytes to the blobstore.
    WriteBlobstore(BlobstoreBytes),
    /// Try to put the blob in the cache.
    SetInCache(BlobstoreGetData),
    /// Return.
    Return(Result<(), E>),
}

/// The model of a [`PutAction`].
pub enum PutActionModel<E> {
    CheckPresence,
    AcquirePermit,
    WriteBlobstore(Seq<u8>),
    SetInCache(Blob),
    Return(Result<(), E>),
}

impl<E> View for PutAction<E> {
    type V = PutActionModel<E>;

    open spec fn view(&self) -> PutActionModel<E> {
        match *self {
            PutAction::CheckPresence => PutActionModel::CheckPresence,
            PutAction::AcquirePermit => PutActionModel::AcquirePermit,
            PutAction::WriteBlobstore(value) => PutActionModel::WriteBlobstore(value@),
            PutAction::SetInCache(data) => PutActionModel::SetInCache(data@),
            PutAction::Return(result) => PutActionModel::Return(result),
        }
    }
}

/// A step of a write: where it stands then, the counter to raise by one, if any, and
/// what to do. `A` is an action or its model.
pub struct PutStep<P, A> {
    pub state: PutState<P>,
    pub counter: Option<PerfCounterType>,
    pub action: A,
}

/// The event is one that the state waits for.
pub open spec fn put_awaits<P, E>(state: PutState<P>, event: PutEvent<P, E>) -> bool {
    match state {
        PutState::FirstCheck(_) => event is Known,
        PutState::AwaitingPermit(_) => event is Permit,
        PutState::SecondCheck(_, _) => event is Known,
        PutState::Writing(_, _) => event is Written,
        PutState::Caching(_) => event is Cached,
        PutState::Finished => false,
    }
}

/// The blob that was just written, as a read would give it.
pub open spec fn written_blob(value: Seq<u8>) -> Blob {
    Blob { meta: BlobstoreMetadata { ctime: None }, bytes: value }
}

/// The step that ends the write.
pub open spec fn put_returns<P, E>(
    counter: Option<PerfCounterType>,
    result: Result<(), E>,
) -> PutStep<P, PutActionModel<E>> {
    PutStep { state: PutState::Finished, counter, action: PutActionModel::Return(result) }
}

/// The step that follows the event.
pub open spec fn put_after<P, E>(state: PutState<P>, event: PutEvent<P, E>) -> PutStep<
    P,
    PutActionModel<E>,
> {
    match (state, event) {
        // A blob that is known to be present is not written.
        (PutState::FirstCheck(_), PutEvent::Known(Ok(true))) => put_returns(
            Some(PerfCounterType::BlobPutsDeduplicated),
            Ok(()),
        ),
        (PutState::FirstCheck(value), PutEvent::Known(_)) => PutStep {
            state: PutState::AwaitingPermit(value),
            counter: None,
            action: PutActionModel::AcquirePermit,
        },
        (PutState::AwaitingPermit(value), PutEvent::Permit(permit)) => PutStep {
            state: PutState::SecondCheck(permit, value),
            counter: None,
            action: PutActionModel::CheckPresence,
        },
        (PutState::SecondCheck(_, _), PutEvent::Known(Ok(true))) => put_returns(
            Some(PerfCounterType::BlobPutsDeduplicated),
            Ok(()),
        ),
        (PutState::SecondCheck(permit, value), PutEvent::Known(_)) => PutStep {
            state: PutState::Writing(permit, value),
            counter: None,
            action: PutActionModel::WriteBlobstore(value@),
        },
        (PutState::Writing(permit, value), PutEvent::Written(Ok(_))) => PutStep {
            state: PutState::Caching(permit),
            counter: None,
            action: PutActionModel::SetInCache(written_blob(value@)),
        },
        (PutState::Writing(_, _), PutEvent::Written(Err(error))) => put_returns(None, Err(error)),
        (PutState::Caching(_), PutEvent::Cached) => put_returns(None, Ok(())),
        _ => put_returns(None, arbitrary()),
    }
}

/// The same step with the model of its action.
pub open spec fn put_step_model<P, E>(step: PutStep<P, PutAction<E>>) -> PutStep<
    P,
    PutActionModel<E>,
> {
    PutStep { state: step.state, counter: step.counter, action: step.action@ }
}

impl<P> PutState<P> {
    /// Starts to write the bytes.
    pub fn start<E>(value: BlobstoreBytes) -> (step: PutStep<P, PutAction<E>>)
        ensures
            step.state == PutState::<P>::FirstCheck(value),
            step.counter is None,
            step.action is CheckPresence,
    {
        PutStep {
            state: PutState::FirstCheck(value),
            counter: None,
            action: PutAction::CheckPresence,
        }
    }

    /// Whether the event is one that the state waits for.
    pub fn expects<E>(&self, event: &PutEvent<P, E>) -> (expected: bool)
        ensures
            expected == put_awaits(*self, *event),
    {
        match (self, event) {
            (PutState::FirstCheck(_), PutEvent::Known(_)) => true,
            (PutState::AwaitingPermit(_), PutEvent::Permit(_)) => true,
            (PutState::SecondCheck(_, _), PutEvent::Known(_)) => true,
            (PutState::Writing(_, _), PutEvent::Written(_)) => true,
            (PutState::Caching(_), PutEvent::Cached) => true,
            _ => false,
        }
    }

    /// Takes in what came of the last action and says what to do next.
    pub fn step<E>(self, event: PutEvent<P, E>) -> (step: PutStep<P, PutAction<E>>)
        requires
            put_awaits(self, event),
        ensures
            step.state == put_after(self, event).state,
            step.counter == put_after(self, event).counter,
            step.action@ == put_after(self, event).action,
            put_step_model(step) == put_after(self, event),
    {
        let (state, counter, action) = match (self, event) {
            (_, PutEvent::Known(Ok(true))) => (
                PutState::Finished,
                Some(PerfCounterType::BlobPutsDeduplicated),
                PutAction::Return(Ok(())),
            ),
            (PutState::FirstCheck(value), _) => (
                PutState::AwaitingPermit(value),
                None,
                PutAction::AcquirePermit,
            ),
            (PutState::AwaitingPermit(value), PutEvent::Permit(permit)) => (
                PutState::SecondCheck(permit, value),
                None,
                PutAction::CheckPresence,
            ),
            (PutState::SecondCheck(permit, value), _) => {
                let copy = value.clone();
                (PutState::Writing(permit, value), None, PutAction::WriteBlobstore(copy))
            },
            (PutState::Writing(permit, value), PutEvent::Written(Ok(_))) => (
                PutState::Caching(permit),
                None,
                PutAction::SetInCache(BlobstoreGetData::new(BlobstoreMetadata::new(None), value)),
            ),
            (_, PutEvent::Written(Err(error))) => (
                PutState::Finished,
                None,
                PutAction::Return(Err(error)),
            ),
            _ => (PutState::Finished, None, PutAction::Return(Ok(()))),
        };
        PutStep { state, counter, action }
    }
}

/// The model of an action of a write is the action with the models of its blobs.
pub proof fn an_action_of_a_write_is_modelled_as_it_is<E>(action: PutAction<E>)
    ensures
        match action {
            PutAction::CheckPresence => action@ is CheckPresence,
            PutAction::AcquirePermit => action@ is AcquirePermit,
            PutAction::WriteBlobstore(value) => action@ == PutActionModel::<E>::WriteBlobstore(
                value@,
            ),
            PutAction::SetInCache(data) => action@ == PutActionModel::<E>::SetInCache(data@),
            PutAction::Return(result) => action@ == PutActionModel::<E>::Return(result),
        },
{
}

} // verus!
