//! Asking whether a blob is present.

use bytes::Bytes;
use vstd::prelude::*;

use crate::sharded::bytes_model::contents;
use crate::sharded::frame::{presence_entry, presence_marker};

verus! {

/// Where the question stands.
#[derive(Clone, Copy, Debug, PartialEq, Eq, Structural)]
pub enum PresentState {
    /// The presence pool is being asked.
    Checking,
    /// The blobstore is being asked.
    Asking,
    /// The key is being marked as present.
    Marking,
    /// Nothing is left to do.
    Finished,
}

/// What came of the last action.
pub enum PresentEvent<E> {
    /// Whether the blob is known to be present.
    Known(Result<bool, E>),
    /// What the blobstore answered.
    Exists(Result<bool, E>),
    /// The attempt to mark the key is over, whatever came of it.
    Marked,
}

/// What to do next.
pub enum PresentAction<E> {
    /// Ask the presence pool.
    CheckPresence,
    /// Ask the blobstore.
    AskBlobstore,
    /// Try to set this entry in the presence pool.
    SetPresent(Bytes),
    /// Return.
    Return(Result<bool, E>),
}

/// The model of a [`PresentAction`].
pub enum PresentActionModel<E> {
    CheckPresence,
    AskBlobstore,
    SetPresent(Seq<u8>),
    Return(Result<bool, E>),
}

impl<E> View for PresentAction<E> {
    type V = PresentActionModel<E>;

    open spec fn view(&self) -> PresentActionModel<E> {
        match *self {
            PresentAction::CheckPresence => PresentActionModel::CheckPresence,
            PresentAction::AskBlobstore => PresentActionModel::AskBlobstore,
            PresentAction::SetPresent(marker) => PresentActionModel::SetPresent(contents(marker)),
            PresentAction::Return(result) => PresentActionModel::Return(result),
        }
    }
}

/// The event is one that the state waits for.
pub open spec fn present_awaits<E>(state: PresentState, event: PresentEvent<E>) -> bool {
    match state {
        PresentState::Checking => event is Known,
        PresentState::Asking => event is Exists,
        PresentState::Marking => event is Marked,
        PresentState::Finished => false,
    }
}

/// Where the question stands after the event, and what to do then.
pub open spec fn present_after<E>(state: PresentState, event: PresentEvent<E>) -> (
    PresentState,
    PresentActionModel<E>,
) {
    match (state, event) {
        (PresentState::Checking, PresentEvent::Known(Ok(true))) => (
            PresentState::Finished,
            PresentActionModel::Return(Ok(true)),
        ),
        (PresentState::Checking, PresentEvent::Known(_)) => (
            PresentState::Asking,
            PresentActionModel::AskBlobstore,
        ),
        (PresentState::Asking, PresentEvent::Exists(Ok(true))) => (
            PresentState::Marking,
            PresentActionModel::SetPresent(presence_entry()),
        ),
        (PresentState::Asking, PresentEvent::Exists(result)) => (
            PresentState::Finished,
            PresentActionModel::Return(result),
        ),
        (PresentState::Marking, PresentEvent::Marked) => (
            PresentState::Finished,
            PresentActionModel::Return(Ok(true)),
        ),
        _ => (PresentState::Finished, arbitrary()),
    }
}

impl PresentState {
    /// Starts to ask.
    pub fn start<E>() -> (started: (PresentState, PresentAction<E>))
        ensures
            started.0 == PresentState::Checking,
            started.1 is CheckPresence,
    {
        (PresentState::Checking, PresentAction::CheckPresence)
    }

    /// Whether the event is one that the state waits for.
    pub fn expects<E>(&self, event: &PresentEvent<E>) -> (expected: bool)
        ensures
            expected == present_awaits(*self, *event),
    {
        match (self, event) {
            (PresentState::Checking, PresentEvent::Known(_)) => true,
            (PresentState::Asking, PresentEvent::Exists(_)) => true,
            (PresentState::Marking, PresentEvent::Marked) => true,
            _ => false,
        }
    }

    /// Takes in what came of the last action and says what to do next.
    pub fn step<E>(self, event: PresentEvent<E>) -> (next: (PresentState, PresentAction<E>))
        requires
            present_awaits(self, event),
        ensures
            (next.0, next.1@) == present_after(self, event),
    {
        match event {
            PresentEvent::Known(Ok(true)) => (
                PresentState::Finished,
                PresentAction::Return(Ok(true)),
            ),
            PresentEvent::Known(_) => (PresentState::Asking, PresentAction::AskBlobstore),
            PresentEvent::Exists(Ok(true)) => (
                PresentState::Marking,
                PresentAction::SetPresent(presence_marker()),
            ),
            PresentEvent::Exists(result) => (
                PresentState::Finished,
                PresentAction::Return(result),
            ),
            PresentEvent::Marked => (PresentState::Finished, PresentAction::Return(Ok(true))),
        }
    }
}

/// The model of an action of a question is the action with what its buffer holds.
pub proof fn an_action_of_a_question_is_modelled_as_it_is<E>(action: PresentAction<E>)
    ensures
        match action {
            PresentAction::CheckPresence => action@ is CheckPresence,
            PresentAction::AskBlobstore => action@ is AskBlobstore,
            PresentAction::SetPresent(marker) => action@ == PresentActionModel::<E>::SetPresent(
                contents(marker),
            ),
            PresentAction::Return(result) => action@ == PresentActionModel::<E>::Return(result),
        },
{
}

} // verus!
