//! Creating a commit from a description of it.

use vstd::prelude::*;
use vstd::string::*;

use crate::bonsai::{ContentId, FileChange, FileChangeModel};
use crate::path::MPath;
use crate::sorted_map::SortedMap;

verus! {

pub const CREATE_BONSAI: &'static str = "create-bonsai";

/// The command was not told that it is dangerous.
#[derive(Clone, Copy, Debug, PartialEq, Eq, Structural)]
pub struct NotConfirmed;

impl NotConfirmed {
    /// What the user is told.
    pub fn message(&self) -> (message: &'static str)
        ensures
            message@ == "--dangerous was not provided. Think twice before use"@,
    {
        "--dangerous was not provided. Think twice before use"
    }
}

/// The command goes ahead only when `--dangerous` was given.
pub fn confirm(dangerous: bool) -> (result: Result<(), NotConfirmed>)
    ensures
        result == if dangerous {
            Ok::<(), NotConfirmed>(())
        } else {
            Err(NotConfirmed)
        },
{
    if dangerous {
        Ok(())
    } else {
        Err(NotConfirmed)
    }
}

/// The contents that the changes refer to, in the order of their paths. A change that
/// removes a file refers to none.
pub open spec fn contents(
    changes: Seq<(Seq<Seq<u8>>, Option<FileChangeModel>)>,
) -> Seq<ContentId>
    decreases changes.len(),
{
    if changes.len() == 0 {
        Seq::empty()
    } else {
        let front = contents(changes.drop_last());
        match changes.last().1 {
            Some(change) => front.push(change.content_id),
            None => front,
        }
    }
}

/// Where the creation of a commit stands.
#[derive(Clone, Copy, Debug, PartialEq, Eq, Structural)]
pub enum Stage {
    /// The content at this position is being looked up.
    Checking(usize),
    /// The changeset is being saved.
    Saving,
    /// The Mercurial changeset of the saved one is being looked up.
    Mapping,
    /// Nothing is left to do.
    Over,
}

/// What came of the last action.
pub enum Event<H, E> {
    /// Whether the content has metadata in the filestore.
    Metadata(Result<bool, E>),
    /// Whether the changeset was saved.
    Saved(Result<(), E>),
    /// The Mercurial changeset.
    Mapped(Result<H, E>),
}

/// What to do next.
pub enum Action<H, E> {
    /// Look up the metadata of the content in the filestore.
    LookUpMetadata(ContentId),
    /// Save the changeset.
    Save,
    /// Look up the Mercurial changeset of the saved one.
    LookUpHg,
    /// Tell the user of the changeset that was created.
    Report(H),
    /// Stop: the filestore does not have the content.
    ContentMissing(ContentId),
    /// Stop with the error.
    Fail(E),
}

/// The stage that looks up the content at position `n`, or the one after it where
/// there is no such content.
pub open spec fn stage_at(ids: Seq<ContentId>, n: int) -> Stage {
    if n < ids.len() {
        Stage::Checking(n as usize)
    } else {
        Stage::Saving
    }
}

/// What is done first at `stage_at(ids, n)`.
pub open spec fn action_at<H, E>(ids: Seq<ContentId>, n: int) -> Action<H, E> {
    if n < ids.len() {
        Action::LookUpMetadata(ids[n])
    } else {
        Action::Save
    }
}

/// The event is one that the stage waits for.
pub open spec fn awaits<H, E>(stage: Stage, event: Event<H, E>) -> bool {
    match stage {
        Stage::Checking(_) => event is Metadata,
        Stage::Saving => event is Saved,
        Stage::Mapping => event is Mapped,
        Stage::Over => false,
    }
}

/// Where the creation stands after the event, and what to do then.
pub open spec fn after<H, E>(ids: Seq<ContentId>, stage: Stage, event: Event<H, E>) -> (
    Stage,
    Action<H, E>,
) {
    match (stage, event) {
        (Stage::Checking(n), Event::Metadata(Ok(true))) => (
            stage_at(ids, n + 1),
            action_at(ids, n + 1),
        ),
        (Stage::Checking(n), Event::Metadata(Ok(false))) => (
            Stage::Over,
            Action::ContentMissing(ids[n as int]),
        ),
        (Stage::Saving, Event::Saved(Ok(()))) => (Stage::Mapping, Action::LookUpHg),
        (Stage::Mapping, Event::Mapped(Ok(mapped))) => (Stage::Over, Action::Report(mapped)),
        (_, Event::Metadata(Err(error))) => (Stage::Over, Action::Fail(error)),
        (_, Event::Saved(Err(error))) => (Stage::Over, Action::Fail(error)),
        (_, Event::Mapped(Err(error))) => (Stage::Over, Action::Fail(error)),
        _ => (Stage::Over, arbitrary()),
    }
}

/// The creation of a commit: every content that its changes refer to is looked up, in
/// the order of the paths, before the changeset is saved.
pub struct Creation {
    ids: Vec<ContentId>,
    stage: Stage,
}

impl Creation {
    /// The contents to look up.
    pub closed spec fn ids(&self) -> Seq<ContentId> {
        self.ids@
    }

    /// Where the creation stands.
    pub closed spec fn stage(&self) -> Stage {
        self.stage
    }

    #[verifier::type_invariant]
    closed spec fn well_formed(&self) -> bool {
        self.stage matches Stage::Checking(n) ==> n < self.ids@.len()
    }

    /// Starts the creation of a commit with the given changes.
    pub fn start<H, E>(changes: &SortedMap<MPath, Option<FileChange>>) -> (started: (
        Creation,
        Action<H, E>,
    ))
        ensures
            started.0.ids() == contents(changes.entries()),
            started.0.stage() == stage_at(started.0.ids(), 0),
            started.1 == action_at::<H, E>(started.0.ids(), 0),
    {
        let ghost entries = changes.entries();
        let mut ids: Vec<ContentId> = Vec::new();
        let count: usize = changes.len();
        let mut i: usize = 0;
        while i < count
            invariant
                entries == changes.entries(),
                count == entries.len(),
                i <= count,
                ids@ == contents(entries.take(i as int)),
            decreases count - i,
        {
            let ghost longer = entries.take(i + 1);
            assert(longer.drop_last() =~= entries.take(i as int));
            assert(longer.last() == entries[i as int]);
            match changes.value_at(i) {
                Some(change) => {
                    ids.push(change.content_id);
                },
                None => {},
            }
            i = i + 1;
        }
        assert(entries.take(i as int) =~= entries);
        if ids.len() == 0 {
            (Creation { ids, stage: Stage::Saving }, Action::Save)
        } else {
            let first = ids[0];
            (Creation { ids, stage: Stage::Checking(0) }, Action::LookUpMetadata(first))
        }
    }

    /// Whether the event is one that the creation waits for.
    pub fn expects<H, E>(&self, event: &Event<H, E>) -> (expected: bool)
        ensures
            expected == awaits(self.stage(), *event),
    {
        match (self.stage, event) {
            (Stage::Checking(_), Event::Metadata(_)) => true,
            (Stage::Saving, Event::Saved(_)) => true,
            (Stage::Mapping, Event::Mapped(_)) => true,
            _ => false,
        }
    }

    /// Takes in what came of the last action and says what to do next.
    pub fn step<H, E>(self, event: Event<H, E>) -> (next: (Creation, Action<H, E>))
        requires
            awaits(self.stage(), event),
        ensures
            next.0.ids() == self.ids(),
            (next.0.stage(), next.1) == after(self.ids(), self.stage(), event),
    {
        proof {
            use_type_invariant(&self);
        }
        let Creation { ids, stage } = self;
        let count: usize = ids.len();
        match (stage, event) {
            (Stage::Checking(n), Event::Metadata(Ok(true))) => {
                let next: usize = n + 1;
                if next < count {
                    let id = ids[next];
                    (Creation { ids, stage: Stage::Checking(next) }, Action::LookUpMetadata(id))
                } else {
                    (Creation { ids, stage: Stage::Saving }, Action::Save)
                }
            },
            (Stage::Checking(n), Event::Metadata(Ok(false))) => {
                let id = ids[n];
                (Creation { ids, stage: Stage::Over }, Action::ContentMissing(id))
            },
            (_, Event::Mapped(Ok(mapped))) => (
                Creation { ids, stage: Stage::Over },
                Action::Report(mapped),
            ),
            (_, Event::Metadata(Err(error)))
            | (_, Event::Saved(Err(error)))
            | (_, Event::Mapped(Err(error))) => (
                Creation { ids, stage: Stage::Over },
                Action::Fail(error),
            ),
            _ => (Creation { ids, stage: Stage::Mapping }, Action::LookUpHg),
        }
    }
}

/// What the user is told of a content that the filestore does not have; `id` is the
/// content as text.
pub fn content_missing_message(id: &str) -> (message: String)
    ensures
        message@ == "filenode "@ + id@ + " is not found in the filestore"@,
{
    let mut message = "filenode ".to_owned();
    message.append(id);
    message.append(" is not found in the filestore");
    message
}

/// What the user is told of the commit that was created; both changesets are given as
/// text.
pub fn report_message(changeset: &str, hg_changeset: &str) -> (message: String)
    ensures
        message@ == "Created bonsai changeset "@ + changeset@ + " for hg_changeset "@
            + hg_changeset@,
{
    let mut message = "Created bonsai changeset ".to_owned();
    message.append(changeset);
    message.append(" for hg_changeset ");
    message.append(hg_changeset);
    message
}

/// Where the creation of a commit with these contents stands after the events, and
/// what to do then. None when an event came that was not waited for.
pub open spec fn run<H, E>(ids: Seq<ContentId>, events: Seq<Event<H, E>>) -> Option<
    (Stage, Action<H, E>),
>
    decreases events.len(),
{
    if events.len() == 0 {
        Some((stage_at(ids, 0), action_at(ids, 0)))
    } else {
        match run(ids, events.drop_last()) {
            Some((stage, _)) if awaits(stage, events.last()) => Some(
                after(ids, stage, events.last()),
            ),
            _ => None,
        }
    }
}

/// The first `n` events said that the content looked up is there.
pub open spec fn found<H, E>(events: Seq<Event<H, E>>, n: int) -> bool {
    &&& n <= events.len()
    &&& forall|i: int|
        0 <= i < n ==> #[trigger] events[i] == Event::<H, E>::Metadata(Ok(true))
}

/// Every stage of the creation tells what has happened so far.
proof fn lemma_history<H, E>(ids: Seq<ContentId>, events: Seq<Event<H, E>>)
    requires
        ids.len() <= usize::MAX,
    ensures
        match run(ids, events) {
            Some((Stage::Checking(n), _)) => n < ids.len() && events.len() == n && found(
                events,
                n as int,
            ),
            Some((Stage::Saving, _)) => events.len() == ids.len() && found(
                events,
                ids.len() as int,
            ),
            Some((Stage::Mapping, _)) => events.len() == ids.len() + 1 && found(
                events,
                ids.len() as int,
            ) && (events[ids.len() as int] matches Event::Saved(Ok(_))),
            _ => true,
        },
    decreases events.len(),
{
    if events.len() > 0 {
        let front = events.drop_last();
        lemma_history(ids, front);
        assert forall|n: int| 0 <= n && #[trigger] found(front, n) implies found(events, n) by {
            assert forall|i: int| 0 <= i < n implies #[trigger] events[i] == Event::<
                H,
                E,
            >::Metadata(Ok(true)) by {
                assert(front[i] == events[i]);
            }
        }
        let n = front.len() as int;
        if found(front, n) && events.last() == Event::<H, E>::Metadata(Ok(true)) {
            assert(found(events, n));
            assert(found(events, n + 1));
        }
    }
}

/// The changeset is saved only when every content that its changes refer to was looked
/// up and found.
pub proof fn nothing_is_saved_before_every_content_is_found<H, E>(
    ids: Seq<ContentId>,
    events: Seq<Event<H, E>>,
)
    requires
        ids.len() <= usize::MAX,
        run(ids, events) matches Some((_, Action::Save)),
    ensures
        events.len() == ids.len(),
        found(events, ids.len() as int),
{
    lemma_history(ids, events);
    if events.len() > 0 {
        lemma_history(ids, events.drop_last());
    }
}

/// When a content is missing, the one that is named is the first, in the order of the
/// paths, that was not found.
pub proof fn the_first_missing_content_is_named<H, E>(
    ids: Seq<ContentId>,
    events: Seq<Event<H, E>>,
    id: ContentId,
)
    requires
        ids.len() <= usize::MAX,
        run(ids, events) matches Some((_, Action::ContentMissing(named))) && named == id,
    ensures
        0 < events.len() <= ids.len(),
        id == ids[events.len() - 1],
        events.last() == Event::<H, E>::Metadata(Ok(false)),
        found(events, events.len() - 1),
{
    let front = events.drop_last();
    lemma_history(ids, front);
    assert forall|i: int| 0 <= i < front.len() implies #[trigger] events[i] == Event::<
        H,
        E,
    >::Metadata(Ok(true)) by {
        assert(front[i] == events[i]);
    }
}

/// A commit is reported only when it was saved, after every content was found.
pub proof fn only_a_saved_commit_is_reported<H, E>(
    ids: Seq<ContentId>,
    events: Seq<Event<H, E>>,
    mapped: H,
)
    requires
        ids.len() <= usize::MAX,
        run(ids, events) matches Some((_, Action::Report(reported))) && reported == mapped,
    ensures
        events.len() == ids.len() + 2,
        found(events, ids.len() as int),
        events[ids.len() as int] matches Event::Saved(Ok(_)),
        events.last() == Event::<H, E>::Mapped(Ok(mapped)),
{
    let front = events.drop_last();
    lemma_history(ids, front);
    assert(front[ids.len() as int] == events[ids.len() as int]);
    assert forall|i: int| 0 <= i < ids.len() implies #[trigger] events[i] == Event::<
        H,
        E,
    >::Metadata(Ok(true)) by {
        assert(front[i] == events[i]);
    }
}

/// Every content that a change refers to is among those to look up, whatever kind of
/// file it is of.
pub proof fn every_content_is_to_be_looked_up(
    changes: Seq<(Seq<Seq<u8>>, Option<FileChangeModel>)>,
    i: int,
)
    requires
        0 <= i < changes.len(),
        changes[i].1 is Some,
    ensures
        contents(changes).contains(changes[i].1->Some_0.content_id),
{
    contents_follow_the_changes(changes.take(i), changes.skip(i), changes[i]);
    contents_follow_the_changes(changes.take(i + 1), changes.skip(i + 1), changes[i]);
    assert(changes =~= changes.take(i + 1) + changes.skip(i + 1));
    assert(changes.take(i + 1) =~= changes.take(i).push(changes[i]));
    let n = contents(changes.take(i)).len() as int;
    assert(contents(changes)[n] == changes[i].1->Some_0.content_id);
}

/// The contents to look up stand in the order of the changes, one for each change that
/// puts a file and none for one that removes it.
pub proof fn contents_follow_the_changes(
    a: Seq<(Seq<Seq<u8>>, Option<FileChangeModel>)>,
    b: Seq<(Seq<Seq<u8>>, Option<FileChangeModel>)>,
    change: (Seq<Seq<u8>>, Option<FileChangeModel>),
)
    ensures
        contents(a + b) == contents(a) + contents(b),
        contents(a.push(change)) == match change.1 {
            Some(put) => contents(a).push(put.content_id),
            None => contents(a),
        },
        contents(Seq::empty()).len() == 0,
    decreases b.len(),
{
    assert(a.push(change).drop_last() =~= a);
    if b.len() == 0 {
        assert(a + b =~= a);
    } else {
        assert((a + b).drop_last() =~= a + b.drop_last());
        contents_follow_the_changes(a, b.drop_last(), change);
        assert(contents(a + b) =~= contents(a) + contents(b));
    }
}

/// There are as many contents to look up as changes that put a file.
pub proof fn there_is_one_content_for_each_change(
    changes: Seq<(Seq<Seq<u8>>, Option<FileChangeModel>)>,
)
    ensures
        contents(changes).len() == changes.filter(
            |change: (Seq<Seq<u8>>, Option<FileChangeModel>)| change.1 is Some,
        ).len(),
    decreases changes.len(),
{
    reveal(Seq::filter);
    if changes.len() > 0 {
        there_is_one_content_for_each_change(changes.drop_last());
    }
}

/// As long as contents are found, the next one is looked up, and when all are found the
/// commit is saved.
pub proof fn contents_are_looked_up_one_after_another<H, E>(
    ids: Seq<ContentId>,
    events: Seq<Event<H, E>>,
)
    requires
        events.len() <= ids.len() <= usize::MAX,
        forall|i: int|
            0 <= i < events.len() ==> #[trigger] events[i] == Event::<H, E>::Metadata(Ok(true)),
    ensures
        run(ids, events) is Some,
        events.len() < ids.len() ==> run(ids, events)->Some_0.1 == Action::<
            H,
            E,
        >::LookUpMetadata(ids[events.len() as int]),
        events.len() == ids.len() ==> run(ids, events)->Some_0.1 is Save,
        run(ids, events)->Some_0.0 == stage_at(ids, events.len() as int),
    decreases events.len(),
{
    if events.len() > 0 {
        let front = events.drop_last();
        assert(forall|i: int| 0 <= i < front.len() ==> #[trigger] front[i] == events[i]);
        contents_are_looked_up_one_after_another(ids, front);
        assert(events.last() == events[events.len() - 1]);
    }
}

/// A commit whose contents are all found, that is saved and whose Mercurial changeset
/// is found, is reported with that changeset.
pub proof fn a_saved_commit_is_reported<H, E>(
    ids: Seq<ContentId>,
    events: Seq<Event<H, E>>,
    mapped: H,
)
    requires
        events.len() == ids.len() <= usize::MAX,
        forall|i: int|
            0 <= i < events.len() ==> #[trigger] events[i] == Event::<H, E>::Metadata(Ok(true)),
    ensures
        ({
            let saved = events.push(Event::Saved(Ok(())));
            let over = saved.push(Event::Mapped(Ok(mapped)));
            &&& run(ids, saved) matches Some((_, action)) && action is LookUpHg
            &&& run(ids, over) matches Some((_, action)) && action == Action::<H, E>::Report(mapped)
        }),
{
    contents_are_looked_up_one_after_another(ids, events);
    let saved = events.push(Event::<H, E>::Saved(Ok(())));
    let over = saved.push(Event::<H, E>::Mapped(Ok(mapped)));
    assert(saved.drop_last() =~= events);
    assert(over.drop_last() =~= saved);
}

/// Whatever fails ends the creation with its error, and a content that is not found ends
/// it with that content.
pub proof fn a_failure_ends_the_creation<H, E>(
    ids: Seq<ContentId>,
    events: Seq<Event<H, E>>,
)
    requires
        ids.len() <= usize::MAX,
        events.len() > 0,
        run(ids, events) is Some,
    ensures
        match events.last() {
            Event::Metadata(Err(error)) => run(ids, events)->Some_0.1 == Action::<H, E>::Fail(
                error,
            ),
            Event::Saved(Err(error)) => run(ids, events)->Some_0.1 == Action::<H, E>::Fail(error),
            Event::Mapped(Err(error)) => run(ids, events)->Some_0.1 == Action::<H, E>::Fail(error),
            Event::Metadata(Ok(found)) => !found ==> run(ids, events)->Some_0.1 == Action::<
                H,
                E,
            >::ContentMissing(ids[events.len() - 1]),
            _ => true,
        },
{
    lemma_history(ids, events.drop_last());
}

/// The creation waits for the answer to what it asked for last, and for nothing else.
pub proof fn only_an_answer_is_awaited<H, E>(
    ids: Seq<ContentId>,
    events: Seq<Event<H, E>>,
    event: Event<H, E>,
)
    requires
        ids.len() <= usize::MAX,
        run(ids, events) is Some,
    ensures
        awaits(run(ids, events)->Some_0.0, event) <==> match run(ids, events)->Some_0.1 {
            Action::LookUpMetadata(_) => event is Metadata,
            Action::Save => event is Saved,
            Action::LookUpHg => event is Mapped,
            _ => false,
        },
        events.len() > 0 ==> awaits(run(ids, events.drop_last())->Some_0.0, events.last()),
{
    if events.len() > 0 {
        lemma_history(ids, events.drop_last());
    }
}

} // verus!
