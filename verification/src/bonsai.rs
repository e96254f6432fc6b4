//! Commits as they are stored: a bonsai changeset and what it is made of.

use vstd::prelude::*;
use vstd::utf8::*;

use crate::path::MPath;
use crate::sorted_map::{
    collected, has_key, lemma_collected_domain, lemma_collected_last, SortedMap,
};

verus! {

/// The hash that identifies a changeset.
#[derive(Clone, Copy, Debug)]
pub struct ChangesetId {
    pub hash: [u8; 32],
}

/// The hash that identifies the content of a file.
#[derive(Clone, Copy, Debug)]
pub struct ContentId {
    pub hash: [u8; 32],
}

/// What kind of file a path holds.
#[derive(Clone, Copy, Debug, PartialEq, Eq, Structural)]
pub enum FileType {
    Regular,
    Executable,
    Symlink,
}

/// A moment, with the offset of the zone in which it was noted.
#[derive(Clone, Copy, Debug, PartialEq, Eq, Structural)]
pub struct DateTime {
    pub timestamp_secs: i64,
    pub tz_offset_secs: i32,
}

/// A file as a directory listing shows it.
#[derive(Clone, Copy, Debug)]
pub struct FsnodeFile {
    pub content_id: ContentId,
    pub file_type: FileType,
    pub size: u64,
}

impl DeepView for FsnodeFile {
    type V = FsnodeFile;

    open spec fn deep_view(&self) -> FsnodeFile {
        *self
    }
}

/// What a changeset puts at a path, and where it was copied from, if anywhere.
#[derive(Debug)]
pub struct FileChange {
    pub content_id: ContentId,
    pub file_type: FileType,
    pub size: u64,
    pub copy_from: Option<(MPath, ChangesetId)>,
}

/// The model of a [`FileChange`].
pub struct FileChangeModel {
    pub content_id: ContentId,
    pub file_type: FileType,
    pub size: u64,
    pub copy_from: Option<(Seq<Seq<u8>>, ChangesetId)>,
}

impl DeepView for FileChange {
    type V = FileChangeModel;

    open spec fn deep_view(&self) -> FileChangeModel {
        FileChangeModel {
            content_id: self.content_id,
            file_type: self.file_type,
            size: self.size,
            copy_from: match self.copy_from {
                Some((path, changeset)) => Some((path@, changeset)),
                None => None,
            },
        }
    }
}

impl FileChange {
    pub fn new(
        content_id: ContentId,
        file_type: FileType,
        size: u64,
        copy_from: Option<(MPath, ChangesetId)>,
    ) -> (change: FileChange)
        ensures
            change == (FileChange { content_id, file_type, size, copy_from }),
    {
        FileChange { content_id, file_type, size, copy_from }
    }
}

/// A changeset that is still being put together.
#[derive(Debug)]
pub struct BonsaiChangesetMut {
    pub parents: Vec<ChangesetId>,
    pub author: String,
    pub author_date: DateTime,
    pub committer: Option<String>,
    pub committer_date: Option<DateTime>,
    pub message: String,
    pub extra: SortedMap<String, Vec<u8>>,
    pub file_changes: SortedMap<MPath, Option<FileChange>>,
}

/// A changeset on the given parents that holds the given changes, authored now and
/// without a committer.
pub fn create_bonsai_changeset(
    parents: Vec<ChangesetId>,
    file_changes: SortedMap<MPath, Option<FileChange>>,
    author: String,
    message: String,
    now: DateTime,
) -> (changeset: BonsaiChangesetMut)
    ensures
        changeset.parents == parents,
        changeset.author == author,
        changeset.author_date == now,
        changeset.committer is None,
        changeset.committer_date is None,
        changeset.message == message,
        changeset.extra.entries().len() == 0,
        changeset.file_changes == file_changes,
{
    BonsaiChangesetMut {
        parents,
        author,
        author_date: now,
        committer: None,
        committer_date: None,
        message,
        extra: SortedMap::new(),
        file_changes,
    }
}

/// A changeset as it is written down: its paths are still plain strings.
#[derive(Debug)]
pub struct DeserializableBonsaiChangeset {
    pub parents: Vec<ChangesetId>,
    pub author: String,
    pub author_date: DateTime,
    pub committer: Option<String>,
    pub committer_date: Option<DateTime>,
    pub message: String,
    pub extra: SortedMap<String, Vec<u8>>,
    pub file_changes: SortedMap<String, Option<FileChange>>,
}

/// `outcome` is what `parse` may return for the bytes of the string `name`.
pub open spec fn yields<E, F: Fn(&[u8]) -> Result<MPath, E>>(
    parse: F,
    name: Seq<char>,
    outcome: Result<MPath, E>,
) -> bool {
    exists|bytes: &[u8]|
        bytes@ == encode_utf8(name) && #[trigger] call_ensures(parse, (bytes,), outcome)
}

/// `parse` may return a path for the bytes of the string `name`.
pub open spec fn may_parse<E, F: Fn(&[u8]) -> Result<MPath, E>>(
    parse: F,
    name: Seq<char>,
) -> bool {
    exists|path: MPath| #[trigger] yields(parse, name, Ok::<MPath, E>(path))
}

/// The entries with the paths in place of the names.
pub open spec fn with_paths<B>(paths: Seq<Seq<Seq<u8>>>, entries: Seq<(Seq<char>, B)>) -> Seq<
    (Seq<Seq<u8>>, B),
> {
    Seq::new(entries.len(), |i: int| (paths[i], entries[i].1))
}

impl DeserializableBonsaiChangeset {
    /// `changeset` is this one with `paths` in place of its path strings: where two
    /// strings stand for one path, the change of the later string counts.
    pub open spec fn becomes(
        &self,
        paths: Seq<Seq<Seq<u8>>>,
        changeset: BonsaiChangesetMut,
    ) -> bool {
        &&& changeset.parents == self.parents
        &&& changeset.author == self.author
        &&& changeset.author_date == self.author_date
        &&& changeset.committer == self.committer
        &&& changeset.committer_date == self.committer_date
        &&& changeset.message == self.message
        &&& changeset.extra == self.extra
        &&& changeset.file_changes.map() == collected(
            with_paths(paths, self.file_changes.entries()),
        )
    }

    /// Puts the given paths in place of the path strings, in their order.
    pub fn replace_paths(self, paths: Vec<MPath>) -> (changeset: BonsaiChangesetMut)
        requires
            paths@.len() == self.file_changes.entries().len(),
        ensures
            changeset.parents == self.parents,
            changeset.author == self.author,
            changeset.author_date == self.author_date,
            changeset.committer == self.committer,
            changeset.committer_date == self.committer_date,
            changeset.message == self.message,
            changeset.extra == self.extra,
            self.becomes(paths.deep_view(), changeset),
    {
        let ghost entries = self.file_changes.entries();
        let ghost renamed = with_paths(paths.deep_view(), entries);
        let DeserializableBonsaiChangeset {
            parents,
            author,
            author_date,
            committer,
            committer_date,
            message,
            extra,
            file_changes: named,
        } = self;
        let (_, mut changes) = named.into_parts();
        let ghost all = changes@;
        let mut file_changes: SortedMap<MPath, Option<FileChange>> = SortedMap::new();
        let count: usize = changes.len();
        let mut taken: usize = 0;
        for path in remaining: paths
            invariant
                count == all.len(),
                taken == remaining.index(),
                remaining.seq() == paths@,
                all.len() == paths@.len(),
                renamed.len() == paths@.len(),
                changes@.len() == all.len(),
                forall|i: int| remaining.index() <= i < all.len() ==> changes@[i] == all[i],
                forall|i: int|
                    0 <= i < renamed.len() ==> #[trigger] renamed[i] == (
                        paths@[i]@,
                        all[i].deep_view(),
                    ),
                file_changes.map() == collected(renamed.take(remaining.index())),
        {
            let ghost n = remaining.index();
            assert(renamed.take(n + 1).drop_last() =~= renamed.take(n));
            assert(renamed.take(n + 1).last() == renamed[n]);
            let mut change: Option<FileChange> = None;
            std::mem::swap(&mut change, &mut changes[taken]);
            file_changes.insert(path, change);
            taken = taken + 1;
        }
        assert(renamed.take(renamed.len() as int) =~= renamed);
        BonsaiChangesetMut {
            parents,
            author,
            author_date,
            committer,
            committer_date,
            message,
            extra,
            file_changes,
        }
    }

    /// Parses the path strings, in their order, until one does not parse.
    fn parse_paths<E, F: Fn(&[u8]) -> Result<MPath, E>>(&self, parse: F) -> (parsed: Result<
        Vec<MPath>,
        E,
    >)
        requires
            forall|bytes: &[u8]| #[trigger] call_requires(parse, (bytes,)),
        ensures
            match parsed {
                Ok(paths) => self.parses_to(parse, paths@),
                Err(error) => self.fails_with(parse, error),
            },
    {
        let count: usize = self.file_changes.len();
        let mut paths: Vec<MPath> = Vec::new();
        let mut i: usize = 0;
        while i < count
            invariant
                forall|bytes: &[u8]| #[trigger] call_requires(parse, (bytes,)),
                count == self.file_changes.entries().len(),
                i <= count,
                paths@.len() == i,
                forall|j: int|
                    0 <= j < i ==> yields(
                        parse,
                        (#[trigger] self.file_changes.entries()[j]).0,
                        Ok::<MPath, E>(paths@[j]),
                    ),
            decreases count - i,
        {
            let bytes = self.file_changes.key_at(i).as_str().as_bytes();
            let ghost name = self.file_changes.entries()[i as int].0;
            assert(bytes@ == encode_utf8(name));
            match parse(bytes) {
                Ok(path) => {
                    assert(yields(parse, name, Ok::<MPath, E>(path)));
                    paths.push(path);
                },
                Err(error) => {
                    assert(yields(parse, name, Err::<MPath, E>(error)));
                    assert(self.fails_at(parse, i as int, error));
                    return Err(error);
                },
            }
            i = i + 1;
        }
        Ok(paths)
    }

    /// The path strings may parse to `paths`, each to the one at its position.
    pub open spec fn parses_to<E, F: Fn(&[u8]) -> Result<MPath, E>>(
        &self,
        parse: F,
        paths: Seq<MPath>,
    ) -> bool {
        let entries = self.file_changes.entries();
        &&& paths.len() == entries.len()
        &&& forall|i: int|
            0 <= i < entries.len() ==> yields(
                parse,
                (#[trigger] entries[i]).0,
                Ok::<MPath, E>(paths[i]),
            )
    }

    /// The path string at position `i` may fail with `error`, and those before it
    /// may parse.
    pub open spec fn fails_at<E, F: Fn(&[u8]) -> Result<MPath, E>>(
        &self,
        parse: F,
        i: int,
        error: E,
    ) -> bool {
        let entries = self.file_changes.entries();
        &&& 0 <= i < entries.len()
        &&& yields(parse, entries[i].0, Err::<MPath, E>(error))
        &&& forall|j: int| 0 <= j < i ==> may_parse(parse, (#[trigger] entries[j]).0)
    }

    /// `error` may be that of the first path string, in their order, that does not
    /// parse.
    pub open spec fn fails_with<E, F: Fn(&[u8]) -> Result<MPath, E>>(
        &self,
        parse: F,
        error: E,
    ) -> bool {
        exists|i: int| #[trigger] self.fails_at(parse, i, error)
    }

    /// `changeset` is this one with paths in place of its path strings to which these
    /// may parse.
    pub open spec fn converts_to<E, F: Fn(&[u8]) -> Result<MPath, E>>(
        &self,
        parse: F,
        changeset: BonsaiChangesetMut,
    ) -> bool {
        exists|paths: Vec<MPath>| #[trigger]
            self.parses_to(parse, paths@) && self.becomes(paths.deep_view(), changeset)
    }

    /// The changeset with its path strings parsed: the error of the first string, in
    /// their order, that does not parse, or the changeset that the paths make.
    /// `parse` is handed the bytes of each string.
    pub fn into_bonsai<E, F: Fn(&[u8]) -> Result<MPath, E>>(self, parse: F) -> (result: Result<
        BonsaiChangesetMut,
        E,
    >)
        requires
            forall|bytes: &[u8]| #[trigger] call_requires(parse, (bytes,)),
        ensures
            match result {
                Ok(changeset) => {
                    &&& changeset.parents == self.parents
                    &&& changeset.author == self.author
                    &&& changeset.author_date == self.author_date
                    &&& changeset.committer == self.committer
                    &&& changeset.committer_date == self.committer_date
                    &&& changeset.message == self.message
                    &&& changeset.extra == self.extra
                    &&& self.converts_to(parse, changeset)
                },
                Err(error) => self.fails_with(parse, error),
            },
    {
        match self.parse_paths(parse) {
            Ok(paths) => Ok(self.replace_paths(paths)),
            Err(error) => Err(error),
        }
    }
}

/// For one string `parse` can return one outcome only.
pub open spec fn is_deterministic<E, F: Fn(&[u8]) -> Result<MPath, E>>(parse: F) -> bool {
    forall|name: Seq<char>, one: Result<MPath, E>, other: Result<MPath, E>|
        #[trigger] yields(parse, name, one) && #[trigger] yields(parse, name, other) ==> one
            == other
}

/// With a parser that returns one outcome for one string, a written changeset either
/// converts or fails: it never could do both, and it cannot fail in two ways.
pub proof fn a_changeset_converts_or_fails<E, F: Fn(&[u8]) -> Result<MPath, E>>(
    written: DeserializableBonsaiChangeset,
    parse: F,
)
    requires
        is_deterministic::<E, F>(parse),
    ensures
        forall|changeset: BonsaiChangesetMut, error: E|
            #[trigger] written.converts_to::<E, F>(parse, changeset) ==> !#[trigger] written.fails_with(
                parse,
                error,
            ),
        forall|one: E, other: E|
            #[trigger] written.fails_with(parse, one) && #[trigger] written.fails_with(
                parse,
                other,
            ) ==> one == other,
{
    let entries = written.file_changes.entries();
    assert forall|changeset: BonsaiChangesetMut, error: E| #[trigger]
        written.converts_to::<E, F>(parse, changeset) implies !#[trigger] written.fails_with(
        parse,
        error,
    ) by {
        let paths = choose|paths: Vec<MPath>| #[trigger]
            written.parses_to::<E, F>(parse, paths@) && written.becomes(
                paths.deep_view(),
                changeset,
            );
        if written.fails_with(parse, error) {
            let i = choose|i: int| #[trigger] written.fails_at(parse, i, error);
            assert(yields(parse, entries[i].0, Ok::<MPath, E>(paths@[i])));
        }
    }
    assert forall|one: E, other: E| #[trigger]
        written.fails_with(parse, one) && #[trigger] written.fails_with(parse, other) implies one
        == other by {
        let i = choose|i: int| #[trigger] written.fails_at(parse, i, one);
        let j = choose|j: int| #[trigger] written.fails_at(parse, j, other);
        if i < j {
            assert(may_parse::<E, F>(parse, entries[i].0));
        }
        if j < i {
            assert(may_parse::<E, F>(parse, entries[j].0));
        }
    }
}

/// A converted changeset changes exactly the paths that its strings stand for. Of the
/// strings that stand for one path, the last one says what becomes of it.
pub proof fn the_last_string_for_a_path_counts(
    written: DeserializableBonsaiChangeset,
    paths: Seq<Seq<Seq<u8>>>,
    changeset: BonsaiChangesetMut,
)
    requires
        paths.len() == written.file_changes.entries().len(),
        written.becomes(paths, changeset),
    ensures
        forall|path: Seq<Seq<u8>>| #[trigger]
            changeset.file_changes.map().contains_key(path) <==> paths.contains(path),
        forall|i: int|
            0 <= i < paths.len() && (forall|j: int| i < j < paths.len() ==> paths[j] != paths[i])
                ==> changeset.file_changes.map()[#[trigger] paths[i]]
                == written.file_changes.entries()[i].1,
{
    let renamed = with_paths(paths, written.file_changes.entries());
    assert forall|path: Seq<Seq<u8>>| #[trigger]
        changeset.file_changes.map().contains_key(path) <==> paths.contains(path) by {
        lemma_collected_domain(renamed, path);
        if has_key(renamed, path) {
            let i = choose|i: int| 0 <= i < renamed.len() && (#[trigger] renamed[i]).0 == path;
            assert(paths[i] == path);
        }
        if paths.contains(path) {
            let i = choose|i: int| 0 <= i < paths.len() && paths[i] == path;
            assert(renamed[i].0 == path);
        }
    }
    assert forall|i: int|
        0 <= i < paths.len() && (forall|j: int|
            i < j < paths.len() ==> paths[j] != paths[i]) implies changeset.file_changes.map()[
    #[trigger] paths[i]] == written.file_changes.entries()[i].1 by {
        assert(renamed[i] == (paths[i], written.file_changes.entries()[i].1));
        lemma_collected_last(renamed, i);
    }
}

/// A converted changeset keeps what was written of the commit besides its files.
pub proof fn a_converted_changeset_keeps_its_metadata<E, F: Fn(&[u8]) -> Result<MPath, E>>(
    written: DeserializableBonsaiChangeset,
    parse: F,
    changeset: BonsaiChangesetMut,
)
    requires
        written.converts_to::<E, F>(parse, changeset),
    ensures
        changeset.parents@ == written.parents@,
        changeset.author@ == written.author@,
        changeset.author_date == written.author_date,
        changeset.committer == written.committer,
        changeset.committer_date == written.committer_date,
        changeset.message@ == written.message@,
        changeset.extra.entries() == written.extra.entries(),
{
}

/// A converted changeset comes of a path for each string, one that `parse` may return
/// for the bytes of that string. It changes those paths and no others, each as the last
/// of the strings that stand for it says.
pub proof fn a_converted_changeset_changes_what_was_written<
    'a,
    E,
    F: Fn(&[u8]) -> Result<MPath, E>,
>(written: DeserializableBonsaiChangeset, parse: F, changeset: BonsaiChangesetMut) -> (parsed: Seq<
    (&'a [u8], MPath),
>)
    requires
        written.converts_to::<E, F>(parse, changeset),
    ensures
        parsed.len() == written.file_changes.entries().len(),
        forall|i: int|
            0 <= i < parsed.len() ==> (#[trigger] parsed[i]).0@ == encode_utf8(
                written.file_changes.entries()[i].0,
            ) && call_ensures(parse, (parsed[i].0,), Ok::<MPath, E>(parsed[i].1)),
        forall|path: Seq<Seq<u8>>| #[trigger]
            changeset.file_changes.map().contains_key(path) <==> exists|i: int|
                0 <= i < parsed.len() && (#[trigger] parsed[i]).1@ == path,
        forall|i: int|
            0 <= i < parsed.len() && (forall|j: int|
                i < j < parsed.len() ==> (#[trigger] parsed[j]).1@ != parsed[i].1@)
                ==> changeset.file_changes.map()[(#[trigger] parsed[i]).1@]
                == written.file_changes.entries()[i].1,
{
    let paths = choose|paths: Vec<MPath>| #[trigger]
        written.parses_to::<E, F>(parse, paths@) && written.becomes(
            paths.deep_view(),
            changeset,
        );
    let entries = written.file_changes.entries();
    let models = paths.deep_view();
    let parsed = Seq::new(
        entries.len(),
        |i: int|
            (
                choose|bytes: &'a [u8]|
                    bytes@ == encode_utf8(entries[i].0) && #[trigger] call_ensures(
                        parse,
                        (bytes,),
                        Ok::<MPath, E>(paths@[i]),
                    ),
                paths@[i],
            ),
    );
    assert forall|i: int| 0 <= i < parsed.len() implies (#[trigger] parsed[i]).0@ == encode_utf8(
        entries[i].0,
    ) && call_ensures(parse, (parsed[i].0,), Ok::<MPath, E>(parsed[i].1)) by {
        assert(yields(parse, entries[i].0, Ok::<MPath, E>(paths@[i])));
    }
    the_last_string_for_a_path_counts(written, models, changeset);
    assert forall|path: Seq<Seq<u8>>| #[trigger]
        changeset.file_changes.map().contains_key(path) <==> exists|i: int|
            0 <= i < parsed.len() && (#[trigger] parsed[i]).1@ == path by {
        if models.contains(path) {
            let i = choose|i: int| 0 <= i < models.len() && models[i] == path;
            assert(parsed[i].1@ == path);
        }
        if exists|i: int| 0 <= i < parsed.len() && (#[trigger] parsed[i]).1@ == path {
            let i = choose|i: int| 0 <= i < parsed.len() && (#[trigger] parsed[i]).1@ == path;
            assert(models[i] == path);
        }
    }
    assert forall|i: int|
        0 <= i < parsed.len() && (forall|j: int|
            i < j < parsed.len() ==> (#[trigger] parsed[j]).1@
                != parsed[i].1@) implies changeset.file_changes.map()[(#[trigger] parsed[i]).1@]
        == entries[i].1 by {
        assert(models[i] == parsed[i].1@);
        assert forall|j: int| i < j < models.len() implies models[j] != models[i] by {
            assert(models[j] == parsed[j].1@);
        }
    }
    parsed
}

/// A conversion that fails has come to a string for whose bytes `parse` may return the
/// error, and each string before it is one for whose bytes it may return a path.
pub proof fn a_failed_conversion_names_its_string<'a, E, F: Fn(&[u8]) -> Result<MPath, E>>(
    written: DeserializableBonsaiChangeset,
    parse: F,
    error: E,
) -> (parsed: Seq<(&'a [u8], Result<MPath, E>)>)
    requires
        written.fails_with(parse, error),
    ensures
        0 < parsed.len() <= written.file_changes.entries().len(),
        forall|i: int|
            0 <= i < parsed.len() ==> (#[trigger] parsed[i]).0@ == encode_utf8(
                written.file_changes.entries()[i].0,
            ) && call_ensures(parse, (parsed[i].0,), parsed[i].1),
        forall|i: int| 0 <= i < parsed.len() - 1 ==> (#[trigger] parsed[i]).1 is Ok,
        parsed.last().1 == Err::<MPath, E>(error),
{
    let entries = written.file_changes.entries();
    let n = choose|n: int| #[trigger] written.fails_at(parse, n, error);
    let outcomes = Seq::new(
        (n + 1) as nat,
        |i: int|
            if i == n {
                Err::<MPath, E>(error)
            } else {
                Ok(choose|path: MPath| #[trigger] yields(parse, entries[i].0, Ok::<MPath, E>(path)))
            },
    );
    let parsed = Seq::new(
        (n + 1) as nat,
        |i: int|
            (
                choose|bytes: &'a [u8]|
                    bytes@ == encode_utf8(entries[i].0) && #[trigger] call_ensures(
                        parse,
                        (bytes,),
                        outcomes[i],
                    ),
                outcomes[i],
            ),
    );
    assert forall|i: int| 0 <= i < parsed.len() implies (#[trigger] parsed[i]).0@ == encode_utf8(
        entries[i].0,
    ) && call_ensures(parse, (parsed[i].0,), parsed[i].1) by {
        if i < n {
            assert(may_parse::<E, F>(parse, entries[i].0));
        }
        assert(yields(parse, entries[i].0, outcomes[i]));
    }
    parsed
}

/// The model of a change says what the change says, and a listed file is its own model.
pub proof fn a_change_is_modelled_as_it_is(change: FileChange, file: FsnodeFile)
    ensures
        file.deep_view() == file,
        change.deep_view().content_id == change.content_id,
        change.deep_view().file_type == change.file_type,
        change.deep_view().size == change.size,
        match change.copy_from {
            Some((path, changeset)) => change.deep_view().copy_from == Some((path@, changeset)),
            None => change.deep_view().copy_from is None,
        },
{
}

/// A string may parse exactly when `parse` may return a path for its bytes, and what a
/// string yields is what `parse` may return for its bytes.
pub proof fn what_a_string_yields_comes_of_its_bytes<E, F: Fn(&[u8]) -> Result<MPath, E>>(
    parse: F,
    name: Seq<char>,
    outcome: Result<MPath, E>,
)
    ensures
        yields(parse, name, outcome) <==> exists|bytes: &[u8]|
            bytes@ == encode_utf8(name) && #[trigger] call_ensures(parse, (bytes,), outcome),
        may_parse::<E, F>(parse, name) <==> exists|bytes: &[u8], path: MPath|
            bytes@ == encode_utf8(name) && #[trigger] call_ensures(
                parse,
                (bytes,),
                Ok::<MPath, E>(path),
            ),
{
    if may_parse::<E, F>(parse, name) {
        let path = choose|path: MPath| #[trigger] yields(parse, name, Ok::<MPath, E>(path));
        assert(yields(parse, name, Ok::<MPath, E>(path)));
    }
    if exists|bytes: &[u8], path: MPath|
        bytes@ == encode_utf8(name) && #[trigger] call_ensures(
            parse,
            (bytes,),
            Ok::<MPath, E>(path),
        ) {
        let (bytes, path) = choose|bytes: &[u8], path: MPath|
            bytes@ == encode_utf8(name) && #[trigger] call_ensures(
                parse,
                (bytes,),
                Ok::<MPath, E>(path),
            );
        assert(yields(parse, name, Ok::<MPath, E>(path)));
    }
}

} // verus!
