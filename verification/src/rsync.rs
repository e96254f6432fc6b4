//! Copying what is missing from one directory to another, in one commit.

use vstd::prelude::*;

use crate::bonsai::{
    create_bonsai_changeset, BonsaiChangesetMut, ChangesetId, DateTime, FileChange,
    FileChangeModel, FsnodeFile,
};
use crate::exclude::{regex_matches, ExcludeRegex};
use crate::nonzero::NonZeroU64;
use crate::order::{lemma_path_strict_total, path_order};
use crate::path::{join_is_injective, slash_joined, utf8_lossy, MPath};
use crate::sorted_map::{
    ascending, collected, has_key, lemma_collected_domain, lemma_collected_last, SortedMap,
};

verus! {

/// How much one commit may copy.
#[derive(Clone, Copy, Debug)]
pub struct Limits {
    /// The number of files after which the copy stops.
    pub file_num_limit: Option<NonZeroU64>,
    /// The total size that, once exceeded, stops the copy.
    pub total_size_limit: Option<NonZeroU64>,
    /// The size above which a file does not count towards the total size.
    pub lfs_threshold: Option<NonZeroU64>,
}

impl Default for Limits {
    /// No limit at all.
    fn default() -> (limits: Limits)
        ensures
            limits.file_num_limit is None,
            limits.total_size_limit is None,
            limits.lfs_threshold is None,
    {
        Limits { file_num_limit: None, total_size_limit: None, lfs_threshold: None }
    }
}

/// A file and its path relative to the directory that was listed.
pub type FileEntry = (Seq<Seq<u8>>, FsnodeFile);

impl Limits {
    /// What a file counts towards the total size.
    pub open spec fn counted_size(&self, file: FsnodeFile) -> nat {
        match self.lfs_threshold {
            Some(threshold) if file.size > threshold.value() => 0,
            _ => file.size as nat,
        }
    }

    /// Whether a file of this size counts towards the total size.
    pub fn counts(&self, size: u64) -> (counts: bool)
        ensures
            counts == match self.lfs_threshold {
                Some(threshold) => size <= threshold.value(),
                None => true,
            },
    {
        match self.lfs_threshold {
            Some(threshold) => size <= threshold.get(),
            None => true,
        }
    }

    /// What the files count towards the total size together.
    pub open spec fn total_size(&self, files: Seq<FileEntry>) -> nat
        decreases files.len(),
    {
        if files.len() == 0 {
            0
        } else {
            self.total_size(files.drop_last()) + self.counted_size(files.last().1)
        }
    }

    /// With these files copied, no further one is.
    pub open spec fn stops_after(&self, files: Seq<FileEntry>) -> bool {
        ||| self.file_num_limit matches Some(limit) && files.len() >= limit.value()
        ||| self.total_size_limit matches Some(limit) && self.total_size(files) > limit.value()
    }

    /// The least number from `n` on, and not zero, of files from the front after which
    /// the copy stops, or the number of all files.
    pub open spec fn cut(&self, files: Seq<FileEntry>, n: int) -> int
        decreases files.len() - n,
    {
        if n >= files.len() {
            files.len() as int
        } else if n > 0 && self.stops_after(files.take(n)) {
            n
        } else {
            self.cut(files, n + 1)
        }
    }

    /// The files that are copied when `files` are to be.
    pub open spec fn picked(&self, files: Seq<FileEntry>) -> Seq<FileEntry> {
        files.take(self.cut(files, 0))
    }
}

/// Nothing excludes the path, and it is not among those already there.
pub open spec fn wanted(
    exclude: Option<&ExcludeRegex>,
    present: Seq<FileEntry>,
) -> spec_fn(FileEntry) -> bool {
    |file: FileEntry|
        {
            &&& exclude matches Some(regex) ==> !regex.covers(file.0)
            &&& !has_key(present, file.0)
        }
}

/// The files that are to be copied, in the order of their paths.
pub open spec fn missing(
    exclude: Option<&ExcludeRegex>,
    source: Seq<FileEntry>,
    present: Seq<FileEntry>,
) -> Seq<FileEntry> {
    source.filter(wanted(exclude, present))
}

/// Where the file goes, and the change that copies it there.
pub open spec fn copied(
    changeset: ChangesetId,
    from_dir: Seq<Seq<u8>>,
    to_dir: Seq<Seq<u8>>,
    file: FileEntry,
) -> (Seq<Seq<u8>>, Option<FileChangeModel>) {
    (
        to_dir + file.0,
        Some(
            FileChangeModel {
                content_id: file.1.content_id,
                file_type: file.1.file_type,
                size: file.1.size,
                copy_from: Some((from_dir + file.0, changeset)),
            },
        ),
    )
}

/// The changes that copy the files.
pub open spec fn copies(
    changeset: ChangesetId,
    from_dir: Seq<Seq<u8>>,
    to_dir: Seq<Seq<u8>>,
    files: Seq<FileEntry>,
) -> Seq<(Seq<Seq<u8>>, Option<FileChangeModel>)> {
    Seq::new(files.len(), |i: int| copied(changeset, from_dir, to_dir, files[i]))
}

/// Where the first files after which the copy stops are `n`, `n` is the cut.
proof fn lemma_cut(limits: Limits, files: Seq<FileEntry>, n: int, from: int)
    requires
        0 <= from <= n <= files.len(),
        forall|m: int|
            0 < m < n ==> !limits.stops_after(#[trigger] files.take(m)),
        n == files.len() || (n > 0 && limits.stops_after(files.take(n))),
    ensures
        limits.cut(files, from) == n,
    decreases n - from,
{
    if from < n {
        assert(!(from > 0 && limits.stops_after(files.take(from))));
        lemma_cut(limits, files, n, from + 1);
    }
}

/// What is kept of the front is the front of what is kept.
proof fn lemma_filter_prefix(entries: Seq<FileEntry>, keep: spec_fn(FileEntry) -> bool, n: int)
    requires
        0 <= n <= entries.len(),
    ensures
        entries.take(n).filter(keep).len() <= entries.filter(keep).len(),
        entries.take(n).filter(keep) == entries.filter(keep).take(
            entries.take(n).filter(keep).len() as int,
        ),
        n == 0 ==> entries.take(n).filter(keep).len() == 0,
        n == entries.len() ==> entries.take(n).filter(keep) == entries.filter(keep),
{
    let front = entries.take(n);
    let back = entries.skip(n);
    assert(entries =~= front + back);
    Seq::filter_distributes_over_add(front, back, keep);
    assert(front.filter(keep) =~= entries.filter(keep).take(front.filter(keep).len() as int));
    if n == 0 {
        front.lemma_filter_len(keep);
    }
    if n == entries.len() {
        assert(front =~= entries);
    }
}

/// One more entry is kept or not.
proof fn lemma_filter_step(entries: Seq<FileEntry>, keep: spec_fn(FileEntry) -> bool, n: int)
    requires
        0 <= n < entries.len(),
    ensures
        entries.take(n + 1).filter(keep) == if keep(entries[n]) {
            entries.take(n).filter(keep).push(entries[n])
        } else {
            entries.take(n).filter(keep)
        },
{
    reveal(Seq::filter);
    assert(entries.take(n + 1).drop_last() =~= entries.take(n));
}

/// The copy of an entry goes where none of the copies of earlier entries went.
proof fn lemma_not_copied_yet(
    changeset: ChangesetId,
    from_dir: Seq<Seq<u8>>,
    to_dir: Seq<Seq<u8>>,
    entries: Seq<FileEntry>,
    keep: spec_fn(FileEntry) -> bool,
    n: int,
)
    requires
        0 <= n < entries.len(),
        ascending(path_order(), entries),
    ensures
        !collected(
            copies(changeset, from_dir, to_dir, entries.take(n).filter(keep)),
        ).contains_key(to_dir + entries[n].0),
{
    let front = entries.take(n);
    let kept = front.filter(keep);
    let made = copies(changeset, from_dir, to_dir, kept);
    let key = to_dir + entries[n].0;
    lemma_collected_domain(made, key);
    if has_key(made, key) {
        let k = choose|k: int| 0 <= k < made.len() && (#[trigger] made[k]).0 == key;
        assert(made[k].0 == to_dir + kept[k].0);
        join_is_injective(to_dir, kept[k].0, entries[n].0);
        assert(kept.contains(kept[k]));
        front.lemma_filter_contains_rev(keep, kept[k]);
        let j = choose|j: int| 0 <= j < front.len() && front[j] == kept[k];
        assert(entries[j] == front[j]);
        lemma_path_strict_total();
        let lt = path_order();
        assert(lt(entries[j].0, entries[n].0));
    }
}

/// Why there is no commit.
#[derive(Clone, Copy, Debug, PartialEq, Eq, Structural)]
pub enum RsyncError {
    FromDirectoryMissing,
    NothingToMove,
}

impl RsyncError {
    /// What the user is told.
    pub fn message(&self) -> (message: &'static str)
        ensures
            message@ == match *self {
                RsyncError::FromDirectoryMissing => "from directory does not exist!"@,
                RsyncError::NothingToMove => "nothing to move!"@,
            },
    {
        match self {
            RsyncError::FromDirectoryMissing => "from directory does not exist!",
            RsyncError::NothingToMove => "nothing to move!",
        }
    }
}

/// The changes that copy what is missing, within the limits.
pub fn file_changes(
    changeset: ChangesetId,
    from_dir: &MPath,
    to_dir: &MPath,
    limits: Limits,
    exclude: Option<&ExcludeRegex>,
    source: &SortedMap<MPath, FsnodeFile>,
    present: &SortedMap<MPath, FsnodeFile>,
) -> (changes: SortedMap<MPath, Option<FileChange>>)
    ensures
        ({
            let picked = limits.picked(missing(exclude, source.entries(), present.entries()));
            &&& changes.map() == collected(copies(changeset, from_dir@, to_dir@, picked))
            &&& changes.entries().len() == picked.len()
        }),
{
    let ghost entries = source.entries();
    let ghost there = present.entries();
    let ghost keep = wanted(exclude, there);
    let ghost all = missing(exclude, entries, there);
    let ghost mut picked: Seq<FileEntry> = Seq::empty();
    let mut changes: SortedMap<MPath, Option<FileChange>> = SortedMap::new();
    let mut total: u128 = 0;
    let count: usize = source.len();
    let mut i: usize = 0;
    proof {
        assert(copies(changeset, from_dir@, to_dir@, picked) =~= Seq::empty());
        lemma_filter_prefix(entries, keep, 0);
    }
    while i < count
        invariant_except_break
            picked == entries.take(i as int).filter(keep),
            i == count ==> picked == all,
            forall|m: int| 0 < m <= picked.len() ==> !limits.stops_after(#[trigger] all.take(m)),
        invariant
            entries == source.entries(),
            there == present.entries(),
            keep == wanted(exclude, there),
            all == entries.filter(keep),
            ascending(path_order(), entries),
            count == entries.len(),
            i <= count,
            changes.map() == collected(copies(changeset, from_dir@, to_dir@, picked)),
            changes.entries().len() == picked.len(),
            picked.len() <= all.len(),
            picked == all.take(picked.len() as int),
            total == limits.total_size(picked),
            total <= i * u64::MAX,
            forall|m: int| 0 < m < picked.len() ==> !limits.stops_after(#[trigger] all.take(m)),
        ensures
            picked.len() == all.len() || (picked.len() > 0 && limits.stops_after(picked)),
        decreases count - i,
    {
        let suffix = source.key_at(i);
        let file = *source.value_at(i);
        let ghost entry = entries[i as int];
        proof {
            lemma_filter_prefix(entries, keep, i + 1);
            lemma_filter_step(entries, keep, i as int);
        }
        i = i + 1;
        if let Some(regex) = exclude {
            if suffix.matches_regex(regex) {
                continue;
            }
        }
        if present.contains_key(suffix) {
            continue;
        }
        assert(keep(entry));
        let from_path = from_dir.join(suffix);
        let to_path = to_dir.join(suffix);
        let change = FileChange::new(
            file.content_id,
            file.file_type,
            file.size,
            Some((from_path, changeset)),
        );
        proof {
            lemma_not_copied_yet(changeset, from_dir@, to_dir@, entries, keep, i - 1);
            let more = picked.push(entry);
            assert(copies(changeset, from_dir@, to_dir@, more).drop_last() =~= copies(
                changeset,
                from_dir@,
                to_dir@,
                picked,
            ));
            assert(more.drop_last() =~= picked);
            picked = more;
        }
        changes.insert(to_path, Some(change));
        if limits.counts(file.size) {
            total = total + file.size as u128;
        }
        if let Some(limit) = limits.file_num_limit {
            if changes.len() as u64 >= limit.get() {
                break;
            }
        }
        if let Some(limit) = limits.total_size_limit {
            if total > limit.get() as u128 {
                break;
            }
        }
    }
    proof {
        assert(all.take(all.len() as int) =~= all);
        lemma_cut(limits, all, picked.len() as int, 0);
    }
    changes
}

/// The files of a listing; a directory that does not exist holds none.
pub open spec fn listed(listing: Option<SortedMap<MPath, FsnodeFile>>) -> Seq<FileEntry> {
    match listing {
        Some(files) => files.entries(),
        None => Seq::empty(),
    }
}

/// The commit on top of `cs_id` that copies what is missing from `from_dir` to
/// `to_dir`, within the limits. `from_entries` and `to_entries` list the two
/// directories in `cs_id`, where they exist.
pub fn rsync(
    cs_id: ChangesetId,
    from_dir: &MPath,
    to_dir: &MPath,
    author: String,
    msg: String,
    limits: Limits,
    maybe_exclude_file_regex: Option<&ExcludeRegex>,
    from_entries: Option<SortedMap<MPath, FsnodeFile>>,
    to_entries: Option<SortedMap<MPath, FsnodeFile>>,
    now: DateTime,
) -> (result: Result<BonsaiChangesetMut, RsyncError>)
    ensures
        ({
            let files = missing(maybe_exclude_file_regex, listed(from_entries), listed(to_entries));
            match result {
                Err(RsyncError::FromDirectoryMissing) => from_entries is None,
                Err(RsyncError::NothingToMove) => from_entries is Some && files.len() == 0,
                Ok(commit) => {
                    &&& from_entries is Some
                    &&& files.len() > 0
                    &&& commit.parents@ == seq![cs_id]
                    &&& commit.author == author
                    &&& commit.author_date == now
                    &&& commit.committer is None
                    &&& commit.committer_date is None
                    &&& commit.message == msg
                    &&& commit.extra.entries().len() == 0
                    &&& commit.file_changes.map() == collected(
                        copies(cs_id, from_dir@, to_dir@, limits.picked(files)),
                    )
                },
            }
        }),
{
    let source = match from_entries {
        Some(files) => files,
        None => {
            return Err(RsyncError::FromDirectoryMissing);
        },
    };
    let present = match to_entries {
        Some(files) => files,
        None => SortedMap::new(),
    };
    let changes = file_changes(
        cs_id,
        from_dir,
        to_dir,
        limits,
        maybe_exclude_file_regex,
        &source,
        &present,
    );
    proof {
        assert(present.entries() =~= listed(to_entries));
        limits_are_kept(
            limits,
            missing(maybe_exclude_file_regex, listed(from_entries), listed(to_entries)),
        );
    }
    if changes.is_empty() {
        return Err(RsyncError::NothingToMove);
    }
    let mut parents: Vec<ChangesetId> = Vec::new();
    parents.push(cs_id);
    Ok(create_bonsai_changeset(parents, changes, author, msg, now))
}

/// The cut lies within the files, and past the first one where there is one.
proof fn lemma_cut_is_within(limits: Limits, files: Seq<FileEntry>, n: int)
    requires
        0 <= n <= files.len(),
        forall|m: int| 0 < m < n ==> !limits.stops_after(#[trigger] files.take(m)),
    ensures
        n <= limits.cut(files, n) <= files.len(),
        files.len() > 0 ==> limits.cut(files, n) > 0,
        limits.cut(files, n) < files.len() ==> limits.stops_after(
            files.take(limits.cut(files, n)),
        ),
        forall|m: int|
            0 < m < limits.cut(files, n) ==> !limits.stops_after(#[trigger] files.take(m)),
    decreases files.len() - n,
{
    if n < files.len() && !(n > 0 && limits.stops_after(files.take(n))) {
        lemma_cut_is_within(limits, files, n + 1);
    }
}

/// A commit copies files from the front of those to be copied, at least one where
/// there is one. It copies no more files than the limit on their number, and the
/// files before the last one it copies do not exceed the limit on the total size. It
/// leaves a file out only where a limit stopped it.
pub proof fn limits_are_kept(limits: Limits, files: Seq<FileEntry>)
    ensures
        ({
            let picked = limits.picked(files);
            &&& picked.len() <= files.len()
            &&& picked == files.take(picked.len() as int)
            &&& files.len() > 0 ==> picked.len() > 0
            &&& picked.len() < files.len() ==> limits.stops_after(picked)
            &&& limits.file_num_limit matches Some(limit) ==> limit.value() > 0 ==> picked.len()
                <= limit.value()
            &&& limits.total_size_limit matches Some(limit) ==> picked.len() > 0
                ==> limits.total_size(picked.drop_last()) <= limit.value()
        }),
{
    let picked = limits.picked(files);
    let n = limits.cut(files, 0);
    lemma_cut_is_within(limits, files, 0);
    assert(picked =~= files.take(picked.len() as int));
    if n > 1 {
        assert(picked.drop_last() =~= files.take(n - 1));
        assert(!limits.stops_after(files.take(n - 1)));
    }
}

/// Without limits every file that is to be copied is.
pub proof fn without_limits_everything_is_copied(limits: Limits, files: Seq<FileEntry>)
    requires
        limits.file_num_limit is None,
        limits.total_size_limit is None,
    ensures
        limits.picked(files) == files,
{
    limits_are_kept(limits, files);
    assert(limits.picked(files) =~= files);
}

/// `file` is in the listing of the source, is not excluded, is not there yet, and its
/// copy is what the changes put at `path`.
pub open spec fn is_copy_of(
    changeset: ChangesetId,
    from_dir: Seq<Seq<u8>>,
    to_dir: Seq<Seq<u8>>,
    exclude: Option<&ExcludeRegex>,
    source: Seq<FileEntry>,
    present: Seq<FileEntry>,
    path: Seq<Seq<u8>>,
    change: Option<FileChangeModel>,
    file: FileEntry,
) -> bool {
    &&& source.contains(file)
    &&& wanted(exclude, present)(file)
    &&& (path, change) == copied(changeset, from_dir, to_dir, file)
}

/// Every change of the commit copies a file of the source directory that is neither
/// excluded nor in the target directory yet, to the same path under the target
/// directory.
pub proof fn every_change_copies_a_missing_file(
    changeset: ChangesetId,
    from_dir: Seq<Seq<u8>>,
    to_dir: Seq<Seq<u8>>,
    limits: Limits,
    exclude: Option<&ExcludeRegex>,
    source: Seq<FileEntry>,
    present: Seq<FileEntry>,
    path: Seq<Seq<u8>>,
) -> (file: FileEntry)
    requires
        ascending(path_order(), source),
        collected(
            copies(changeset, from_dir, to_dir, limits.picked(missing(exclude, source, present))),
        ).contains_key(path),
    ensures
        is_copy_of(
            changeset,
            from_dir,
            to_dir,
            exclude,
            source,
            present,
            path,
            collected(
                copies(
                    changeset,
                    from_dir,
                    to_dir,
                    limits.picked(missing(exclude, source, present)),
                ),
            )[path],
            file,
        ),
{
    let keep = wanted(exclude, present);
    let files = missing(exclude, source, present);
    let picked = limits.picked(files);
    let made = copies(changeset, from_dir, to_dir, picked);
    limits_are_kept(limits, files);
    lemma_collected_domain(made, path);
    let i = choose|i: int| 0 <= i < made.len() && (#[trigger] made[i]).0 == path;
    let file = picked[i];
    lemma_copy_is_kept(changeset, from_dir, to_dir, limits, exclude, source, present, i);
    assert(files[i] == file);
    source.lemma_filter_pred(keep, i);
    assert(files.contains(files[i]));
    source.lemma_filter_contains_rev(keep, file);
    file
}

/// Entries with ascending keys keep them ascending where some are left out.
proof fn lemma_filter_ascends(entries: Seq<FileEntry>, keep: spec_fn(FileEntry) -> bool)
    requires
        ascending(path_order(), entries),
    ensures
        ascending(path_order(), entries.filter(keep)),
    decreases entries.len(),
{
    reveal(Seq::filter);
    if entries.len() > 0 {
        let front = entries.drop_last();
        let kept = front.filter(keep);
        lemma_filter_ascends(front, keep);
        let lt = path_order();
        let whole = entries.filter(keep);
        assert forall|i: int, j: int| 0 <= i < j < whole.len() implies lt(
            (#[trigger] whole[i]).0,
            (#[trigger] whole[j]).0,
        ) by {
            assert(whole[i] == kept[i]);
            if j < kept.len() {
                assert(whole[j] == kept[j]);
            } else {
                assert(kept.contains(kept[i]));
                front.lemma_filter_contains_rev(keep, kept[i]);
                let k = choose|k: int| 0 <= k < front.len() && front[k] == kept[i];
                assert(entries[k] == front[k]);
                assert(whole[j] == entries[entries.len() - 1]);
            }
        }
    }
}

/// The copy of every file that was picked is among the changes.
proof fn lemma_copy_is_kept(
    changeset: ChangesetId,
    from_dir: Seq<Seq<u8>>,
    to_dir: Seq<Seq<u8>>,
    limits: Limits,
    exclude: Option<&ExcludeRegex>,
    source: Seq<FileEntry>,
    present: Seq<FileEntry>,
    i: int,
)
    requires
        ascending(path_order(), source),
        0 <= i < limits.picked(missing(exclude, source, present)).len(),
    ensures
        ({
            let picked = limits.picked(missing(exclude, source, present));
            let made = copies(changeset, from_dir, to_dir, picked);
            &&& collected(made).contains_key(to_dir + picked[i].0)
            &&& collected(made)[to_dir + picked[i].0] == copied(
                changeset,
                from_dir,
                to_dir,
                picked[i],
            ).1
        }),
{
    let files = missing(exclude, source, present);
    let picked = limits.picked(files);
    let made = copies(changeset, from_dir, to_dir, picked);
    limits_are_kept(limits, files);
    lemma_filter_ascends(source, wanted(exclude, present));
    lemma_path_strict_total();
    let lt = path_order();
    assert forall|j: int| i < j < made.len() implies (#[trigger] made[j]).0 != made[i].0 by {
        assert(picked[i] == files[i] && picked[j] == files[j]);
        assert(lt(files[i].0, files[j].0));
        if made[j].0 == made[i].0 {
            join_is_injective(to_dir, files[j].0, files[i].0);
        }
    }
    lemma_collected_last(made, i);
}

/// Every file that was picked is copied: the commit puts at its path under the target
/// directory the content, type and size it has in the source directory, and notes
/// where it was copied from.
pub proof fn every_picked_file_is_copied(
    changeset: ChangesetId,
    from_dir: Seq<Seq<u8>>,
    to_dir: Seq<Seq<u8>>,
    limits: Limits,
    exclude: Option<&ExcludeRegex>,
    source: Seq<FileEntry>,
    present: Seq<FileEntry>,
    file: FileEntry,
)
    requires
        ascending(path_order(), source),
        limits.picked(missing(exclude, source, present)).contains(file),
    ensures
        ({
            let changes = collected(
                copies(
                    changeset,
                    from_dir,
                    to_dir,
                    limits.picked(missing(exclude, source, present)),
                ),
            );
            &&& changes.contains_key(to_dir + file.0)
            &&& changes[to_dir + file.0] == Some(
                FileChangeModel {
                    content_id: file.1.content_id,
                    file_type: file.1.file_type,
                    size: file.1.size,
                    copy_from: Some((from_dir + file.0, changeset)),
                },
            )
        }),
{
    let picked = limits.picked(missing(exclude, source, present));
    let i = choose|i: int| 0 <= i < picked.len() && picked[i] == file;
    lemma_copy_is_kept(changeset, from_dir, to_dir, limits, exclude, source, present, i);
}

/// No file that is in the target directory already is touched.
pub proof fn nothing_is_overwritten(
    changeset: ChangesetId,
    from_dir: Seq<Seq<u8>>,
    to_dir: Seq<Seq<u8>>,
    limits: Limits,
    exclude: Option<&ExcludeRegex>,
    source: Seq<FileEntry>,
    present: Seq<FileEntry>,
    path: Seq<Seq<u8>>,
)
    requires
        ascending(path_order(), source),
        has_key(present, path),
    ensures
        !collected(
            copies(changeset, from_dir, to_dir, limits.picked(missing(exclude, source, present))),
        ).contains_key(to_dir + path),
{
    if collected(
        copies(changeset, from_dir, to_dir, limits.picked(missing(exclude, source, present))),
    ).contains_key(to_dir + path) {
        let file = every_change_copies_a_missing_file(
            changeset,
            from_dir,
            to_dir,
            limits,
            exclude,
            source,
            present,
            to_dir + path,
        );
        join_is_injective(to_dir, path, file.0);
    }
}

/// Leaving entries out twice is leaving them out by either test.
proof fn lemma_filter_twice(
    entries: Seq<FileEntry>,
    p: spec_fn(FileEntry) -> bool,
    q: spec_fn(FileEntry) -> bool,
)
    ensures
        entries.filter(p).filter(q) == entries.filter(|file: FileEntry| p(file) && q(file)),
    decreases entries.len(),
{
    reveal(Seq::filter);
    if entries.len() > 0 {
        let front = entries.drop_last();
        lemma_filter_twice(front, p, q);
        if p(entries.last()) {
            assert(entries.filter(p).drop_last() =~= front.filter(p));
        }
    }
}

/// Where every entry passes the test, none is left out.
proof fn lemma_filter_all(entries: Seq<FileEntry>, keep: spec_fn(FileEntry) -> bool)
    requires
        forall|i: int| 0 <= i < entries.len() ==> keep(#[trigger] entries[i]),
    ensures
        entries.filter(keep) == entries,
    decreases entries.len(),
{
    reveal(Seq::filter);
    if entries.len() > 0 {
        let front = entries.drop_last();
        assert forall|i: int| 0 <= i < front.len() implies keep(#[trigger] front[i]) by {
            assert(front[i] == entries[i]);
        }
        lemma_filter_all(front, keep);
        assert(entries.last() == entries[entries.len() - 1]);
        assert(entries.filter(keep) =~= entries);
    }
}

/// Once the copies of one commit are in the target directory, what is still to be
/// copied is what that commit left, in the same order.
pub proof fn the_next_run_goes_on(
    limits: Limits,
    exclude: Option<&ExcludeRegex>,
    source: Seq<FileEntry>,
    present: Seq<FileEntry>,
    later: Seq<FileEntry>,
)
    requires
        ascending(path_order(), source),
        forall|path: Seq<Seq<u8>>| #[trigger]
            has_key(later, path) <==> has_key(present, path) || has_key(
                limits.picked(missing(exclude, source, present)),
                path,
            ),
    ensures
        missing(exclude, source, later) == missing(exclude, source, present).skip(
            limits.picked(missing(exclude, source, present)).len() as int,
        ),
{
    let files = missing(exclude, source, present);
    let picked = limits.picked(files);
    let n = picked.len() as int;
    let rest = files.skip(n);
    let keep = wanted(exclude, present);
    let fresh = |file: FileEntry| !has_key(picked, file.0);
    limits_are_kept(limits, files);
    lemma_filter_ascends(source, keep);
    lemma_path_strict_total();
    let lt = path_order();
    assert(wanted(exclude, later) =~= |file: FileEntry| keep(file) && fresh(file));
    lemma_filter_twice(source, keep, fresh);
    assert(files =~= picked + rest);
    Seq::filter_distributes_over_add(picked, rest, fresh);
    assert forall|i: int| 0 <= i < picked.len() implies !fresh(#[trigger] picked[i]) by {
        assert(has_key(picked, picked[i].0));
    }
    picked.lemma_all_neg_filter_empty(fresh);
    assert forall|i: int| 0 <= i < rest.len() implies fresh(#[trigger] rest[i]) by {
        if has_key(picked, rest[i].0) {
            let j = choose|j: int| 0 <= j < picked.len() && (#[trigger] picked[j]).0 == rest[i].0;
            assert(picked[j] == files[j] && rest[i] == files[n + i]);
            assert(lt(files[j].0, files[n + i].0));
        }
    }
    lemma_filter_all(rest, fresh);
    assert(missing(exclude, source, later) =~= rest);
}

/// What the commits copy, one after another, when the command is repeated until
/// nothing is left to move.
pub open spec fn rounds(limits: Limits, files: Seq<FileEntry>) -> Seq<Seq<FileEntry>>
    decreases files.len(),
{
    let picked = limits.picked(files);
    if picked.len() == 0 || picked.len() > files.len() {
        Seq::empty()
    } else {
        seq![picked] + rounds(limits, files.skip(picked.len() as int))
    }
}

/// Repeating the command until nothing is left to move copies every file that was to
/// be copied, once and in order.
pub proof fn repeated_runs_copy_everything(limits: Limits, files: Seq<FileEntry>)
    ensures
        rounds(limits, files).flatten() == files,
    decreases files.len(),
{
    let picked = limits.picked(files);
    limits_are_kept(limits, files);
    if files.len() == 0 {
        assert(files =~= Seq::empty());
    } else {
        let rest = files.skip(picked.len() as int);
        repeated_runs_copy_everything(limits, rest);
        let later = rounds(limits, rest);
        assert(rounds(limits, files).first() == picked);
        assert(rounds(limits, files).drop_first() =~= later);
        assert(rounds(limits, files).flatten() =~= picked + later.flatten());
        assert(files =~= picked + rest);
    }
}

/// With a limit of `n` on the number of files alone, the command has to be repeated as
/// often as `n` goes into the number of files, rounded up.
pub proof fn a_limit_of_files_sets_the_number_of_runs(limits: Limits, files: Seq<FileEntry>, n: int)
    requires
        limits.file_num_limit matches Some(limit) && limit.value() == n,
        n > 0,
        limits.total_size_limit is None,
    ensures
        rounds(limits, files).len() == (files.len() + n - 1) / n,
    decreases files.len(),
{
    let picked = limits.picked(files);
    limits_are_kept(limits, files);
    let count = files.len() as int;
    if count == 0 {
        assert((n - 1) / n == 0) by (nonlinear_arith)
            requires
                n > 0,
        ;
    } else if count <= n {
        let rest = files.skip(picked.len() as int);
        a_limit_of_files_sets_the_number_of_runs(limits, rest, n);
        assert((n - 1) / n == 0 && (count + n - 1) / n == 1) by (nonlinear_arith)
            requires
                0 < count <= n,
        ;
    } else {
        let rest = files.skip(picked.len() as int);
        a_limit_of_files_sets_the_number_of_runs(limits, rest, n);
        assert((count + n - 1) / n == (count - n + n - 1) / n + 1) by (nonlinear_arith)
            requires
                n > 0,
        ;
    }
}

/// The total size is a sum: what two lots of files count together is what the one and
/// what the other count. A file counts its size, unless it is above the threshold; then
/// it leaves the total as it is.
pub proof fn the_total_size_is_a_sum(
    limits: Limits,
    a: Seq<FileEntry>,
    b: Seq<FileEntry>,
    file: FileEntry,
)
    ensures
        limits.total_size(a + b) == limits.total_size(a) + limits.total_size(b),
        limits.total_size(a.push(file)) == limits.total_size(a) + (if (limits.lfs_threshold
            matches Some(threshold) && file.1.size > threshold.value()) {
            0
        } else {
            file.1.size as int
        }),
        limits.total_size(Seq::empty()) == 0,
    decreases b.len(),
{
    assert(a.push(file).drop_last() =~= a);
    if b.len() == 0 {
        assert(a + b =~= a);
    } else {
        assert((a + b).drop_last() =~= a + b.drop_last());
        the_total_size_is_a_sum(limits, a, b.drop_last(), file);
    }
}

/// Files are copied from the front. The first one is copied in any case; a later one
/// is copied exactly when the files before it are fewer than the limit on the number of
/// files and together do not exceed the limit on the total size.
pub proof fn a_file_is_copied_while_the_limits_last(limits: Limits, files: Seq<FileEntry>, k: int)
    requires
        0 <= k < files.len(),
    ensures
        limits.picked(files).is_prefix_of(files),
        k < limits.picked(files).len() <==> k == 0 || {
            &&& limits.file_num_limit matches Some(limit) ==> k < limit.value()
            &&& limits.total_size_limit matches Some(limit) ==> limits.total_size(files.take(k))
                <= limit.value()
        },
{
    let c = limits.cut(files, 0);
    lemma_cut_is_within(limits, files, 0);
    assert(limits.picked(files) =~= files.subrange(0, c));
    if 0 < k < c {
        assert(!limits.stops_after(files.take(k)));
    }
    if k >= c {
        let front = files.take(c);
        let more = files.subrange(c, k);
        assert(files.take(k) =~= front + more);
        the_total_size_is_a_sum(limits, front, more, files[0]);
    }
}

/// What is to be copied is every file of the source that the expression does not match
/// and whose path the target does not hold, whatever its content, type and size, and
/// nothing else.
pub proof fn exactly_the_missing_files_are_to_be_copied(
    exclude: Option<&ExcludeRegex>,
    source: Seq<FileEntry>,
    present: Seq<FileEntry>,
    file: FileEntry,
)
    ensures
        missing(exclude, source, present).contains(file) <==> {
            &&& source.contains(file)
            &&& exclude matches Some(regex) ==> !regex_matches(
                regex.pattern(),
                utf8_lossy(slash_joined(file.0)),
            )
            &&& forall|j: int| 0 <= j < present.len() ==> (#[trigger] present[j]).0 != file.0
        },
{
    let keep = wanted(exclude, present);
    if missing(exclude, source, present).contains(file) {
        let files = missing(exclude, source, present);
        let i = choose|i: int| 0 <= i < files.len() && files[i] == file;
        source.lemma_filter_contains_rev(keep, file);
        source.lemma_filter_pred(keep, i);
    } else if source.contains(file) && keep(file) {
        let i = choose|i: int| 0 <= i < source.len() && source[i] == file;
        source.lemma_filter_contains(keep, i);
    }
}

/// What is to be copied is copied in the order of the paths, each file once.
pub proof fn files_are_copied_in_the_order_of_their_paths(
    exclude: Option<&ExcludeRegex>,
    source: Seq<FileEntry>,
    present: Seq<FileEntry>,
    i: int,
    j: int,
)
    requires
        forall|a: int, b: int|
            0 <= a < b < source.len() ==> (path_order())(
                (#[trigger] source[a]).0,
                (#[trigger] source[b]).0,
            ),
        0 <= i < j < missing(exclude, source, present).len(),
    ensures
        (path_order())(
            missing(exclude, source, present)[i].0,
            missing(exclude, source, present)[j].0,
        ),
{
    lemma_filter_ascends(source, wanted(exclude, present));
}

/// Without limits the commit copies each file of the source that the expression does not
/// match and whose path the target does not hold, with its content, type and size, and
/// notes where it was copied from.
pub proof fn every_missing_file_is_copied_without_limits(
    changeset: ChangesetId,
    from_dir: Seq<Seq<u8>>,
    to_dir: Seq<Seq<u8>>,
    limits: Limits,
    exclude: Option<&ExcludeRegex>,
    source: Seq<FileEntry>,
    present: Seq<FileEntry>,
    i: int,
)
    requires
        ascending(path_order(), source),
        limits.file_num_limit is None,
        limits.total_size_limit is None,
        0 <= i < source.len(),
        exclude matches Some(regex) ==> !regex_matches(
            regex.pattern(),
            utf8_lossy(slash_joined(source[i].0)),
        ),
        forall|j: int| 0 <= j < present.len() ==> (#[trigger] present[j]).0 != source[i].0,
    ensures
        ({
            let changes = collected(
                copies(
                    changeset,
                    from_dir,
                    to_dir,
                    limits.picked(missing(exclude, source, present)),
                ),
            );
            &&& changes.contains_key(to_dir + source[i].0)
            &&& changes[to_dir + source[i].0] matches Some(change)
            &&& change.content_id == source[i].1.content_id
            &&& change.file_type == source[i].1.file_type
            &&& change.size == source[i].1.size
            &&& change.copy_from == Some((from_dir + source[i].0, changeset))
        }),
{
    let files = missing(exclude, source, present);
    exactly_the_missing_files_are_to_be_copied(exclude, source, present, source[i]);
    without_limits_everything_is_copied(limits, files);
    every_picked_file_is_copied(
        changeset,
        from_dir,
        to_dir,
        limits,
        exclude,
        source,
        present,
        source[i],
    );
}

/// Whatever the limits, the commit changes no path but those to which it copies a file
/// of the source that the expression does not match and whose path the target does not
/// hold, and no more paths than it was to copy.
pub proof fn nothing_but_missing_files_is_copied(
    changeset: ChangesetId,
    from_dir: Seq<Seq<u8>>,
    to_dir: Seq<Seq<u8>>,
    limits: Limits,
    exclude: Option<&ExcludeRegex>,
    source: Seq<FileEntry>,
    present: Seq<FileEntry>,
    path: Seq<Seq<u8>>,
) -> (k: int)
    requires
        ascending(path_order(), source),
        collected(
            copies(changeset, from_dir, to_dir, limits.picked(missing(exclude, source, present))),
        ).contains_key(path),
    ensures
        0 <= k < limits.picked(missing(exclude, source, present)).len(),
        path == to_dir + missing(exclude, source, present)[k].0,
        source.contains(missing(exclude, source, present)[k]),
        exclude matches Some(regex) ==> !regex_matches(
            regex.pattern(),
            utf8_lossy(slash_joined(missing(exclude, source, present)[k].0)),
        ),
        forall|j: int|
            0 <= j < present.len() ==> (#[trigger] present[j]).0 != missing(
                exclude,
                source,
                present,
            )[k].0,
{
    let files = missing(exclude, source, present);
    let picked = limits.picked(files);
    let made = copies(changeset, from_dir, to_dir, picked);
    limits_are_kept(limits, files);
    lemma_collected_domain(made, path);
    let k = choose|k: int| 0 <= k < made.len() && (#[trigger] made[k]).0 == path;
    assert(picked[k] == files[k]);
    assert(files.contains(files[k]));
    exactly_the_missing_files_are_to_be_copied(exclude, source, present, files[k]);
    k
}

/// A directory that exists holds what its listing does, and one that does not exist
/// holds nothing.
pub proof fn a_listing_holds_its_files(files: SortedMap<MPath, FsnodeFile>)
    ensures
        listed(Some(files)) == files.entries(),
        listed(None).len() == 0,
{
}

} // verus!
