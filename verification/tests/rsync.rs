use std::collections::BTreeMap;

use mononoke::bonsai::{
    BonsaiChangesetMut, ChangesetId, ContentId, DateTime, FileType, FsnodeFile,
};
use mononoke::exclude::ExcludeRegex;
use mononoke::listing::{find_directory, Entry};
use mononoke::nonzero::NonZeroU64;
use mononoke::path::MPath;
use mononoke::rsync::{file_changes, rsync, Limits, RsyncError};
use mononoke::rsync_options::compile_exclude;
use mononoke::sorted_map::SortedMap;

const NOW: DateTime = DateTime {
    timestamp_secs: 1_600_000_000,
    tz_offset_secs: 3600,
};

fn path(text: &str) -> MPath {
    MPath {
        elements: text.split('/').map(|e| e.as_bytes().to_vec()).collect(),
    }
}

fn csid(n: u8) -> ChangesetId {
    ChangesetId { hash: [n; 32] }
}

fn content_id(content: &str) -> ContentId {
    let mut hash = [0u8; 32];
    hash[..content.len()].copy_from_slice(content.as_bytes());
    ContentId { hash }
}

/// The files of a commit, by path.
type WorkingCopy = BTreeMap<String, String>;

fn working_copy(files: &[(&str, &str)]) -> WorkingCopy {
    files
        .iter()
        .map(|(path, content)| (path.to_string(), content.to_string()))
        .collect()
}

fn list_directory(files: &WorkingCopy, dir: &str) -> Option<SortedMap<MPath, FsnodeFile>> {
    let prefix = format!("{}/", dir);
    let leaves: Vec<(MPath, FsnodeFile)> = files
        .iter()
        .filter(|(name, _)| name.starts_with(&prefix))
        .map(|(name, content)| {
            (
                path(&name[prefix.len()..]),
                FsnodeFile {
                    content_id: content_id(content),
                    file_type: FileType::Regular,
                    size: content.len() as u64,
                },
            )
        })
        .collect();
    let entries: Vec<Entry<Vec<(MPath, FsnodeFile)>, ()>> = if leaves.is_empty() {
        vec![]
    } else {
        vec![Entry::Tree(leaves)]
    };
    find_directory(&path(dir), entries)
        .unwrap()
        .map(SortedMap::collect)
}

fn run(
    parent: u8,
    files: &WorkingCopy,
    limits: Limits,
    exclude: Option<&ExcludeRegex>,
) -> Result<BonsaiChangesetMut, RsyncError> {
    rsync(
        csid(parent),
        &path("dir_from"),
        &path("dir_to"),
        "author".to_string(),
        "msg".to_string(),
        limits,
        exclude,
        list_directory(files, "dir_from"),
        list_directory(files, "dir_to"),
        NOW,
    )
}

/// The files after the commit. Every change has to copy a file of its parent as it is.
fn apply(parent: u8, files: &WorkingCopy, commit: &BonsaiChangesetMut) -> WorkingCopy {
    let mut after = files.clone();
    for i in 0..commit.file_changes.len() {
        let to = commit.file_changes.key_at(i).text();
        let change = commit.file_changes.value_at(i).as_ref().unwrap();
        let (from, changeset) = change.copy_from.as_ref().unwrap();
        assert_eq!(changeset.hash, [parent; 32]);
        let content = &files[&from.text()];
        assert_eq!(change.content_id.hash, content_id(content).hash);
        assert_eq!(change.size, content.len() as u64);
        assert_eq!(change.file_type, FileType::Regular);
        after.insert(to, content.clone());
    }
    after
}

#[test]
fn test_list_directory() {
    let files = working_copy(&[("dir/a", "a"), ("dir/b", "b")]);
    let dir = list_directory(&files, "dir").unwrap();
    assert_eq!(dir.len(), 2);
    assert_eq!(dir.key_at(0).elements, vec![b"a".to_vec()]);
    assert_eq!(dir.key_at(1).elements, vec![b"b".to_vec()]);
}

#[test]
fn test_rsync_simple() {
    let files = working_copy(&[
        ("dir_from/a", "a"),
        ("dir_from/b", "b"),
        ("dir_from/c", "c"),
        ("dir_to/a", "dontoverwrite"),
    ]);
    let commit = run(1, &files, Limits::default(), None).unwrap();
    assert_eq!(
        apply(1, &files, &commit),
        working_copy(&[
            ("dir_from/a", "a"),
            ("dir_from/b", "b"),
            ("dir_from/c", "c"),
            ("dir_to/a", "dontoverwrite"),
            ("dir_to/b", "b"),
            ("dir_to/c", "c"),
        ])
    );
}

#[test]
fn test_rsync_with_limit() {
    let files = working_copy(&[
        ("dir_from/a", "a"),
        ("dir_from/b", "b"),
        ("dir_from/c", "c"),
        ("dir_to/a", "dontoverwrite"),
    ]);
    let limit = Limits {
        file_num_limit: NonZeroU64::new(1),
        total_size_limit: None,
        lfs_threshold: None,
    };
    let first = run(1, &files, limit, None).unwrap();
    let files = apply(1, &files, &first);
    assert_eq!(
        files,
        working_copy(&[
            ("dir_from/a", "a"),
            ("dir_from/b", "b"),
            ("dir_from/c", "c"),
            ("dir_to/a", "dontoverwrite"),
            ("dir_to/b", "b"),
        ])
    );
    let second = run(2, &files, limit, None).unwrap();
    let files = apply(2, &files, &second);
    assert_eq!(
        files,
        working_copy(&[
            ("dir_from/a", "a"),
            ("dir_from/b", "b"),
            ("dir_from/c", "c"),
            ("dir_to/a", "dontoverwrite"),
            ("dir_to/b", "b"),
            ("dir_to/c", "c"),
        ])
    );
    assert_eq!(
        run(3, &files, limit, None).err(),
        Some(RsyncError::NothingToMove)
    );
}

#[test]
fn test_rsync_with_excludes() {
    let files = working_copy(&[
        ("dir_from/BUCK", "buck"),
        ("dir_from/b", "b"),
        ("dir_from/TARGETS", "targets"),
        ("dir_from/subdir/TARGETS", "targets"),
        ("dir_from/c.bzl", "bzl"),
        ("dir_to/a", "dontoverwrite"),
    ]);
    let regex = compile_exclude(Some("(BUCK|.*\\.bzl|TARGETS)$"))
        .unwrap()
        .unwrap();
    let commit = run(1, &files, Limits::default(), Some(&regex)).unwrap();
    assert_eq!(
        apply(1, &files, &commit),
        working_copy(&[
            ("dir_from/BUCK", "buck"),
            ("dir_from/b", "b"),
            ("dir_from/TARGETS", "targets"),
            ("dir_from/subdir/TARGETS", "targets"),
            ("dir_from/c.bzl", "bzl"),
            ("dir_to/a", "dontoverwrite"),
            ("dir_to/b", "b"),
        ])
    );
}

#[test]
fn test_rsync_with_file_size_limit() {
    let files = working_copy(&[
        ("dir_from/a", "aaaaaaaaaa"),
        ("dir_from/b", "b"),
        ("dir_from/c", "c"),
    ]);
    let limits = Limits {
        file_num_limit: None,
        total_size_limit: NonZeroU64::new(5),
        lfs_threshold: None,
    };
    let first = run(1, &files, limits, None).unwrap();
    let files = apply(1, &files, &first);
    assert_eq!(
        files,
        working_copy(&[
            ("dir_from/a", "aaaaaaaaaa"),
            ("dir_from/b", "b"),
            ("dir_from/c", "c"),
            ("dir_to/a", "aaaaaaaaaa"),
        ])
    );
    let second = run(2, &files, limits, None).unwrap();
    assert_eq!(
        apply(2, &files, &second),
        working_copy(&[
            ("dir_to/a", "aaaaaaaaaa"),
            ("dir_to/b", "b"),
            ("dir_to/c", "c"),
            ("dir_from/a", "aaaaaaaaaa"),
            ("dir_from/b", "b"),
            ("dir_from/c", "c"),
        ])
    );
}

#[test]
fn test_rsync_with_file_size_limit_and_lfs_threshold() {
    let files = working_copy(&[
        ("dir_from/a", "aaaaaaaaaa"),
        ("dir_from/b", "b"),
        ("dir_from/c", "c"),
    ]);
    let limits = Limits {
        file_num_limit: None,
        total_size_limit: NonZeroU64::new(5),
        lfs_threshold: NonZeroU64::new(2),
    };
    let commit = run(1, &files, limits, None).unwrap();
    assert_eq!(
        apply(1, &files, &commit),
        working_copy(&[
            ("dir_to/a", "aaaaaaaaaa"),
            ("dir_to/b", "b"),
            ("dir_to/c", "c"),
            ("dir_from/a", "aaaaaaaaaa"),
            ("dir_from/b", "b"),
            ("dir_from/c", "c"),
        ])
    );
}

#[test]
fn the_commit_is_authored_now_on_its_parent() {
    let files = working_copy(&[("dir_from/a", "a")]);
    let commit = run(7, &files, Limits::default(), None).unwrap();
    assert_eq!(commit.parents.len(), 1);
    assert_eq!(commit.parents[0].hash, [7; 32]);
    assert_eq!(commit.author, "author");
    assert_eq!(commit.message, "msg");
    assert_eq!(commit.author_date, NOW);
    assert!(commit.committer.is_none());
    assert!(commit.committer_date.is_none());
    assert!(commit.extra.is_empty());
}

#[test]
fn without_a_source_there_is_no_commit() {
    let files = working_copy(&[("dir_to/a", "a")]);
    let error = run(1, &files, Limits::default(), None).err().unwrap();
    assert_eq!(error, RsyncError::FromDirectoryMissing);
    assert_eq!(error.message(), "from directory does not exist!");
}

#[test]
fn without_a_missing_file_there_is_no_commit() {
    let files = working_copy(&[("dir_from/a", "a"), ("dir_to/a", "b")]);
    let error = run(1, &files, Limits::default(), None).err().unwrap();
    assert_eq!(error, RsyncError::NothingToMove);
    assert_eq!(error.message(), "nothing to move!");
}

#[test]
fn a_total_that_only_reaches_the_limit_does_not_stop_the_copy() {
    let files = working_copy(&[
        ("dir_from/a", "aaaaa"),
        ("dir_from/b", "b"),
        ("dir_from/c", "c"),
    ]);
    let limits = Limits {
        file_num_limit: None,
        total_size_limit: NonZeroU64::new(5),
        lfs_threshold: None,
    };
    let commit = run(1, &files, limits, None).unwrap();
    assert_eq!(commit.file_changes.len(), 2);
}

#[test]
fn only_a_file_above_the_threshold_size_is_not_counted() {
    let limits = Limits {
        file_num_limit: None,
        total_size_limit: NonZeroU64::new(4),
        lfs_threshold: NonZeroU64::new(5),
    };
    assert!(limits.counts(4));
    assert!(limits.counts(5));
    assert!(!limits.counts(6));
    assert!(Limits::default().counts(u64::MAX));

    let at_threshold = working_copy(&[("dir_from/a", "aaaaa"), ("dir_from/b", "b")]);
    let commit = run(1, &at_threshold, limits, None).unwrap();
    assert_eq!(
        apply(1, &at_threshold, &commit),
        working_copy(&[
            ("dir_from/a", "aaaaa"),
            ("dir_from/b", "b"),
            ("dir_to/a", "aaaaa"),
        ])
    );

    let above_threshold = working_copy(&[("dir_from/a", "aaaaaa"), ("dir_from/b", "b")]);
    let commit = run(1, &above_threshold, limits, None).unwrap();
    assert_eq!(commit.file_changes.len(), 2);
}

#[test]
fn huge_sizes_do_not_wrap_around() {
    let file = FsnodeFile {
        content_id: content_id("x"),
        file_type: FileType::Executable,
        size: u64::MAX,
    };
    let source = SortedMap::collect(vec![
        (path("a"), file),
        (path("b"), file),
        (path("c"), file),
    ]);
    let limits = Limits {
        file_num_limit: None,
        total_size_limit: NonZeroU64::new(u64::MAX),
        lfs_threshold: None,
    };
    let changes = file_changes(
        csid(1),
        &path("f"),
        &path("t"),
        limits,
        None,
        &source,
        &SortedMap::new(),
    );
    assert_eq!(changes.len(), 2);
    assert_eq!(changes.key_at(1).text(), "t/b");
    let change = changes.value_at(1).as_ref().unwrap();
    assert_eq!(change.file_type, FileType::Executable);
    assert_eq!(change.copy_from.as_ref().unwrap().0.text(), "f/b");
}

#[test]
fn repeating_the_command_copies_every_file_once() {
    let mut files = working_copy(&[
        ("dir_from/a", "aa"),
        ("dir_from/b/c", "bb"),
        ("dir_from/b/d", "bb"),
        ("dir_from/e", "ee"),
        ("dir_from/f", "ff"),
    ]);
    let limits = Limits {
        file_num_limit: NonZeroU64::new(3),
        total_size_limit: NonZeroU64::new(3),
        lfs_threshold: None,
    };
    let mut rounds: Vec<Vec<String>> = Vec::new();
    let mut parent = 1;
    while let Ok(commit) = run(parent, &files, limits, None) {
        rounds.push(
            (0..commit.file_changes.len())
                .map(|i| commit.file_changes.key_at(i).text())
                .collect(),
        );
        files = apply(parent, &files, &commit);
        parent += 1;
    }
    assert_eq!(
        rounds,
        vec![
            vec!["dir_to/a", "dir_to/b/c"],
            vec!["dir_to/b/d", "dir_to/e"],
            vec!["dir_to/f"],
        ]
    );
}

#[test]
fn a_limit_of_files_takes_as_many_runs_as_it_goes_into_them() {
    for (limit, runs) in [(1, 5), (2, 3), (3, 2), (5, 1), (9, 1)].iter() {
        let mut files = working_copy(&[
            ("dir_from/a", "a"),
            ("dir_from/b", "b"),
            ("dir_from/c", "c"),
            ("dir_from/d", "d"),
            ("dir_from/e", "e"),
        ]);
        let limits = Limits {
            file_num_limit: NonZeroU64::new(*limit),
            total_size_limit: None,
            lfs_threshold: None,
        };
        let mut parent = 0;
        while let Ok(commit) = run(parent, &files, limits, None) {
            files = apply(parent, &files, &commit);
            parent += 1;
        }
        assert_eq!(parent, *runs);
    }
}

#[test]
fn the_regular_expression_sees_the_relative_path() {
    let files = working_copy(&[("dir_from/sub/a", "a"), ("dir_from/b", "b")]);
    let regex = compile_exclude(Some("^sub/")).unwrap().unwrap();
    let commit = run(1, &files, Limits::default(), Some(&regex)).unwrap();
    assert_eq!(commit.file_changes.len(), 1);
    assert_eq!(commit.file_changes.key_at(0).text(), "dir_to/b");
    let all = compile_exclude(Some("")).unwrap().unwrap();
    assert_eq!(
        run(1, &files, Limits::default(), Some(&all)).err(),
        Some(RsyncError::NothingToMove)
    );
    let none = compile_exclude(Some("dir_from")).unwrap().unwrap();
    let commit = run(1, &files, Limits::default(), Some(&none)).unwrap();
    assert_eq!(commit.file_changes.len(), 2);
}

#[test]
fn a_file_is_not_listed_as_a_directory() {
    let entries: Vec<Entry<(), &str>> = vec![Entry::Leaf("file"), Entry::Tree(())];
    let error = find_directory(&path("dir/file"), entries).err().unwrap();
    assert_eq!(
        error.message(),
        "dir/file is a file, but expected to be a directory"
    );
}

#[test]
fn what_does_not_exist_is_not_listed() {
    let entries: Vec<Entry<(), ()>> = vec![];
    assert!(find_directory(&path("dir"), entries).unwrap().is_none());
    let entries: Vec<Entry<u8, ()>> = vec![Entry::Tree(4), Entry::Tree(5)];
    assert_eq!(find_directory(&path("dir"), entries).unwrap(), Some(4));
}
