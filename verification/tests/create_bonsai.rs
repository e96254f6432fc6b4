use mononoke::bonsai::{
    create_bonsai_changeset, BonsaiChangesetMut, ChangesetId, ContentId, DateTime,
    DeserializableBonsaiChangeset, FileChange, FileType,
};
use mononoke::create_bonsai::{
    confirm, content_missing_message, report_message, Action, Creation, Event, NotConfirmed,
    CREATE_BONSAI,
};
use mononoke::path::MPath;
use mononoke::sorted_map::SortedMap;

const DATE: DateTime = DateTime {
    timestamp_secs: 12,
    tz_offset_secs: -60,
};

/// Takes a path apart at its slashes and drops empty elements; an empty path is an
/// error.
fn parse(bytes: &[u8]) -> Result<MPath, String> {
    let elements: Vec<Vec<u8>> = bytes
        .split(|b| *b == b'/')
        .filter(|e| !e.is_empty())
        .map(|e| e.to_vec())
        .collect();
    if elements.is_empty() {
        return Err(format!("empty path {:?}", String::from_utf8_lossy(bytes)));
    }
    Ok(MPath { elements })
}

fn change(n: u8) -> Option<FileChange> {
    Some(FileChange::new(
        ContentId { hash: [n; 32] },
        FileType::Symlink,
        n as u64,
        None,
    ))
}

fn written(changes: Vec<(&str, Option<FileChange>)>) -> DeserializableBonsaiChangeset {
    let mut extra = SortedMap::new();
    extra.insert("key".to_string(), vec![1, 2]);
    DeserializableBonsaiChangeset {
        parents: vec![ChangesetId { hash: [3; 32] }],
        author: "author".to_string(),
        author_date: DATE,
        committer: Some("committer".to_string()),
        committer_date: Some(DATE),
        message: "message".to_string(),
        extra,
        file_changes: SortedMap::collect(
            changes
                .into_iter()
                .map(|(name, change)| (name.to_string(), change))
                .collect(),
        ),
    }
}

fn content_at(changeset: &BonsaiChangesetMut, name: &str) -> Option<u8> {
    let path = parse(name.as_bytes()).unwrap();
    let change = changeset.file_changes.get(&path).unwrap();
    change.as_ref().map(|c| c.content_id.hash[0])
}

#[test]
fn everything_but_the_paths_is_kept() {
    let changeset = written(vec![]).into_bonsai(parse).unwrap();
    assert_eq!(changeset.parents.len(), 1);
    assert_eq!(changeset.parents[0].hash, [3; 32]);
    assert_eq!(changeset.author, "author");
    assert_eq!(changeset.author_date, DATE);
    assert_eq!(changeset.committer, Some("committer".to_string()));
    assert_eq!(changeset.committer_date, Some(DATE));
    assert_eq!(changeset.message, "message");
    assert_eq!(changeset.extra.get(&"key".to_string()), Some(&vec![1, 2]));
    assert!(changeset.file_changes.is_empty());
}

#[test]
fn path_strings_are_parsed() {
    let changeset = written(vec![("b/c", change(1)), ("a", None)])
        .into_bonsai(parse)
        .unwrap();
    assert_eq!(changeset.file_changes.len(), 2);
    assert_eq!(changeset.file_changes.key_at(0).text(), "a");
    assert_eq!(changeset.file_changes.key_at(1).text(), "b/c");
    assert_eq!(content_at(&changeset, "a"), None);
    assert_eq!(content_at(&changeset, "b/c"), Some(1));
}

#[test]
fn the_last_string_for_a_path_decides() {
    let changeset = written(vec![
        ("a", change(3)),
        ("/a", change(1)),
        ("a/", change(4)),
        ("//a", change(2)),
        ("b", change(5)),
    ])
    .into_bonsai(parse)
    .unwrap();
    assert_eq!(changeset.file_changes.len(), 2);
    assert_eq!(content_at(&changeset, "a"), Some(4));
    assert_eq!(content_at(&changeset, "b"), Some(5));
}

#[test]
fn the_first_string_that_does_not_parse_decides() {
    let error = written(vec![
        ("a", change(1)),
        ("///", change(2)),
        ("/", change(3)),
        ("0", change(4)),
    ])
    .into_bonsai(parse)
    .err()
    .unwrap();
    assert_eq!(error, "empty path \"/\"");
}

#[test]
fn given_paths_take_the_place_of_the_strings() {
    let changeset = written(vec![("x", change(1)), ("y", change(2))])
        .replace_paths(vec![parse(b"q").unwrap(), parse(b"p").unwrap()]);
    assert_eq!(changeset.file_changes.key_at(0).text(), "p");
    assert_eq!(content_at(&changeset, "p"), Some(2));
    assert_eq!(content_at(&changeset, "q"), Some(1));
}

#[test]
fn a_new_changeset_has_no_committer() {
    let mut changes = SortedMap::new();
    changes.insert(parse(b"a").unwrap(), change(1));
    let changeset = create_bonsai_changeset(
        vec![],
        changes,
        "author".to_string(),
        "message".to_string(),
        DATE,
    );
    assert!(changeset.parents.is_empty());
    assert_eq!(changeset.author, "author");
    assert_eq!(changeset.author_date, DATE);
    assert_eq!(changeset.committer, None);
    assert_eq!(changeset.committer_date, None);
    assert_eq!(changeset.message, "message");
    assert!(changeset.extra.is_empty());
    assert_eq!(content_at(&changeset, "a"), Some(1));
}

#[test]
fn the_command_has_to_be_confirmed() {
    assert_eq!(CREATE_BONSAI, "create-bonsai");
    assert_eq!(confirm(true), Ok(()));
    assert_eq!(confirm(false), Err(NotConfirmed));
    assert_eq!(
        NotConfirmed.message(),
        "--dangerous was not provided. Think twice before use"
    );
}

fn looked_up(action: &Action<&str, &str>) -> u8 {
    match action {
        Action::LookUpMetadata(id) => id.hash[0],
        _ => panic!("no lookup"),
    }
}

fn changes() -> SortedMap<MPath, Option<FileChange>> {
    SortedMap::collect(vec![
        (parse(b"c").unwrap(), change(8)),
        (parse(b"a").unwrap(), change(9)),
        (parse(b"b").unwrap(), None),
    ])
}

#[test]
fn every_content_is_looked_up_before_the_commit_is_saved() {
    let (creation, action) = Creation::start(&changes());
    assert_eq!(looked_up(&action), 9);
    let (creation, action) = creation.step(Event::<&str, &str>::Metadata(Ok(true)));
    assert_eq!(looked_up(&action), 8);
    let (creation, action) = creation.step(Event::<&str, &str>::Metadata(Ok(true)));
    assert!(matches!(action, Action::Save));
    let (creation, action) = creation.step(Event::<&str, &str>::Saved(Ok(())));
    assert!(matches!(action, Action::LookUpHg));
    let (creation, action) = creation.step(Event::<&str, &str>::Mapped(Ok("hg")));
    assert!(matches!(action, Action::Report("hg")));
    assert!(!creation.expects(&Event::<&str, &str>::Mapped(Ok("hg"))));
}

#[test]
fn a_commit_without_contents_is_saved_at_once() {
    let mut removal = SortedMap::new();
    removal.insert(parse(b"a").unwrap(), None);
    let (_, action): (Creation, Action<(), ()>) = Creation::start(&removal);
    assert!(matches!(action, Action::Save));
}

#[test]
fn a_missing_content_stops_the_creation() {
    let (creation, _): (Creation, Action<&str, &str>) = Creation::start(&changes());
    let (creation, _): (Creation, Action<&str, &str>) = creation.step(Event::Metadata(Ok(true)));
    let (creation, action): (Creation, Action<&str, &str>) =
        creation.step(Event::Metadata(Ok(false)));
    assert!(matches!(action, Action::ContentMissing(id) if id.hash == [8; 32]));
    assert!(!creation.expects(&Event::<&str, &str>::Metadata(Ok(true))));
}

#[test]
fn every_error_stops_the_creation() {
    let (creation, _): (Creation, Action<&str, &str>) = Creation::start(&changes());
    let (_, action) = creation.step(Event::<&str, &str>::Metadata(Err("metadata")));
    assert!(matches!(action, Action::Fail("metadata")));

    let (creation, _): (Creation, Action<&str, &str>) = Creation::start(&SortedMap::new());
    let (_, action) = creation.step(Event::<&str, &str>::Saved(Err("save")));
    assert!(matches!(action, Action::Fail("save")));

    let (creation, _): (Creation, Action<&str, &str>) = Creation::start(&SortedMap::new());
    let (creation, _) = creation.step(Event::<&str, &str>::Saved(Ok(())));
    let (_, action) = creation.step(Event::<&str, &str>::Mapped(Err("map")));
    assert!(matches!(action, Action::Fail("map")));
}

#[test]
fn the_creation_says_what_it_waits_for() {
    let (creation, _): (Creation, Action<(), ()>) = Creation::start(&changes());
    assert!(creation.expects(&Event::<(), ()>::Metadata(Ok(true))));
    assert!(!creation.expects(&Event::<(), ()>::Saved(Ok(()))));
    assert!(!creation.expects(&Event::<(), ()>::Mapped(Ok(()))));
}

#[test]
fn creation_messages() {
    assert_eq!(
        content_missing_message("abc"),
        "filenode abc is not found in the filestore"
    );
    assert_eq!(
        report_message("abc", "def"),
        "Created bonsai changeset abc for hg_changeset def"
    );
}
