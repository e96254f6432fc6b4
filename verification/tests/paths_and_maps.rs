use mononoke::order::{compare_bytes, Key, Relation};
use mononoke::path::MPath;
use mononoke::sorted_map::SortedMap;

fn path(elements: &[&[u8]]) -> MPath {
    MPath {
        elements: elements.iter().map(|e| e.to_vec()).collect(),
    }
}

#[test]
fn joining_appends_the_elements() {
    let joined = path(&[b"a", b"b"]).join(&path(&[b"c"]));
    assert_eq!(
        joined.elements,
        vec![b"a".to_vec(), b"b".to_vec(), b"c".to_vec()]
    );
    assert_eq!(joined.to_bytes(), b"a/b/c".to_vec());
    assert_eq!(joined.text(), "a/b/c");
}

#[test]
fn text_replaces_what_is_not_utf8() {
    assert_eq!(path(&[b"a", &[0xff, b'b']]).text(), "a/\u{fffd}b");
    assert_eq!(path(&["\u{e9}".as_bytes()]).text(), "\u{e9}");
}

#[test]
fn cloning_keeps_the_elements() {
    let written = path(&[b"a", b"", b"c"]);
    assert_eq!(written.clone().elements, written.elements);
}

#[test]
fn paths_are_ordered_element_by_element() {
    assert_eq!(
        path(&[b"a", b"z"]).compare(&path(&[b"a-b"])),
        Relation::Before
    );
    assert_eq!(path(&[b"a"]).compare(&path(&[b"a", b"b"])), Relation::Before);
    assert_eq!(path(&[b"b"]).compare(&path(&[b"a", b"b"])), Relation::After);
    assert_eq!(path(&[b"a", b"b"]).compare(&path(&[b"a", b"b"])), Relation::Same);
}

#[test]
fn joining_keeps_the_order() {
    let dir = path(&[b"dir"]);
    let (a, b) = (path(&[b"a"]), path(&[b"a", b"x"]));
    assert_eq!(a.compare(&b), Relation::Before);
    assert_eq!(dir.join(&a).compare(&dir.join(&b)), Relation::Before);
}

#[test]
fn bytes_are_ordered_like_words() {
    assert_eq!(compare_bytes(b"", b"a"), Relation::Before);
    assert_eq!(compare_bytes(b"ab", b"a"), Relation::After);
    assert_eq!(compare_bytes(b"\x7f", b"\x80"), Relation::Before);
    assert_eq!(compare_bytes(b"same", b"same"), Relation::Same);
}

#[test]
fn strings_are_ordered_by_their_bytes() {
    assert_eq!("Z".to_string().compare(&"a".to_string()), Relation::Before);
    assert_eq!(
        "\u{e9}".to_string().compare(&"z".to_string()),
        Relation::After
    );
}

#[test]
fn a_map_keeps_its_keys_in_order() {
    let mut map: SortedMap<String, Vec<u8>> = SortedMap::new();
    assert!(map.is_empty());
    for name in ["m", "c", "x", "a", "q"].iter() {
        map.insert(name.to_string(), name.as_bytes().to_vec());
    }
    map.insert("c".to_string(), vec![0]);
    assert_eq!(map.len(), 5);
    assert!(map.contains_key(&"q".to_string()));
    assert!(!map.contains_key(&"b".to_string()));
    assert_eq!(map.get(&"c".to_string()), Some(&vec![0]));
    assert_eq!(map.get(&"z".to_string()), None);
    assert_eq!(map.key_at(4), "x");
    assert_eq!(map.value_at(4), &b"x".to_vec());
    let (keys, values) = map.into_parts();
    assert_eq!(keys, vec!["a", "c", "m", "q", "x"]);
    assert_eq!(values[1], vec![0]);
}

#[test]
fn of_two_collected_items_with_one_key_the_later_counts() {
    let map: SortedMap<String, Vec<u8>> = SortedMap::collect(vec![
        ("b".to_string(), vec![1]),
        ("a".to_string(), vec![2]),
        ("b".to_string(), vec![3]),
    ]);
    let (keys, values) = map.into_parts();
    assert_eq!(keys, vec!["a", "b"]);
    assert_eq!(values, vec![vec![2], vec![3]]);
}
