use dir_index::list::StringList;

fn list_of(ids: &[&str]) -> StringList {
    StringList::from(ids.iter().map(|s| s.to_string()).collect())
}

fn contents(list: &StringList) -> Vec<String> {
    let mut iter = list.snapshot();
    let mut out = Vec::new();
    while let Some(id) = iter.next() {
        out.push(id.to_string());
    }
    out
}

#[test]
fn from_keeps_the_order_of_the_vector() {
    let list = list_of(&["b", "a", "c"]);
    assert_eq!(list.len(), 3);
    assert_eq!(contents(&list), vec!["b", "a", "c"]);
}

#[test]
fn contains_finds_what_is_there() {
    let list = list_of(&["items.a", "items.b"]);
    assert!(list.contains("items.a"));
    assert!(list.contains("items.b"));
    assert!(!list.contains("items.c"));
    assert!(!list.contains("items"));
    assert!(!list_of(&[]).contains("items.a"));
}

#[test]
fn add_then_contains() {
    let mut list = list_of(&[]);
    assert!(!list.contains("x"));
    list.add("x".to_string());
    assert!(list.contains("x"));
    assert_eq!(list.len(), 1);
}

#[test]
fn add_appends_and_keeps_duplicates() {
    let mut list = list_of(&["a", "b"]);
    list.add("a".to_string());
    assert_eq!(contents(&list), vec!["a", "b", "a"]);
    assert_eq!(list.len(), 3);
}

#[test]
fn remove_then_contains_is_false() {
    let mut list = list_of(&["a", "b", "c"]);
    list.remove("b");
    assert!(!list.contains("b"));
    assert_eq!(contents(&list), vec!["a", "c"]);
}

#[test]
fn remove_of_an_absent_identifier_changes_nothing() {
    let mut list = list_of(&["a", "b"]);
    list.remove("z");
    assert_eq!(contents(&list), vec!["a", "b"]);
    let mut empty = list_of(&[]);
    empty.remove("z");
    assert_eq!(empty.len(), 0);
}

#[test]
fn remove_takes_the_first_occurrence_only() {
    let mut list = list_of(&["a", "b", "a", "c"]);
    list.remove("a");
    assert_eq!(contents(&list), vec!["b", "a", "c"]);
    assert!(list.contains("a"));
    list.remove("a");
    assert_eq!(contents(&list), vec!["b", "c"]);
    assert!(!list.contains("a"));
}

#[test]
fn snapshot_yields_each_identifier_once_then_none() {
    let list = list_of(&["a", "b"]);
    let mut iter = list.snapshot();
    assert_eq!(iter.len(), 2);
    assert_eq!(iter.size_hint(), (2, Some(2)));
    assert_eq!(iter.next(), Some("a"));
    assert_eq!(iter.len(), 1);
    assert_eq!(iter.next(), Some("b"));
    assert_eq!(iter.size_hint(), (0, Some(0)));
    assert_eq!(iter.next(), None);
    assert_eq!(iter.next(), None);
    assert_eq!(iter.len(), 0);
}

#[test]
fn snapshot_of_the_empty_list_is_exhausted() {
    let list = list_of(&[]);
    let mut iter = list.snapshot();
    assert_eq!(iter.len(), 0);
    assert_eq!(iter.next(), None);
}

#[test]
fn snapshots_are_independent_of_each_other() {
    let list = list_of(&["a", "b"]);
    let mut first = list.snapshot();
    let mut second = list.snapshot();
    assert_eq!(first.next(), Some("a"));
    assert_eq!(second.next(), Some("a"));
    assert_eq!(first.next(), Some("b"));
    assert_eq!(second.len(), 1);
}

#[test]
fn a_snapshot_taken_after_a_change_holds_the_whole_change() {
    let mut list = list_of(&["a"]);
    assert_eq!(contents(&list), vec!["a"]);
    list.add("x".to_string());
    assert_eq!(contents(&list), vec!["a", "x"]);
    list.remove("a");
    assert_eq!(contents(&list), vec!["x"]);
}
