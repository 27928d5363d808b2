use std::collections::HashMap;

use dir_index::dirs::{CachedDir, DirEntry, DirReader};

fn file(name: &str) -> DirEntry {
    DirEntry { name: name.to_string(), is_file: true }
}

fn other(name: &str) -> DirEntry {
    DirEntry { name: name.to_string(), is_file: false }
}

fn scan(entries: Vec<DirEntry>, exts: &[&str], id: &str) -> CachedDir {
    let listing: Result<Vec<DirEntry>, String> = Ok(entries);
    CachedDir::load(listing, exts, id, &|_: &str| ()).unwrap()
}

fn ids_of(reader: &DirReader<'_>) -> Vec<String> {
    let mut walk = reader.iter_all();
    let mut out = Vec::new();
    while let Some((id, _)) = walk.next(&|_: &str| -> Result<(), ()> { Ok(()) }) {
        out.push(id.to_string());
    }
    out
}

fn ids(dir: &CachedDir) -> Vec<String> {
    ids_of(&dir.read())
}

#[test]
fn scan_records_the_files_with_an_accepted_extension() {
    let dir = scan(vec![file("a.json"), file("b.json"), file("c.txt")], &["json"], "items");
    assert_eq!(ids(&dir), vec!["items.a", "items.b"]);
    assert!(dir.contains("items.a"));
    assert!(dir.contains("items.b"));
    assert!(!dir.contains("items.c"));
}

#[test]
fn scan_below_the_empty_identifier_records_the_stems() {
    let dir = scan(vec![file("a.json"), file("b.json")], &["json"], "");
    assert_eq!(ids(&dir), vec!["a", "b"]);
}

#[test]
fn scan_keeps_the_order_of_the_listing() {
    let dir = scan(vec![file("z.ron"), file("a.ron"), file("m.ron")], &["ron"], "d");
    assert_eq!(ids(&dir), vec!["d.z", "d.a", "d.m"]);
}

#[test]
fn scan_passes_over_what_is_no_regular_file() {
    let dir = scan(vec![other("sub.json"), file("a.json"), other("b.json")], &["json"], "items");
    assert_eq!(ids(&dir), vec!["items.a"]);
}

#[test]
fn scan_takes_files_without_extension_for_the_empty_extension() {
    let dir = scan(vec![file("Makefile"), file("a.json"), file(".hidden")], &[""], "x");
    assert_eq!(ids(&dir), vec!["x.Makefile", "x..hidden"]);
}

#[test]
fn scan_with_several_extensions() {
    let dir = scan(
        vec![file("a.json"), file("b.ron"), file("c.txt"), file("d.tar.ron")],
        &["ron", "json"],
        "p.q",
    );
    assert_eq!(ids(&dir), vec!["p.q.a", "p.q.b", "p.q.d.tar"]);
}

#[test]
fn scan_does_not_dedup() {
    let dir = scan(vec![file("a.json"), file("a.ron")], &["json", "ron"], "i");
    assert_eq!(ids(&dir), vec!["i.a", "i.a"]);
}

#[test]
fn scan_of_an_empty_listing_is_empty() {
    let dir = scan(vec![], &["json"], "items");
    assert_eq!(ids(&dir), Vec::<String>::new());
}

#[test]
fn scan_fails_only_where_the_listing_failed() {
    let listing: Result<Vec<DirEntry>, String> = Err("no such directory".to_string());
    let dir = CachedDir::load(listing, &["json"], "items", &|_: &str| ());
    assert_eq!(dir.err(), Some("no such directory".to_string()));
}

#[test]
fn scan_hands_each_recorded_identifier_to_the_cache() {
    let seen = std::cell::RefCell::new(Vec::new());
    let listing: Result<Vec<DirEntry>, ()> =
        Ok(vec![file("a.json"), file("c.txt"), other("d.json"), file("b.json")]);
    let dir = CachedDir::load(listing, &["json"], "items", &|id: &str| {
        seen.borrow_mut().push(id.to_string());
    })
    .unwrap();
    assert_eq!(*seen.borrow(), vec!["items.a", "items.b"]);
    assert_eq!(ids(&dir), vec!["items.a", "items.b"]);
}

#[test]
fn scan_records_an_identifier_whose_load_failed() {
    let listing: Result<Vec<DirEntry>, ()> = Ok(vec![file("a.json"), file("b.json")]);
    let dir = CachedDir::load(listing, &["json"], "items", &|id: &str| -> Result<u32, String> {
        if id == "items.a" {
            Ok(1)
        } else {
            Err("broken".to_string())
        }
    })
    .unwrap();
    assert_eq!(ids(&dir), vec!["items.a", "items.b"]);
}

#[test]
fn add_contains_remove_round_trip() {
    let mut dir = scan(vec![file("a.json")], &["json"], "items");
    assert!(!dir.contains("items.new"));
    dir.add("items.new".to_string());
    assert!(dir.contains("items.new"));
    assert_eq!(ids(&dir), vec!["items.a", "items.new"]);
    dir.remove("items.new");
    assert!(!dir.contains("items.new"));
    assert_eq!(ids(&dir), vec!["items.a"]);
    dir.remove("items.absent");
    assert_eq!(ids(&dir), vec!["items.a"]);
}

#[test]
fn add_permits_duplicates_and_remove_takes_one() {
    let mut dir = scan(vec![file("a.json")], &["json"], "items");
    dir.add("items.a".to_string());
    assert_eq!(ids(&dir), vec!["items.a", "items.a"]);
    dir.remove("items.a");
    assert!(dir.contains("items.a"));
    assert_eq!(ids(&dir), vec!["items.a"]);
}

fn cache() -> HashMap<String, Result<u32, String>> {
    let mut cache = HashMap::new();
    cache.insert("items.a".to_string(), Ok(7));
    cache.insert("items.b".to_string(), Err("cannot decode".to_string()));
    cache
}

#[test]
fn cached_walk_yields_only_what_was_loaded() {
    let dir = scan(vec![file("a.json"), file("b.json")], &["json"], "items");
    let cache = cache();
    let lookup = |id: &str| -> Option<u32> { cache.get(id).and_then(|r| r.clone().ok()) };
    let mut walk = dir.read().iter();
    assert_eq!(walk.size_hint(), (0, Some(2)));
    assert_eq!(walk.next(&lookup), Some(7));
    assert_eq!(walk.next(&lookup), None);
    assert_eq!(walk.next(&lookup), None);
}

#[test]
fn all_walk_yields_every_identifier_with_its_outcome() {
    let dir = scan(vec![file("a.json"), file("b.json")], &["json"], "items");
    let cache = cache();
    let load = |id: &str| -> Result<u32, String> { cache.get(id).unwrap().clone() };
    let mut walk = dir.read().iter_all();
    assert_eq!(walk.len(), 2);
    assert_eq!(walk.size_hint(), (2, Some(2)));
    assert_eq!(walk.next(&load), Some(("items.a", Ok(7))));
    assert_eq!(walk.len(), 1);
    assert_eq!(walk.next(&load), Some(("items.b", Err("cannot decode".to_string()))));
    assert_eq!(walk.len(), 0);
    assert_eq!(walk.next(&load), None);
    assert_eq!(walk.next(&load), None);
}

#[test]
fn cached_walk_passes_over_the_missing_in_any_place() {
    let dir = scan(
        vec![file("m.x"), file("a.x"), file("n.x"), file("o.x"), file("b.x"), file("p.x")],
        &["x"],
        "",
    );
    let lookup = |id: &str| -> Option<String> {
        if id == "a" || id == "b" {
            Some(id.to_uppercase())
        } else {
            None
        }
    };
    let mut walk = dir.read().iter();
    assert_eq!(walk.size_hint(), (0, Some(6)));
    assert_eq!(walk.next(&lookup), Some("A".to_string()));
    assert_eq!(walk.size_hint(), (0, Some(4)));
    assert_eq!(walk.next(&lookup), Some("B".to_string()));
    assert_eq!(walk.size_hint(), (0, Some(1)));
    assert_eq!(walk.next(&lookup), None);
    assert_eq!(walk.size_hint(), (0, Some(0)));
}

#[test]
fn cached_walk_with_an_empty_cache_yields_nothing() {
    let dir = scan(vec![file("a.json"), file("b.json")], &["json"], "items");
    let mut walk = dir.read().iter();
    assert_eq!(walk.next(&|_: &str| -> Option<u32> { None }), None);
}

#[test]
fn two_cached_walks_yield_the_same() {
    let dir = scan(vec![file("a.json"), file("b.json"), file("c.json")], &["json"], "items");
    let lookup = |id: &str| -> Option<usize> {
        if id == "items.b" {
            None
        } else {
            Some(id.len())
        }
    };
    let reader = dir.read();
    let collect = |reader: &DirReader<'_>| {
        let mut walk = reader.iter();
        let mut out = Vec::new();
        while let Some(v) = walk.next(&lookup) {
            out.push(v);
        }
        out
    };
    let first = collect(&reader);
    let second = collect(&reader);
    assert_eq!(first, vec![7, 7]);
    assert_eq!(first, second);
}

#[test]
fn all_walk_is_as_long_as_the_index_whatever_fails() {
    let dir = scan(vec![file("a.json"), file("b.json"), file("c.json")], &["json"], "items");
    let reader = dir.read();
    let fail = |_: &str| -> Result<u32, ()> { Err(()) };
    let mut walk = reader.iter_all();
    assert_eq!(walk.len(), 3);
    let mut count = 0;
    while let Some((_, outcome)) = walk.next(&fail) {
        assert_eq!(outcome, Err(()));
        count += 1;
    }
    assert_eq!(count, 3);
}

#[test]
fn a_reader_can_be_copied_and_each_walk_starts_over() {
    let dir = scan(vec![file("a.json"), file("b.json")], &["json"], "items");
    let reader = dir.read();
    let copy = reader;
    assert_eq!(ids_of(&reader), vec!["items.a", "items.b"]);
    assert_eq!(ids_of(&copy), vec!["items.a", "items.b"]);
    assert_eq!(ids_of(&reader.clone()), vec!["items.a", "items.b"]);
}

#[test]
fn a_reader_taken_after_a_change_sees_it() {
    let mut dir = scan(vec![file("a.json")], &["json"], "items");
    assert_eq!(ids(&dir), vec!["items.a"]);
    dir.add("items.z".to_string());
    assert_eq!(ids(&dir), vec!["items.a", "items.z"]);
}
