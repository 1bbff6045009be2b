use nextest_runner::keymap::{keys_lt, KeyOrder, NameMap, PathMap};
use nextest_runner::package::PackageIndex;
use nextest_runner::path_mapper::{rebase, PathMapper};

fn graph() -> PackageIndex {
    PackageIndex { workspace_root: "/build/ws".to_owned(), packages: Vec::new() }
}

#[test]
fn working_directories_move_with_the_workspace() {
    let mapper = PathMapper::new(&graph(), Some("/run/ws".to_owned()), None)
        .expect("there is something to map");
    assert_eq!(mapper.map_cwd("/build/ws/crate-a".to_owned()), "/run/ws/crate-a");
    assert_eq!(mapper.map_cwd("/other/path".to_owned()), "/other/path");
    // Only whole components count as a prefix.
    assert_eq!(mapper.map_cwd("/build/wsx/crate-a".to_owned()), "/build/wsx/crate-a");
    assert_eq!(mapper.map_cwd("/build/ws/a/b/c".to_owned()), "/run/ws/a/b/c");
    assert_eq!(mapper.map_cwd("/build/ws".to_owned()), "/run/ws/");
    // Binaries stay where they are.
    assert_eq!(mapper.map_binary("/build/ws/target/t-1".to_owned()), "/build/ws/target/t-1");
}

#[test]
fn binaries_move_into_one_directory() {
    let mapper = PathMapper::new(&graph(), None, Some("/run/bin".to_owned()))
        .expect("there is something to map");
    assert_eq!(mapper.map_binary("/build/ws/target/debug/deps/t-1".to_owned()), "/run/bin/t-1");
    assert_eq!(mapper.map_binary("t-1".to_owned()), "/run/bin/t-1");
    // A path without a file name stays.
    assert_eq!(mapper.map_binary("/".to_owned()), "/");
    assert_eq!(mapper.map_binary("/a/..".to_owned()), "/a/..");
    // Working directories stay where they are.
    assert_eq!(mapper.map_cwd("/build/ws/crate-a".to_owned()), "/build/ws/crate-a");
}

#[test]
fn nothing_to_map_gives_no_mapper() {
    assert!(PathMapper::new(&graph(), None, None).is_none());
    assert!(PathMapper::new(&graph(), Some("/run".to_owned()), None).is_some());
    assert!(PathMapper::new(&graph(), None, Some("/bin".to_owned())).is_some());
    assert!(PathMapper::new(&graph(), Some("/run".to_owned()), Some("/bin".to_owned())).is_some());
}

#[test]
fn rebase_moves_what_has_a_rest() {
    assert_eq!(rebase("/build/ws/a".to_owned(), Some("a".to_owned()), "/run/ws"), "/run/ws/a");
    assert_eq!(rebase("/other".to_owned(), None, "/run/ws"), "/other");
    assert_eq!(rebase("/x".to_owned(), Some("/abs".to_owned()), "/run/ws"), "/abs");
}

#[test]
fn names_are_ordered_as_text_and_paths_by_component() {
    assert!(keys_lt(KeyOrder::Text, "a", "b"));
    assert!(!keys_lt(KeyOrder::Text, "b", "a"));
    assert!(!keys_lt(KeyOrder::Text, "a", "a"));
    assert!(keys_lt(KeyOrder::Text, "a", "ab"));
    assert!(keys_lt(KeyOrder::Text, "", "a"));
    assert!(keys_lt(KeyOrder::Text, "Z", "a"));
    // `.` comes before `/` as text, but `a` before `a.b` as a component.
    assert!(keys_lt(KeyOrder::Text, "/a.b", "/a/b"));
    assert!(keys_lt(KeyOrder::Path, "/a/b", "/a.b"));
    assert!(!keys_lt(KeyOrder::Path, "/a.b", "/a/b"));
    // Two spellings of one path.
    assert!(!keys_lt(KeyOrder::Path, "/a/b", "/a//b"));
    assert!(!keys_lt(KeyOrder::Path, "/a//b", "/a/b"));
}

#[test]
fn a_map_keeps_its_keys_in_order() {
    let mut map: NameMap<u32> = NameMap::new();
    assert!(map.is_empty());
    assert_eq!(map.key_order(), KeyOrder::Text);
    map.insert("m".to_owned(), 1);
    map.insert("z".to_owned(), 2);
    map.insert("a".to_owned(), 3);
    map.insert("m".to_owned(), 4);
    map.insert("n".to_owned(), 5);
    assert_eq!(map.len(), 4);
    let entries: Vec<(&str, u32)> =
        (0..map.len()).map(|i| (map.key_at(i).as_str(), *map.value_at(i))).collect();
    assert_eq!(entries, vec![("a", 3), ("m", 4), ("n", 5), ("z", 2)]);
    assert_eq!(map.get("m"), Some(&4));
    assert_eq!(map.get("b"), None);
    assert_eq!(map.get(""), None);
    let copy = map.duplicate();
    assert_eq!(copy.len(), 4);
    assert_eq!(copy.get("z"), Some(&2));
}

#[test]
fn a_path_map_knows_a_path_by_every_spelling() {
    let mut map: PathMap<u32> = PathMap::new();
    assert_eq!(map.key_order(), KeyOrder::Path);
    map.insert("/x/y".to_owned(), 1);
    map.insert("/x//y/".to_owned(), 2);
    assert_eq!(map.len(), 1);
    assert_eq!(map.key_at(0), "/x/y");
    assert_eq!(map.get("/x/y"), Some(&2));
    assert_eq!(map.get("/x/./y"), Some(&2));
    assert_eq!(map.get("/x"), None);
    // Replacing takes the new spelling too.
    map.replace("/x/y/".to_owned(), 3);
    assert_eq!(map.len(), 1);
    assert_eq!(map.key_at(0), "/x/y/");
    assert_eq!(map.get("/x/y"), Some(&3));
    map.replace("/a".to_owned(), 4);
    assert_eq!(map.key_at(0), "/a");
    assert_eq!(map.len(), 2);
}
