use mcp_config::NameMap;

fn names(map: &NameMap<u32>) -> Vec<String> {
    map.entries().iter().map(|entry| entry.0.clone()).collect()
}

#[test]
fn a_new_map_is_empty() {
    let map: NameMap<u32> = NameMap::new();
    assert!(map.is_empty());
    assert_eq!(map.len(), 0);
    assert!(map.get("a").is_none());
    assert!(!map.contains_name("a"));
}

#[test]
fn insert_files_new_names_behind_the_others() {
    let mut map = NameMap::new();
    assert_eq!(map.insert("b".to_string(), 1), None);
    assert_eq!(map.insert("a".to_string(), 2), None);
    assert_eq!(map.insert("c".to_string(), 3), None);
    assert_eq!(names(&map), vec!["b", "a", "c"]);
    assert_eq!(map.len(), 3);
    assert!(!map.is_empty());
    assert_eq!(map.get("a"), Some(&2));
    assert!(map.contains_name("c"));
    assert!(!map.contains_name("d"));
}

#[test]
fn insert_replaces_the_value_of_a_known_name_in_place() {
    let mut map = NameMap::new();
    map.insert("b".to_string(), 1);
    map.insert("a".to_string(), 2);
    assert_eq!(map.insert("b".to_string(), 7), Some(1));
    assert_eq!(names(&map), vec!["b", "a"]);
    assert_eq!(map.get("b"), Some(&7));
    assert_eq!(map.len(), 2);
}

#[test]
fn remove_takes_the_entry_out_and_keeps_the_order() {
    let mut map = NameMap::new();
    map.insert("a".to_string(), 1);
    map.insert("b".to_string(), 2);
    map.insert("c".to_string(), 3);
    assert_eq!(map.remove("b"), Some(2));
    assert_eq!(names(&map), vec!["a", "c"]);
    assert_eq!(map.get("b"), None);
    assert_eq!(map.remove("b"), None);
    assert_eq!(map.len(), 2);
}

#[test]
fn the_empty_name_is_a_name_like_any_other() {
    let mut map = NameMap::new();
    map.insert(String::new(), 1);
    assert_eq!(map.get(""), Some(&1));
    assert_eq!(map.remove(""), Some(1));
    assert!(map.is_empty());
}

#[test]
fn a_clone_has_the_same_entries() {
    let mut map = NameMap::new();
    map.insert("a".to_string(), 1);
    map.insert("b".to_string(), 2);
    let copy = map.clone();
    map.remove("a");
    assert_eq!(names(&copy), vec!["a", "b"]);
    assert_eq!(copy.get("a"), Some(&1));
    assert_eq!(copy.get("b"), Some(&2));
}
