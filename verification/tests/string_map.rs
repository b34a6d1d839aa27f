use std::collections::BTreeMap;

use styrolite::string_map::StringMap;

fn entries(map: &StringMap) -> Vec<(String, String)> {
    (0..map.len()).map(|i| (map.key_at(i).to_string(), map.value_at(i).to_string())).collect()
}

fn insert(map: StringMap, key: &str, value: &str) -> StringMap {
    map.insert(key.to_string(), value.to_string())
}

#[test]
fn a_new_map_is_empty() {
    let map = StringMap::new();
    assert_eq!(map.len(), 0);
    assert_eq!(map.get("PATH"), None);
}

#[test]
fn entries_come_out_in_the_order_of_their_keys() {
    let mut map = StringMap::new();
    for (key, value) in [("b", "2"), ("d", "4"), ("a", "1"), ("c", "3")] {
        map = insert(map, key, value);
    }
    assert_eq!(
        entries(&map),
        vec![
            ("a".to_string(), "1".to_string()),
            ("b".to_string(), "2".to_string()),
            ("c".to_string(), "3".to_string()),
            ("d".to_string(), "4".to_string()),
        ]
    );
}

#[test]
fn a_key_given_twice_keeps_its_last_value_and_its_place() {
    let mut map = StringMap::new();
    map = insert(map, "PATH", "/bin");
    map = insert(map, "HOME", "/root");
    map = insert(map, "PATH", "/usr/bin");
    assert_eq!(map.len(), 2);
    assert_eq!(map.get("PATH"), Some("/usr/bin"));
    assert_eq!(map.get("HOME"), Some("/root"));
    assert_eq!(map.key_at(0), "HOME");
    assert_eq!(map.key_at(1), "PATH");
}

#[test]
fn the_map_agrees_with_an_ordered_map_of_the_standard_library() {
    let pairs = [
        ("container", "styrolite"),
        ("PATH", "/bin:/sbin"),
        ("", "empty"),
        ("a", "1"),
        ("aa", "2"),
        ("B", "3"),
        ("a", "4"),
        ("é", "5"),
        ("memory.max", "256M"),
        ("PATH", "/usr/bin"),
        ("Z", ""),
    ];
    let mut map = StringMap::new();
    let mut reference = BTreeMap::new();
    for (key, value) in pairs {
        map = insert(map, key, value);
        reference.insert(key.to_string(), value.to_string());
        let expected: Vec<(String, String)> =
            reference.iter().map(|(k, v)| (k.clone(), v.clone())).collect();
        assert_eq!(entries(&map), expected);
    }
    for (key, value) in &reference {
        assert_eq!(map.get(key), Some(value.as_str()));
    }
    assert_eq!(map.get("absent"), None);
}

#[test]
fn a_copy_holds_the_same_entries() {
    let map = insert(insert(StringMap::new(), "k", "v"), "a", "b");
    let copy = map.clone();
    assert_eq!(copy, map);
    assert_eq!(entries(&copy), entries(&map));
}
