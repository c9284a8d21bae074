use prompt_core::paths::{file_name_parts, join_path};
use prompt_core::string_map::StringMap;

#[test]
fn joining_paths() {
    assert_eq!(join_path("a", "b"), "a/b");
    assert_eq!(join_path("a/", "b"), "a/b");
    assert_eq!(join_path("", "b"), "b");
    assert_eq!(join_path("a", "/b"), "/b");
    assert_eq!(join_path("/home/u", ".prompt"), "/home/u/.prompt");
}

#[test]
fn splitting_file_names() {
    assert_eq!(file_name_parts("bedrock.js"), (String::from("bedrock"), Some(String::from("js"))));
    assert_eq!(
        file_name_parts("anthropic.js.js"),
        (String::from("anthropic.js"), Some(String::from("js")))
    );
    assert_eq!(file_name_parts(".hidden"), (String::from(".hidden"), None));
    assert_eq!(file_name_parts("noext"), (String::from("noext"), None));
    assert_eq!(file_name_parts("foo."), (String::from("foo"), Some(String::new())));
    assert_eq!(file_name_parts(".."), (String::from(".."), None));
    assert_eq!(file_name_parts("photo.png"), (String::from("photo"), Some(String::from("png"))));
}

#[test]
fn string_map_replaces_in_place_and_appends() {
    let mut map: StringMap<i32> = StringMap::new();
    map.insert(String::from("a"), 1);
    map.insert(String::from("b"), 2);
    map.insert(String::from("a"), 3);
    assert_eq!(map.len(), 2);
    assert_eq!(map.get(&String::from("a")), Some(&3));
    assert_eq!(map.get(&String::from("b")), Some(&2));
    assert_eq!(map.get(&String::from("c")), None);
    assert!(map.contains_key(&String::from("b")));
    assert!(!map.contains_key(&String::from("c")));
    let entries: Vec<(String, i32)> = map.entries().clone();
    assert_eq!(entries, vec![(String::from("a"), 3), (String::from("b"), 2)]);
}

#[test]
fn maps_are_equal_whatever_order() {
    let mut a: StringMap<i32> = StringMap::new();
    a.insert(String::from("x"), 1);
    a.insert(String::from("y"), 2);
    let mut b: StringMap<i32> = StringMap::new();
    b.insert(String::from("y"), 2);
    b.insert(String::from("x"), 1);
    assert!(a == b);

    b.insert(String::from("x"), 3);
    assert!(a != b);

    let mut c: StringMap<i32> = StringMap::new();
    c.insert(String::from("x"), 1);
    assert!(a != c);
    c.insert(String::from("z"), 2);
    assert!(a != c);
}
