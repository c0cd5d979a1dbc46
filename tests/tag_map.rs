use metrics_proxy::tag_map::{build_tags_map, ServiceInfo, ServiceTag, TagMap};

fn tag(name: &str) -> ServiceTag {
    ServiceTag { id: 1, name: name.to_string(), tag_id: 1, value: String::new() }
}

fn service(name: &str, tags: &[&str]) -> ServiceInfo {
    ServiceInfo {
        id: 1,
        name: name.to_string(),
        url: String::from("http://example.test"),
        tags: tags.iter().map(|t| tag(t)).collect(),
    }
}

fn members(map: &TagMap, tag: &str) -> Option<Vec<String>> {
    map.get(&tag.to_string()).cloned()
}

#[test]
fn builds_map_of_two_monitors() {
    let map = build_tags_map(vec![service("A", &["web"]), service("B", &["web", "db"])]);
    assert_eq!(map.len(), 2);
    assert_eq!(members(&map, "web"), Some(vec!["A".to_string(), "B".to_string()]));
    assert_eq!(members(&map, "db"), Some(vec!["B".to_string()]));
    assert_eq!(members(&map, "cache"), None);
}

#[test]
fn empty_monitor_list_gives_empty_map() {
    let map = build_tags_map(vec![]);
    assert_eq!(map.len(), 0);
    assert_eq!(members(&map, "web"), None);
}

#[test]
fn monitor_without_tags_adds_nothing() {
    let map = build_tags_map(vec![service("A", &[]), service("B", &["db"])]);
    assert_eq!(map.len(), 1);
    assert_eq!(members(&map, "db"), Some(vec!["B".to_string()]));
}

#[test]
fn repeated_tag_keeps_repeats() {
    let map = build_tags_map(vec![service("A", &["web", "web"]), service("B", &["web"])]);
    assert_eq!(
        members(&map, "web"),
        Some(vec!["A".to_string(), "A".to_string(), "B".to_string()])
    );
}

#[test]
fn member_order_follows_monitor_order() {
    let map = build_tags_map(vec![
        service("Z", &["x"]),
        service("M", &["y", "x"]),
        service("A", &["x"]),
    ]);
    assert_eq!(
        members(&map, "x"),
        Some(vec!["Z".to_string(), "M".to_string(), "A".to_string()])
    );
    assert_eq!(members(&map, "y"), Some(vec!["M".to_string()]));
}

#[test]
fn insert_replaces_members() {
    let mut map = TagMap::new();
    map.insert("web".to_string(), vec!["A".to_string()]);
    map.insert("web".to_string(), vec![]);
    map.insert("db".to_string(), vec!["B".to_string()]);
    assert_eq!(map.len(), 2);
    assert_eq!(members(&map, "web"), Some(vec![]));
    assert_eq!(members(&map, "db"), Some(vec!["B".to_string()]));
}
