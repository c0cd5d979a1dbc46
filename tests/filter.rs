use metrics_proxy::filter::{filter_metrics, ServiceError};
use metrics_proxy::tag_map::{build_tags_map, ServiceInfo, ServiceTag, TagMap};
use metrics_proxy::text::{chars_of, contains_chars, is_blank_char};

fn service(name: &str, tags: &[&str]) -> ServiceInfo {
    ServiceInfo {
        id: 7,
        name: name.to_string(),
        url: String::new(),
        tags: tags
            .iter()
            .map(|t| ServiceTag { id: 3, name: t.to_string(), tag_id: 4, value: String::from("v") })
            .collect(),
    }
}

fn sample_map() -> TagMap {
    build_tags_map(vec![service("A", &["web"]), service("B", &["web", "db"])])
}

const RAW: &str = "# HELP up service up\nup{monitor_name=\"A\",} 1\nup{monitor_name=\"B\",} 1";

#[test]
fn filters_by_db_tag() {
    let out = filter_metrics(RAW.to_string(), "db".to_string(), sample_map());
    match out {
        Ok(text) => assert_eq!(text, "# HELP up service up\nup{monitor_name=\"B\",} 1"),
        Err(_) => panic!("expected filtered metrics"),
    }
}

#[test]
fn filters_by_web_tag_keeps_all() {
    let out = filter_metrics(RAW.to_string(), "web".to_string(), sample_map());
    assert_eq!(out.ok(), Some(RAW.to_string()));
}

#[test]
fn unknown_tag_fails() {
    let out = filter_metrics(RAW.to_string(), "cache".to_string(), sample_map());
    match out {
        Err(ServiceError::UnknownTag(tag)) => assert_eq!(tag, "cache"),
        Ok(_) => panic!("expected an unknown tag"),
    }
}

#[test]
fn unknown_tag_fails_on_comments_only() {
    let out = filter_metrics("# HELP a\n\n# TYPE a gauge".to_string(), "cache".to_string(), sample_map());
    assert!(matches!(out, Err(ServiceError::UnknownTag(_))));
    let out = filter_metrics(String::new(), "cache".to_string(), sample_map());
    assert!(matches!(out, Err(ServiceError::UnknownTag(_))));
}

#[test]
fn unknown_tag_message_names_tag() {
    let err = ServiceError::UnknownTag("cache".to_string());
    assert_eq!(err.message(), "No matched services for tag \"cache\"");
}

#[test]
fn tag_without_members_keeps_comments_and_blanks() {
    let mut map = TagMap::new();
    map.insert("empty".to_string(), vec![]);
    let raw = "# HELP up x\nup{monitor_name=\"A\",} 1\n   \n# TYPE up gauge\nup{monitor_name=\"B\",} 0\n";
    let out = filter_metrics(raw.to_string(), "empty".to_string(), map);
    assert_eq!(out.ok(), Some("# HELP up x\n   \n# TYPE up gauge\n".to_string()));
}

#[test]
fn filtering_twice_equals_once() {
    let raw = "# HELP up x\nup{monitor_name=\"A\",} 1\n\nup{monitor_name=\"B\",} 1\nother 2\n";
    let once = filter_metrics(raw.to_string(), "db".to_string(), sample_map()).ok().unwrap();
    let twice = filter_metrics(once.clone(), "db".to_string(), sample_map()).ok().unwrap();
    assert_eq!(once, "# HELP up x\n\nup{monitor_name=\"B\",} 1\n");
    assert_eq!(twice, once);
}

#[test]
fn line_matching_two_members_is_emitted_once() {
    let raw = "pair{monitor_name=\"A\",x=\"1\"} monitor_name=\"B\", 1";
    let out = filter_metrics(raw.to_string(), "web".to_string(), sample_map());
    assert_eq!(out.ok(), Some(raw.to_string()));
}

#[test]
fn duplicate_member_emits_line_once() {
    let map = build_tags_map(vec![service("A", &["web", "web"])]);
    let out = filter_metrics("up{monitor_name=\"A\",} 1".to_string(), "web".to_string(), map);
    assert_eq!(out.ok(), Some("up{monitor_name=\"A\",} 1".to_string()));
}

#[test]
fn marker_needs_trailing_comma() {
    let out = filter_metrics("up{monitor_name=\"B\"} 1".to_string(), "db".to_string(), sample_map());
    assert_eq!(out.ok(), Some(String::new()));
}

#[test]
fn name_prefix_does_not_match() {
    let map = build_tags_map(vec![service("B", &["db"])]);
    let out = filter_metrics("up{monitor_name=\"BB\",} 1\nup{monitor_name=\"B\",} 2".to_string(), "db".to_string(), map);
    assert_eq!(out.ok(), Some("up{monitor_name=\"B\",} 2".to_string()));
}

#[test]
fn empty_input_stays_empty() {
    let out = filter_metrics(String::new(), "db".to_string(), sample_map());
    assert_eq!(out.ok(), Some(String::new()));
}

#[test]
fn non_ascii_text_is_kept_intact() {
    let raw = "# HELP ünïcode ✓\nup{monitor_name=\"B\",label=\"é\"} 1\nup{monitor_name=\"A\",} 1";
    let out = filter_metrics(raw.to_string(), "db".to_string(), sample_map());
    assert_eq!(
        out.ok(),
        Some("# HELP ünïcode ✓\nup{monitor_name=\"B\",label=\"é\"} 1".to_string())
    );
}

#[test]
fn unicode_blank_line_is_kept() {
    let raw = "\u{3000}\t\nup{monitor_name=\"A\",} 1";
    let out = filter_metrics(raw.to_string(), "db".to_string(), sample_map());
    assert_eq!(out.ok(), Some("\u{3000}\t".to_string()));
}

#[test]
fn substring_search() {
    let hay = chars_of("abcabd");
    assert!(contains_chars(&hay, &chars_of("abd")));
    assert!(contains_chars(&hay, &chars_of("")));
    assert!(!contains_chars(&hay, &chars_of("abe")));
    assert!(!contains_chars(&chars_of("ab"), &chars_of("abc")));
}

#[test]
fn blank_characters() {
    for c in [' ', '\t', '\n', '\r', '\u{85}', '\u{a0}', '\u{2003}', '\u{3000}'] {
        assert!(is_blank_char(c));
        assert!(c.is_whitespace());
    }
    for c in ['a', '#', '\u{200b}', '0'] {
        assert!(!is_blank_char(c));
        assert!(!c.is_whitespace());
    }
}
