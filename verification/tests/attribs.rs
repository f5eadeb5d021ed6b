use nvda_rust::attribs::{parse_attribs, truncate_base64_src, AttribMap};

fn map(pairs: &[(&str, &str)]) -> AttribMap {
    let mut m = AttribMap::new();
    for (k, v) in pairs {
        m.insert(k.to_string(), v.to_string());
    }
    m
}

fn same(a: &AttribMap, b: &AttribMap, names: &[&str]) -> bool {
    a.len() == b.len()
        && names
            .iter()
            .all(|n| a.get(n).map(|s| s.as_str()) == b.get(n).map(|s| s.as_str()) && b.get(n).is_some())
}

fn assert_parses_to(input: &str, pairs: &[(&str, &str)]) {
    let names: Vec<&str> = pairs.iter().map(|(k, _)| *k).collect();
    assert!(same(&parse_attribs(input), &map(pairs), &names), "{input:?}");
}

#[test]
fn empty_input_yields_empty_map() {
    assert_parses_to("", &[]);
}

#[test]
fn single_pair_with_trailing_semicolon() {
    assert_parses_to("foo:bar;", &[("foo", "bar")]);
}

#[test]
fn single_pair_without_trailing_semicolon() {
    assert_parses_to("foo:bar", &[("foo", "bar")]);
}

#[test]
fn multiple_pairs() {
    assert_parses_to("a:1;b:2;c:3;", &[("a", "1"), ("b", "2"), ("c", "3")]);
}

#[test]
fn empty_value_is_preserved() {
    assert_parses_to("foo:;", &[("foo", "")]);
}

#[test]
fn empty_key_is_dropped() {
    assert_parses_to(":bar;", &[]);
}

#[test]
fn escaped_colon_in_value() {
    assert_parses_to("foo:a\\:b;", &[("foo", "a:b")]);
}

#[test]
fn escaped_semicolon_in_value() {
    assert_parses_to("foo:a\\;b;", &[("foo", "a;b")]);
}

#[test]
fn escaped_backslash_in_value() {
    assert_parses_to("foo:a\\\\b;", &[("foo", "a\\b")]);
}

#[test]
fn escaped_colon_in_key() {
    assert_parses_to("a\\:b:val;", &[("a:b", "val")]);
}

#[test]
fn duplicate_key_keeps_last_value() {
    assert_parses_to("k:v1;k:v2;", &[("k", "v2")]);
}

#[test]
fn src_data_base64_is_truncated() {
    assert_parses_to("src:data:image/png;base64,iVBORw0KGgo;", &[("src", "data:image/png")]);
}

#[test]
fn src_with_escaped_semicolon_truncated() {
    assert_parses_to(
        "src:data:image/png\\;base64,iVBORw0KGgo;",
        &[("src", "data:image/png;base64,<truncated>")],
    );
}

#[test]
fn src_without_data_prefix_not_truncated() {
    assert_parses_to("src:http://example.com/img.png;", &[("src", "http://example.com/img.png")]);
}

#[test]
fn non_src_data_value_not_truncated() {
    assert_parses_to(
        "href:data:text/plain\\;base64,abc;",
        &[("href", "data:text/plain;base64,abc")],
    );
}

#[test]
fn pair_without_colon_is_dropped() {
    assert_parses_to("novalue;k:v", &[("k", "v")]);
}

#[test]
fn colon_in_value_is_literal() {
    assert_parses_to("url:http://x", &[("url", "http://x")]);
}

#[test]
fn truncation_keeps_text_up_to_first_marker() {
    assert_parses_to(
        "src:data:a\\;base64,xx\\;base64,yy",
        &[("src", "data:a;base64,<truncated>")],
    );
}

#[test]
fn map_insert_replaces_and_counts_names_once() {
    let mut m = AttribMap::new();
    assert_eq!(m.len(), 0);
    m.insert("a".to_string(), "1".to_string());
    m.insert("b".to_string(), "2".to_string());
    m.insert("a".to_string(), "3".to_string());
    assert_eq!(m.len(), 2);
    assert_eq!(m.get("a").map(|s| s.as_str()), Some("3"));
    assert_eq!(m.get("b").map(|s| s.as_str()), Some("2"));
    assert!(m.get("c").is_none());
    assert!(m.contains_key("b"));
    assert!(!m.contains_key("c"));
}

#[test]
fn escaped_text_round_trips_through_parse() {
    let m = parse_attribs("a\\:b:c\\;d;e\\\\:x:y;");
    assert_eq!(m.len(), 2);
    assert_eq!(m.get("a:b").map(|s| s.as_str()), Some("c;d"));
    assert_eq!(m.get("e\\").map(|s| s.as_str()), Some("x:y"));
}

#[test]
fn truncating_src_twice_changes_nothing_more() {
    let mut m = map(&[("src", "data:image/png;base64,AAAA"), ("alt", "x")]);
    truncate_base64_src(&mut m);
    assert_eq!(m.get("src").map(|s| s.as_str()), Some("data:image/png;base64,<truncated>"));
    truncate_base64_src(&mut m);
    assert_eq!(m.get("src").map(|s| s.as_str()), Some("data:image/png;base64,<truncated>"));
    assert_eq!(m.get("alt").map(|s| s.as_str()), Some("x"));
}
