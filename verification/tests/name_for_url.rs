use nvda_rust::ia2::name_for_url::get_name_for_url;
use nvda_rust::url_name::ELLIPSIS;

fn w(s: &str) -> Vec<u16> {
    s.encode_utf16().collect()
}

#[test]
fn empty_url() {
    assert_eq!(get_name_for_url(&w("")), w(""));
}

#[test]
fn javascript_url_strips_protocol() {
    assert_eq!(get_name_for_url(&w("javascript:doSomething()")), w("doSomething()"));
}

#[test]
fn mailto_strips_protocol() {
    assert_eq!(get_name_for_url(&w("mailto:user@example.com")), w("user@example.com"));
}

#[test]
fn data_image_returns_empty() {
    assert_eq!(get_name_for_url(&w("data:image/png;base64,iVBORw0KGgo")), w(""));
}

#[test]
fn data_image_case_insensitive() {
    assert_eq!(get_name_for_url(&w("DATA:IMAGE/PNG;base64,xx")), w(""));
}

#[test]
fn http_url_extracts_filename() {
    assert_eq!(get_name_for_url(&w("https://example.com/path/file.html")), w("file"));
}

#[test]
fn http_trailing_slash() {
    assert_eq!(get_name_for_url(&w("https://example.com/path/dir/")), w("dir"));
}

#[test]
fn http_hostname_only_keeps_extension() {
    assert_eq!(get_name_for_url(&w("https://example.com")), w("example.com"));
}

#[test]
fn http_with_query() {
    assert_eq!(
        get_name_for_url(&w("https://example.com/file.html?a=1&b=2")),
        w("file a=1&b=2")
    );
}

#[test]
fn http_with_anchor() {
    assert_eq!(get_name_for_url(&w("https://example.com/file.html#sect1")), w("file sect1"));
}

#[test]
fn truncates_long_name() {
    let long_seg = "a".repeat(40);
    let url = format!("https://example.com/{long_seg}.html");
    let result = get_name_for_url(&w(&url));
    assert_eq!(result.len(), 31);
    assert_eq!(result[30], ELLIPSIS);
}

#[test]
fn query_and_anchor_both_kept() {
    assert_eq!(get_name_for_url(&w("http://h/p/f.txt?q=1#top")), w("f q=1 top"));
}

#[test]
fn anchor_before_query_keeps_query_to_end() {
    assert_eq!(get_name_for_url(&w("http://h/f#a?b")), w("f#a b a?b"));
}

#[test]
fn relative_path_without_protocol() {
    assert_eq!(get_name_for_url(&w("docs/readme.md")), w("readme"));
}

#[test]
fn long_non_path_protocol_is_truncated() {
    let target = "x".repeat(50);
    let url = format!("mailto:{target}");
    let mut expected = w(&"x".repeat(30));
    expected.push(0x2026);
    assert_eq!(get_name_for_url(&w(&url)), expected);
}

#[test]
fn short_non_path_protocol_is_kept_whole() {
    let target = "x".repeat(30);
    let url = format!("mailto:{target}");
    assert_eq!(get_name_for_url(&w(&url)), w(&target));
}
