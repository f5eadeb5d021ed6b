use nvda_rust::mshtml::{attr_html, html_key, Attribs};
use nvda_rust::mshtml_format::{
    add_html_attribute, attributes_to_read, text_formatting_attributes, truncate_src_data,
    AttributeValue, StyleValues,
};

fn w(s: &str) -> Vec<u16> {
    s.encode_utf16().collect()
}

#[test]
fn reads_by_element() {
    let td: Vec<&str> = attributes_to_read(&w("TD")).iter().map(|r| r.0).collect();
    assert_eq!(&td[..6], &["id", "headers", "colspan", "rowspan", "scope", "longdesc"]);
    let a = attributes_to_read(&w("A"));
    assert_eq!(a[1], ("href", true));
    let div = attributes_to_read(&w("DIV"));
    assert_eq!(div.len(), 32);
    assert_eq!(div[0], ("id", false));
    assert_eq!(div[2], ("alt", true));
    assert_eq!(div[31], ("aria-placeholder", false));
    assert_eq!(attributes_to_read(&w("INPUT")).len(), 34);
}

#[test]
fn attribute_values() {
    let mut a = Attribs::new();
    add_html_attribute(&mut a, "title", AttributeValue::Text(w("")), false);
    assert!(attr_html(&a, "title").is_none());
    add_html_attribute(&mut a, "alt", AttributeValue::Text(w("")), true);
    assert_eq!(attr_html(&a, "alt"), Some(&w("")));
    add_html_attribute(&mut a, "colspan", AttributeValue::Number(3), false);
    assert_eq!(attr_html(&a, "colspan"), Some(&w("3")));
    add_html_attribute(&mut a, "id", AttributeValue::Absent, true);
    assert!(attr_html(&a, "id").is_none());
    assert_eq!(a.get(&html_key("alt")), Some(&w("")));
}

#[test]
fn src_data_is_truncated() {
    let mut a = Attribs::new();
    a.insert(html_key("src"), w("data:image/png;base64,AAAA"));
    a.insert(html_key("alt"), w("data:x;base64,BB"));
    truncate_src_data(&mut a);
    assert_eq!(attr_html(&a, "src"), Some(&w("data:image/png;base64,<truncated>")));
    assert_eq!(attr_html(&a, "alt"), Some(&w("data:x;base64,BB")));
    let mut b = Attribs::new();
    b.insert(html_key("src"), w("http://x/data:base64,"));
    truncate_src_data(&mut b);
    assert_eq!(attr_html(&b, "src"), Some(&w("http://x/data:base64,")));
    let mut c = Attribs::new();
    truncate_src_data(&mut c);
    assert!(attr_html(&c, "src").is_none());
}

fn pairs(attrs: &[(Vec<u16>, Vec<u16>)]) -> Vec<(String, String)> {
    attrs
        .iter()
        .map(|(k, v)| (String::from_utf16(k).unwrap(), String::from_utf16(v).unwrap()))
        .collect()
}

fn p(k: &str, v: &str) -> (String, String) {
    (k.to_string(), v.to_string())
}

#[test]
fn formatting_without_style() {
    assert_eq!(pairs(&text_formatting_attributes(&w(""), 0, None)), vec![p("formatState", "0")]);
    assert_eq!(
        pairs(&text_formatting_attributes(&w("fr"), 24, None)),
        vec![p("language", "fr"), p("formatState", "24")]
    );
}

#[test]
fn formatting_from_style() {
    let style = StyleValues {
        text_align: Some(w("center")),
        font_size: Some(w("")),
        vertical_align: Some(w("baseline")),
        font_family: Some(w("")),
        font_style: Some(w("Oblique")),
        font_weight: Some(700),
        text_decoration: Some(w("underline  line-through overline")),
    };
    assert_eq!(
        pairs(&text_formatting_attributes(&w(""), 1, Some(&style))),
        vec![
            p("formatState", "1"),
            p("text-align", "center"),
            p("font-size", ""),
            p("text-position", "baseline"),
            p("italic", "1"),
            p("bold", "1"),
            p("underline", "1"),
            p("strikethrough", "1"),
            p("overline", "1"),
        ]
    );
    let plain = StyleValues {
        text_align: None,
        font_size: None,
        vertical_align: None,
        font_family: Some(w("Arial")),
        font_style: Some(w("NORMAL")),
        font_weight: Some(400),
        text_decoration: Some(w("None")),
    };
    assert_eq!(
        pairs(&text_formatting_attributes(&w(""), 2, Some(&plain))),
        vec![p("formatState", "2"), p("font-family", "Arial")]
    );
    let custom = StyleValues {
        text_align: None,
        font_size: None,
        vertical_align: None,
        font_family: None,
        font_style: Some(w("italic")),
        font_weight: None,
        text_decoration: None,
    };
    assert_eq!(
        pairs(&text_formatting_attributes(&w(""), 0, Some(&custom))),
        vec![p("formatState", "0"), p("italic", "1")]
    );
}
