use nvda_rust::html_node::{
    adjust_accessibility, collapse_text, is_ignored_node, node_format_state, ordered_list_start,
    style_info, uppercase_node_name, FORMATSTATE_EMPH, FORMATSTATE_INSERTED, FORMATSTATE_STRONG,
    ROLE_SYSTEM_LINK, ROLE_SYSTEM_LIST, ROLE_SYSTEM_SLIDER, ROLE_SYSTEM_STATICTEXT,
    ROLE_SYSTEM_TEXT, STATE_SYSTEM_FOCUSABLE, STATE_SYSTEM_LINKED, STATE_SYSTEM_READONLY,
};
use nvda_rust::mshtml::{html_key, Attribs};

fn w(s: &str) -> Vec<u16> {
    s.encode_utf16().collect()
}

fn attrs_of(pairs: &[(&str, &str)]) -> Attribs {
    let mut a = Attribs::new();
    for (k, v) in pairs {
        a.insert(html_key(k), w(v));
    }
    a
}

#[test]
fn text_node_collapsing() {
    assert_eq!(collapse_text(&w("  a\tb\n"), false, false), Some(w("  a b ")));
    assert_eq!(collapse_text(&w("  a\tb"), false, true), Some(w("a b")));
    assert_eq!(collapse_text(&w(" \n\t"), false, false), None);
    assert_eq!(collapse_text(&w(" \n\t"), true, false), Some(w(" \n\t")));
    assert_eq!(collapse_text(&w(""), false, false), None);
}

#[test]
fn node_names() {
    assert_eq!(uppercase_node_name(&w("tbody")), w("TBODY"));
    assert_eq!(uppercase_node_name(&w("#text")), w("#TEXT"));
    assert!(is_ignored_node(&w("SCRIPT")));
    assert!(is_ignored_node(&w("#COMMENT")));
    assert!(!is_ignored_node(&w("DIV")));
}

#[test]
fn styles() {
    let s = style_info(Some(&w("HIDDEN")), Some(&w("inline-block")), Some(&w("decimal")));
    assert!(s.hidden);
    assert!(!s.is_block);
    assert!(!s.dont_render);
    assert_eq!(s.list_style, w("decimal"));
    let n = style_info(None, Some(&w("none")), None);
    assert!(n.dont_render && !n.is_block && !n.hidden);
    let b = style_info(Some(&w("")), Some(&w("block")), None);
    assert!(b.is_block && !b.hidden);
}

#[test]
fn format_states() {
    assert_eq!(node_format_state(0, &w("INS")), FORMATSTATE_INSERTED);
    assert_eq!(node_format_state(FORMATSTATE_STRONG, &w("EM")), FORMATSTATE_STRONG | FORMATSTATE_EMPH);
    assert_eq!(node_format_state(5, &w("DIV")), 5);
}

#[test]
fn list_start() {
    assert_eq!(ordered_list_start(&attrs_of(&[("start", " 7x")])), 7);
    assert_eq!(ordered_list_start(&attrs_of(&[("start", "x")])), 1);
    assert_eq!(ordered_list_start(&attrs_of(&[("start", "")])), 1);
    assert_eq!(ordered_list_start(&attrs_of(&[])), 1);
    assert_eq!(ordered_list_start(&attrs_of(&[("start", "-3")])), -3);
}

#[test]
fn accessibility_fixes() {
    let a = attrs_of(&[("role", "list")]);
    let acc = adjust_accessibility(&w("UL"), &a, ROLE_SYSTEM_TEXT, 0, &w(""), &w("n"), false, false);
    assert_eq!(acc.role, ROLE_SYSTEM_LIST);
    assert_ne!(acc.states & STATE_SYSTEM_READONLY, 0);
    assert_eq!(acc.aria_role, w("list"));

    let mut s = attrs_of(&[("role", "slider"), ("aria-label", "Volume")]);
    s.insert(w("aria-valuenow"), w("40"));
    let acc = adjust_accessibility(&w("DIV"), &s, 0, 0, &w("old"), &w("n"), false, false);
    assert_eq!(acc.role, ROLE_SYSTEM_SLIDER);
    assert_eq!(acc.value, w("40"));
    assert_eq!(acc.name, w("Volume"));
    assert_ne!(acc.states & STATE_SYSTEM_FOCUSABLE, 0);

    let d = attrs_of(&[("role", "description")]);
    let acc = adjust_accessibility(&w("DIV"), &d, ROLE_SYSTEM_TEXT, 0, &w(""), &w(""), false, false);
    assert_eq!(acc.role, ROLE_SYSTEM_STATICTEXT);

    let p = attrs_of(&[("role", "presentation")]);
    let acc = adjust_accessibility(&w("TABLE"), &p, 0, 0, &w(""), &w(""), false, false);
    assert!(acc.hidden);

    let anchor = attrs_of(&[]);
    let acc = adjust_accessibility(&w("A"), &anchor, ROLE_SYSTEM_LINK, STATE_SYSTEM_LINKED | STATE_SYSTEM_FOCUSABLE, &w(""), &w(""), false, false);
    assert_eq!(acc.states & (STATE_SYSTEM_LINKED | STATE_SYSTEM_FOCUSABLE), 0);

    let editable = attrs_of(&[]);
    let acc = adjust_accessibility(&w("DIV"), &editable, ROLE_SYSTEM_TEXT, STATE_SYSTEM_READONLY, &w(""), &w(""), true, false);
    assert_eq!(acc.states & STATE_SYSTEM_READONLY, 0);
    assert_eq!(acc.role, ROLE_SYSTEM_TEXT);
}
