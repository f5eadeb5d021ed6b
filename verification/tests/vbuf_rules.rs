use nvda_rust::attribs::AttribMap;
use nvda_rust::ia2::vbuf_rules::{
    block2_state, block3_state, compute_is_block_element, has_aria_hidden_attribute,
    has_xml_role_attrib_containing_value, is_whitespace_w, normalize_role, role_attribute,
    state_attribute_names, table_propagation, table_summary, xml_roles_contains_word,
    LabelInfo, TablePropagation, IA2_ROLE_INTERNAL_FRAME, IA2_ROLE_SECTION, IA2_ROLE_UNKNOWN,
    IA2_STATE_EDITABLE, IA2_STATE_MULTI_LINE, ROLE_SYSTEM_CELL, ROLE_SYSTEM_CHECKBUTTON,
    ROLE_SYSTEM_DOCUMENT, ROLE_SYSTEM_EQUATION, ROLE_SYSTEM_GRAPHIC, ROLE_SYSTEM_LIST,
    ROLE_SYSTEM_OUTLINE, ROLE_SYSTEM_SEPARATOR, ROLE_SYSTEM_TABLE, ROLE_SYSTEM_TEXT,
    STATE_SYSTEM_FOCUSABLE,
};
use nvda_rust::wide::slice_eq;

fn map_of(pairs: &[(&str, &str)]) -> AttribMap {
    let mut m = AttribMap::new();
    for (k, v) in pairs {
        m.insert(k.to_string(), v.to_string());
    }
    m
}

fn w(s: &str) -> Vec<u16> {
    s.encode_utf16().collect()
}

#[test]
fn xml_roles_substring_match() {
    let m = map_of(&[("xml-roles", "treegrid checkbox")]);
    assert!(has_xml_role_attrib_containing_value(&m, "treegrid"));
    assert!(has_xml_role_attrib_containing_value(&m, "checkbox"));
    assert!(has_xml_role_attrib_containing_value(&m, "tree"));
    assert!(!has_xml_role_attrib_containing_value(&m, "absent"));
}

#[test]
fn xml_roles_missing_attribute() {
    let m = map_of(&[]);
    assert!(!has_xml_role_attrib_containing_value(&m, "treegrid"));
}

#[test]
fn aria_hidden_true() {
    let m = map_of(&[("hidden", "true")]);
    assert!(has_aria_hidden_attribute(&m));
}

#[test]
fn aria_hidden_false_or_missing() {
    let m = map_of(&[("hidden", "false")]);
    assert!(!has_aria_hidden_attribute(&m));
    let empty = map_of(&[]);
    assert!(!has_aria_hidden_attribute(&empty));
}

#[test]
fn is_block_multiline_state_wins() {
    let m = map_of(&[("display", "inline")]);
    assert!(compute_is_block_element(IA2_STATE_MULTI_LINE, &m, 0));
}

#[test]
fn is_block_display_attribute_authoritative() {
    let m_block = map_of(&[("display", "block")]);
    assert!(compute_is_block_element(0, &m_block, 0));
    for inline in ["inline", "inline-block", "inline-flex"] {
        let m = map_of(&[("display", inline)]);
        assert!(!compute_is_block_element(0, &m, 0));
    }
}

#[test]
fn is_block_formatting_block() {
    let m = map_of(&[("formatting", "block")]);
    assert!(compute_is_block_element(0, &m, ROLE_SYSTEM_TEXT));
    let m_other = map_of(&[("formatting", "inline")]);
    assert!(!compute_is_block_element(0, &m_other, ROLE_SYSTEM_TEXT));
}

#[test]
fn is_block_role_fallback() {
    let empty = map_of(&[]);
    for role in [
        ROLE_SYSTEM_TABLE,
        ROLE_SYSTEM_CELL,
        IA2_ROLE_SECTION,
        ROLE_SYSTEM_DOCUMENT,
        IA2_ROLE_INTERNAL_FRAME,
        IA2_ROLE_UNKNOWN,
        ROLE_SYSTEM_SEPARATOR,
    ] {
        assert!(compute_is_block_element(0, &empty, role), "role {role:#x}");
    }
    for role in [ROLE_SYSTEM_TEXT, ROLE_SYSTEM_GRAPHIC] {
        assert!(!compute_is_block_element(0, &empty, role), "role {role:#x}");
    }
}

#[test]
fn xml_roles_word_boundary_basic() {
    let m = map_of(&[("xml-roles", "presentation")]);
    assert!(xml_roles_contains_word(&m, "presentation"));
    let m_with_others = map_of(&[("xml-roles", "menubar presentation")]);
    assert!(xml_roles_contains_word(&m_with_others, "presentation"));
    assert!(xml_roles_contains_word(&m_with_others, "menubar"));
}

#[test]
fn xml_roles_word_boundary_partial_no_match() {
    let m = map_of(&[("xml-roles", "representation")]);
    assert!(!xml_roles_contains_word(&m, "presentation"));
}

#[test]
fn xml_roles_word_boundary_missing_attr() {
    let m = map_of(&[]);
    assert!(!xml_roles_contains_word(&m, "presentation"));
}

#[test]
fn xml_roles_word_separators_and_empty_tokens() {
    let m = map_of(&[("xml-roles", "a-b,,c_d")]);
    assert!(xml_roles_contains_word(&m, "a"));
    assert!(xml_roles_contains_word(&m, "b"));
    assert!(xml_roles_contains_word(&m, "c_d"));
    assert!(!xml_roles_contains_word(&m, "c"));
    assert!(xml_roles_contains_word(&m, ""));
    assert!(!xml_roles_contains_word(&m, "a-b"));
}

#[test]
fn slice_eq_matches_ascii_only() {
    let click: Vec<u16> = "click".encode_utf16().collect();
    assert!(slice_eq(&click, "click"));
    assert!(!slice_eq(&click, "clic"));
    assert!(!slice_eq(&click, "clicks"));
    let empty: [u16; 0] = [];
    assert!(slice_eq(&empty, ""));
}

#[test]
fn whitespace_check_handles_common_cases() {
    for c in [' ', '\t', '\r', '\n', '\u{00a0}', '\u{2028}'] {
        assert!(is_whitespace_w(c as u16), "{c:?}");
    }
    for c in ['a', '0', '_', '\u{fffc}'] {
        assert!(!is_whitespace_w(c as u16), "{c:?}");
    }
}

#[test]
fn whitespace_check_agrees_with_char_is_whitespace() {
    for c in 0u16..=0xFFFF {
        let expected = char::from_u32(c as u32).map(|ch| ch.is_whitespace()).unwrap_or(false);
        assert_eq!(is_whitespace_w(c), expected, "{c:#x}");
    }
}

#[test]
fn role_normalisation() {
    let tree = map_of(&[("xml-roles", "treegrid")]);
    assert_eq!(normalize_role(ROLE_SYSTEM_OUTLINE, &tree), ROLE_SYSTEM_TABLE);
    let img = map_of(&[("tag", "img")]);
    assert_eq!(normalize_role(ROLE_SYSTEM_EQUATION, &img), ROLE_SYSTEM_GRAPHIC);
    assert_eq!(normalize_role(ROLE_SYSTEM_OUTLINE, &img), ROLE_SYSTEM_OUTLINE);
}

#[test]
fn role_attribute_is_string_or_decimal() {
    assert_eq!(role_attribute(0x18, None), w("24"));
    assert_eq!(role_attribute(-5, None), w("-5"));
    assert_eq!(role_attribute(0x18, Some(w("table"))), w("table"));
}

#[test]
fn state_attribute_names_cover_set_bits() {
    let names = state_attribute_names(&w("IAccessible::state_"), 0x5);
    assert_eq!(names, vec![w("IAccessible::state_1"), w("IAccessible::state_4")]);
    let high = state_attribute_names(&w("s"), i32::MIN);
    assert_eq!(high, vec![w("s-2147483648")]);
    assert!(state_attribute_names(&w("s"), 0).is_empty());
}

#[test]
fn block2_editable_is_removed_from_tables() {
    let m = map_of(&[]);
    let b = block2_state(ROLE_SYSTEM_TABLE, &m, 7, 1, 0, IA2_STATE_EDITABLE, None, None, vec![]);
    assert_eq!(b.ia2_states, 0);
    assert!(!b.is_editable);
    let root = block2_state(ROLE_SYSTEM_DOCUMENT, &m, 1, 1, STATE_SYSTEM_FOCUSABLE, 0, None, None, vec![]);
    assert!(root.is_root);
    assert!(root.is_never_interactive);
    assert!(!root.is_interactive);
}

#[test]
fn block2_presentation_focusable_is_never_interactive() {
    let m = map_of(&[("xml-roles", "presentation")]);
    let b = block2_state(ROLE_SYSTEM_TEXT, &m, 2, 1, STATE_SYSTEM_FOCUSABLE, 0, None, None, vec![]);
    assert!(b.is_editable);
    assert!(b.is_never_interactive);
    assert!(!b.is_interactive);
}

#[test]
fn block3_render_flags() {
    let m = map_of(&[]);
    let b2 = block2_state(ROLE_SYSTEM_LIST, &m, 2, 1, 0, 0, None, None, vec![]);
    let b3 = block3_state(ROLE_SYSTEM_LIST, &m, &b2, 3, None, None);
    assert!(b3.render_selected_item_only);
    assert!(!b3.render_children);
    assert!(b3.is_visible);
    let hidden = map_of(&[("hidden", "true")]);
    let b3h = block3_state(ROLE_SYSTEM_LIST, &hidden, &b2, 3, None, None);
    assert!(!b3h.is_visible);
    assert!(b3h.render_children);
    assert!(!b3h.render_selected_item_only);
}

#[test]
fn block3_checkbox_with_visible_label_is_not_content() {
    let m = map_of(&[("explicit-name", "true")]);
    let b2 = block2_state(ROLE_SYSTEM_CHECKBUTTON, &m, 2, 1, 0, 0, Some(w("Agree")), None, vec![]);
    let label = LabelInfo { is_visible: true, id: Some(9) };
    let b3 = block3_state(ROLE_SYSTEM_CHECKBUTTON, &m, &b2, 0, Some(label), None);
    assert!(!b3.name_is_content);
    assert!(b3.label_visible);
    assert_eq!(b3.label_id, Some(9));
    let b3_no_label = block3_state(ROLE_SYSTEM_CHECKBUTTON, &m, &b2, 0, None, None);
    assert!(b3_no_label.name_is_content);
    assert!(!b3_no_label.label_visible);
}

#[test]
fn block3_whitespace_text_is_unneeded() {
    let m = map_of(&[]);
    let b2 = block2_state(ROLE_SYSTEM_GRAPHIC, &m, 2, 1, 0, 0, None, None, vec![]);
    let b3 = block3_state(ROLE_SYSTEM_GRAPHIC, &m, &b2, 0, None, Some(w("  \t")));
    assert!(b3.ia2_text_is_unneeded_space);
    assert!(!b3.render_children);
    let b3_line = block3_state(ROLE_SYSTEM_GRAPHIC, &m, &b2, 0, None, Some(w(" \n")));
    assert!(!b3_line.ia2_text_is_unneeded_space);
}

#[test]
fn table_propagation_and_summary() {
    assert_eq!(table_propagation(true, true), TablePropagation::Promoted);
    assert_eq!(table_propagation(false, true), TablePropagation::Clear);
    assert_eq!(table_propagation(false, false), TablePropagation::Inherit);
    let m = map_of(&[]);
    let b2 = block2_state(ROLE_SYSTEM_TABLE, &m, 2, 1, 0, 0, Some(w("Prices")), Some(w("")), vec![]);
    let b3 = block3_state(ROLE_SYSTEM_TABLE, &m, &b2, 1, None, None);
    assert_eq!(table_summary(&b2, &b3), Some(&w("Prices")));
}
