use nvda_rust::attribs::AttribMap;
use nvda_rust::ia2::details_roles::extend_details_roles;
use nvda_rust::ia2::gecko_backend_state::GeckoBackendState;
use nvda_rust::ia2::hyperlink_getter::{make_hyperlink_getter, HyperlinkGetter, HyperlinkStep};
use nvda_rust::ia2::leaf_content::{leaf_content, LeafContent};
use nvda_rust::ia2::navigation::{child_index, content_offset, FindWhat, TextFacts};
use nvda_rust::ia2::relations::{label_is_visible, relation_request_limit, relation_targets_kept};
use nvda_rust::ia2::roles::{is_combo_text_box, long_role};
use nvda_rust::ia2::table_cell::{
    cell_position_attributes, header_cells_attribute, header_cells_value,
    presentational_table_attributes, HeaderAxis, RowColumnExtents,
};
use nvda_rust::ia2::text_chunks::{text_position_attributes, ChunkStep, TextChunker};
use nvda_rust::ia2::vbuf_rules::{
    action_attributes, block2_state, block3_state, ROLE_SYSTEM_GRAPHIC, ROLE_SYSTEM_PROGRESSBAR, ROLE_SYSTEM_TEXT,
    STATE_SYSTEM_FOCUSABLE, STATE_SYSTEM_INDETERMINATE, STATE_SYSTEM_LINKED,
};
use nvda_rust::ia2::webkit_render::{
    children_suppressed, event_node_id, leaf_text, role_from_variant, skips_node,
    states_from_variant, win_event_is_relevant, RoleVariant, StateVariant, ROLE_SYSTEM_COLUMN,
    ROLE_SYSTEM_COMBOBOX, ROLE_SYSTEM_LIST, STATE_SYSTEM_READONLY,
};

fn w(s: &str) -> Vec<u16> {
    s.encode_utf16().collect()
}

fn map_of(pairs: &[(&str, &str)]) -> AttribMap {
    let mut m = AttribMap::new();
    for (k, v) in pairs {
        m.insert(k.to_string(), v.to_string());
    }
    m
}

#[test]
fn find_what_tags() {
    assert_eq!(FindWhat::from_raw(0), Some(FindWhat::First));
    assert_eq!(FindWhat::from_raw(4), Some(FindWhat::SelectionEnd));
    assert_eq!(FindWhat::from_raw(5), None);
    assert!(FindWhat::Last.is_reverse());
    assert!(FindWhat::SelectionEnd.is_reverse());
    assert!(!FindWhat::Caret.is_reverse());
}

#[test]
fn content_offsets() {
    let facts = TextFacts { caret: Some(7), n_characters: Some(10), n_selections: Some(1), first_selection: Some((2, 5)) };
    assert_eq!(content_offset(FindWhat::First, &facts), Some(0));
    assert_eq!(content_offset(FindWhat::Caret, &facts), Some(7));
    assert_eq!(content_offset(FindWhat::Last, &facts), Some(9));
    assert_eq!(content_offset(FindWhat::SelectionStart, &facts), Some(2));
    assert_eq!(content_offset(FindWhat::SelectionEnd, &facts), Some(4));
    let empty = TextFacts { caret: None, n_characters: None, n_selections: Some(0), first_selection: None };
    assert_eq!(content_offset(FindWhat::Caret, &empty), None);
    assert_eq!(content_offset(FindWhat::Last, &empty), Some(0));
    assert_eq!(content_offset(FindWhat::SelectionStart, &empty), None);
    let wrap = TextFacts { caret: None, n_characters: None, n_selections: Some(1), first_selection: Some((0, i32::MIN)) };
    assert_eq!(content_offset(FindWhat::SelectionEnd, &wrap), Some(i32::MAX));
}

#[test]
fn children_are_visited_once_each() {
    for what in [FindWhat::First, FindWhat::Last] {
        let mut seen: Vec<i32> = (1..=5).map(|i| child_index(what, 5, i)).collect();
        if what == FindWhat::Last {
            assert_eq!(seen, vec![5, 4, 3, 2, 1]);
        }
        seen.sort();
        assert_eq!(seen, vec![1, 2, 3, 4, 5]);
    }
}

#[test]
fn cell_position() {
    let e = RowColumnExtents { row: 0, column: 2, row_extents: 1, column_extents: 3, is_selected: false };
    let attrs = cell_position_attributes(&e);
    let names: Vec<&str> = attrs.iter().map(|a| a.0).collect();
    assert_eq!(names, vec!["table-rownumber", "table-columnnumber", "table-columnsspanned"]);
    assert_eq!(attrs[0].1, w("1"));
    assert_eq!(attrs[1].1, w("3"));
    assert_eq!(attrs[2].1, w("3"));
    let big = RowColumnExtents { row: i32::MAX, column: 0, row_extents: 2, column_extents: 0, is_selected: true };
    let attrs = cell_position_attributes(&big);
    assert_eq!(attrs[0].1, w("-2147483648"));
    assert_eq!(attrs[2].0, "table-rowsspanned");
    assert_eq!(attrs[2].1, w("2"));
}

#[test]
fn header_cells() {
    assert_eq!(header_cells_value(&[(65538, 12), (7, -3)]), w("65538,12;7,-3;"));
    assert_eq!(header_cells_value(&[]), w(""));
    let (name, value) = header_cells_attribute(HeaderAxis::Row, &[(1, 2)]).unwrap();
    assert_eq!(name, "table-rowheadercells");
    assert_eq!(value, w("1,2;"));
    assert_eq!(HeaderAxis::Column.attribute_name(), "table-columnheadercells");
    assert!(header_cells_attribute(HeaderAxis::Column, &[]).is_none());
}

#[test]
fn presentational_attributes() {
    let m = map_of(&[("rowindex", "4"), ("colcount", "9")]);
    let parent = w("2");
    let (attrs, row) = presentational_table_attributes(&m, Some(&parent));
    let names: Vec<&str> = attrs.iter().map(|a| a.0).collect();
    assert_eq!(names, vec!["table-rownumber-presentational", "table-rownumber-presentational", "table-columncount-presentational"]);
    assert_eq!(attrs[0].1, w("2"));
    assert_eq!(attrs[1].1, w("4"));
    assert_eq!(attrs[2].1, w("9"));
    assert_eq!(row, Some(w("4")));
    let (attrs, row) = presentational_table_attributes(&map_of(&[]), None);
    assert!(attrs.is_empty());
    assert_eq!(row, None);
}

#[test]
fn gecko_state_chrome_detection() {
    let mut s = GeckoBackendState::new();
    assert!(!s.is_chrome());
    assert!(s.begin_render(true, w("Chrome")));
    assert!(s.begin_render(false, w("Firefox")));
    assert!(!s.begin_render(true, w("Firefox")));
    assert_eq!(s.toolkit_name, w("Firefox"));
    let d = GeckoBackendState::default();
    assert!(d.toolkit_name.is_empty());
}

#[test]
fn hyperlink_getter_kinds() {
    assert!(matches!(make_hyperlink_getter(true, true), Some(HyperlinkGetter::Ht2 { links: None, index: 0 })));
    assert!(matches!(make_hyperlink_getter(false, true), Some(HyperlinkGetter::Ht { index: 0 })));
    assert!(make_hyperlink_getter(false, false).is_none());
}

#[test]
fn one_by_one_walk_fetches_by_index() {
    let mut g = make_hyperlink_getter(false, true).unwrap();
    assert_eq!(g.next(), HyperlinkStep::FetchAt(0));
    assert_eq!(g.next(), HyperlinkStep::FetchAt(1));
    g.supply_links(vec![Some(5)]);
    assert_eq!(g.next(), HyperlinkStep::FetchAt(2));
}

#[test]
fn list_walk_hands_out_each_link_once() {
    let mut g = make_hyperlink_getter(true, false).unwrap();
    assert_eq!(g.next(), HyperlinkStep::FetchAll);
    assert_eq!(g.next(), HyperlinkStep::FetchAll);
    g.supply_links(vec![Some(10), None, Some(30)]);
    g.supply_links(vec![Some(99)]);
    assert_eq!(g.next(), HyperlinkStep::Yield(Some(10)));
    assert_eq!(g.next(), HyperlinkStep::Yield(None));
    assert_eq!(g.next(), HyperlinkStep::Yield(Some(30)));
    assert_eq!(g.next(), HyperlinkStep::Yield(None));
    match &g {
        HyperlinkGetter::Ht2 { links: Some(v), index } => {
            assert_eq!(v, &vec![None, None, None]);
            assert_eq!(*index, 4);
        }
        _ => panic!("expected a list walk"),
    }
}

fn walk(text: &[u16], runs: &[Option<i32>]) -> (Vec<(usize, usize)>, Vec<usize>, Vec<i32>) {
    let mut c = TextChunker::new(text);
    let mut chunks = Vec::new();
    let mut objects = Vec::new();
    let mut fetches = Vec::new();
    let mut next_run = 0;
    loop {
        let step: ChunkStep = c.step(text);
        if let Some(ch) = step.chunk {
            chunks.push(ch);
        }
        if let Some(at) = step.fetch_at {
            fetches.push(at);
            let end = runs.get(next_run).copied().unwrap_or(None);
            next_run += 1;
            c.run_fetched(end, None);
        }
        if let Some(at) = step.embedded_at {
            objects.push(at);
        }
        if step.done {
            break;
        }
    }
    assert!(c.is_finished());
    (chunks, objects, fetches)
}

#[test]
fn text_is_cut_at_runs_and_objects() {
    let mut text = w("ab");
    text.push(0xFFFC);
    text.extend(w("cdef"));
    let (chunks, objects, fetches) = walk(&text, &[Some(5), Some(100)]);
    assert_eq!(chunks, vec![(0, 2), (3, 5), (5, 7)]);
    assert_eq!(objects, vec![2]);
    assert_eq!(fetches, vec![0, 5]);
    let mut rendered = Vec::new();
    for (s, e) in &chunks {
        rendered.extend_from_slice(&text[*s..*e]);
    }
    assert_eq!(rendered, w("abcdef"));
}

#[test]
fn failed_run_fetch_lasts_to_the_end() {
    let text = w("hello");
    let (chunks, objects, fetches) = walk(&text, &[None]);
    assert_eq!(chunks, vec![(0, 5)]);
    assert!(objects.is_empty());
    assert_eq!(fetches, vec![0]);
    let (chunks, _, fetches) = walk(&[], &[]);
    assert!(chunks.is_empty());
    assert!(fetches.is_empty());
}

#[test]
fn run_attributes_follow_the_fetch() {
    let text = w("ab");
    let mut c = TextChunker::new(&text);
    let step = c.step(&text);
    assert_eq!(step.fetch_at, Some(0));
    assert!(c.is_awaiting_run());
    c.run_fetched(Some(1), Some(map_of(&[("font-weight", "700")])));
    assert_eq!(c.run_attributes().get("font-weight").map(|s| s.as_str()), Some("700"));
    let step = c.step(&text);
    assert_eq!(step.chunk, Some((0, 1)));
    assert_eq!(c.run_attributes().len(), 1);
    c.run_fetched(None, Some(map_of(&[("x", "y")])));
    assert_eq!(c.run_attributes().len(), 0);
}

#[test]
fn text_position() {
    let a = text_position_attributes(3, 65552, -7);
    assert_eq!(a[0], ("ia2TextStartOffset", w("3")));
    assert_eq!(a[1], ("ia2TextWindowHandle", w("65552")));
    assert_eq!(a[2], ("ia2TextUniqueID", w("-7")));
}

fn b2(role: i32, states: i32, name: Option<&str>) -> nvda_rust::ia2::vbuf_rules::Block2State {
    block2_state(role, &map_of(&[]), 5, 1, states, 0, name.map(w), None, w("en"))
}

#[test]
fn graphic_leaf_content() {
    let m = map_of(&[]);
    let named = b2(ROLE_SYSTEM_GRAPHIC, 0, Some("Logo"));
    let b3 = block3_state(ROLE_SYSTEM_GRAPHIC, &m, &named, 0, None, None);
    assert!(matches!(leaf_content(ROLE_SYSTEM_GRAPHIC, &named, &b3, None, None, false), LeafContent::Text(t) if t == w("Logo")));
    let empty = b2(ROLE_SYSTEM_GRAPHIC, 0, Some(""));
    assert!(matches!(leaf_content(ROLE_SYSTEM_GRAPHIC, &empty, &b3, None, None, false), LeafContent::NotInteractive));
    let unnamed_link = b2(ROLE_SYSTEM_GRAPHIC, STATE_SYSTEM_LINKED, None);
    assert!(unnamed_link.is_interactive);
    let value = w("http://example.com/images/home.png");
    match leaf_content(ROLE_SYSTEM_GRAPHIC, &unnamed_link, &b3, Some(&value), None, false) {
        LeafContent::Text(t) => assert_eq!(t, w("home")),
        _ => panic!("expected the URL name"),
    }
    assert!(matches!(leaf_content(ROLE_SYSTEM_GRAPHIC, &unnamed_link, &b3, Some(&value), None, true), LeafContent::NotInteractive));
    let focusable = b2(ROLE_SYSTEM_GRAPHIC, STATE_SYSTEM_FOCUSABLE, None);
    match leaf_content(ROLE_SYSTEM_GRAPHIC, &focusable, &b3, None, Some("pics/logo.gif"), false) {
        LeafContent::Text(t) => assert_eq!(t, w("logo")),
        _ => panic!("expected the src name"),
    }
    let plain = b2(ROLE_SYSTEM_GRAPHIC, 0, None);
    assert!(matches!(leaf_content(ROLE_SYSTEM_GRAPHIC, &plain, &b3, None, Some("x.png"), false), LeafContent::Nothing));
}

#[test]
fn other_leaf_content() {
    let m = map_of(&[]);
    let bar = b2(ROLE_SYSTEM_PROGRESSBAR, STATE_SYSTEM_INDETERMINATE, None);
    let b3 = block3_state(ROLE_SYSTEM_PROGRESSBAR, &m, &bar, 0, None, None);
    assert!(matches!(leaf_content(ROLE_SYSTEM_PROGRESSBAR, &bar, &b3, None, None, false), LeafContent::Space));
    let field = b2(ROLE_SYSTEM_TEXT, STATE_SYSTEM_FOCUSABLE, None);
    let b3 = block3_state(ROLE_SYSTEM_TEXT, &m, &field, 0, None, None);
    let v = w("typed");
    assert!(matches!(leaf_content(ROLE_SYSTEM_TEXT, &field, &b3, Some(&v), None, false), LeafContent::Text(t) if t == w("typed")));
    assert!(matches!(leaf_content(ROLE_SYSTEM_TEXT, &field, &b3, None, None, false), LeafContent::Nothing));
}

#[test]
fn details_roles_over_targets() {
    let v = extend_details_roles(None, &[Some(w("note")), None, Some(w("comment"))]).unwrap();
    assert_eq!(v, w("note,unknown,comment"));
    let v = extend_details_roles(Some(w("")), &[Some(w("x"))]).unwrap();
    assert_eq!(v, w(",x"));
    assert_eq!(extend_details_roles(None, &[]), None);
    assert_eq!(extend_details_roles(Some(w("a")), &[]), Some(w("a")));
}

#[test]
fn relation_limits() {
    assert_eq!(relation_request_limit(1, true), 0);
    assert_eq!(relation_request_limit(1, false), 1);
    assert_eq!(relation_targets_kept(5, 1), 1);
    assert_eq!(relation_targets_kept(5, 0), 5);
    assert_eq!(relation_targets_kept(2, 4), 2);
    assert_eq!(relation_targets_kept(-1, 0), 0);
    assert!(label_is_visible(Some(0), true));
    assert!(!label_is_visible(Some(0x8000), true));
    assert!(!label_is_visible(Some(0), false));
    assert!(!label_is_visible(None, true));
}

#[test]
fn roles_and_combo_boxes() {
    assert_eq!(long_role(0x414, &RoleVariant::Failed), (0x414, None));
    assert_eq!(long_role(0, &RoleVariant::Number(0x2a)), (0x2a, None));
    assert_eq!(long_role(0, &RoleVariant::Text(w("custom"))), (0, Some(w("custom"))));
    assert_eq!(long_role(0, &RoleVariant::Empty), (0, None));
    assert!(is_combo_text_box(Some(ROLE_SYSTEM_TEXT), Some(STATE_SYSTEM_FOCUSABLE)));
    assert!(!is_combo_text_box(Some(ROLE_SYSTEM_TEXT), Some(0)));
    assert!(!is_combo_text_box(Some(ROLE_SYSTEM_LIST), Some(STATE_SYSTEM_FOCUSABLE)));
    assert!(!is_combo_text_box(None, Some(STATE_SYSTEM_FOCUSABLE)));
}

#[test]
fn webkit_roles_and_states() {
    assert_eq!(role_from_variant(&RoleVariant::Number(0x2b)), (0x2b, w("43")));
    assert_eq!(role_from_variant(&RoleVariant::Text(w("grid"))), (0, w("grid")));
    assert_eq!(role_from_variant(&RoleVariant::Failed), (0, w("0")));
    assert_eq!(role_from_variant(&RoleVariant::Empty), (0, w("0")));
    assert_eq!(role_from_variant(&RoleVariant::Other), (0, w("")));
    assert_eq!(states_from_variant(&StateVariant::Number(0x40)), 0x40);
    assert_eq!(states_from_variant(&StateVariant::Other), 0);
    assert_eq!(states_from_variant(&StateVariant::Failed), 0);
    assert!(skips_node(ROLE_SYSTEM_COLUMN));
    assert!(!skips_node(ROLE_SYSTEM_LIST));
    assert!(children_suppressed(ROLE_SYSTEM_COMBOBOX, 0));
    assert!(children_suppressed(ROLE_SYSTEM_LIST, 0));
    assert!(!children_suppressed(ROLE_SYSTEM_LIST, STATE_SYSTEM_READONLY));
    assert!(children_suppressed(ROLE_SYSTEM_TEXT, STATE_SYSTEM_FOCUSABLE));
    assert!(!children_suppressed(ROLE_SYSTEM_TEXT, 0));
}

#[test]
fn webkit_leaf_text() {
    let name = w("Submit");
    let value = w("v");
    let desc = w("Description: More info");
    assert_eq!(leaf_text(0x2b, 0, Some(&name), Some(&value), None), w("Submit"));
    assert_eq!(leaf_text(ROLE_SYSTEM_COMBOBOX, 0, Some(&name), Some(&value), None), w("v"));
    assert_eq!(leaf_text(0x2b, 0, Some(&w("")), None, Some(&desc)), w("More info"));
    assert_eq!(leaf_text(0x2b, 0, None, None, Some(&w("plain"))), w(""));
    assert_eq!(leaf_text(ROLE_SYSTEM_TEXT, STATE_SYSTEM_FOCUSABLE, Some(&name), None, None), w(" "));
    assert_eq!(leaf_text(0x2b, 0, None, None, None), w(""));
}

#[test]
fn webkit_events() {
    assert!(win_event_is_relevant(0x800e));
    assert!(win_event_is_relevant(0x800a));
    assert!(win_event_is_relevant(0x8004));
    assert!(!win_event_is_relevant(0x800c));
    assert_eq!(event_node_id(-42), 42);
    assert_eq!(event_node_id(7), -7);
    assert_eq!(event_node_id(i32::MIN), i32::MIN);
}

#[test]
fn actions_give_attributes_and_interactivity() {
    let plain = b2(ROLE_SYSTEM_TEXT, 0, None);
    assert!(!plain.is_interactive);
    let names = vec![Some(w("jump")), None, Some(w("click"))];
    let (attrs, interactive) = action_attributes(&plain, &names);
    assert_eq!(
        attrs,
        vec![(w("IAccessibleAction_jump"), w("0")), (w("IAccessibleAction_click"), w("2"))]
    );
    assert!(interactive);
    let (attrs, interactive) = action_attributes(&plain, &[Some(w("press"))]);
    assert_eq!(attrs, vec![(w("IAccessibleAction_press"), w("0"))]);
    assert!(!interactive);
    let (attrs, interactive) = action_attributes(&plain, &[]);
    assert!(attrs.is_empty());
    assert!(!interactive);
}
