use nvda_rust::mshtml::{html_key, Attribs};
use nvda_rust::mshtml_changes::{deepest_common_ancestor, element_id_for, embedding_tag, range_invalidation};
use nvda_rust::mshtml_live::{
    changed_text, is_reportable_text, live_region_report, pre_process_live_region, record_atomic,
    walk_up_parent_live_state, AncestorAria, LiveReport, LiveState,
};

fn w(s: &str) -> Vec<u16> {
    s.encode_utf16().collect()
}

fn attrs_of(pairs: &[(&str, &str)]) -> Attribs {
    let mut a = Attribs::new();
    for (k, v) in pairs {
        a.insert(html_key(k), w(v));
    }
    a
}

fn live(politeness: &str) -> LiveState {
    LiveState {
        live_root: Some(1),
        politeness: w(politeness),
        text_relevant: true,
        additions_relevant: true,
        busy: false,
        atomic_node: None,
        atomic_politeness: Vec::new(),
    }
}

#[test]
fn live_state_from_own_attributes() {
    let parent = LiveState::default();
    let s = pre_process_live_region(5, &attrs_of(&[("aria-live", "polite"), ("aria-relevant", "additions")]), &parent);
    assert_eq!(s.live_root, Some(5));
    assert_eq!(s.politeness, w("polite"));
    assert!(!s.text_relevant);
    assert!(s.additions_relevant);
    let off = pre_process_live_region(6, &attrs_of(&[("aria-live", "off")]), &s);
    assert_eq!(off.live_root, None);
    assert!(off.politeness.is_empty());
    let all = pre_process_live_region(7, &attrs_of(&[("aria-relevant", "all"), ("aria-busy", "true")]), &s);
    assert!(all.text_relevant && all.additions_relevant && all.busy);
    assert_eq!(all.politeness, w("polite"));
}

#[test]
fn live_state_inherits_and_atomic() {
    let parent = live("assertive");
    let s = pre_process_live_region(9, &attrs_of(&[("aria-atomic", "true"), ("aria-live", "")]), &parent);
    assert_eq!(s.live_root, Some(1));
    assert_eq!(s.atomic_node, Some(9));
    assert_eq!(s.atomic_politeness, w("assertive"));
    let child = pre_process_live_region(10, &Attribs::new(), &s);
    assert_eq!(child.atomic_node, Some(9));
    assert_eq!(child.politeness, w("assertive"));
    let not_atomic = pre_process_live_region(11, &attrs_of(&[("aria-atomic", "false")]), &s);
    assert_eq!(not_atomic.atomic_node, None);
    assert!(not_atomic.atomic_politeness.is_empty());
}

fn ancestor(live: Option<&str>, relevant: Option<&str>, busy: Option<&str>, atomic: Option<&str>) -> AncestorAria {
    AncestorAria { live: live.map(w), relevant: relevant.map(w), busy: busy.map(w), atomic: atomic.map(w) }
}

#[test]
fn walk_up_takes_nearest_declarations() {
    let chain = vec![
        ancestor(Some(""), None, None, Some("true")),
        ancestor(Some("polite"), Some("text"), None, None),
        ancestor(Some("assertive"), Some("all"), Some("true"), Some("false")),
    ];
    let s = walk_up_parent_live_state(&chain, 77);
    assert_eq!(s.live_root, None);
    assert_eq!(s.politeness, w("polite"));
    assert!(s.text_relevant);
    assert!(!s.additions_relevant);
    assert!(s.busy);
    assert_eq!(s.atomic_node, Some(77));
    assert_eq!(s.atomic_politeness, w("polite"));
    let none = walk_up_parent_live_state(&[], 1);
    assert!(none.politeness.is_empty());
    assert!(none.text_relevant && none.additions_relevant);
    assert_eq!(none.atomic_node, None);
}

#[test]
fn changed_runs() {
    assert_eq!(changed_text(&w("Score: 10"), &w("Score: 12")), w("2"));
    assert_eq!(changed_text(&w("abc"), &w("abc")), w(""));
    assert_eq!(changed_text(&w("ab"), &w("abab")), w("ab"));
    assert_eq!(changed_text(&w("hello world"), &w("hello")), w(""));
    assert_eq!(changed_text(&w(""), &w("new")), w("new"));
    assert_eq!(changed_text(&w("aXb"), &w("aYYb")), w("YY"));
}

#[test]
fn reportable_text() {
    assert!(!is_reportable_text(&w("")));
    assert!(!is_reportable_text(&w(" \t\u{a0}")));
    assert!(is_reportable_text(&w(" x ")));
}

#[test]
fn live_reports() {
    let s = live("polite");
    assert!(matches!(live_region_report(2, None, &w("added"), &s), LiveReport::Text(t, p) if t == w("added") && p == w("polite")));
    assert!(matches!(live_region_report(1, None, &w("root"), &s), LiveReport::Nothing));
    assert!(matches!(live_region_report(2, Some(&w("n 1")), &w("n 2"), &s), LiveReport::Text(t, _) if t == w("2")));
    assert!(matches!(live_region_report(2, Some(&w("same")), &w("same"), &s), LiveReport::Nothing));
    assert!(matches!(live_region_report(2, None, &w("   "), &s), LiveReport::Nothing));
    let mut busy = live("polite");
    busy.busy = true;
    assert!(matches!(live_region_report(2, None, &w("x"), &busy), LiveReport::Nothing));
    assert!(matches!(live_region_report(2, None, &w("x"), &LiveState::default()), LiveReport::Nothing));
    let mut atomic = live("assertive");
    atomic.atomic_node = Some(8);
    atomic.atomic_politeness = w("assertive");
    assert!(matches!(live_region_report(2, None, &w("x"), &atomic), LiveReport::Atomic(8, p) if p == w("assertive")));
    let mut no_text = live("polite");
    no_text.text_relevant = false;
    assert!(matches!(live_region_report(2, Some(&w("a")), &w("b"), &no_text), LiveReport::Nothing));
}

#[test]
fn atomic_nodes_recorded_once() {
    let mut list = Vec::new();
    record_atomic(&mut list, 3, w("polite"));
    record_atomic(&mut list, 4, w("assertive"));
    record_atomic(&mut list, 3, w("assertive"));
    assert_eq!(list, vec![(3, w("polite")), (4, w("assertive"))]);
}

#[test]
fn element_ids_and_frames() {
    assert_eq!(element_id_for(42), w("ms__id42"));
    assert_eq!(element_id_for(-1), w("ms__id-1"));
    assert_eq!(embedding_tag(Some(&w("FRAMESET"))), "FRAME");
    assert_eq!(embedding_tag(Some(&w("BODY"))), "IFRAME");
    assert_eq!(embedding_tag(None), "IFRAME");
}

#[test]
fn changed_range_node() {
    assert_eq!(deepest_common_ancestor(&[1, 2, 3, 4], &[1, 2, 5]), Some(2));
    assert_eq!(deepest_common_ancestor(&[1, 2], &[1, 2, 3]), Some(2));
    assert_eq!(deepest_common_ancestor(&[1], &[9]), None);
    assert_eq!(range_invalidation(Some(4), Some(4), &[], &[]), Some(4));
    assert_eq!(range_invalidation(Some(4), None, &[], &[]), Some(4));
    assert_eq!(range_invalidation(None, Some(5), &[], &[]), Some(5));
    assert_eq!(range_invalidation(None, None, &[], &[]), None);
    assert_eq!(range_invalidation(Some(4), Some(5), &[1, 2, 4], &[1, 2, 3, 5]), Some(2));
}
