use nvda_rust::attribs::AttribMap;
use nvda_rust::ia2::live_regions::{
    is_atomic, is_container_atomic, is_container_busy, parse_container_relevant,
    parse_live_politeness, LivePoliteness, Relevance,
};

fn map(pairs: &[(&str, &str)]) -> AttribMap {
    let mut m = AttribMap::new();
    for (k, v) in pairs {
        m.insert(k.to_string(), v.to_string());
    }
    m
}

#[test]
fn live_politeness_absent_is_none() {
    assert_eq!(parse_live_politeness(&map(&[])), None);
}

#[test]
fn live_politeness_off_is_none() {
    assert_eq!(parse_live_politeness(&map(&[("container-live", "off")])), None);
}

#[test]
fn live_politeness_polite() {
    assert_eq!(
        parse_live_politeness(&map(&[("container-live", "polite")])),
        Some(LivePoliteness::Polite),
    );
}

#[test]
fn live_politeness_assertive() {
    assert_eq!(
        parse_live_politeness(&map(&[("container-live", "assertive")])),
        Some(LivePoliteness::Assertive),
    );
}

#[test]
fn live_politeness_rude() {
    assert_eq!(
        parse_live_politeness(&map(&[("container-live", "rude")])),
        Some(LivePoliteness::Rude),
    );
}

#[test]
fn live_politeness_unknown_is_none() {
    assert_eq!(parse_live_politeness(&map(&[("container-live", "loud")])), None);
}

#[test]
fn politeness_names_round_trip() {
    for p in [LivePoliteness::Polite, LivePoliteness::Assertive, LivePoliteness::Rude] {
        assert_eq!(parse_live_politeness(&map(&[("container-live", p.as_str())])), Some(p));
    }
    assert_eq!(LivePoliteness::Assertive.as_str(), "assertive");
}

#[test]
fn relevant_absent_defaults_to_all() {
    assert_eq!(parse_container_relevant(&map(&[])), Relevance { additions: true, text: true });
}

#[test]
fn relevant_all_explicit() {
    assert_eq!(
        parse_container_relevant(&map(&[("container-relevant", "all")])),
        Relevance { additions: true, text: true },
    );
}

#[test]
fn relevant_additions_only() {
    assert_eq!(
        parse_container_relevant(&map(&[("container-relevant", "additions")])),
        Relevance { additions: true, text: false },
    );
}

#[test]
fn relevant_text_only() {
    assert_eq!(
        parse_container_relevant(&map(&[("container-relevant", "text")])),
        Relevance { additions: false, text: true },
    );
}

#[test]
fn relevant_additions_and_text() {
    assert_eq!(
        parse_container_relevant(&map(&[("container-relevant", "additions text")])),
        Relevance { additions: true, text: true },
    );
}

#[test]
fn relevant_text_and_additions() {
    assert_eq!(
        parse_container_relevant(&map(&[("container-relevant", "text additions")])),
        Relevance { additions: true, text: true },
    );
}

#[test]
fn relevant_unrecognized_is_neither() {
    assert_eq!(
        parse_container_relevant(&map(&[("container-relevant", "removals")])),
        Relevance { additions: false, text: false },
    );
}

#[test]
fn busy_true() {
    assert!(is_container_busy(&map(&[("container-busy", "true")])));
}

#[test]
fn busy_false_value() {
    assert!(!is_container_busy(&map(&[("container-busy", "false")])));
}

#[test]
fn busy_absent() {
    assert!(!is_container_busy(&map(&[])));
}

#[test]
fn atomic_true() {
    assert!(is_atomic(&map(&[("atomic", "true")])));
}

#[test]
fn atomic_absent() {
    assert!(!is_atomic(&map(&[])));
}

#[test]
fn container_atomic_true() {
    assert!(is_container_atomic(&map(&[("container-atomic", "true")])));
}

#[test]
fn container_atomic_absent() {
    assert!(!is_container_atomic(&map(&[])));
}
