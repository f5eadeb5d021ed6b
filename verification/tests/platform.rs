use nvda_rust::lotus_notes::{child_role, control_content, win_event_is_relevant};
use nvda_rust::ia2::webkit_render::RoleVariant;
use nvda_rust::onecore::{
    markers_string, punctuation_mode, punctuation_silence_of, supports_prosody_options,
    supports_punctuation_silence, voice_entry, PunctuationSilence,
};
use nvda_rust::screen_curtain::{dib_row_bytes, dib_size, histograms_all_black, screen_area};
use std::cell::RefCell;

fn w(s: &str) -> Vec<u16> {
    s.encode_utf16().collect()
}

#[test]
fn contract_versions_asked_for() {
    let asked = RefCell::new(Vec::new());
    let present = |major: u16, minor: u16| {
        asked.borrow_mut().push((major, minor));
        major <= 5
    };
    assert!(supports_prosody_options(&present));
    assert!(!supports_punctuation_silence(&present));
    assert_eq!(*asked.borrow(), vec![(5, 0), (6, 0)]);
}

#[test]
fn punctuation_settings() {
    assert_eq!(punctuation_mode(true), PunctuationSilence::Default);
    assert_eq!(punctuation_mode(false), PunctuationSilence::Min);
    assert!(punctuation_silence_of(Some(PunctuationSilence::Default)));
    assert!(!punctuation_silence_of(Some(PunctuationSilence::Min)));
    assert!(!punctuation_silence_of(None));
}

#[test]
fn markers_text() {
    let markers = vec![Some((w("1"), 0i64)), Some((w("2"), 12_500_000)), None, Some((w("end"), -1))];
    assert_eq!(markers_string(&markers), w("1:0|2:12500000|end:-1"));
    assert_eq!(markers_string(&[]), w(""));
    assert_eq!(markers_string(&[None, Some((w("a"), 5))]), w("|a:5"));
    assert_eq!(markers_string(&[Some((w("x"), i64::MIN))]), w("x:-9223372036854775808"));
}

#[test]
fn voice_entries() {
    assert_eq!(voice_entry("HKLM\\V1", "en-US", "Zira"), "HKLM\\V1:en-US:Zira");
    assert_eq!(voice_entry("", "", ""), "::");
}

#[test]
fn screen_arithmetic() {
    assert_eq!(screen_area(1920, 1080), 2_073_600);
    assert_eq!(screen_area(-1, 1), u32::MAX);
    assert_eq!(screen_area(65536, 65536), 0);
    assert_eq!(dib_row_bytes(1920, 32), 7680);
    assert_eq!(dib_row_bytes(3, 24), 12);
    assert_eq!(dib_row_bytes(1, 1), 4);
    assert_eq!(dib_row_bytes(-40, 1), 0);
    assert_eq!(dib_row_bytes(-64, 1), -4);
    assert_eq!(dib_size(7680, 1080), 8_294_400);
}

#[test]
fn black_screen_verdict() {
    assert!(histograms_all_black(&[6, 0], &[6], &[6, 0, 0], 6));
    assert!(!histograms_all_black(&[5, 1], &[6], &[6], 6));
    assert!(!histograms_all_black(&[6], &[6], &[0], 6));
}

#[test]
fn lotus_children() {
    assert_eq!(child_role(&RoleVariant::Number(0x2a)), (0x2a, w("42")));
    assert_eq!(child_role(&RoleVariant::Failed), (0, w("0")));
    assert_eq!(child_role(&RoleVariant::Empty), (0, w("")));
    assert_eq!(child_role(&RoleVariant::Text(w("x"))), (0, w("x")));
    assert_eq!(control_content(0x2a, &w("name"), &w("value")), w("value"));
    assert_eq!(control_content(0x2a, &w("name"), &w("")), w(" "));
    assert_eq!(control_content(0x2b, &w("name"), &w("")), w("name"));
    assert_eq!(control_content(0x2b, &w(""), &w("")), w(" "));
    assert!(win_event_is_relevant(0x800c));
    assert!(win_event_is_relevant(0x8004));
    assert!(!win_event_is_relevant(0x8005));
}

#[test]
fn punctuation_setting_reads_back() {
    for silence in [true, false] {
        assert_eq!(punctuation_silence_of(Some(punctuation_mode(silence))), silence);
    }
}
