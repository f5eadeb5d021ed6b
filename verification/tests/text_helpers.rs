use nvda_rust::keyed_map::KeyedMap;
use nvda_rust::numbers::{is_wspace, parse_leading_int, wtoi_blank};
use nvda_rust::search::{bytes_start_with, find_bytes, find_chars, find_subslice, units_start_with};
use nvda_rust::strings::{append_str, chars_of, str_contains, str_eq, str_starts_with};
use nvda_rust::url_name::{last_position_before, name_for_url_exec, position_of};
use nvda_rust::white_space::{char_is_white_space, str_is_all_white_space};
use nvda_rust::wide::{
    append_units, ascii_utf16, dec, dec64, eq_ic, push_utf16, slice_eq, starts_with_ascii_ci, utf16,
    utf16_lossy, weq,
};

fn w(s: &str) -> Vec<u16> {
    s.encode_utf16().collect()
}

#[test]
fn leading_integers() {
    assert_eq!(parse_leading_int(&w("  42abc")), Some(42));
    assert_eq!(parse_leading_int(&w("\n-7")), Some(-7));
    assert_eq!(parse_leading_int(&w("+")), None);
    assert_eq!(parse_leading_int(&w("x1")), None);
    assert_eq!(parse_leading_int(&w("4294967297")), Some(1));
    assert_eq!(wtoi_blank(&w("\t 12")), 12);
    assert_eq!(wtoi_blank(&w("\n12")), 0);
    assert_eq!(wtoi_blank(&w("")), 0);
    assert!(is_wspace(0x3000));
    assert!(!is_wspace(0x41));
}

#[test]
fn utf16_helpers() {
    let mut v = Vec::new();
    push_utf16(&mut v, 'A');
    push_utf16(&mut v, '\u{1F600}');
    assert_eq!(v, w("A\u{1F600}"));
    append_units(&mut v, &w("b"));
    assert_eq!(v, w("A\u{1F600}b"));
    assert_eq!(utf16("é"), w("é"));
    assert_eq!(dec(-2147483648), w("-2147483648"));
    assert_eq!(dec(0), w("0"));
    assert_eq!(dec64(i64::MAX), w("9223372036854775807"));
    assert_eq!(utf16_lossy(&[0xD83D, 0xDE00, 0xD800]), "\u{1F600}\u{FFFD}");
}

#[test]
fn ascii_comparisons() {
    assert!(eq_ic(&w("HiDdEn"), "hidden"));
    assert!(!eq_ic(&w("hidde"), "hidden"));
    assert!(starts_with_ascii_ci(&w("DATA:image"), "data:"));
    assert!(!starts_with_ascii_ci(&w("dat"), "data:"));
    assert!(slice_eq(&w("Span"), "Span"));
    assert!(!slice_eq(&w("span"), "Span"));
    assert!(weq(&w("Chrome"), "Chrome"));
    assert!(!weq(&w("Chrome "), "Chrome"));
}

#[test]
fn searching() {
    assert_eq!(find_subslice(&w("abcabc"), &w("ca")), Some(2));
    assert_eq!(find_subslice(&w("abc"), &w("")), Some(0));
    assert_eq!(find_subslice(&w("ab"), &w("abc")), None);
    assert_eq!(find_bytes(b"xxVID_1", b"VID_"), Some(2));
    assert_eq!(find_bytes(b"xx", b"VID_"), None);
    let hay: Vec<char> = "héllo".chars().collect();
    let needle: Vec<char> = "llo".chars().collect();
    assert_eq!(find_chars(&hay, &needle), Some(2));
    assert!(bytes_start_with(b"VID_1", b"VID"));
    assert!(!bytes_start_with(b"VI", b"VID"));
    assert!(units_start_with(&w("Description: x"), &w("Description: ")));
    assert_eq!(position_of(&w("a?b?"), 0x3F), Some(1));
    assert_eq!(last_position_before(&w("a?b?c"), 4, 0x3F), Some(3));
    assert_eq!(last_position_before(&w("a?b?c"), 3, 0x3F), Some(1));
    assert_eq!(position_of(&w("ab"), 0x3F), None);
}

#[test]
fn strings() {
    let mut s = String::from("ab");
    append_str(&mut s, "cé");
    assert_eq!(s, "abcé");
    assert_eq!(chars_of("hé"), vec!['h', 'é']);
    assert!(str_contains("treegrid", "grid"));
    assert!(!str_contains("tree", "grid"));
    assert!(str_eq("a", "a"));
    assert!(str_starts_with("BTHENUM\\x", "BTHENUM\\"));
    assert!(char_is_white_space('\u{2028}'));
    assert!(!char_is_white_space('x'));
    assert!(str_is_all_white_space(" \t"));
    assert!(str_is_all_white_space(""));
    assert!(!str_is_all_white_space(" x"));
}

#[test]
fn url_names_without_query_past_anchor() {
    assert_eq!(name_for_url_exec(&w("http://h/f#a?b"), false), w("f#a  a?b"));
    assert_eq!(name_for_url_exec(&w("http://h/f#a?b"), true), w("f#a b a?b"));
}

#[test]
fn keyed_map_behaves_as_a_map() {
    let mut m: KeyedMap<i32, i32> = KeyedMap::new();
    assert!(!m.contains_key(&1));
    m.insert(1, 10);
    m.insert(2, 20);
    m.insert(1, 11);
    assert_eq!(m.get(&1), Some(&11));
    assert_eq!(m.get(&2), Some(&20));
    m.remove(&1);
    assert_eq!(m.get(&1), None);
    assert!(m.contains_key(&2));
    let mut s: KeyedMap<String, Vec<u16>> = KeyedMap::new();
    s.insert("k".to_string(), w("v"));
    assert_eq!(s.get(&"k".to_string()), Some(&w("v")));
}

#[test]
fn ascii_text_widens_each_byte() {
    assert_eq!(ascii_utf16("IAccessibleAction_"), w("IAccessibleAction_"));
    assert_eq!(ascii_utf16(""), Vec::<u16>::new());
    assert_eq!(ascii_utf16("a:b"), vec![0x61, 0x3A, 0x62]);
}
