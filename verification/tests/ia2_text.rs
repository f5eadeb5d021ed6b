use nvda_rust::ia2::text::{is_empty_text, OBJ_REPLACEMENT_CHAR};

#[test]
fn empty_slice_is_empty() {
    assert!(is_empty_text(&[]));
}

#[test]
fn all_spaces_is_empty() {
    let chars: Vec<u16> = "    ".encode_utf16().collect();
    assert!(is_empty_text(&chars));
}

#[test]
fn all_object_replacement_is_empty() {
    assert!(is_empty_text(&[OBJ_REPLACEMENT_CHAR; 5]));
}

#[test]
fn mixed_spaces_and_object_replacement_is_empty() {
    let mut chars: Vec<u16> = " ".encode_utf16().collect();
    chars.push(OBJ_REPLACEMENT_CHAR);
    chars.extend("\t\n".encode_utf16());
    chars.push(OBJ_REPLACEMENT_CHAR);
    assert!(is_empty_text(&chars));
}

#[test]
fn single_letter_is_not_empty() {
    let chars: Vec<u16> = "a".encode_utf16().collect();
    assert!(!is_empty_text(&chars));
}

#[test]
fn whitespace_around_letter_is_not_empty() {
    let chars: Vec<u16> = "  a  ".encode_utf16().collect();
    assert!(!is_empty_text(&chars));
}

#[test]
fn nbsp_alone_is_empty() {
    assert!(is_empty_text(&[0x00A0]));
}

#[test]
fn line_separator_is_not_crt_space() {
    assert!(!is_empty_text(&[0x2028]));
}
