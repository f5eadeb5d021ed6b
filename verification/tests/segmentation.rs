use nvda_rust::segmentation::{character_offsets, split_at_character_boundaries, word_offsets};

#[test]
fn test_split_ascii() {
    assert_eq!(split_at_character_boundaries("hello"), vec!["h", "e", "l", "l", "o"]);
}

#[test]
fn test_split_empty() {
    let result: Vec<&str> = split_at_character_boundaries("");
    assert!(result.is_empty());
}

#[test]
fn test_split_emoji_zwj() {
    let result = split_at_character_boundaries("👨‍👩‍👧‍👦");
    assert_eq!(result.len(), 1);
    assert_eq!(result[0], "👨\u{200d}👩\u{200d}👧\u{200d}👦");
}

#[test]
fn test_split_flag_emoji() {
    let result = split_at_character_boundaries("🇳🇱");
    assert_eq!(result.len(), 1);
}

#[test]
fn test_split_decomposed() {
    let result = split_at_character_boundaries("e\u{0301}");
    assert_eq!(result.len(), 1);
    assert_eq!(result[0], "e\u{0301}");
}

#[test]
fn test_split_surrogate_pairs() {
    let result = split_at_character_boundaries("𝕳𝖊𝖑𝖑𝖔");
    assert_eq!(result, vec!["𝕳", "𝖊", "𝖑", "𝖑", "𝖔"]);
}

#[test]
fn test_split_mixed() {
    let result = split_at_character_boundaries("a👨‍👩‍👧‍👦b");
    assert_eq!(result.len(), 3);
    assert_eq!(result[0], "a");
    assert_eq!(result[2], "b");
}

#[test]
fn test_split_cjk() {
    let result = split_at_character_boundaries("日本語");
    assert_eq!(result, vec!["日", "本", "語"]);
}

#[test]
fn test_char_offsets_ascii() {
    assert_eq!(character_offsets("hello", 0), (0, 1));
    assert_eq!(character_offsets("hello", 4), (4, 5));
}

#[test]
fn test_char_offsets_emoji_zwj() {
    let text = "a👨\u{200d}👩\u{200d}👧\u{200d}👦b";
    assert_eq!(character_offsets(text, 0), (0, 1));
    assert_eq!(character_offsets(text, 1), (1, 8));
    assert_eq!(character_offsets(text, 4), (1, 8));
    assert_eq!(character_offsets(text, 8), (8, 9));
}

#[test]
fn test_char_offsets_decomposed() {
    let text = "e\u{0301}x";
    assert_eq!(character_offsets(text, 0), (0, 2));
    assert_eq!(character_offsets(text, 1), (0, 2));
    assert_eq!(character_offsets(text, 2), (2, 3));
}

#[test]
fn test_char_offsets_beyond_end() {
    assert_eq!(character_offsets("abc", 5), (5, 6));
}

#[test]
fn test_split_crlf() {
    let result = split_at_character_boundaries("one\r\ntwo");
    assert_eq!(result, vec!["o", "n", "e", "\r", "\n", "t", "w", "o"]);
}

#[test]
fn test_char_offsets_crlf() {
    let text = "one\r\ntwo";
    assert_eq!(character_offsets(text, 3), (3, 4));
    assert_eq!(character_offsets(text, 4), (4, 5));
    assert_eq!(character_offsets(text, 5), (5, 6));
}

#[test]
fn test_word_simple() {
    let text = "hello world";
    let (start, end) = word_offsets(text, 0);
    assert_eq!(start, 0);
    assert_eq!(end, 6);
    let (start, end) = word_offsets(text, 6);
    assert_eq!(start, 6);
    assert_eq!(end, 11);
}

#[test]
fn test_word_whitespace_belongs_to_preceding() {
    let text = "hello world";
    let (start, end) = word_offsets(text, 5);
    assert_eq!(start, 0);
    assert_eq!(end, 6);
}

#[test]
fn test_word_punctuation() {
    let text = "hello, world";
    let (start, _end) = word_offsets(text, 0);
    assert_eq!(start, 0);
}

#[test]
fn test_word_beyond_end() {
    assert_eq!(word_offsets("abc", 5), (5, 6));
}

#[test]
fn test_word_empty() {
    assert_eq!(word_offsets("", 0), (0, 1));
}

#[test]
fn test_word_multiple_spaces() {
    let text = "hello  world";
    let (start, end) = word_offsets(text, 5);
    assert_eq!(start, 0);
    assert_eq!(end, 7);
}

#[test]
fn pieces_concatenate_to_the_text() {
    for text in ["", "a\r\nb", "e\u{0301}x🇳🇱", "日本語 text"] {
        let joined: String = split_at_character_boundaries(text).concat();
        assert_eq!(joined, text);
    }
}

#[test]
fn offsets_hold_the_offset() {
    let text = "a👨\u{200d}👩\u{200d}👧\u{200d}👦b, c  d\r\n";
    let n = text.chars().count();
    for offset in 0..n {
        let (s, e) = character_offsets(text, offset);
        assert!(s <= offset && offset < e && e <= n);
        let (s, e) = word_offsets(text, offset);
        assert!(s <= offset && offset < e && e <= n);
    }
}

#[test]
fn word_at_leading_space_starts_at_the_space() {
    assert_eq!(word_offsets(" ab", 0), (0, 1));
}

#[test]
fn word_punctuation_is_its_own_segment() {
    assert_eq!(word_offsets("hello, world", 5), (5, 7));
}
