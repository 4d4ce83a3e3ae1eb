//! The text helpers: Unicode whitespace, trimming, tokenising, substring
//! search, joining and truncation.

use keyhaven::text::{
    chars_of, contains_chars, is_blank, is_whitespace, join_with_newlines, push_decimal, split_whitespace, trim,
    truncate_chars,
};

#[test]
fn whitespace_matches_the_unicode_property() {
    for c in [' ', '\t', '\n', '\r', '\u{0B}', '\u{0C}', '\u{85}', '\u{A0}', '\u{1680}', '\u{2000}', '\u{200A}', '\u{2028}', '\u{2029}', '\u{202F}', '\u{205F}', '\u{3000}'] {
        assert!(is_whitespace(c), "{c:?} is whitespace");
        assert_eq!(is_whitespace(c), c.is_whitespace());
    }
    for c in ['a', '0', '-', '\u{200B}', '\u{FEFF}', '…'] {
        assert!(!is_whitespace(c), "{c:?} is not whitespace");
        assert_eq!(is_whitespace(c), c.is_whitespace());
    }
}

#[test]
fn trim_agrees_with_str_trim() {
    for s in ["", "   ", "abc", "  abc ", "\u{3000}x y\u{A0}", "\t\n", " a  b "] {
        assert_eq!(trim(s), s.trim(), "trim of {s:?}");
        assert_eq!(is_blank(s), s.trim().is_empty());
    }
}

#[test]
fn split_whitespace_agrees_with_str_split_whitespace() {
    for s in ["", "   ", "one", "  two words ", "a\tb\nc", "facebook personal", "x\u{2003}y"] {
        let ours = split_whitespace(s);
        let std_words: Vec<String> = s.split_whitespace().map(|w| w.to_string()).collect();
        assert_eq!(ours, std_words, "words of {s:?}");
    }
}

#[test]
fn substring_search() {
    let hay = chars_of("alice@example.com");
    assert!(contains_chars(&hay, &chars_of("example")));
    assert!(contains_chars(&hay, &chars_of("")));
    assert!(contains_chars(&hay, &chars_of("alice@example.com")));
    assert!(!contains_chars(&hay, &chars_of("alice@example.com!")));
    assert!(!contains_chars(&hay, &chars_of("bob")));
}

#[test]
fn joining_and_truncating() {
    let parts = vec!["a".to_string(), "".to_string(), "c".to_string()];
    assert_eq!(join_with_newlines(&parts), "a\n\nc");
    assert_eq!(join_with_newlines(&Vec::new()), "");
    assert_eq!(truncate_chars("héllo", 5), "héllo");
    assert_eq!(truncate_chars("héllo", 2), "hé…");
}

#[test]
fn decimal_rendering() {
    let mut s = "n=".to_string();
    push_decimal(&mut s, 0);
    s.push(',');
    push_decimal(&mut s, 512);
    s.push(',');
    push_decimal(&mut s, u64::MAX);
    assert_eq!(s, format!("n=0,512,{}", u64::MAX));
}
