use izole::text::{
    contains_str, ends_with, find_str, is_whitespace_char, join_strings, same_text, split_lines,
    split_words, starts_with, substring, trim_str,
};

#[test]
fn trim_matches_std() {
    for s in ["", "  a b  ", "\t\nx\r\n", "\u{3000}mid\u{A0}", "   ", "none"] {
        assert_eq!(trim_str(s), s.trim());
    }
}

#[test]
fn whitespace_matches_std() {
    for c in ['a', ' ', '\t', '\u{85}', '\u{2007}', '\u{200B}', '\u{3000}', '\u{FEFF}', '\u{1680}'] {
        assert_eq!(is_whitespace_char(c), c.is_whitespace(), "{:?}", c);
    }
}

#[test]
fn words_match_std() {
    for s in ["", "a", "  lib.so  x86_64 ", "a\tb\nc", "\u{2003}ş ü\u{3000}"] {
        let expected: Vec<String> = s.split_whitespace().map(|w| w.to_string()).collect();
        assert_eq!(split_words(s), expected);
    }
}

#[test]
fn lines_match_std() {
    for s in ["", "\n", "a\nb", "a\nb\n", "a\r\nb\r\n", "a\rb", "x\n\ny", "tail\r"] {
        let expected: Vec<String> = s.lines().map(|l| l.to_string()).collect();
        assert_eq!(split_lines(s), expected, "{:?}", s);
    }
}

#[test]
fn search_and_affixes() {
    assert_eq!(find_str("abcabc", "ca"), Some(2));
    assert_eq!(find_str("abc", "x"), None);
    assert_eq!(find_str("çok çalış", "çal"), Some(4));
    assert!(contains_str("libfoo.so.1", ".so"));
    assert!(!contains_str("", "a"));
    assert!(starts_with("Depends: x", "Depends:"));
    assert!(!starts_with("De", "Depends:"));
    assert!(ends_with("a.desktop", ".desktop"));
    assert!(!ends_with("desktop", ".desktop"));
    assert!(same_text("x", "x"));
    assert!(!same_text("x", "y"));
    assert_eq!(substring("héllo", 1, 3), "él");
}

#[test]
fn join_matches_std() {
    let v: Vec<String> = vec!["a".into(), "b".into(), "c".into()];
    assert_eq!(join_strings(&v, ", "), v.join(", "));
    assert_eq!(join_strings(&Vec::new(), ", "), "");
}
