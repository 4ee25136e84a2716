use plte_cli::text::{first_word_of, split_words, strip_quotes_of, trim_text};

#[test]
fn split_matches_std() {
    for s in ["", "  ", "a", " a  b\tc\n", "x\u{a0}y", "Jan\x0b6 2020", "\u{2003}é ü "] {
        let std_words: Vec<String> = s.split_whitespace().map(|w| w.to_string()).collect();
        assert_eq!(split_words(s, false), std_words);
        let ascii_words: Vec<String> =
            s.split_ascii_whitespace().map(|w| w.to_string()).collect();
        assert_eq!(split_words(s, true), ascii_words);
    }
}

#[test]
fn ascii_split_keeps_vertical_tab() {
    assert_eq!(split_words("a\x0bb c", true), vec!["a\x0bb".to_string(), "c".to_string()]);
    assert_eq!(split_words("a\x0bb c", false), vec!["a", "b", "c"]);
}

#[test]
fn first_word_is_first_piece() {
    assert_eq!(first_word_of("  hello world"), Some("hello".to_string()));
    assert_eq!(first_word_of(" \t\n"), None);
}

#[test]
fn trim_matches_std() {
    for s in ["", "   ", " a b ", "\u{3000}x\u{85}", "abc", "\n\r x"] {
        assert_eq!(trim_text(s), s.trim());
    }
}

#[test]
fn strip_removes_every_quote() {
    assert_eq!(strip_quotes_of("\"a\"b\"\""), "ab");
    assert_eq!(strip_quotes_of("plain"), "plain");
    assert_eq!(strip_quotes_of(""), "");
    let s = "\"x \\\"y\\\"\"";
    assert_eq!(strip_quotes_of(s), s.replace('"', ""));
}

#[test]
fn trim_and_strip_are_idempotent() {
    for s in [" \u{2028}a b\t", "\"q\"\" x ", ""] {
        let t = trim_text(s);
        assert_eq!(trim_text(&t), t);
        let q = strip_quotes_of(s);
        assert_eq!(strip_quotes_of(&q), q);
        assert!(!q.contains('"'));
    }
}

#[test]
fn words_keep_every_non_space_character() {
    let s = " one\ttwo  three\u{3000}four ";
    let joined: String = split_words(s, false).concat();
    let kept: String = s.chars().filter(|c| !c.is_whitespace()).collect();
    assert_eq!(joined, kept);
    assert!(split_words(s, false).iter().all(|w| !w.is_empty()));
}
