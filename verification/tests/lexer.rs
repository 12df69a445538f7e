use lolcompiler::lexer::{is_keyword_word, SimpleLexicalAnalyzer};
use lolcompiler::phases::LexicalAnalyzer;

fn tokens_of(src: &str) -> Vec<String> {
    let mut l = SimpleLexicalAnalyzer::new(src);
    l.tokenize();
    l.tokens
}

#[test]
fn tokens_are_words_last_first() {
    assert_eq!(tokens_of("a  b\tc\nd"), vec!["d", "c", "b", "a"]);
}

#[test]
fn empty_and_blank_sources_have_no_tokens() {
    assert!(tokens_of("").is_empty());
    assert!(tokens_of(" \t\n ").is_empty());
}

#[test]
fn unicode_whitespace_separates() {
    assert_eq!(tokens_of("a\u{a0}b\u{3000}c\u{85}d"), vec!["d", "c", "b", "a"]);
}

#[test]
fn non_whitespace_unicode_is_kept() {
    assert_eq!(tokens_of("héllo wörld"), vec!["wörld", "héllo"]);
}

#[test]
fn nul_ends_the_input() {
    assert_eq!(tokens_of("a b\0c d"), vec!["b", "a"]);
    assert_eq!(tokens_of("ab\0"), vec!["ab"]);
}

#[test]
fn get_char_reads_then_returns_nul() {
    let mut l = SimpleLexicalAnalyzer::new("xy");
    assert_eq!(l.get_char(), 'x');
    assert_eq!(l.get_char(), 'y');
    assert_eq!(l.get_char(), '\0');
    assert_eq!(l.get_char(), '\0');
}

#[test]
fn add_char_builds_a_word() {
    let mut l = SimpleLexicalAnalyzer::new(" z");
    l.add_char('a');
    l.add_char('ü');
    l.tokenize();
    assert_eq!(l.tokens, vec!["z", "aü"]);
}

#[test]
fn lookup_keywords_in_any_case() {
    let l = SimpleLexicalAnalyzer::new("");
    assert!(l.lookup("#HAI"));
    assert!(l.lookup("#hai"));
    assert!(l.lookup("paragraf"));
    assert!(l.lookup("Linx"));
    assert!(l.lookup("#LEMMESEE"));
    assert!(!l.lookup("hello"));
    assert!(!l.lookup("#HAIX"));
    assert!(!l.lookup(""));
}

#[test]
fn keyword_words_are_upper_case() {
    assert!(is_keyword_word(&"#MKAY".to_string()));
    assert!(is_keyword_word(&"NEWLINE".to_string()));
    assert!(!is_keyword_word(&"newline".to_string()));
    assert!(!is_keyword_word(&"".to_string()));
}
