use lolcompiler::paths::{html_file_name, is_lol_file};
use lolcompiler::scope::Scope;
use lolcompiler::text::chars_of;

#[test]
fn lol_file_names() {
    assert!(is_lol_file("a.lol"));
    assert!(is_lol_file(".lol"));
    assert!(!is_lol_file("a.lolx"));
    assert!(!is_lol_file("lol"));
    assert!(!is_lol_file("a.LOL"));
}

#[test]
fn html_file_names_replace_every_lol() {
    assert_eq!(html_file_name("page.lol"), "page.html");
    assert_eq!(html_file_name("dir.lol/a.lol"), "dir.html/a.html");
    assert_eq!(html_file_name("x.lolol"), "x.htmlol");
    assert_eq!(html_file_name("plain"), "plain");
}

#[test]
fn scope_read_after_write() {
    let mut sc = Scope::new();
    assert_eq!(sc.get("x"), None);
    sc.define("x".to_string(), "1".to_string());
    assert_eq!(sc.get("x"), Some("1".to_string()));
    sc.define("y".to_string(), "2".to_string());
    sc.define("x".to_string(), "3".to_string());
    assert_eq!(sc.get("x"), Some("3".to_string()));
    assert_eq!(sc.get("y"), Some("2".to_string()));
    assert_eq!(sc.get("z"), None);
}

#[test]
fn chars_in_order() {
    assert_eq!(chars_of("aé\u{3000}"), vec!['a', 'é', '\u{3000}']);
}
