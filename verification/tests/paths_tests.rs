use mod_manager::paths::{
    path_extension, path_file_name, path_file_stem, path_join, path_parent, path_starts_with,
    path_strip_prefix,
};
use mod_manager::text::{concat_text, contains_text, same_text, strip_line_breaks};

#[test]
fn join_adds_one_separator() {
    assert_eq!(path_join("./mods/", "x"), "./mods/x");
    assert_eq!(path_join("a", "b"), "a/b");
    assert_eq!(path_join("", "b"), "b");
}

#[test]
fn extension_stem_and_name() {
    assert_eq!(path_extension("a/b.tar.gz"), Some("gz".to_string()));
    assert_eq!(path_extension("a/.hidden"), None);
    assert_eq!(path_extension("a/noext"), None);
    assert_eq!(path_file_name("a/b.exe"), Some("b.exe".to_string()));
    assert_eq!(path_file_stem("a/b.tar.gz"), Some("b.tar".to_string()));
    assert_eq!(path_file_stem("a/.hidden"), Some(".hidden".to_string()));
}

#[test]
fn parent_and_strip() {
    assert_eq!(path_parent("a/b/c"), Some("a/b".to_string()));
    assert_eq!(path_parent("c"), Some("".to_string()));
    assert_eq!(path_parent(""), None);
    assert_eq!(path_strip_prefix("a/b/c", "a"), Some("b/c".to_string()));
    assert_eq!(path_strip_prefix("a/b/c", ""), Some("a/b/c".to_string()));
    assert_eq!(path_strip_prefix("a/b/c", "b"), None);
}

#[test]
fn starts_with_is_by_component() {
    assert!(path_starts_with("../vanilla/Undertale", "../vanilla"));
    assert!(path_starts_with("../vanilla", "../vanilla"));
    assert!(!path_starts_with("../vanillaX/Undertale", "../vanilla"));
    assert!(!path_starts_with("MyMod", "../vanilla"));
}

#[test]
fn text_helpers() {
    assert!(same_text("abc", "abc"));
    assert!(!same_text("abc", "abd"));
    assert!(!same_text("abc", "ab"));
    assert!(contains_text(&vec!["x".to_string(), "y".to_string()], "y"));
    assert!(!contains_text(&vec!["x".to_string()], "y"));
    assert_eq!(concat_text("ab", "cd"), "abcd");
}

#[test]
fn strip_line_breaks_removes_newlines() {
    assert_eq!(strip_line_breaks("My\nMod\r\n"), "MyMod");
    assert_eq!(strip_line_breaks("plain"), "plain");
    assert_eq!(strip_line_breaks("\n\r"), "");
    assert_eq!(strip_line_breaks("é\nü"), "éü");
    let once = strip_line_breaks("a\nb");
    assert_eq!(strip_line_breaks(&once), once);
}
