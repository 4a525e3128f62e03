use lu_mod_tool::path::join_path;
use lu_mod_tool::text::{
    chars_of, contains_text, decimal_of_id, decimal_of_index, finishes_with, join_with, joined,
    matches_at, replace_all, same_text, strip_prefix,
};

#[test]
fn characters_in_order() {
    assert_eq!(chars_of("héllo"), vec!['h', 'é', 'l', 'l', 'o']);
    assert!(chars_of("").is_empty());
}

#[test]
fn comparing_texts() {
    assert!(same_text("abc", "abc"));
    assert!(!same_text("abc", "abd"));
    assert!(!same_text("abc", "ab"));
    assert!(same_text("", ""));
    assert!(finishes_with("SimplePhysicsComponent", "PhysicsComponent"));
    assert!(!finishes_with("Component", "PhysicsComponent"));
    let text = chars_of("abcabc");
    let pattern = chars_of("bc");
    assert!(matches_at(&text, &pattern, 1));
    assert!(matches_at(&text, &pattern, 4));
    assert!(!matches_at(&text, &pattern, 5));
    assert!(!matches_at(&text, &pattern, 7));
}

#[test]
fn pieces_of_texts() {
    assert_eq!(strip_prefix("INCLUDE:a.sql", "INCLUDE:"), Some("a.sql".to_string()));
    assert_eq!(strip_prefix("a.sql", "INCLUDE:"), None);
    assert_eq!(strip_prefix("INCLUDE:", "INCLUDE:"), Some(String::new()));
    assert_eq!(strip_prefix("abc", ""), Some("abc".to_string()));
    assert_eq!(joined("ab", "cd"), "abcd");
    assert_eq!(join_with(&vec!["1".to_string(), "2".to_string(), "3".to_string()], ","), "1,2,3");
    assert_eq!(join_with(&vec!["1".to_string()], ","), "1");
    assert_eq!(join_with(&Vec::new(), ","), "");
}

#[test]
fn replacing_occurrences() {
    assert_eq!(replace_all("a/b/c", "/", "\\"), "a\\b\\c");
    assert_eq!(replace_all("Objects_{}_name", "{}", "17"), "Objects_17_name");
    assert_eq!(replace_all("{}{}", "{}", "x"), "xx");
    assert_eq!(replace_all("aaa", "aa", "b"), "ba");
    assert_eq!(replace_all("abc", "", "x"), "abc");
    assert_eq!(replace_all("", "a", "x"), "");
    assert_eq!(replace_all("COMCOMMIT;MIT;", "COMMIT;", ""), "COMMIT;");
    assert!(contains_text("a{}b", "{}"));
    assert!(contains_text("{}", "{}"));
    assert!(!contains_text("a{b}", "{}"));
    assert!(contains_text("abc", ""));
}

#[test]
fn decimal_forms() {
    assert_eq!(decimal_of_index(0), "0");
    assert_eq!(decimal_of_index(7), "7");
    assert_eq!(decimal_of_index(10), "10");
    assert_eq!(decimal_of_index(1234567890), "1234567890");
    assert_eq!(decimal_of_id(0), "0");
    assert_eq!(decimal_of_id(42), "42");
    assert_eq!(decimal_of_id(-1), "-1");
    assert_eq!(decimal_of_id(i32::MAX), "2147483647");
    assert_eq!(decimal_of_id(i32::MIN), "-2147483648");
}

#[test]
fn joining_paths() {
    assert_eq!(join_path("../mods", "my-mod/"), "../mods/my-mod/");
    assert_eq!(join_path("../mods/my-mod/", "a.dds"), "../mods/my-mod/a.dds");
    assert_eq!(join_path("../mods", ""), "../mods/");
    assert_eq!(join_path("", "a"), "a");
    assert_eq!(join_path("../mods", "/abs"), "/abs");
}
