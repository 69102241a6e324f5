use steam_shortcuts::text::{
    chars_of, contains, ends_with, matches_at, same_chars, same_text, split_and_trim, starts_with,
    trim_window,
};

fn cs(s: &str) -> Vec<char> {
    s.chars().collect()
}

#[test]
fn chars_in_order() {
    assert_eq!(chars_of("a\u{e9}z"), vec!['a', '\u{e9}', 'z']);
    assert_eq!(chars_of(""), Vec::<char>::new());
}

#[test]
fn equal_texts() {
    assert!(same_text("480", "480"));
    assert!(!same_text("480", "481"));
    assert!(!same_text("480", "48"));
    assert!(same_text("", ""));
    assert!(same_chars(&cs("ab"), &cs("ab")));
    assert!(!same_chars(&cs("ab"), &cs("ba")));
}

#[test]
fn prefix_and_suffix() {
    assert!(starts_with(&cs("steam-1.desktop"), &cs("steam-")));
    assert!(!starts_with(&cs("team-1.desktop"), &cs("steam-")));
    assert!(!starts_with(&cs("ste"), &cs("steam-")));
    assert!(starts_with(&cs("x"), &cs("")));
    assert!(ends_with(&cs("steam-1.desktop"), &cs(".desktop")));
    assert!(!ends_with(&cs("steam-1.desktop.bak"), &cs(".desktop")));
    assert!(!ends_with(&cs("top"), &cs(".desktop")));
    assert!(ends_with(&cs(""), &cs("")));
}

#[test]
fn infix_search() {
    assert!(contains(&cs("my soundtrack vol 1"), &cs("soundtrack")));
    assert!(contains(&cs("soundtrack"), &cs("soundtrack")));
    assert!(contains(&cs("aab"), &cs("ab")));
    assert!(!contains(&cs("sound track"), &cs("soundtrack")));
    assert!(!contains(&cs("ab"), &cs("abc")));
    assert!(contains(&cs(""), &cs("")));
    assert!(matches_at(&cs("abcd"), &cs("cd"), 2));
    assert!(!matches_at(&cs("abcd"), &cs("cd"), 1));
}

#[test]
fn trimming_a_window() {
    let text = cs("  a b \t,x");
    assert_eq!(trim_window(&text, 0, 7), (2, 5));
    assert_eq!(trim_window(&text, 0, 2), (2, 2));
    assert_eq!(trim_window(&text, 8, 9), (8, 9));
    assert_eq!(trim_window(&text, 3, 3), (3, 3));
}

#[test]
fn splitting_and_trimming() {
    assert_eq!(split_and_trim("a, b ,c", ','), vec!["a", "b", "c"]);
    assert_eq!(split_and_trim("", ','), vec![""]);
    assert_eq!(split_and_trim(",", ','), vec!["", ""]);
    assert_eq!(split_and_trim(" Steam Linux Runtime ,, x ", ','), vec!["Steam Linux Runtime", "", "x"]);
    assert_eq!(split_and_trim("\u{a0}caf\u{e9}\u{2003}", ','), vec!["caf\u{e9}"]);
    assert_eq!(split_and_trim("a,b,", ','), vec!["a", "b", ""]);
}
