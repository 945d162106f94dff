use badge_flasher::text::{contains, decimal, find_chars, same_text, to_chars};

#[test]
fn decimal_text_of_numbers() {
    assert_eq!(decimal(0), "0");
    assert_eq!(decimal(7), "7");
    assert_eq!(decimal(10), "10");
    assert_eq!(decimal(1280), "1280");
    assert_eq!(decimal(u64::MAX), "18446744073709551615");
}

#[test]
fn searching_in_texts() {
    assert!(contains("code/embedded/__MACOSX/x", "__MACOSX"));
    assert!(contains("__MACOSX", "__MACOSX"));
    assert!(!contains("_MACOSX", "__MACOSX"));
    assert!(contains("anything", ""));
    assert!(contains("", ""));
    assert!(!contains("", "x"));
    assert!(same_text("file", "file"));
    assert!(!same_text("file", "files"));
    assert!(!same_text("file", "fire"));
    assert!(same_text("", ""));
    assert_eq!(to_chars("héllo"), vec!['h', 'é', 'l', 'l', 'o']);
    assert_eq!(find_chars(&to_chars("ééab"), &to_chars("ab")), Some(2));
    assert_eq!(find_chars(&to_chars("abab"), &to_chars("ab")), Some(0));
    assert_eq!(find_chars(&to_chars("abab"), &to_chars("ba")), Some(1));
    assert_eq!(find_chars(&to_chars("abab"), &to_chars("bb")), None);
}
