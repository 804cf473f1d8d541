use domo::text::{contains_text, decimal_string, find_in, matches_at, to_chars};

#[test]
fn chars_follow_the_string() {
    assert_eq!(to_chars("ab\u{e9}"), vec!['a', 'b', '\u{e9}']);
    assert_eq!(to_chars(""), Vec::<char>::new());
}

#[test]
fn decimal_writes_base_ten() {
    assert_eq!(decimal_string(0), "0");
    assert_eq!(decimal_string(7), "7");
    assert_eq!(decimal_string(10), "10");
    assert_eq!(decimal_string(200), "200");
    assert_eq!(decimal_string(403), "403");
    assert_eq!(decimal_string(65535), "65535");
    assert_eq!(decimal_string(1234567890), "1234567890");
    assert_eq!(decimal_string(usize::MAX), usize::MAX.to_string());
}

#[test]
fn contains_finds_contiguous_parts() {
    assert!(contains_text("there are no results here", "no results"));
    assert!(!contains_text("there are noresults here", "no results"));
    assert!(contains_text("abc", ""));
    assert!(contains_text("", ""));
    assert!(!contains_text("", "a"));
    assert!(!contains_text("ab", "abc"));
    assert!(contains_text("aab", "ab"));
    assert!(contains_text("x\u{e9}y", "\u{e9}y"));
}

#[test]
fn find_gives_the_first_offset() {
    let hay = to_chars("a: /b: /c");
    let needle = to_chars(": /");
    assert_eq!(find_in(&hay, &needle, 0, hay.len()), Some(1));
    assert_eq!(find_in(&hay, &needle, 2, hay.len()), Some(5));
    assert_eq!(find_in(&hay, &needle, 6, hay.len()), None);
    assert_eq!(find_in(&hay, &needle, 0, 3), None);
    assert_eq!(find_in(&hay, &needle, 0, 4), Some(1));
    assert_eq!(find_in(&hay, &to_chars(""), 9, 9), Some(9));
    assert!(matches_at(&hay, &needle, 5));
    assert!(!matches_at(&hay, &needle, 6));
    assert!(!matches_at(&hay, &needle, 8));
    assert!(!matches_at(&hay, &needle, 100));
}
