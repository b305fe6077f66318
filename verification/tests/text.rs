use fiddler_crab::text::{
    bytes_to_debug_text, chars_of, find, joined, matches_at, push_decimal, same_text, string_of,
    string_of_range,
};

fn chars(text: &str) -> Vec<char> {
    text.chars().collect()
}

#[test]
fn chars_and_strings_convert_both_ways() {
    assert_eq!(chars_of("a\u{e9}\u{1f980}"), vec!['a', '\u{e9}', '\u{1f980}']);
    assert_eq!(chars_of(""), Vec::<char>::new());
    assert_eq!(string_of(&vec!['h', 'i', '\u{e9}']), "hi\u{e9}");
    assert_eq!(string_of(&Vec::new()), "");
    assert_eq!(string_of(&chars_of("round trip")), "round trip");
}

#[test]
fn string_of_range_takes_a_part() {
    let text = chars("hello world");
    assert_eq!(string_of_range(&text, 0, 5), "hello");
    assert_eq!(string_of_range(&text, 6, 11), "world");
    assert_eq!(string_of_range(&text, 3, 3), "");
    assert_eq!(string_of_range(&text, 0, 11), "hello world");
}

#[test]
fn same_text_compares_characters() {
    assert!(same_text("abc", "abc"));
    assert!(same_text("", ""));
    assert!(!same_text("abc", "abd"));
    assert!(!same_text("abc", "ab"));
    assert!(!same_text("", "a"));
}

#[test]
fn joined_appends() {
    assert_eq!(joined("ab", "cd"), "abcd");
    assert_eq!(joined("", "cd"), "cd");
    assert_eq!(joined("ab", ""), "ab");
}

#[test]
fn decimal_is_written_without_leading_zeros() {
    for (n, expected) in [(0usize, "0"), (7, "7"), (10, "10"), (200, "200"), (65535, "65535"), (1002003, "1002003")] {
        let mut text = "n=".to_string();
        push_decimal(&mut text, n);
        assert_eq!(text, format!("n={}", expected));
    }
    let mut text = String::new();
    push_decimal(&mut text, usize::MAX);
    assert_eq!(text, usize::MAX.to_string());
}

#[test]
fn bytes_are_listed_in_brackets() {
    assert_eq!(bytes_to_debug_text(&Vec::new()), "[]");
    assert_eq!(bytes_to_debug_text(&vec![5]), "[5]");
    assert_eq!(bytes_to_debug_text(&vec![0, 10, 255]), "[0, 10, 255]");
    let bytes: Vec<u8> = vec![104, 101, 108, 108, 111];
    assert_eq!(bytes_to_debug_text(&bytes), format!("{:?}", bytes));
}

#[test]
fn matches_at_checks_one_position() {
    let text = chars("abcabc");
    assert!(matches_at(&text, &chars("abc"), 0));
    assert!(matches_at(&text, &chars("abc"), 3));
    assert!(!matches_at(&text, &chars("abc"), 1));
    assert!(matches_at(&text, &chars(""), 6));
    assert!(!matches_at(&text, &chars(""), 7));
    assert!(!matches_at(&text, &chars("abc"), 4));
    assert!(!matches_at(&text, &chars("abcabca"), 0));
}

#[test]
fn find_returns_the_first_occurrence() {
    let text = chars("a\r\n\r\nb\r\n\r\nc");
    let pattern = chars("\r\n\r\n");
    assert_eq!(find(&text, &pattern, 0), Some(1));
    assert_eq!(find(&text, &pattern, 1), Some(1));
    assert_eq!(find(&text, &pattern, 2), Some(6));
    assert_eq!(find(&text, &pattern, 7), None);
    assert_eq!(find(&text, &pattern, 100), None);
    assert_eq!(find(&chars("abc"), &chars("abcd"), 0), None);
    assert_eq!(find(&chars("abc"), &chars(""), 0), Some(0));
    assert_eq!(find(&chars("abc"), &chars(""), 3), Some(3));
    assert_eq!(find(&chars("abc"), &chars(""), 4), None);
    assert_eq!(find(&chars("aab"), &chars("ab"), 0), Some(1));
}
