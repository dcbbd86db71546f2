use httpie_oapi::text::{
    chars_of, contains, contains_text, find_bytes, find_chars, join, replace, same_text,
    skip_chars, slice_chars, split_on, split_once, starts_with, strip_prefix,
};

#[test]
fn starts_with_is_prefix() {
    assert!(starts_with("https://api", "https://"));
    assert!(starts_with("abc", ""));
    assert!(starts_with("abc", "abc"));
    assert!(!starts_with("abc", "abcd"));
    assert!(!starts_with("abc", "b"));
    assert!(starts_with("éa", "é"));
}

#[test]
fn contains_is_substring() {
    assert!(contains("/admin/users/{id}", "/users"));
    assert!(contains("abc", ""));
    assert!(contains("", ""));
    assert!(!contains("", "a"));
    assert!(!contains("/pets", "/pets/{id}"));
    assert!(contains("aab", "ab"));
}

#[test]
fn same_text_is_equality() {
    assert!(same_text("", ""));
    assert!(same_text("GET", "GET"));
    assert!(!same_text("GET", "GE"));
    assert!(!same_text("GE", "GET"));
    assert!(!same_text("GET", "get"));
}

#[test]
fn find_gives_the_first_occurrence_from_an_offset() {
    assert_eq!(find_bytes(b"ab ab", b"ab", 0), Some(0));
    assert_eq!(find_bytes(b"ab ab", b"ab", 1), Some(3));
    assert_eq!(find_bytes(b"ab ab", b"ab", 4), None);
    assert_eq!(find_bytes(b"ab ab", b"", 2), Some(2));
    assert_eq!(find_bytes(b"ab", b"", 2), Some(2));
    assert_eq!(find_bytes(b"ab", b"", 3), None);
    assert_eq!(find_bytes(b"ab", b"abc", 0), None);
    let hay = chars_of("xéyéz");
    assert_eq!(find_chars(&hay, &chars_of("é"), 0), Some(1));
    assert_eq!(find_chars(&hay, &chars_of("é"), 2), Some(3));
    assert_eq!(find_chars(&hay, &chars_of("é"), 4), None);
}

#[test]
fn chars_and_slices() {
    assert_eq!(chars_of("aé"), vec!['a', 'é']);
    assert_eq!(skip_chars("héllo", 2), "llo");
    assert_eq!(skip_chars("ab", 2), "");
    assert_eq!(slice_chars("héllo", 1, 3), "él");
}

#[test]
fn strip_prefix_takes_the_prefix_once() {
    assert_eq!(strip_prefix("https://x/pets", "https://x"), Some("/pets"));
    assert_eq!(strip_prefix("abab", "ab"), Some("ab"));
    assert_eq!(strip_prefix("abc", ""), Some("abc"));
    assert_eq!(strip_prefix("abc", "abc"), Some(""));
    assert_eq!(strip_prefix("abc", "bc"), None);
}

#[test]
fn split_once_splits_at_the_first() {
    assert_eq!(split_once("a=b=c", '='), Some(("a", "b=c")));
    assert_eq!(split_once("=b", '='), Some(("", "b")));
    assert_eq!(split_once("a=", '='), Some(("a", "")));
    assert_eq!(split_once("abc", '='), None);
    assert_eq!(split_once("", '='), None);
}

#[test]
fn split_on_gives_one_part_more_than_separators() {
    assert_eq!(split_on("/users/:id", '/'), vec!["", "users", ":id"]);
    assert_eq!(split_on("a//b/", '/'), vec!["a", "", "b", ""]);
    assert_eq!(split_on("abc", '/'), vec!["abc"]);
    assert_eq!(split_on("", '/'), vec![""]);
}

#[test]
fn replace_replaces_every_occurrence_from_the_left() {
    assert_eq!(replace("/users/:id/posts/:id", ":id", "5"), "/users/5/posts/5");
    assert_eq!(replace("aaa", "aa", "b"), "ba");
    assert_eq!(replace("abc", "x", "y"), "abc");
    assert_eq!(replace("abc", "abc", ""), "");
    assert_eq!(replace("", "a", "b"), "");
    assert_eq!(replace("ab", "b", "bb"), "abb");
}

#[test]
fn replace_of_the_empty_pattern_goes_between_all_characters() {
    assert_eq!(replace("ab", "", "-"), "-a-b-");
    assert_eq!(replace("", "", "-"), "-");
    assert_eq!(replace("é", "", "xy"), "xyéxy");
}

#[test]
fn join_puts_the_separator_between() {
    let parts = vec!["a".to_string(), "".to_string(), "b c".to_string()];
    assert_eq!(join(&parts, " "), "a  b c");
    assert_eq!(join(&vec!["a".to_string()], ", "), "a");
    assert_eq!(join(&vec![], ", "), "");
}

#[test]
fn contains_text_looks_for_an_equal_string() {
    let items = vec!["name".to_string(), "id".to_string()];
    assert!(contains_text(&items, "id"));
    assert!(!contains_text(&items, "i"));
    assert!(!contains_text(&vec![], "id"));
}
