use agdaup::strutil::{split_dashes, str_eq, str_le};

#[test]
fn split_keeps_every_token_in_order() {
    let parts = split_dashes("agda-2.6.4-x64-macos-ghc9.4.7.zip");
    assert_eq!(parts, vec!["agda", "2.6.4", "x64", "macos", "ghc9.4.7.zip"]);
}

#[test]
fn split_keeps_empty_tokens() {
    assert_eq!(split_dashes("a--b"), vec!["a", "", "b"]);
    assert_eq!(split_dashes("-a-"), vec!["", "a", ""]);
}

#[test]
fn split_of_dashless_text_is_one_token() {
    assert_eq!(split_dashes("checksums.txt"), vec!["checksums.txt"]);
    assert_eq!(split_dashes(""), vec![""]);
}

#[test]
fn string_equality_is_by_characters() {
    assert!(str_eq("macos", "macos"));
    assert!(!str_eq("macos", "macos-11"));
    assert!(!str_eq("x64", "arm64"));
    assert!(str_eq("", ""));
}

#[test]
fn lexicographic_order_on_names() {
    assert!(str_le("agda-2.6.3-x64", "agda-2.6.4-x64"));
    assert!(!str_le("agda-2.6.4-x64", "agda-2.6.3-x64"));
    assert!(str_le("abc", "abcd"));
    assert!(!str_le("abcd", "abc"));
    assert!(str_le("same", "same"));
    // the known limitation of the scheme: 10 sorts below 9 lexicographically
    assert!(str_le("2.6.10", "2.6.9"));
}
