use hiper_supervisor::text::{
    contains, ends_with, find, find_byte, matches_here, same_bytes, starts_with,
};

#[test]
fn find_gives_the_leftmost_match() {
    assert_eq!(find(b"abcabc", b"bc"), Some(1));
    assert_eq!(find(b"abcabc", b"abc"), Some(0));
    assert_eq!(find(b"abcabc", b"cab"), Some(2));
    assert_eq!(find(b"aaab", b"aab"), Some(1));
}

#[test]
fn find_misses_what_is_not_there() {
    assert_eq!(find(b"abcabc", b"cc"), None);
    assert_eq!(find(b"ab", b"abc"), None);
    assert_eq!(find(b"", b"a"), None);
}

#[test]
fn the_empty_needle_is_found_at_the_start() {
    assert_eq!(find(b"abc", b""), Some(0));
    assert_eq!(find(b"", b""), Some(0));
    assert!(contains(b"", b""));
}

#[test]
fn find_at_the_very_end() {
    assert_eq!(find(b"xxxyz", b"yz"), Some(3));
    assert_eq!(find(b"yz", b"yz"), Some(0));
}

#[test]
fn find_byte_gives_the_first_position() {
    assert_eq!(find_byte(b"a/b/c", b'/'), Some(1));
    assert_eq!(find_byte(b"abc", b'/'), None);
    assert_eq!(find_byte(b"", b'/'), None);
}

#[test]
fn matches_here_checks_one_position() {
    assert!(matches_here(b"hello", b"ll", 2));
    assert!(!matches_here(b"hello", b"ll", 3));
    assert!(!matches_here(b"hello", b"lo", 4));
    assert!(matches_here(b"hello", b"", 5));
    assert!(!matches_here(b"hello", b"", 6));
}

#[test]
fn prefixes_and_suffixes() {
    assert!(starts_with(b"x86_64/hiper", b"x86_64"));
    assert!(!starts_with(b"x86_64/hiper", b"arm64"));
    assert!(ends_with(b"x86_64/hiper", b"hiper"));
    assert!(!ends_with(b"x86_64/hiper.exe", b"hiper"));
    assert!(!ends_with(b"per", b"hiper"));
    assert!(starts_with(b"abc", b""));
    assert!(ends_with(b"abc", b""));
}

#[test]
fn same_bytes_compares_whole_strings() {
    assert!(same_bytes(b"abc", b"abc"));
    assert!(!same_bytes(b"abc", b"abd"));
    assert!(!same_bytes(b"abc", b"ab"));
    assert!(!same_bytes(b"ab", b"abc"));
    assert!(same_bytes(b"", b""));
}
