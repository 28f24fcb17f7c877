//! The byte-level encoding of hosts, paths and whole URLs, and the
//! line splitter.

use gfwlist::encode::{append_chars, append_host, append_host_path, append_path,
    append_url_fields};
use gfwlist::lines::split_lines;

fn chars(s: &str) -> Vec<char> {
    s.chars().collect()
}

fn string(v: &[char]) -> String {
    v.iter().collect()
}

#[test]
fn host_gets_a_leading_label_boundary() {
    let mut acc: Vec<char> = Vec::new();
    append_host(&mut acc, &chars("example.com"));
    assert_eq!(string(&acc), ".example.com");
}

#[test]
fn dotted_host_is_kept_as_is() {
    let mut acc: Vec<char> = Vec::new();
    append_host(&mut acc, &chars(".example.com"));
    assert_eq!(string(&acc), ".example.com");
}

#[test]
fn path_gets_a_trailing_segment_boundary() {
    let mut acc: Vec<char> = Vec::new();
    append_path(&mut acc, &chars("/ads"));
    assert_eq!(string(&acc), "/ads/");
}

#[test]
fn slash_terminated_path_is_kept_as_is() {
    let mut acc: Vec<char> = Vec::new();
    append_path(&mut acc, &chars("/ads/"));
    assert_eq!(string(&acc), "/ads/");
}

#[test]
fn empty_path_becomes_the_root_segment() {
    let mut acc: Vec<char> = Vec::new();
    append_path(&mut acc, &chars(""));
    assert_eq!(string(&acc), "/");
}

#[test]
fn host_path_fragment_splits_at_first_slash() {
    let mut acc: Vec<char> = Vec::new();
    append_host_path(&mut acc, &chars("example.com/page"));
    assert_eq!(string(&acc), ".example.com\u{3}/page/");
}

#[test]
fn host_path_fragment_without_slash_gets_root_path() {
    let mut acc: Vec<char> = Vec::new();
    append_host_path(&mut acc, &chars("example.com"));
    assert_eq!(string(&acc), ".example.com\u{3}/");
}

#[test]
fn url_fields_are_delimited_by_markers() {
    let mut acc: Vec<char> = Vec::new();
    append_url_fields(&mut acc, &chars("http"), &chars("example.com"), &chars("/"), true);
    assert_eq!(string(&acc), "\u{1}http\u{2}.example.com\u{3}/");
}

#[test]
fn url_fields_can_omit_the_path() {
    let mut acc: Vec<char> = Vec::new();
    append_url_fields(&mut acc, &chars("http"), &chars("example.com"), &chars("/"), false);
    assert_eq!(string(&acc), "\u{1}http\u{2}.example.com");
}

#[test]
fn append_chars_copies_in_order() {
    let mut acc: Vec<char> = vec!['a'];
    append_chars(&mut acc, &chars("bc"));
    assert_eq!(string(&acc), "abc");
}

#[test]
fn lines_split_at_newlines_and_drop_carriage_returns() {
    let split = split_lines(&chars("a\r\nb\nc"));
    let texts: Vec<String> = split.iter().map(|l| string(l)).collect();
    assert_eq!(texts, vec!["a".to_string(), "b".to_string(), "c".to_string()]);
}

#[test]
fn lone_carriage_return_stays_in_its_line() {
    let split = split_lines(&chars("a\r"));
    let texts: Vec<String> = split.iter().map(|l| string(l)).collect();
    assert_eq!(texts, vec!["a\r".to_string()]);
}

#[test]
fn trailing_newline_adds_no_empty_line() {
    let split = split_lines(&chars("a\n"));
    assert_eq!(split.len(), 1);
    let empty = split_lines(&chars(""));
    assert_eq!(empty.len(), 0);
}

#[test]
fn inner_blank_lines_are_kept_by_the_splitter() {
    let split = split_lines(&chars("a\n\nb"));
    assert_eq!(split.len(), 3);
    assert_eq!(split[1].len(), 0);
}
