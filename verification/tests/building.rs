//! Compilation of rule-list text: counts and build errors.

use gfwlist::{BuildError, GfwList, SyntaxError};

#[test]
fn unterminated_regex_line_fails_and_is_reported() {
    match GfwList::from("/abc") {
        Err(BuildError::Syntax(line, SyntaxError::Rule)) => assert_eq!(line, "/abc"),
        _ => panic!("expected a rule-shape error naming the line"),
    }
}

#[test]
fn invalid_regex_body_fails_and_is_reported() {
    match GfwList::from("/[/") {
        Err(BuildError::Syntax(line, SyntaxError::Regex)) => assert_eq!(line, "/[/"),
        _ => panic!("expected a regex-compile error naming the line"),
    }
}

#[test]
fn invalid_anchor_url_fails_and_is_reported() {
    match GfwList::from("|notaurl") {
        Err(BuildError::Syntax(line, SyntaxError::Url)) => assert_eq!(line, "|notaurl"),
        _ => panic!("expected a URL-parse error naming the line"),
    }
}

#[test]
fn bad_exception_rule_reports_stripped_text() {
    match GfwList::from("@@|notaurl") {
        Err(BuildError::Syntax(line, SyntaxError::Url)) => assert_eq!(line, "|notaurl"),
        _ => panic!("expected a URL-parse error naming the stripped rule"),
    }
}

#[test]
fn bare_exception_marker_is_malformed() {
    match GfwList::from("@@") {
        Err(BuildError::Syntax(line, SyntaxError::Rule)) => assert_eq!(line, ""),
        _ => panic!("expected a rule-shape error"),
    }
}

#[test]
fn single_at_is_an_ordinary_literal_rule() {
    let gfw = GfwList::from("@").unwrap();
    assert_eq!(gfw.len(), 1);
}

#[test]
fn one_bad_line_aborts_the_whole_build() {
    assert!(GfwList::from("||good.example.com\n/abc\n||other.example.com").is_err());
}

#[test]
fn one_rule_of_each_kind_builds_a_three_rule_set() {
    let gfw = GfwList::from("||blocked-site.com\n@@||exception.com\n/regex-pattern/\n").unwrap();
    assert_eq!(gfw.len(), 3);
    assert!(!gfw.is_empty());
}

#[test]
fn rule_count_sums_all_three_kinds() {
    let gfw = GfwList::from("||a.example\n@@||b.example\n/x+y/\n!comment\n\n.c.example").unwrap();
    assert_eq!(gfw.len(), 4);
    assert!(!gfw.is_empty());
}

#[test]
fn empty_text_builds_an_empty_rule_set() {
    let gfw = GfwList::from("").unwrap();
    assert_eq!(gfw.len(), 0);
    assert!(gfw.is_empty());
}

#[test]
fn comments_and_blank_lines_are_ignored() {
    let gfw = GfwList::from("!comment\n\n\n! another comment\n").unwrap();
    assert!(gfw.is_empty());
}

#[test]
fn carriage_returns_are_stripped_from_lines() {
    let gfw = GfwList::from("||example.com\r\n@@||safe.example.com\r\n").unwrap();
    assert_eq!(gfw.len(), 2);
    assert!(gfw.test("http://www.example.com").unwrap().is_some());
    assert!(gfw.test("http://safe.example.com").unwrap().is_none());
}
