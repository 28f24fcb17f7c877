//! Query behaviour of compiled rule sets.

use gfwlist::GfwList;

#[test]
fn test_1() {
    let gfw = GfwList::from("|http://example.com").unwrap();

    assert!(gfw.test("http://example.com").unwrap().is_some());
    assert!(gfw.test("http://example.com/page").unwrap().is_some());
    assert!(gfw.test("http://example.com.co").unwrap().is_some());

    assert!(gfw.test("http://www.example.com").unwrap().is_none());
    assert!(gfw.test("https://example.com/page").unwrap().is_none());
    assert!(gfw.test("https://example.com").unwrap().is_none());
    assert!(gfw.test("https://www.example.com").unwrap().is_none());
    assert!(gfw.test("https://example.com.co").unwrap().is_none());
}

#[test]
fn test_2() {
    let gfw = GfwList::from("||example.com").unwrap();

    assert!(gfw.test("http://example.com").unwrap().is_some());
    assert!(gfw.test("http://www.example.com").unwrap().is_some());
    assert!(gfw.test("https://example.com").unwrap().is_some());
    assert!(gfw.test("https://www.example.com").unwrap().is_some());

    assert!(gfw.test("http://anotherexample.com").unwrap().is_none());
    assert!(gfw.test("https://anotherexample.com").unwrap().is_none());
    assert!(gfw.test("http://example.com.co").unwrap().is_none());
    assert!(gfw.test("https://example.com.co").unwrap().is_none());
}

#[test]
fn test_3() {
    let gfw = GfwList::from(".example.com\n@@|http://sub.example.com").unwrap();

    assert!(gfw.test("http://example.com").unwrap().is_some());
    assert!(gfw.test("http://www.sub.example.com").unwrap().is_some());
    assert!(gfw.test("https://sub.example.com").unwrap().is_some());
    assert!(gfw.test("https://www.example.com").unwrap().is_some());

    assert!(gfw.test("http://sub.example.com").unwrap().is_none());
    assert!(gfw.test("http://sub.example.com/page").unwrap().is_none());
}

#[test]
fn matched_rule_text_is_verbatim() {
    let gfw = GfwList::from("||blocked-site.com\n@@||exception.com").unwrap();
    assert_eq!(
        gfw.test("http://blocked-site.com/page").unwrap(),
        Some("||blocked-site.com")
    );
    assert_eq!(gfw.test("http://exception.com/page").unwrap(), None);
    assert_eq!(gfw.test("http://allowed-site.com/page").unwrap(), None);
}

#[test]
fn regex_rule_matches_raw_query_string() {
    let gfw = GfwList::from("/ban+er/").unwrap();
    assert_eq!(gfw.test("http://ads.example.com/bannner").unwrap(), Some("/ban+er/"));
    assert!(gfw.test("http://ads.example.com/plain").unwrap().is_none());
}

#[test]
fn regex_beats_exception_and_block() {
    let gfw = GfwList::from("/example/\n@@||example.com").unwrap();
    assert_eq!(gfw.test("http://example.com").unwrap(), Some("/example/"));
}

#[test]
fn regex_is_checked_before_url_parsing() {
    let gfw = GfwList::from("/exam/").unwrap();
    assert_eq!(gfw.test("examplenoturl").unwrap(), Some("/exam/"));
}

#[test]
fn query_error_is_distinct_from_no_match() {
    let gfw = GfwList::from("").unwrap();
    assert_eq!(gfw.test("http://example.com").unwrap(), None);
    assert!(gfw.test("example.com").is_err());
    assert!(gfw.test("not a url at all").is_err());
}

#[test]
fn default_literal_rule_anchors_at_host_boundary() {
    let gfw = GfwList::from("blocked").unwrap();
    assert!(gfw.test("http://blocked").unwrap().is_some());
    assert!(gfw.test("http://blocked/page").unwrap().is_some());
    assert!(gfw.test("http://notblocked").unwrap().is_none());
}

#[test]
fn domain_suffix_rule_with_path_segment() {
    let gfw = GfwList::from(".example.com/ads").unwrap();
    assert!(gfw.test("http://www.example.com/ads").unwrap().is_some());
    assert!(gfw.test("http://www.example.com/ads/banner").unwrap().is_some());
    assert!(gfw.test("http://www.example.com/ads2").unwrap().is_none());
    assert!(gfw.test("http://www.example.com/").unwrap().is_none());
}

#[test]
fn same_text_builds_identical_behaviour() {
    let text = "||example.com\n@@||safe.example.com\n/tracker/";
    let a = GfwList::from(text).unwrap();
    let b = GfwList::from(text).unwrap();
    let queries = [
        "http://example.com",
        "http://safe.example.com",
        "http://tracker.net",
        "http://other.org",
    ];
    for q in queries.iter() {
        assert_eq!(a.test(q).unwrap(), b.test(q).unwrap());
    }
    assert_eq!(a.len(), b.len());
}
