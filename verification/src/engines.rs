//! Trusted boundary to the outside engines.
//!
//! The multi-pattern substring searcher, the regular-expression engine
//! and the URL decomposer are external collaborators: their behaviour
//! is stated here as contracts over this crate's own specification
//! functions, and is not proved.  Everything else in the crate is
//! verified against these contracts.
//!
//! The searcher runs over the UTF-8 bytes of its patterns and
//! haystack.  Both are always well-formed UTF-8 here, and a leading
//! byte of one scalar can never be mistaken for a continuation byte of
//! another, so a byte-level occurrence of a pattern coincides exactly
//! with a character-level occurrence; the contracts therefore speak of
//! character sequences throughout.

use vstd::prelude::*;

use crate::encode::{contains_pattern, marker_free};

verus! {

#[verifier::external_type_specification]
#[verifier::external_body]
pub struct ExAhoCorasick(aho_corasick::AhoCorasick);

/// The patterns a searcher was built from, in insertion order.
pub uninterp spec fn ac_patterns(ac: aho_corasick::AhoCorasick) -> Seq<Seq<char>>;

/// The searcher was built for unanchored, standard-semantics searches
/// (the default configuration), so searching never fails.
pub uninterp spec fn ac_unanchored(ac: aho_corasick::AhoCorasick) -> bool;

/// Whether the searcher accepts this pattern set at all.  Its only
/// failure modes (too many patterns, a pattern too long, state-space
/// overflow) are functions of the pattern set alone, so success is
/// one too.
pub uninterp spec fn ac_builds(patterns: Seq<Seq<char>>) -> bool;

/// Relies on aho_corasick::AhoCorasick::new: the default configuration
/// builds an unanchored standard-semantics searcher over exactly the
/// given patterns, in order; it fails only by hitting a resource
/// limit, which depends on the pattern set alone.
#[verifier::external_body]
pub(crate) fn ac_new(patterns: &Vec<String>) -> (r: Option<aho_corasick::AhoCorasick>)
    ensures
        r is Some <==> ac_builds(patterns.deep_view()),
        r matches Some(ac) ==> ac_patterns(ac) == patterns.deep_view() && ac_unanchored(ac),
{
    match aho_corasick::AhoCorasick::new(patterns) {
        Ok(ac) => Some(ac),
        Err(_) => None,
    }
}

/// Relies on aho_corasick::AhoCorasick::find (and Match::pattern,
/// PatternID::as_usize): an unanchored standard-semantics search
/// reports a match exactly when some pattern occurs in the haystack,
/// and identifies one occurring pattern by its insertion index.
#[verifier::external_body]
pub(crate) fn ac_find(ac: &aho_corasick::AhoCorasick, hay: &str) -> (r: Option<usize>)
    requires
        ac_unanchored(*ac),
    ensures
        match r {
            Some(i) => i < ac_patterns(*ac).len() && contains_pattern(
                hay@,
                ac_patterns(*ac)[i as int],
            ),
            None => forall|i: int|
                0 <= i < ac_patterns(*ac).len() ==> !contains_pattern(hay@, ac_patterns(*ac)[i]),
        },
{
    ac.find(hay).map(|m| m.pattern().as_usize())
}

/// Relies on aho_corasick::AhoCorasick::patterns_len: the number of
/// patterns the searcher was built from.
#[verifier::external_body]
pub(crate) fn ac_patterns_len(ac: &aho_corasick::AhoCorasick) -> (r: usize)
    ensures
        r == ac_patterns(*ac).len(),
{
    ac.patterns_len()
}

#[verifier::external_type_specification]
#[verifier::external_body]
pub struct ExRegex(regex::Regex);

/// Whether the regular-expression engine accepts this pattern text.
pub uninterp spec fn regex_ok(pattern: Seq<char>) -> bool;

/// The pattern text a compiled regular expression was built from.
pub uninterp spec fn regex_source(re: regex::Regex) -> Seq<char>;

/// Whether the regular expression built from `pattern` matches
/// somewhere in `input`.
pub uninterp spec fn regex_match(pattern: Seq<char>, input: Seq<char>) -> bool;

/// Relies on regex::Regex::new: compilation succeeds or fails on the
/// pattern text alone, and the compiled value keeps that text (it is
/// what Regex::as_str returns).
#[verifier::external_body]
pub(crate) fn regex_new(pattern: &str) -> (r: Option<regex::Regex>)
    ensures
        r is Some <==> regex_ok(pattern@),
        r matches Some(re) ==> regex_source(re) == pattern@,
{
    regex::Regex::new(pattern).ok()
}

/// Relies on regex::Regex::is_match: whether a match exists is a
/// function of the compiled pattern's source text and the haystack.
#[verifier::external_body]
pub(crate) fn regex_is_match(re: &regex::Regex, input: &str) -> (r: bool)
    ensures
        r == regex_match(regex_source(*re), input@),
{
    re.is_match(input)
}

/// The scheme, host and path fields of a well-formed URL with a host,
/// or nothing when the text is not one.
pub uninterp spec fn url_parts(input: Seq<char>) -> Option<(Seq<char>, Seq<char>, Seq<char>)>;

/// Relies on url::Url::parse together with Url::scheme, Url::host_str
/// and Url::path: parsing is a function of the input text alone, fails
/// exactly on text that is not a well-formed URL, and a parsed URL
/// without a host is reported here the same way as a parse failure.
/// The returned fields are marker-free: a scheme is ASCII letters,
/// digits and `+ - .` only, and hosts and paths are serialized with
/// the control characters percent-encoded (the C0 control
/// percent-encode set covers every marker).  A URL that has a host is
/// never cannot-be-a-base, so its path is empty or begins with `/`.
#[verifier::external_body]
pub(crate) fn parse_url(input: &str) -> (r: Option<(String, String, String)>)
    ensures
        r is Some <==> url_parts(input@) is Some,
        r matches Some(p) ==> url_parts(input@) == Some((p.0@, p.1@, p.2@)),
        r matches Some(p) ==> marker_free(p.0@) && marker_free(p.1@) && marker_free(p.2@),
        r matches Some(p) ==> p.2@.len() == 0 || p.2@[0] == '/',
{
    let u = match url::Url::parse(input) {
        Ok(u) => u,
        Err(_) => return None,
    };
    let host = match u.host_str() {
        Some(h) => h.to_string(),
        None => return None,
    };
    Some((u.scheme().to_string(), host, u.path().to_string()))
}

/// Relies on String's FromIterator over char: the characters collected
/// back into a string, in order.
#[verifier::external_body]
pub(crate) fn chars_to_string(v: &Vec<char>) -> (r: String)
    ensures
        r@ == v@,
{
    v.iter().collect()
}

} // verus!
