//! Pattern and URL encoding.
//!
//! Anchored, field-aware rules (scheme / host / path) are flattened into
//! plain character sequences so that a single multi-pattern substring
//! search reproduces the anchored matching semantics.  Reserved
//! non-printable marker characters delimit the scheme, host and path
//! fields inside one flat buffer; they cannot occur in a decoded URL
//! field, so a substring match never crosses a field boundary by
//! accident.

use vstd::prelude::*;

use crate::engines::{parse_url, url_parts};
use crate::rules::UrlError;

verus! {

/// Marker for the beginning of a URL scheme.
pub const BEGIN_OF_SCHEME: char = '\u{1}';

/// Marker for the beginning of a host.
pub const BEGIN_OF_HOST: char = '\u{2}';

/// Marker for the beginning of a path.
pub const BEGIN_OF_PATH: char = '\u{3}';

/// Delimiter between host components.
pub const HOST_DELIMITER: char = '.';

/// Delimiter between path components.
pub const PATH_DELIMITER: char = '/';

/// A host fragment, normalized to begin at a label boundary: a leading
/// `.` is prepended unless one is already there.
pub open spec fn encoded_host(host: Seq<char>) -> Seq<char> {
    if host.len() > 0 && host[0] == HOST_DELIMITER {
        host
    } else {
        seq![HOST_DELIMITER] + host
    }
}

/// A path fragment, normalized to end at a segment boundary: a trailing
/// `/` is appended unless one is already there.
pub open spec fn encoded_path(path: Seq<char>) -> Seq<char> {
    if path.len() > 0 && path.last() == PATH_DELIMITER {
        path
    } else {
        path + seq![PATH_DELIMITER]
    }
}

/// Index of the first `/` in `s`, or `s.len()` if there is none.
pub open spec fn first_path_index(s: Seq<char>) -> int
    decreases s.len(),
{
    if s.len() == 0 {
        0
    } else if s[0] == PATH_DELIMITER {
        0
    } else {
        1 + first_path_index(s.drop_first())
    }
}

/// `first_path_index` is the unique position that is either the first
/// `/` of `s` or the end of `s`.
pub proof fn lemma_first_path_index(s: Seq<char>)
    ensures
        0 <= first_path_index(s) <= s.len(),
        first_path_index(s) < s.len() ==> s[first_path_index(s)] == PATH_DELIMITER,
        forall|j: int| 0 <= j < first_path_index(s) ==> s[j] != PATH_DELIMITER,
    decreases s.len(),
{
    if s.len() > 0 && s[0] != PATH_DELIMITER {
        lemma_first_path_index(s.drop_first());
        assert forall|j: int| 0 <= j < first_path_index(s) implies s[j] != PATH_DELIMITER by {
            if j > 0 {
                assert(s.drop_first()[j - 1] != PATH_DELIMITER);
            }
        }
    }
}

/// A rule fragment of the form `host[/path]`, split at its first `/`
/// (an absent path is the empty path), encoded as host, path marker,
/// path.
pub open spec fn encoded_host_path(input: Seq<char>) -> Seq<char> {
    let i = first_path_index(input);
    encoded_host(input.take(i)) + seq![BEGIN_OF_PATH] + encoded_path(input.skip(i))
}

/// A decomposed URL, encoded as scheme marker, scheme, host marker,
/// host and, only when `with_path` holds, path marker and path.
pub open spec fn encoded_url(
    scheme: Seq<char>,
    host: Seq<char>,
    path: Seq<char>,
    with_path: bool,
) -> Seq<char> {
    let head = seq![BEGIN_OF_SCHEME] + scheme + seq![BEGIN_OF_HOST] + encoded_host(host);
    if with_path {
        head + seq![BEGIN_OF_PATH] + encoded_path(path)
    } else {
        head
    }
}

/// Whether the encoding of a URL carries its path field: always in full
/// mode (query haystacks), otherwise only when the path says more than
/// the bare root `/`, either by its own content or by the raw input
/// ending in `/`.
pub open spec fn url_path_wanted(path: Seq<char>, raw: Seq<char>, full_mode: bool) -> bool {
    ||| full_mode
    ||| path != seq![PATH_DELIMITER]
    ||| raw.len() > 0 && raw.last() == PATH_DELIMITER
}

/// `needle` occurs as a contiguous run inside `hay`.
pub open spec fn contains_pattern(hay: Seq<char>, needle: Seq<char>) -> bool {
    exists|i: int|
        0 <= i && i + needle.len() <= hay.len() && #[trigger] hay.subrange(i, i + needle.len())
            == needle
}

/// No reserved marker character occurs in `s`.  URL fields are
/// marker-free: the markers are non-printable control characters that
/// a decomposed scheme, host or serialized path never contains.
pub open spec fn marker_free(s: Seq<char>) -> bool {
    forall|i: int|
        0 <= i < s.len() ==> #[trigger] s[i] != BEGIN_OF_SCHEME && s[i] != BEGIN_OF_HOST && s[i]
            != BEGIN_OF_PATH
}

/// Encoding a marker-free host introduces no marker.
pub proof fn lemma_encoded_host_marker_free(host: Seq<char>)
    requires
        marker_free(host),
    ensures
        marker_free(encoded_host(host)),
{
}

/// Encoding a marker-free path introduces no marker.
pub proof fn lemma_encoded_path_marker_free(path: Seq<char>)
    requires
        marker_free(path),
    ensures
        marker_free(encoded_path(path)),
{
}

/// The load-bearing property of the whole encoding scheme: for
/// marker-free URL fields, a plain substring search for the needle of
/// a domain rule (a domain with no path part, as in a domain-suffix
/// or domain-anchor rule) hits a full-mode encoded URL exactly when
/// the URL's host is the domain, or ends with it at a label boundary,
/// and its path opens a segment.  In particular a rule domain can
/// never match a mere tail of a host label: the leading `.` of the
/// encoded domain must line up with a real label boundary.
pub proof fn lemma_domain_needle_exact(
    scheme: Seq<char>,
    host: Seq<char>,
    path: Seq<char>,
    domain: Seq<char>,
)
    requires
        marker_free(scheme),
        marker_free(host),
        marker_free(path),
        marker_free(domain),
        forall|i: int| 0 <= i < domain.len() ==> #[trigger] domain[i] != PATH_DELIMITER,
    ensures
        contains_pattern(encoded_url(scheme, host, path, true), encoded_host_path(domain)) <==> (
        encoded_host(domain).is_suffix_of(encoded_host(host)) && (path.len() == 0 || path[0]
            == PATH_DELIMITER)),
{
    let hay = encoded_url(scheme, host, path, true);
    let eh = encoded_host(host);
    let ed = encoded_host(domain);
    let ep = encoded_path(path);
    let needle = encoded_host_path(domain);
    let sl = scheme.len() as int;
    // The haystack's one path marker stands after the scheme marker,
    // the scheme, the host marker and the encoded host.
    let bop: int = 2 + sl + eh.len();
    lemma_encoded_host_marker_free(host);
    lemma_encoded_host_marker_free(domain);
    lemma_encoded_path_marker_free(path);
    lemma_first_path_index(domain);
    assert(first_path_index(domain) == domain.len()) by {
        if first_path_index(domain) < domain.len() {
            assert(domain[first_path_index(domain)] != PATH_DELIMITER);
        }
    }
    assert(domain.take(domain.len() as int) =~= domain);
    assert(domain.skip(domain.len() as int) =~= Seq::<char>::empty());
    assert(needle =~= ed + seq![BEGIN_OF_PATH] + seq![PATH_DELIMITER]);
    assert(hay =~= seq![BEGIN_OF_SCHEME] + scheme + seq![BEGIN_OF_HOST] + eh + seq![
        BEGIN_OF_PATH,
    ] + ep);
    assert(hay.len() == 3 + sl + eh.len() + ep.len());
    assert(ep[0] == PATH_DELIMITER <==> (path.len() == 0 || path[0] == PATH_DELIMITER));
    // Where each character of the haystack comes from.
    assert(hay[0] == BEGIN_OF_SCHEME);
    assert(forall|k: int| 1 <= k < 1 + sl ==> hay[k] == scheme[k - 1]);
    assert(hay[1 + sl] == BEGIN_OF_HOST);
    assert(forall|k: int| 2 + sl <= k < bop ==> hay[k] == eh[k - 2 - sl]);
    assert(hay[bop] == BEGIN_OF_PATH);
    assert(forall|k: int| bop + 1 <= k < hay.len() ==> hay[k] == ep[k - bop - 1]);
    // The path marker occurs in the haystack exactly once.
    assert forall|k: int| 0 <= k < hay.len() && hay[k] == BEGIN_OF_PATH implies k == bop by {
        if 1 <= k < 1 + sl {
            assert(scheme[k - 1] != BEGIN_OF_PATH);
        }
        if 2 + sl <= k < bop {
            assert(eh[k - 2 - sl] != BEGIN_OF_PATH);
        }
        if bop + 1 <= k < hay.len() {
            assert(ep[k - bop - 1] != BEGIN_OF_PATH);
        }
    }
    if ed.is_suffix_of(eh) && (path.len() == 0 || path[0] == PATH_DELIMITER) {
        let i = bop - ed.len();
        assert forall|j: int| 0 <= j < needle.len() implies hay[i + j] == needle[j] by {
            if j < ed.len() {
                assert(ed[j] == eh.subrange(eh.len() - ed.len(), eh.len() as int)[j]);
                assert(hay[i + j] == eh[eh.len() - ed.len() + j]);
            } else if j == ed.len() {
                assert(needle[j] == BEGIN_OF_PATH);
            } else {
                assert(needle[j] == PATH_DELIMITER);
                assert(hay[bop + 1] == ep[0]);
            }
        }
        assert(hay.subrange(i, i + needle.len()) =~= needle);
        assert(contains_pattern(hay, needle));
    }
    if contains_pattern(hay, needle) {
        let i = choose|i: int|
            0 <= i && i + needle.len() <= hay.len() && #[trigger] hay.subrange(
                i,
                i + needle.len(),
            ) == needle;
        assert(forall|j: int|
            0 <= j < needle.len() ==> hay.subrange(i, i + needle.len())[j] == needle[j]);
        assert(forall|j: int| 0 <= j < needle.len() ==> hay[i + j] == needle[j]);
        assert(needle.len() == ed.len() + 2);
        assert(needle[ed.len() as int] == BEGIN_OF_PATH);
        assert(needle[ed.len() as int + 1] == PATH_DELIMITER);
        assert(hay[i + ed.len()] == needle[ed.len() as int]);
        assert(hay[i + ed.len()] == BEGIN_OF_PATH);
        assert(i + ed.len() == bop);
        assert(i >= 2 + sl) by {
            if i < 2 + sl {
                assert(hay[1 + sl] == BEGIN_OF_HOST);
                assert(needle[1 + sl - i] == BEGIN_OF_HOST);
                assert(0 <= 1 + sl - i < ed.len());
                assert(needle[1 + sl - i] == ed[1 + sl - i]);
                assert(ed[1 + sl - i] != BEGIN_OF_HOST);
            }
        }
        assert(ed.len() <= eh.len());
        assert forall|j: int| 0 <= j < ed.len() implies ed[j] == eh.subrange(
            eh.len() - ed.len(),
            eh.len() as int,
        )[j] by {
            assert(needle[j] == ed[j]);
            assert(hay[i + j] == eh[i + j - 2 - sl]);
            assert(i - 2 - sl == eh.len() - ed.len());
        }
        assert(ed =~= eh.subrange(eh.len() - ed.len(), eh.len() as int));
        assert(ed.is_suffix_of(eh));
        assert(hay[i + ed.len() + 1] == needle[ed.len() as int + 1]);
        assert(hay[bop + 1] == PATH_DELIMITER);
        assert(ep[0] == PATH_DELIMITER);
    }
}

/// The companion property for full-URL-anchor rules: their needle
/// opens with the scheme marker, which stands only at the very start
/// of an encoded URL, so a substring hit is an anchored hit.  The
/// needle of a pathless full-URL-anchor rule occurs in a full-mode
/// encoded URL exactly when the schemes are identical and the URL's
/// host extends the rule's host, label by label, at its front (so the
/// rule also covers hosts that merely grow at the end, but never a
/// different scheme and never a host grown at the front).
pub proof fn lemma_url_anchor_needle_exact(
    scheme: Seq<char>,
    host: Seq<char>,
    path: Seq<char>,
    scheme2: Seq<char>,
    host2: Seq<char>,
)
    requires
        marker_free(scheme),
        marker_free(host),
        marker_free(path),
        marker_free(host2),
    ensures
        contains_pattern(
            encoded_url(scheme, host, path, true),
            encoded_url(scheme2, host2, Seq::empty(), false),
        ) <==> (scheme2 == scheme && encoded_host(host2).is_prefix_of(encoded_host(host))),
{
    let hay = encoded_url(scheme, host, path, true);
    let eh = encoded_host(host);
    let e2 = encoded_host(host2);
    let ep = encoded_path(path);
    let needle = encoded_url(scheme2, host2, Seq::empty(), false);
    let sl = scheme.len() as int;
    let s2l = scheme2.len() as int;
    let bop: int = 2 + sl + eh.len();
    lemma_encoded_host_marker_free(host);
    lemma_encoded_host_marker_free(host2);
    lemma_encoded_path_marker_free(path);
    assert(hay =~= seq![BEGIN_OF_SCHEME] + scheme + seq![BEGIN_OF_HOST] + eh + seq![
        BEGIN_OF_PATH,
    ] + ep);
    assert(needle =~= seq![BEGIN_OF_SCHEME] + scheme2 + seq![BEGIN_OF_HOST] + e2);
    assert(hay.len() == 3 + sl + eh.len() + ep.len());
    assert(needle.len() == 2 + s2l + e2.len());
    // Where each character of the haystack and the needle comes from.
    assert(hay[0] == BEGIN_OF_SCHEME);
    assert(forall|k: int| 1 <= k < 1 + sl ==> hay[k] == scheme[k - 1]);
    assert(hay[1 + sl] == BEGIN_OF_HOST);
    assert(forall|k: int| 2 + sl <= k < bop ==> hay[k] == eh[k - 2 - sl]);
    assert(hay[bop] == BEGIN_OF_PATH);
    assert(forall|k: int| bop + 1 <= k < hay.len() ==> hay[k] == ep[k - bop - 1]);
    assert(needle[0] == BEGIN_OF_SCHEME);
    assert(forall|k: int| 1 <= k < 1 + s2l ==> needle[k] == scheme2[k - 1]);
    assert(needle[1 + s2l] == BEGIN_OF_HOST);
    assert(forall|k: int| 2 + s2l <= k < needle.len() ==> needle[k] == e2[k - 2 - s2l]);
    // The scheme and host markers each occur in the haystack once.
    assert forall|k: int| 0 <= k < hay.len() && hay[k] == BEGIN_OF_SCHEME implies k == 0 by {
        if 1 <= k < 1 + sl {
            assert(scheme[k - 1] != BEGIN_OF_SCHEME);
        }
        if 2 + sl <= k < bop {
            assert(eh[k - 2 - sl] != BEGIN_OF_SCHEME);
        }
        if bop + 1 <= k < hay.len() {
            assert(ep[k - bop - 1] != BEGIN_OF_SCHEME);
        }
    }
    assert forall|k: int| 0 <= k < hay.len() && hay[k] == BEGIN_OF_HOST implies k == 1 + sl by {
        if 1 <= k < 1 + sl {
            assert(scheme[k - 1] != BEGIN_OF_HOST);
        }
        if 2 + sl <= k < bop {
            assert(eh[k - 2 - sl] != BEGIN_OF_HOST);
        }
        if bop + 1 <= k < hay.len() {
            assert(ep[k - bop - 1] != BEGIN_OF_HOST);
        }
    }
    if scheme2 == scheme && e2.is_prefix_of(eh) {
        assert forall|j: int| 0 <= j < needle.len() implies hay[0 + j] == needle[j] by {
            if 1 <= j < 1 + sl {
                assert(needle[j] == scheme2[j - 1]);
            }
            if 2 + sl <= j {
                assert(needle[j] == e2[j - 2 - sl]);
                assert(e2[j - 2 - sl] == eh.subrange(0, e2.len() as int)[j - 2 - sl]);
            }
        }
        let start: int = 0;
        assert(hay.subrange(start, start + needle.len()) =~= needle);
        assert(contains_pattern(hay, needle));
    }
    if contains_pattern(hay, needle) {
        let i = choose|i: int|
            0 <= i && i + needle.len() <= hay.len() && #[trigger] hay.subrange(
                i,
                i + needle.len(),
            ) == needle;
        assert(forall|j: int|
            0 <= j < needle.len() ==> hay.subrange(i, i + needle.len())[j] == needle[j]);
        assert(forall|j: int| 0 <= j < needle.len() ==> hay[i + j] == needle[j]);
        assert(hay[i + 0] == BEGIN_OF_SCHEME);
        assert(i == 0);
        assert(hay[1 + s2l] == BEGIN_OF_HOST);
        assert(s2l == sl);
        assert forall|k: int| 0 <= k < s2l implies scheme2[k] == scheme[k] by {
            assert(needle[k + 1] == scheme2[k]);
            assert(hay[k + 1] == scheme[k]);
        }
        assert(scheme2 =~= scheme);
        assert(e2.len() <= eh.len()) by {
            if e2.len() > eh.len() {
                assert(hay[bop] == BEGIN_OF_PATH);
                assert(needle[bop] == e2[bop - 2 - sl]);
                assert(e2[bop - 2 - sl] != BEGIN_OF_PATH);
            }
        }
        assert forall|j: int| 0 <= j < e2.len() implies e2[j] == eh.subrange(
            0,
            e2.len() as int,
        )[j] by {
            assert(needle[2 + sl + j] == e2[j]);
            assert(hay[2 + sl + j] == eh[j]);
        }
        assert(e2 =~= eh.subrange(0, e2.len() as int));
        assert(e2.is_prefix_of(eh));
    }
}

/// The characters of a string, collected in order.
pub fn str_to_chars(s: &str) -> (r: Vec<char>)
    ensures
        r@ == s@,
{
    broadcast use vstd::string::group_string_axioms;

    let mut r: Vec<char> = Vec::new();
    for c in it: s.chars()
        invariant
            it.seq() == s@,
            r@ == s@.take(it.index() as int),
    {
        r.push(c);
        proof {
            assert(s@.take(it.index() + 1) == s@.take(it.index() as int).push(
                s@[it.index() as int],
            ));
        }
    }
    proof {
        assert(s@.take(s@.len() as int) == s@);
    }
    r
}

/// Append every character of `s` to `acc`, in order.
pub fn append_chars(acc: &mut Vec<char>, s: &[char])
    ensures
        final(acc)@ == old(acc)@ + s@,
{
    let mut i: usize = 0;
    while i < s.len()
        invariant
            i <= s@.len(),
            acc@ == old(acc)@ + s@.take(i as int),
        decreases s@.len() - i,
    {
        acc.push(s[i]);
        i = i + 1;
        proof {
            assert(s@.take(i as int) == s@.take(i - 1).push(s@[i - 1]));
        }
    }
    proof {
        assert(s@.take(s@.len() as int) == s@);
    }
}

/// Append a host fragment, guaranteeing it begins at a label boundary.
pub fn append_host(acc: &mut Vec<char>, host: &[char])
    ensures
        final(acc)@ == old(acc)@ + encoded_host(host@),
{
    if !(host.len() > 0 && host[0] == HOST_DELIMITER) {
        acc.push(HOST_DELIMITER);
    }
    append_chars(acc, host);
}

/// Append a path fragment, guaranteeing it ends at a segment boundary.
pub fn append_path(acc: &mut Vec<char>, path: &[char])
    ensures
        final(acc)@ == old(acc)@ + encoded_path(path@),
{
    append_chars(acc, path);
    if !(path.len() > 0 && path[path.len() - 1] == PATH_DELIMITER) {
        acc.push(PATH_DELIMITER);
    }
}

/// Append a `host[/path]` rule fragment, split at its first `/`.
pub fn append_host_path(acc: &mut Vec<char>, input: &[char])
    ensures
        final(acc)@ == old(acc)@ + encoded_host_path(input@),
{
    let mut pos: usize = 0;
    while pos < input.len() && input[pos] != PATH_DELIMITER
        invariant
            pos <= input@.len(),
            forall|j: int| 0 <= j < pos ==> input@[j] != PATH_DELIMITER,
        decreases input@.len() - pos,
    {
        pos = pos + 1;
    }
    proof {
        lemma_first_path_index(input@);
        if pos < input@.len() {
            assert(input@[pos as int] == PATH_DELIMITER);
        }
        assert(pos == first_path_index(input@)) by {
            let f = first_path_index(input@);
            if f < pos {
                assert(input@[f] != PATH_DELIMITER);
            }
            if pos < f {
                assert(input@[pos as int] != PATH_DELIMITER);
            }
        }
    }
    append_host(acc, vstd::slice::slice_subrange(input, 0, pos));
    acc.push(BEGIN_OF_PATH);
    append_path(acc, vstd::slice::slice_subrange(input, pos, input.len()));
    proof {
        assert(input@.subrange(0, pos as int) == input@.take(pos as int));
        assert(input@.subrange(pos as int, input@.len() as int) == input@.skip(pos as int));
    }
}

/// Append the encoding of a URL string: decompose it, then emit the
/// scheme and host fields and, per `url_path_wanted`, the path field.
/// Build-time full-URL-anchor rules run with `full_mode` false; the
/// query-time haystack always runs with `full_mode` true.  This
/// asymmetry is load-bearing: it suppresses an uninformative root
/// path marker on needles while keeping it on every haystack.  When
/// the input is not a well-formed URL with a host, the buffer is left
/// untouched.
pub fn append_url(acc: &mut Vec<char>, input: &str, full_mode: bool) -> (r: Result<(), UrlError>)
    ensures
        match url_parts(input@) {
            Some(p) => r is Ok && final(acc)@ == old(acc)@ + encoded_url(
                p.0,
                p.1,
                p.2,
                url_path_wanted(p.2, input@, full_mode),
            ),
            None => r is Err && final(acc)@ == old(acc)@,
        },
{
    match parse_url(input) {
        None => Err(UrlError),
        Some((scheme, host, path)) => {
            let scheme_chars = str_to_chars(scheme.as_str());
            let host_chars = str_to_chars(host.as_str());
            let path_chars = str_to_chars(path.as_str());
            let input_chars = str_to_chars(input);
            let path_is_root = path_chars.len() == 1 && path_chars[0] == PATH_DELIMITER;
            let ends_in_slash = input_chars.len() > 0 && input_chars[input_chars.len() - 1]
                == PATH_DELIMITER;
            let with_path = full_mode || !path_is_root || ends_in_slash;
            proof {
                if path_is_root {
                    assert(path_chars@ =~= seq![PATH_DELIMITER]);
                }
                if path_chars@ == seq![PATH_DELIMITER] {
                    assert(path_chars@.len() == 1 && path_chars@[0] == PATH_DELIMITER);
                }
            }
            append_url_fields(
                acc,
                scheme_chars.as_slice(),
                host_chars.as_slice(),
                path_chars.as_slice(),
                with_path,
            );
            Ok(())
        },
    }
}

/// Append a URL already decomposed into its scheme, host and path
/// fields; `with_path` says whether the path field is carried at all.
pub fn append_url_fields(
    acc: &mut Vec<char>,
    scheme: &[char],
    host: &[char],
    path: &[char],
    with_path: bool,
)
    ensures
        final(acc)@ == old(acc)@ + encoded_url(scheme@, host@, path@, with_path),
{
    acc.push(BEGIN_OF_SCHEME);
    append_chars(acc, scheme);
    acc.push(BEGIN_OF_HOST);
    append_host(acc, host);
    if with_path {
        acc.push(BEGIN_OF_PATH);
        append_path(acc, path);
    }
}

} // verus!
