//! A compiler and matcher for Adblock-style URL filter lists.
//!
//! Rule-list text is compiled once into an immutable rule set: two
//! multi-pattern substring searchers (block needles and exception
//! needles) plus an ordered list of compiled regular expressions.
//! Queries then classify a URL as blocked (reporting the rule that
//! fired), allowed, or left to the default policy, with a fixed
//! precedence: regular expressions beat exceptions, exceptions beat
//! block rules, and no hit means default allow.

use vstd::prelude::*;

pub mod encode;
pub mod engines;
pub mod lines;
pub mod rules;

pub use rules::BuildError;
pub use rules::SyntaxError;
pub use rules::UrlError;

use crate::encode::{append_host_path, append_url, str_to_chars, BEGIN_OF_HOST,
    HOST_DELIMITER, PATH_DELIMITER};
use crate::engines::{ac_find, ac_new, ac_patterns, ac_patterns_len, ac_unanchored,
    chars_to_string, regex_is_match, regex_new, regex_source, url_parts};
use crate::lines::{spec_lines, split_lines};
use crate::rules::{build_post, empty_model, literal_needle, parse_line, parse_lines_from,
    spec_build, test_post, BuildOutcome, RulesModel};

verus! {

/// A compiled, immutable set of URL filter rules.
///
/// Block needles and exception needles each live in one multi-pattern
/// searcher; the Nth pattern of the block searcher corresponds exactly
/// to the Nth entry of `positive_rules`, and that indexing never
/// drifts.  Compiled regular expressions keep their verbatim rule
/// lines beside them, in source order.
#[derive(Debug)]
pub struct GfwList {
    positive_ac: aho_corasick::AhoCorasick,
    negative_ac: aho_corasick::AhoCorasick,
    positive_rules: Vec<String>,
    regex_patterns: Vec<(regex::Regex, String)>,
}

impl View for GfwList {
    type V = RulesModel;

    closed spec fn view(&self) -> RulesModel {
        RulesModel {
            block_needles: ac_patterns(self.positive_ac),
            block_rules: self.positive_rules.deep_view(),
            exception_needles: ac_patterns(self.negative_ac),
            regex_rules: self.regex_patterns@.map_values(
                |p: (regex::Regex, String)| (regex_source(p.0), p.1@),
            ),
        }
    }
}

/// A compilation result, seen abstractly: the model of a built rule
/// set, or which error came out, with the offending rule text.
pub open spec fn build_outcome_view(r: Result<GfwList, BuildError>) -> BuildOutcome {
    match r {
        Ok(g) => BuildOutcome::Compiled(g@),
        Err(BuildError::Syntax(l, k)) => BuildOutcome::Fault(l@, k),
        Err(BuildError::AhoCorasick) => BuildOutcome::Engine,
    }
}

/// A query result, seen abstractly: the matched rule text, if any.
pub open spec fn query_view(r: Result<Option<&str>, UrlError>) -> Result<
    Option<Seq<char>>,
    UrlError,
> {
    match r {
        Ok(Some(s)) => Ok(Some(s@)),
        Ok(None) => Ok(None),
        Err(e) => Err(e),
    }
}

/// The model a partially built rule set has accumulated so far.
spec fn partial_model(
    block_needles: Seq<Seq<char>>,
    block_rules: Seq<Seq<char>>,
    exception_needles: Seq<Seq<char>>,
    regex_rules: Seq<(Seq<char>, Seq<char>)>,
) -> RulesModel {
    RulesModel { block_needles, block_rules, exception_needles, regex_rules }
}

/// Encode the body of one literal rule (the line after any `@@`
/// strip) into its needle, or report the syntax fault it raises.
fn build_literal_needle(rest: &[char]) -> (r: Result<Vec<char>, SyntaxError>)
    ensures
        match r {
            Ok(n) => literal_needle(rest@) == Ok::<Seq<char>, SyntaxError>(n@),
            Err(e) => literal_needle(rest@) == Err::<Seq<char>, SyntaxError>(e),
        },
{
    if rest.len() == 0 {
        return Err(SyntaxError::Rule);
    }
    let mut needle: Vec<char> = Vec::new();
    if rest[0] == HOST_DELIMITER {
        append_host_path(&mut needle, vstd::slice::slice_subrange(rest, 1, rest.len()));
        proof {
            assert(rest@.subrange(1, rest@.len() as int) =~= rest@.drop_first());
            assert(Seq::<char>::empty() + crate::encode::encoded_host_path(rest@.drop_first())
                =~= crate::encode::encoded_host_path(rest@.drop_first()));
        }
        Ok(needle)
    } else if rest[0] != '|' {
        needle.push(BEGIN_OF_HOST);
        proof {
            assert(needle@ =~= seq![BEGIN_OF_HOST]);
        }
        append_host_path(&mut needle, rest);
        Ok(needle)
    } else if rest.len() >= 2 && rest[1] == '|' {
        append_host_path(&mut needle, vstd::slice::slice_subrange(rest, 2, rest.len()));
        proof {
            assert(rest@.subrange(2, rest@.len() as int) =~= rest@.skip(2));
            assert(Seq::<char>::empty() + crate::encode::encoded_host_path(rest@.skip(2))
                =~= crate::encode::encoded_host_path(rest@.skip(2)));
        }
        Ok(needle)
    } else {
        let url_slice = vstd::slice::slice_subrange(rest, 1, rest.len());
        proof {
            assert(url_slice@ =~= rest@.drop_first());
        }
        let url_vec = vstd::slice::slice_to_vec(url_slice);
        let url_string = chars_to_string(&url_vec);
        match append_url(&mut needle, url_string.as_str(), false) {
            Err(_) => Err(SyntaxError::Url),
            Ok(()) => {
                proof {
                    let u = rest@.drop_first();
                    let p = url_parts(u)->Some_0;
                    let enc = crate::encode::encoded_url(
                        p.0,
                        p.1,
                        p.2,
                        crate::encode::url_path_wanted(p.2, u, false),
                    );
                    assert(Seq::<char>::empty() + enc =~= enc);
                }
                Ok(needle)
            },
        }
    }
}

impl GfwList {
    /// The representation invariant: both searchers answer unanchored
    /// queries, block patterns and block rule texts run in parallel,
    /// and the total rule count fits the machine.
    #[verifier::type_invariant]
    spec fn wf(self) -> bool {
        &&& ac_unanchored(self.positive_ac)
        &&& ac_unanchored(self.negative_ac)
        &&& ac_patterns(self.positive_ac).len() == self.positive_rules@.len()
        &&& ac_patterns(self.positive_ac).len() + ac_patterns(self.negative_ac).len()
            + self.regex_patterns@.len() <= usize::MAX
    }

    /// Compile a rule-list text into a rule set.
    ///
    /// The text is newline-delimited; blank lines and lines starting
    /// with `!` are ignored.  `/pattern/` lines become regular
    /// expression rules, `@@`-prefixed lines exception literals, and
    /// every other line a block literal (with `.`, `||`, `|` anchor
    /// prefixes as described in `rules`).  A bare `@@` with nothing
    /// after it is rejected as a malformed rule, while a single `@`
    /// not followed by a second one is an ordinary block literal.
    ///
    /// The outcome is pinned completely by `build_post`: the first
    /// bad line aborts the whole build with that line and its fault;
    /// an otherwise valid text fails exactly when the search-structure
    /// engine refuses one of the two needle sets; and everything else
    /// yields the compiled model of the text.  Compilation is thus a
    /// pure function of the text (`lemma_build_deterministic`).
    pub fn from(input: &str) -> (r: Result<GfwList, BuildError>)
        ensures
            build_post(input@, build_outcome_view(r)),
    {
        let chars = str_to_chars(input);
        let line_vecs = split_lines(&chars);
        let ghost all_lines = line_vecs.deep_view();
        let mut positive_rules: Vec<String> = Vec::new();
        let mut positive_patterns: Vec<String> = Vec::new();
        let mut negative_patterns: Vec<String> = Vec::new();
        let mut regex_patterns: Vec<(regex::Regex, String)> = Vec::new();
        proof {
            let f = |p: (regex::Regex, String)| (regex_source(p.0), p.1@);
            assert(positive_patterns.deep_view() =~~= Seq::<Seq<char>>::empty());
            assert(positive_rules.deep_view() =~~= Seq::<Seq<char>>::empty());
            assert(negative_patterns.deep_view() =~~= Seq::<Seq<char>>::empty());
            assert(regex_patterns@.map_values(f) =~= Seq::<(Seq<char>, Seq<char>)>::empty());
        }
        let mut idx: usize = 0;
        while idx < line_vecs.len()
            invariant
                idx <= line_vecs@.len(),
                all_lines == line_vecs.deep_view(),
                all_lines == spec_lines(input@),
                positive_patterns@.len() == positive_rules@.len(),
                positive_patterns@.len() + negative_patterns@.len() + regex_patterns@.len()
                    <= idx,
                parse_lines_from(empty_model(), all_lines, 0) == parse_lines_from(
                    partial_model(
                        positive_patterns.deep_view(),
                        positive_rules.deep_view(),
                        negative_patterns.deep_view(),
                        regex_patterns@.map_values(
                            |p: (regex::Regex, String)| (regex_source(p.0), p.1@),
                        ),
                    ),
                    all_lines,
                    idx as int,
                ),
            decreases line_vecs@.len() - idx,
        {
            let ghost cur = partial_model(
                positive_patterns.deep_view(),
                positive_rules.deep_view(),
                negative_patterns.deep_view(),
                regex_patterns@.map_values(
                    |p: (regex::Regex, String)| (regex_source(p.0), p.1@),
                ),
            );
            let line = &line_vecs[idx];
            proof {
                assert(line@ == all_lines[idx as int]);
            }
            if line.len() == 0 || line[0] == '!' {
                proof {
                    assert(parse_line(cur, all_lines[idx as int]) == Ok::<
                        RulesModel,
                        (Seq<char>, SyntaxError),
                    >(cur));
                }
                idx = idx + 1;
                continue ;
            }
            if line[0] == PATH_DELIMITER {
                let rule_text = chars_to_string(line);
                if line.len() == 1 || line[line.len() - 1] != PATH_DELIMITER {
                    proof {
                        assert(parse_lines_from(cur, all_lines, idx as int) == Err::<
                            RulesModel,
                            (Seq<char>, SyntaxError),
                        >((line@, SyntaxError::Rule)));
                    }
                    return Err(BuildError::Syntax(rule_text, SyntaxError::Rule));
                }
                let pat_vec = vstd::slice::slice_to_vec(
                    vstd::slice::slice_subrange(line.as_slice(), 1, line.len() - 1),
                );
                let pat = chars_to_string(&pat_vec);
                proof {
                    assert(pat@ == line@.subrange(1, line@.len() - 1));
                }
                match regex_new(pat.as_str()) {
                    Some(re) => {
                        regex_patterns.push((re, rule_text));
                        proof {
                            let f = |p: (regex::Regex, String)| (regex_source(p.0), p.1@);
                            assert(regex_patterns@.map_values(f) =~= cur.regex_rules.push(
                                (line@.subrange(1, line@.len() - 1), line@),
                            ));
                            assert(parse_line(cur, all_lines[idx as int]) == Ok::<
                                RulesModel,
                                (Seq<char>, SyntaxError),
                            >(
                                partial_model(
                                    positive_patterns.deep_view(),
                                    positive_rules.deep_view(),
                                    negative_patterns.deep_view(),
                                    regex_patterns@.map_values(f),
                                ),
                            ));
                        }
                    },
                    None => {
                        proof {
                            assert(parse_lines_from(cur, all_lines, idx as int) == Err::<
                                RulesModel,
                                (Seq<char>, SyntaxError),
                            >((line@, SyntaxError::Regex)));
                        }
                        return Err(BuildError::Syntax(rule_text, SyntaxError::Regex));
                    },
                }
                idx = idx + 1;
                continue ;
            }
            let is_exception = line[0] == '@' && line.len() >= 2 && line[1] == '@';
            let rest: &[char] = if is_exception {
                vstd::slice::slice_subrange(line.as_slice(), 2, line.len())
            } else {
                line.as_slice()
            };
            proof {
                if is_exception {
                    assert(rest@ =~= line@.skip(2));
                } else {
                    assert(rest@ == line@);
                }
            }
            match build_literal_needle(rest) {
                Err(e) => {
                    proof {
                        if is_exception {
                            assert(parse_line(cur, all_lines[idx as int]) == Err::<
                                RulesModel,
                                (Seq<char>, SyntaxError),
                            >((line@.skip(2), e)));
                        } else {
                            assert(parse_line(cur, all_lines[idx as int]) == Err::<
                                RulesModel,
                                (Seq<char>, SyntaxError),
                            >((line@, e)));
                        }
                        assert(parse_lines_from(cur, all_lines, idx as int) == Err::<
                            RulesModel,
                            (Seq<char>, SyntaxError),
                        >((rest@, e)));
                    }
                    let rest_vec = vstd::slice::slice_to_vec(rest);
                    return Err(BuildError::Syntax(chars_to_string(&rest_vec), e));
                },
                Ok(needle_vec) => {
                    let needle = chars_to_string(&needle_vec);
                    if is_exception {
                        negative_patterns.push(needle);
                        proof {
                            assert(negative_patterns.deep_view() =~= cur.exception_needles.push(
                                needle_vec@,
                            ));
                            assert(positive_patterns.deep_view() == cur.block_needles);
                            assert(positive_rules.deep_view() == cur.block_rules);
                        }
                    } else {
                        positive_patterns.push(needle);
                        positive_rules.push(chars_to_string(line));
                        proof {
                            assert(positive_patterns.deep_view() =~= cur.block_needles.push(
                                needle_vec@,
                            ));
                            assert(positive_rules.deep_view() =~= cur.block_rules.push(line@));
                            assert(negative_patterns.deep_view() == cur.exception_needles);
                        }
                    }
                },
            }
            idx = idx + 1;
        }
        let ghost built = partial_model(
            positive_patterns.deep_view(),
            positive_rules.deep_view(),
            negative_patterns.deep_view(),
            regex_patterns@.map_values(|p: (regex::Regex, String)| (regex_source(p.0), p.1@)),
        );
        proof {
            assert(spec_build(input@) == Ok::<RulesModel, (Seq<char>, SyntaxError)>(built));
        }
        let positive_ac = match ac_new(&positive_patterns) {
            Some(ac) => ac,
            None => {
                return Err(BuildError::AhoCorasick);
            },
        };
        let negative_ac = match ac_new(&negative_patterns) {
            Some(ac) => ac,
            None => {
                return Err(BuildError::AhoCorasick);
            },
        };
        let g = GfwList { positive_ac, negative_ac, positive_rules, regex_patterns };
        proof {
            assert(g@.regex_rules == built.regex_rules);
        }
        Ok(g)
    }

    /// Query a URL against the rule set.
    ///
    /// Regular-expression rules are scanned first, in source order,
    /// against the raw query string; then the query URL is decomposed
    /// and encoded, and the exception and block needles searched in
    /// that order.  The result is the verbatim text of the rule that
    /// fired, `None` for an explicit or default allow, and an error
    /// when the query string is not a well-formed URL with a host
    /// (which no rule decided first).
    pub fn test<'a>(&'a self, input: &str) -> (r: Result<Option<&'a str>, UrlError>)
        ensures
            test_post(self@, input@, query_view(r)),
    {
        proof {
            use_type_invariant(&*self);
        }
        let ghost m = self@;
        let mut i: usize = 0;
        while i < self.regex_patterns.len()
            invariant
                i <= self.regex_patterns@.len(),
                m == self@,
                m.regex_rules == self.regex_patterns@.map_values(
                    |p: (regex::Regex, String)| (regex_source(p.0), p.1@),
                ),
                forall|j: int| 0 <= j < i ==> !crate::engines::regex_match(
                    m.regex_rules[j].0,
                    input@,
                ),
            decreases self.regex_patterns@.len() - i,
        {
            let p = &self.regex_patterns[i];
            if regex_is_match(&p.0, input) {
                proof {
                    crate::rules::lemma_first_matching_regex(m.regex_rules, input@);
                    let k = crate::rules::first_matching_regex(m.regex_rules, input@);
                    assert(m.regex_rules[i as int].0 == regex_source(p.0));
                    if k < i {
                        assert(!crate::engines::regex_match(m.regex_rules[k].0, input@));
                    }
                    if i < k {
                        assert(!crate::engines::regex_match(m.regex_rules[i as int].0, input@));
                    }
                }
                return Ok(Some(p.1.as_str()));
            }
            i = i + 1;
        }
        proof {
            crate::rules::lemma_first_matching_regex(m.regex_rules, input@);
            let k = crate::rules::first_matching_regex(m.regex_rules, input@);
            if k < m.regex_rules.len() {
                assert(!crate::engines::regex_match(m.regex_rules[k].0, input@));
            }
        }
        let mut haystack: Vec<char> = Vec::new();
        match append_url(&mut haystack, input, true) {
            Err(e) => Err(e),
            Ok(()) => {
                proof {
                    let p = url_parts(input@)->Some_0;
                    let enc = crate::encode::encoded_url(p.0, p.1, p.2, true);
                    assert(Seq::<char>::empty() + enc =~= enc);
                }
                let hay = chars_to_string(&haystack);
                if ac_find(&self.negative_ac, hay.as_str()).is_some() {
                    return Ok(None);
                }
                match ac_find(&self.positive_ac, hay.as_str()) {
                    Some(hit) => Ok(Some(self.positive_rules[hit].as_str())),
                    None => Ok(None),
                }
            },
        }
    }

    /// The number of rules: block literals, exception literals and
    /// regular-expression rules together, independent of any query.
    pub fn len(&self) -> (r: usize)
        ensures
            r == self@.block_needles.len() + self@.exception_needles.len()
                + self@.regex_rules.len(),
    {
        proof {
            use_type_invariant(&*self);
        }
        let a = ac_patterns_len(&self.positive_ac);
        let b = ac_patterns_len(&self.negative_ac);
        a + b + self.regex_patterns.len()
    }

    /// Whether the rule set holds no rule at all.
    pub fn is_empty(&self) -> (r: bool)
        ensures
            r <==> self@.block_needles.len() + self@.exception_needles.len()
                + self@.regex_rules.len() == 0,
    {
        self.len() == 0
    }
}

} // verus!
