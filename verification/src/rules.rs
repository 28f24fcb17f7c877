//! The rule-list model.
//!
//! Rule-list text is classified line by line: blank lines and `!`
//! comments are skipped; `/pattern/` lines become regular-expression
//! rules; `@@`-prefixed lines become exception literals; everything
//! else becomes a block literal.  Literal rules are encoded into
//! needles (see `encode`); the model below is what a compiled rule set
//! is a faithful image of, and what the query operation is specified
//! against.

use vstd::prelude::*;

use crate::encode::{
    contains_pattern, encoded_host_path, encoded_url, url_path_wanted, BEGIN_OF_HOST,
    HOST_DELIMITER, PATH_DELIMITER,
};
use crate::engines::{ac_builds, regex_match, regex_ok, url_parts};
use crate::lines::spec_lines;

verus! {

/// A syntax fault in a single rule line.
#[derive(Debug, Clone, Copy, PartialEq, Eq, Structural)]
pub enum SyntaxError {
    /// Malformed rule shape: an unterminated `/…/` delimiter, or an
    /// exception marker `@@` with nothing after it.
    Rule,
    /// The body of a `/…/` rule is not a valid regular expression.
    Regex,
    /// The remainder of a `|…` rule is not a well-formed URL with a
    /// host.
    Url,
}

/// Why a rule list failed to compile.  Any one bad line aborts the
/// whole build; no partial rule set is ever produced.
#[derive(Debug)]
pub enum BuildError {
    /// A rule line is malformed; carries the offending line verbatim.
    Syntax(String, SyntaxError),
    /// The multi-pattern searcher rejected the compiled pattern set.
    AhoCorasick,
}

/// The query string is not a well-formed URL with a host.  Distinct
/// from "no rule matched": it aborts the single query.
#[derive(Debug, Clone, Copy, PartialEq, Eq, Structural)]
pub struct UrlError;

/// The mathematical image of a compiled rule set: block and exception
/// needles in source order, the block rule texts in parallel to the
/// block needles, and the regular-expression rules, each with its
/// pattern body and its verbatim line, in source order.
pub struct RulesModel {
    pub block_needles: Seq<Seq<char>>,
    pub block_rules: Seq<Seq<char>>,
    pub exception_needles: Seq<Seq<char>>,
    pub regex_rules: Seq<(Seq<char>, Seq<char>)>,
}

/// The model of a rule set with no rules at all.
pub open spec fn empty_model() -> RulesModel {
    RulesModel {
        block_needles: Seq::empty(),
        block_rules: Seq::empty(),
        exception_needles: Seq::empty(),
        regex_rules: Seq::empty(),
    }
}

/// Blank lines and `!` comments are ignored.
pub open spec fn line_is_skipped(line: Seq<char>) -> bool {
    line.len() == 0 || line[0] == '!'
}

/// The needle of a literal rule body (the line after any `@@` strip),
/// or the syntax fault it raises.  An empty body is malformed; a `.`
/// prefix is a domain-suffix rule; a `||` prefix is a domain-anchor
/// rule; a single `|` prefix is a full-URL-anchor rule, whose
/// remainder must be a well-formed URL with a host; anything else is a
/// plain substring-at-host-boundary rule.
pub open spec fn literal_needle(rest: Seq<char>) -> Result<Seq<char>, SyntaxError> {
    if rest.len() == 0 {
        Err(SyntaxError::Rule)
    } else if rest[0] == HOST_DELIMITER {
        Ok(encoded_host_path(rest.drop_first()))
    } else if rest[0] != '|' {
        Ok(seq![BEGIN_OF_HOST] + encoded_host_path(rest))
    } else if rest.len() >= 2 && rest[1] == '|' {
        Ok(encoded_host_path(rest.skip(2)))
    } else {
        let u = rest.drop_first();
        match url_parts(u) {
            Some(p) => Ok(encoded_url(p.0, p.1, p.2, url_path_wanted(p.2, u, false))),
            None => Err(SyntaxError::Url),
        }
    }
}

/// One step of compilation: how a single line extends the model, or
/// the fault it raises together with the offending rule text (for an
/// exception rule, the text after the `@@` marker).
pub open spec fn parse_line(m: RulesModel, line: Seq<char>) -> Result<
    RulesModel,
    (Seq<char>, SyntaxError),
> {
    if line_is_skipped(line) {
        Ok(m)
    } else if line[0] == PATH_DELIMITER {
        if line.len() == 1 || line.last() != PATH_DELIMITER {
            Err((line, SyntaxError::Rule))
        } else {
            let pat = line.subrange(1, line.len() - 1);
            if regex_ok(pat) {
                Ok(
                    RulesModel {
                        regex_rules: m.regex_rules.push((pat, line)),
                        ..m
                    },
                )
            } else {
                Err((line, SyntaxError::Regex))
            }
        }
    } else if line.len() >= 2 && line[0] == '@' && line[1] == '@' {
        match literal_needle(line.skip(2)) {
            Ok(n) => Ok(
                RulesModel {
                    exception_needles: m.exception_needles.push(n),
                    ..m
                },
            ),
            Err(e) => Err((line.skip(2), e)),
        }
    } else {
        match literal_needle(line) {
            Ok(n) => Ok(
                RulesModel {
                    block_needles: m.block_needles.push(n),
                    block_rules: m.block_rules.push(line),
                    ..m
                },
            ),
            Err(e) => Err((line, e)),
        }
    }
}

/// What compilation answered, seen abstractly: the model of a built
/// rule set, the first syntax fault with its rule text, or a refusal
/// of the pattern set by the search-structure engine.
pub enum BuildOutcome {
    Compiled(RulesModel),
    Fault(Seq<char>, SyntaxError),
    Engine,
}

/// What compilation must answer for a given text: the first syntax
/// fault if there is one; otherwise the engine error exactly when the
/// search-structure engine refuses one of the two needle sets; and
/// otherwise the compiled model itself.  This pins the outcome
/// completely: it is a function of the text (and of what the engine
/// accepts, which depends on the pattern sets alone).
pub open spec fn build_post(text: Seq<char>, o: BuildOutcome) -> bool {
    match spec_build(text) {
        Ok(m) => if ac_builds(m.block_needles) && ac_builds(m.exception_needles) {
            o == BuildOutcome::Compiled(m)
        } else {
            o == BuildOutcome::Engine
        },
        Err(fault) => o == BuildOutcome::Fault(fault.0, fault.1),
    }
}

/// Compilation is deterministic: any two outcomes answering the same
/// text are equal — the same model, or the same fault on the same
/// rule text, or the same engine refusal.
pub proof fn lemma_build_deterministic(text: Seq<char>, o1: BuildOutcome, o2: BuildOutcome)
    requires
        build_post(text, o1),
        build_post(text, o2),
    ensures
        o1 == o2,
{
}

/// Compilation of `lines` from position `i` on, starting from the
/// already-accumulated model `m`.
pub open spec fn parse_lines_from(m: RulesModel, lines: Seq<Seq<char>>, i: int) -> Result<
    RulesModel,
    (Seq<char>, SyntaxError),
>
    decreases lines.len() - i,
{
    if 0 <= i < lines.len() {
        match parse_line(m, lines[i]) {
            Ok(m2) => parse_lines_from(m2, lines, i + 1),
            Err(e) => Err(e),
        }
    } else {
        Ok(m)
    }
}

/// The compiled model of a whole rule-list text, or the first fault in
/// it.  This is a function of the text alone: compiling the same text
/// twice yields the same model.
pub open spec fn spec_build(text: Seq<char>) -> Result<RulesModel, (Seq<char>, SyntaxError)> {
    parse_lines_from(empty_model(), spec_lines(text), 0)
}

/// Index of the first regular-expression rule that matches `input`, or
/// `rs.len()` if none does.
pub open spec fn first_matching_regex(rs: Seq<(Seq<char>, Seq<char>)>, input: Seq<char>) -> int
    decreases rs.len(),
{
    if rs.len() == 0 {
        0
    } else if regex_match(rs[0].0, input) {
        0
    } else {
        1 + first_matching_regex(rs.drop_first(), input)
    }
}

/// `first_matching_regex` is the unique position that is either the
/// first matching rule or the end of the list.
pub proof fn lemma_first_matching_regex(rs: Seq<(Seq<char>, Seq<char>)>, input: Seq<char>)
    ensures
        0 <= first_matching_regex(rs, input) <= rs.len(),
        first_matching_regex(rs, input) < rs.len() ==> regex_match(
            rs[first_matching_regex(rs, input)].0,
            input,
        ),
        forall|j: int| 0 <= j < first_matching_regex(rs, input) ==> !regex_match(rs[j].0, input),
    decreases rs.len(),
{
    if rs.len() > 0 && !regex_match(rs[0].0, input) {
        lemma_first_matching_regex(rs.drop_first(), input);
        assert forall|j: int| 0 <= j < first_matching_regex(rs, input) implies !regex_match(
            rs[j].0,
            input,
        ) by {
            if j > 0 {
                assert(!regex_match(rs.drop_first()[j - 1].0, input));
            }
        }
    }
}

/// Some needle of `needles` occurs inside `hay`.
pub open spec fn some_needle_hits(needles: Seq<Seq<char>>, hay: Seq<char>) -> bool {
    exists|i: int| 0 <= i < needles.len() && contains_pattern(hay, needles[i])
}

/// What a query must answer, given the model of the rule set.  The
/// precedence is fixed: regular expressions (on the raw query string,
/// in source order) beat exceptions, exceptions beat block rules,
/// and no hit at all means default allow.  A query string that is not
/// a well-formed URL with a host fails instead, unless a regular
/// expression already matched it.  A block hit reports the rule text
/// of an occurring block needle; when several block needles occur,
/// any one of them is a correct answer, which is the one freedom this
/// predicate leaves open.
pub open spec fn test_post(
    m: RulesModel,
    input: Seq<char>,
    r: Result<Option<Seq<char>>, UrlError>,
) -> bool {
    let k = first_matching_regex(m.regex_rules, input);
    if k < m.regex_rules.len() {
        r == Ok::<Option<Seq<char>>, UrlError>(Some(m.regex_rules[k].1))
    } else {
        match url_parts(input) {
            None => r == Err::<Option<Seq<char>>, UrlError>(UrlError),
            Some(p) => {
                let hay = encoded_url(p.0, p.1, p.2, true);
                if some_needle_hits(m.exception_needles, hay) {
                    r == Ok::<Option<Seq<char>>, UrlError>(None)
                } else if some_needle_hits(m.block_needles, hay) {
                    exists|i: int|
                        0 <= i < m.block_needles.len() && #[trigger] contains_pattern(
                            hay,
                            m.block_needles[i],
                        ) && i < m.block_rules.len() && r == Ok::<Option<Seq<char>>, UrlError>(
                            Some(m.block_rules[i]),
                        )
                } else {
                    r == Ok::<Option<Seq<char>>, UrlError>(None)
                }
            },
        }
    }
}

/// Querying is deterministic up to block-rule tie-breaking: two
/// results that both answer the same query against the same model
/// agree on whether the query failed, and otherwise on whether the
/// URL is blocked or allowed.  Together with `spec_build` being a
/// function of the rule-list text, compiling one text any number of
/// times gives rule sets with identical verdicts on every query.
pub proof fn lemma_test_deterministic(
    m: RulesModel,
    input: Seq<char>,
    r1: Result<Option<Seq<char>>, UrlError>,
    r2: Result<Option<Seq<char>>, UrlError>,
)
    requires
        test_post(m, input, r1),
        test_post(m, input, r2),
    ensures
        r1 is Err <==> r2 is Err,
        r1 matches Ok(o1) ==> (r2 matches Ok(o2) && (o1 is Some <==> o2 is Some)),
{
}

/// Compiling is a pure function of the rule-list text: two rule sets
/// built from the same text have the same model, and any two answers
/// they give to the same query agree on failure and, otherwise, on
/// the block/allow verdict.  (`lemma_build_deterministic` extends the
/// agreement to the error outcomes; the matched rule text itself is
/// equal too except between tied overlapping block needles, the one
/// freedom `test_post` leaves open.)
pub proof fn lemma_build_pure(
    text: Seq<char>,
    input: Seq<char>,
    m1: RulesModel,
    m2: RulesModel,
    r1: Result<Option<Seq<char>>, UrlError>,
    r2: Result<Option<Seq<char>>, UrlError>,
)
    requires
        spec_build(text) == Ok::<RulesModel, (Seq<char>, SyntaxError)>(m1),
        spec_build(text) == Ok::<RulesModel, (Seq<char>, SyntaxError)>(m2),
        test_post(m1, input, r1),
        test_post(m2, input, r2),
    ensures
        m1 == m2,
        r1 is Err <==> r2 is Err,
        r1 matches Ok(o1) ==> (r2 matches Ok(o2) && (o1 is Some <==> o2 is Some)),
{
    lemma_test_deterministic(m1, input, r1, r2);
}

} // verus!
