//! Splitting rule-list text into lines.
//!
//! A rule list is newline-delimited.  A line ends at each `\n`; a
//! trailing `\r` before the `\n` is not part of the line.  Text after
//! the last `\n` forms a final line of its own, unless it is empty.

use vstd::prelude::*;

verus! {

/// Index of the first `\n` in `s`, or `s.len()` if there is none.
pub open spec fn first_newline_index(s: Seq<char>) -> int
    decreases s.len(),
{
    if s.len() == 0 {
        0
    } else if s[0] == '\n' {
        0
    } else {
        1 + first_newline_index(s.drop_first())
    }
}

/// `first_newline_index` is the unique position that is either the
/// first `\n` of `s` or the end of `s`.
pub proof fn lemma_first_newline_index(s: Seq<char>)
    ensures
        0 <= first_newline_index(s) <= s.len(),
        first_newline_index(s) < s.len() ==> s[first_newline_index(s)] == '\n',
        forall|j: int| 0 <= j < first_newline_index(s) ==> s[j] != '\n',
    decreases s.len(),
{
    if s.len() > 0 && s[0] != '\n' {
        lemma_first_newline_index(s.drop_first());
        assert forall|j: int| 0 <= j < first_newline_index(s) implies s[j] != '\n' by {
            if j > 0 {
                assert(s.drop_first()[j - 1] != '\n');
            }
        }
    }
}

/// A line without its trailing `\r`, if it has one.
pub open spec fn strip_carriage_return(line: Seq<char>) -> Seq<char> {
    if line.len() > 0 && line.last() == '\r' {
        line.drop_last()
    } else {
        line
    }
}

/// The lines of `text`: pieces between `\n` characters, each without a
/// trailing `\r`; text after the last `\n` is a final line unless
/// empty.  A final `\r` with no `\n` after it stays in its line.
pub open spec fn spec_lines(text: Seq<char>) -> Seq<Seq<char>>
    decreases text.len(),
{
    if text.len() == 0 {
        Seq::empty()
    } else {
        let i = first_newline_index(text);
        if 0 <= i < text.len() {
            seq![strip_carriage_return(text.take(i))] + spec_lines(text.skip(i + 1))
        } else {
            seq![text]
        }
    }
}

/// Split `text` into its lines.
pub fn split_lines(text: &Vec<char>) -> (r: Vec<Vec<char>>)
    ensures
        r.deep_view() == spec_lines(text@),
{
    let mut r: Vec<Vec<char>> = Vec::new();
    let mut pos: usize = 0;
    proof {
        assert(text@.skip(0) =~= text@);
        assert(r.deep_view() + spec_lines(text@) =~~= spec_lines(text@));
    }
    while pos < text.len()
        invariant
            pos <= text@.len(),
            spec_lines(text@) == r.deep_view() + spec_lines(text@.skip(pos as int)),
        decreases text@.len() - pos,
    {
        let ghost rest = text@.skip(pos as int);
        let mut end: usize = pos;
        while end < text.len() && text[end] != '\n'
            invariant
                pos <= end <= text@.len(),
                forall|j: int| pos <= j < end ==> text@[j] != '\n',
            decreases text@.len() - end,
        {
            end = end + 1;
        }
        proof {
            lemma_first_newline_index(rest);
            assert(forall|j: int| 0 <= j < end - pos ==> rest[j] != '\n');
            assert(end - pos == first_newline_index(rest)) by {
                let f = first_newline_index(rest);
                if f < end - pos {
                    assert(rest[f] != '\n');
                }
                if end - pos < f {
                    assert(rest[end - pos] == text@[end as int]);
                }
            }
        }
        let mut line_end: usize = end;
        if end < text.len() && line_end > pos && text[line_end - 1] == '\r' {
            line_end = line_end - 1;
        }
        let line: Vec<char> = vstd::slice::slice_to_vec(
            vstd::slice::slice_subrange(text.as_slice(), pos, line_end),
        );
        let ghost old_dv = r.deep_view();
        proof {
            let i = first_newline_index(rest);
            if end < text@.len() {
                assert(rest.take(i) =~= text@.subrange(pos as int, end as int));
                assert(strip_carriage_return(rest.take(i)) =~= line@);
                assert(rest.skip(i + 1) =~= text@.skip(end + 1));
                assert(spec_lines(rest) == seq![line@] + spec_lines(text@.skip(end + 1)));
            } else {
                assert(end == text@.len());
                assert(line_end == end);
                assert(rest =~= line@);
                assert(first_newline_index(rest) == rest.len());
                assert(spec_lines(rest) == seq![line@]);
            }
        }
        r.push(line);
        if end < text.len() {
            pos = end + 1;
        } else {
            pos = end;
        }
        proof {
            assert(r.deep_view() =~~= old_dv.push(line@));
            if pos == text@.len() {
                assert(text@.skip(pos as int) =~= Seq::<char>::empty());
                assert(spec_lines(text@.skip(pos as int)) == Seq::<Seq<char>>::empty());
            }
            assert(old_dv + seq![line@] =~~= old_dv.push(line@));
            assert((old_dv + seq![line@]) + spec_lines(text@.skip(pos as int)) =~= old_dv + (
            seq![line@] + spec_lines(text@.skip(pos as int))));
        }
    }
    proof {
        assert(text@.skip(pos as int) =~= Seq::<char>::empty());
        assert(r.deep_view() + Seq::<Seq<char>>::empty() =~~= r.deep_view());
    }
    r
}

} // verus!
