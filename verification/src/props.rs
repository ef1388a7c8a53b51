//! Global laws of the tokenizer, stated and proved over the same spec
//! functions that [`crate::parser`]'s contracts use.

use vstd::prelude::*;

use crate::parser::is_lineref_token;
use crate::parser::next_mode;
use crate::parser::prefixes_wf;
use crate::parser::lemma_next_token_len;
use crate::parser::spec_next_token;
use crate::parser::spec_parse_line;
use crate::parser::spec_tokenize_from;
use crate::scan::lemma_scan_vars_bounds;
use crate::scan::lemma_trim_ws_end_bounds;
use crate::scan::lemma_word_run_bounds;
use crate::scan::lemma_ws_run_bounds;
use crate::scan::spec_comment;
use crate::scan::spec_operator;
use crate::scan::spec_string_literal;
use crate::scan::spec_unit;
use crate::scan::spec_variable;
use crate::numscan::spec_number_literal;
use crate::numscan::lemma_number_literal_len;
use crate::numscan::lemma_number_literal_text;
use crate::tokens::CanBeUnit;
use crate::tokens::PrefixMatch;
use crate::tokens::SpecToken;
use crate::tokens::TokenType;
use crate::tokens::Variable;

verus! {

/// The concatenation of the tokens' spans, in order.
pub open spec fn concat_texts(toks: Seq<SpecToken>) -> Seq<char>
    decreases toks.len(),
{
    if toks.len() == 0 {
        Seq::empty()
    } else {
        toks[0].text + concat_texts(toks.skip(1))
    }
}

/// Every scanner's token is literally a prefix of the remainder it was
/// scanned from.
proof fn lemma_next_token_text(
    rest: Seq<char>,
    vars: Seq<Option<Variable>>,
    hit: PrefixMatch,
    line_index: int,
    mode: CanBeUnit,
    prev_lineref: bool,
)
    requires
        rest.len() > 0,
        hit.len <= rest.len(),
    ensures
        spec_next_token(rest, vars, hit, line_index, mode, prev_lineref) matches Some(t)
            ==> t.text == rest.take(t.text.len() as int),
{
    lemma_next_token_len(rest, vars, hit, line_index, mode, prev_lineref);
    if spec_comment(rest) is Some {
        let t = spec_comment(rest)->Some_0;
        assert(t.text =~= rest.take(t.text.len() as int));
    } else if spec_variable(rest, vars, line_index, prev_lineref) is Some {
        lemma_scan_vars_bounds(vars, rest, line_index, 0, 0);
    } else if spec_unit(rest, hit, mode) is Some {
        lemma_trim_ws_end_bounds(rest, hit.len as int);
    } else if spec_operator(rest) is Some {
    } else if spec_number_literal(rest) is Some {
        lemma_number_literal_text(rest);
    } else {
        lemma_word_run_bounds(rest, 0);
        lemma_ws_run_bounds(rest, 0);
    }
}

/// Span coverage from a cursor: the concatenated spans of the stream
/// produced from `index` are exactly the consumed slice of the line.
#[verifier::rlimit(60)]
pub proof fn lemma_span_coverage_from(
    line: Seq<char>,
    vars: Seq<Option<Variable>>,
    prefixes: Seq<PrefixMatch>,
    line_index: int,
    index: int,
    mode: CanBeUnit,
    prev_lineref: bool,
)
    requires
        0 <= index <= line.len(),
        prefixes_wf(line, prefixes),
    ensures
        ({
            let toks = spec_tokenize_from(line, vars, prefixes, line_index, index, mode, prev_lineref);
            let n = concat_texts(toks).len() as int;
            index + n <= line.len() && concat_texts(toks) == line.subrange(index, index + n)
        }),
    decreases line.len() - index,
{
    let toks = spec_tokenize_from(line, vars, prefixes, line_index, index, mode, prev_lineref);
    if index < line.len() {
        let rest = line.skip(index);
        assert(rest.len() == line.len() - index);
        match spec_next_token(rest, vars, prefixes[index], line_index, mode, prev_lineref) {
            None => {
                assert(concat_texts(toks) =~= line.subrange(index, index));
            },
            Some(t) => {
                lemma_next_token_len(rest, vars, prefixes[index], line_index, mode, prev_lineref);
                lemma_next_token_text(rest, vars, prefixes[index], line_index, mode, prev_lineref);
                let tl = t.text.len() as int;
                let tail = spec_tokenize_from(
                    line,
                    vars,
                    prefixes,
                    line_index,
                    index + tl,
                    next_mode(mode, t),
                    is_lineref_token(t),
                );
                lemma_span_coverage_from(
                    line,
                    vars,
                    prefixes,
                    line_index,
                    index + tl,
                    next_mode(mode, t),
                    is_lineref_token(t),
                );
                let n2 = concat_texts(tail).len() as int;
                assert(toks == seq![t] + tail);
                assert(toks.skip(1) =~= tail);
                assert(t.text =~= line.subrange(index, index + tl));
                assert(concat_texts(toks) =~= line.subrange(index, index + tl + n2));
            },
        }
    } else {
        assert(concat_texts(toks) =~= line.subrange(index, index));
    }
}

/// Span coverage: the concatenated spans of a line's token stream reproduce
/// exactly the consumed prefix of the line; when the stream tokenizes the
/// line to completion, they reproduce the whole line.
pub proof fn lemma_span_coverage(
    line: Seq<char>,
    vars: Seq<Option<Variable>>,
    prefixes: Seq<PrefixMatch>,
    line_index: int,
    prev_lineref: bool,
)
    requires
        prefixes_wf(line, prefixes),
    ensures
        ({
            let toks = spec_parse_line(line, vars, prefixes, line_index, prev_lineref);
            let n = concat_texts(toks).len() as int;
            n <= line.len() && concat_texts(toks) == line.take(n) && (n == line.len()
                ==> concat_texts(toks) == line)
        }),
{
    let toks = spec_parse_line(line, vars, prefixes, line_index, prev_lineref);
    if line.len() >= 1 && line[0] == '#' {
        assert(toks.skip(1) =~= Seq::<SpecToken>::empty());
        assert(concat_texts(Seq::<SpecToken>::empty()) =~= Seq::<char>::empty());
        assert(concat_texts(toks) =~= line);
        assert(line.take(line.len() as int) =~= line);
    } else {
        lemma_span_coverage_from(line, vars, prefixes, line_index, 0, CanBeUnit::Not, prev_lineref);
        let n = concat_texts(toks).len() as int;
        assert(line.subrange(0, n) =~= line.take(n));
        assert(n == line.len() ==> line.take(n) =~= line);
    }
}

/// Determinism: one line, one variable table, one set of unit answers and
/// one line index give exactly one token stream.
pub proof fn lemma_determinism(
    line: Seq<char>,
    vars: Seq<Option<Variable>>,
    prefixes: Seq<PrefixMatch>,
    line_index: int,
    prev_lineref: bool,
    t1: Seq<SpecToken>,
    t2: Seq<SpecToken>,
)
    requires
        t1 == spec_parse_line(line, vars, prefixes, line_index, prev_lineref),
        t2 == spec_parse_line(line, vars, prefixes, line_index, prev_lineref),
    ensures
        t1 == t2,
{
}

/// No scanner yields a line reference directly after one.
proof fn lemma_next_token_no_lineref(
    rest: Seq<char>,
    vars: Seq<Option<Variable>>,
    hit: PrefixMatch,
    line_index: int,
    mode: CanBeUnit,
)
    ensures
        spec_next_token(rest, vars, hit, line_index, mode, true) matches Some(t)
            ==> !is_lineref_token(t),
{
}

/// Line-reference adjacency from a cursor: the produced stream never holds
/// two line references side by side, and never opens with one when the
/// token before the cursor already was one.
pub proof fn lemma_lineref_separation_from(
    line: Seq<char>,
    vars: Seq<Option<Variable>>,
    prefixes: Seq<PrefixMatch>,
    line_index: int,
    index: int,
    mode: CanBeUnit,
    prev_lineref: bool,
)
    ensures
        ({
            let toks = spec_tokenize_from(line, vars, prefixes, line_index, index, mode, prev_lineref);
            &&& (forall|i: int|
                0 <= i < toks.len() - 1 ==> !(is_lineref_token(#[trigger] toks[i])
                    && is_lineref_token(toks[i + 1])))
            &&& (prev_lineref && toks.len() > 0 ==> !is_lineref_token(toks[0]))
        }),
    decreases line.len() - index,
{
    let toks = spec_tokenize_from(line, vars, prefixes, line_index, index, mode, prev_lineref);
    if 0 <= index < line.len() {
        let rest = line.skip(index);
        match spec_next_token(rest, vars, prefixes[index], line_index, mode, prev_lineref) {
            None => {},
            Some(t) => {
                if prev_lineref {
                    lemma_next_token_no_lineref(rest, vars, prefixes[index], line_index, mode);
                }
                if !(t.text.len() < 1 || index + t.text.len() > line.len()) {
                    let tail = spec_tokenize_from(
                        line,
                        vars,
                        prefixes,
                        line_index,
                        index + t.text.len() as int,
                        next_mode(mode, t),
                        is_lineref_token(t),
                    );
                    lemma_lineref_separation_from(
                        line,
                        vars,
                        prefixes,
                        line_index,
                        index + t.text.len() as int,
                        next_mode(mode, t),
                        is_lineref_token(t),
                    );
                    assert(toks == seq![t] + tail);
                    assert forall|i: int|
                        0 <= i < toks.len() - 1 implies !(is_lineref_token(#[trigger] toks[i])
                        && is_lineref_token(toks[i + 1])) by {
                        if i == 0 {
                            if is_lineref_token(t) && tail.len() > 0 {
                                assert(toks[1] == tail[0]);
                            }
                        } else {
                            assert(toks[i] == tail[i - 1]);
                            assert(toks[i + 1] == tail[i]);
                        }
                    }
                }
            },
        }
    }
}

/// Line-reference adjacency: a line's token stream never holds two line
/// references side by side; two adjacent line-reference-shaped spans with no
/// separator cannot both become line references.
pub proof fn lemma_lineref_separation(
    line: Seq<char>,
    vars: Seq<Option<Variable>>,
    prefixes: Seq<PrefixMatch>,
    line_index: int,
    prev_lineref: bool,
)
    ensures
        ({
            let toks = spec_parse_line(line, vars, prefixes, line_index, prev_lineref);
            forall|i: int|
                0 <= i < toks.len() - 1 ==> !(is_lineref_token(#[trigger] toks[i])
                    && is_lineref_token(toks[i + 1]))
        }),
{
    if !(line.len() >= 1 && line[0] == '#') {
        lemma_lineref_separation_from(
            line,
            vars,
            prefixes,
            line_index,
            0,
            CanBeUnit::Not,
            prev_lineref,
        );
    }
}

/// Header atomicity: a `#`-prefixed line yields exactly one token — a header
/// spanning the whole line.
pub proof fn lemma_header_atomicity(
    line: Seq<char>,
    vars: Seq<Option<Variable>>,
    prefixes: Seq<PrefixMatch>,
    line_index: int,
    prev_lineref: bool,
)
    requires
        line.len() >= 1,
        line[0] == '#',
    ensures
        ({
            let toks = spec_parse_line(line, vars, prefixes, line_index, prev_lineref);
            toks.len() == 1 && toks[0].typ == TokenType::Header && toks[0].text == line
                && !toks[0].has_error
        }),
{
}

} // verus!
