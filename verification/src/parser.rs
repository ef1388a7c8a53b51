//! The per-line orchestrator.
//!
//! A `#`-prefixed line becomes a single header token. Any other line is
//! scanned cursor-wise: at each position the scanners are tried in fixed
//! priority order — comment, variable/reference, unit, operator, number,
//! string fallback — the first success wins, the disambiguation mode is
//! updated from the produced token, and the cursor advances by the token's
//! span. When no scanner matches, tokenization stops and the tokens produced
//! so far stand (deliberate best-effort-prefix policy).

use vstd::prelude::*;

use crate::chars::char_is_ws;
use crate::chars::is_ws;
use crate::numscan::lemma_number_literal_len;
use crate::numscan::spec_number_literal;
use crate::scan::copy_prefix;
use crate::scan::lemma_scan_vars_bounds;
use crate::scan::lemma_trim_ws_end_bounds;
use crate::scan::lemma_word_run_bounds;
use crate::scan::lemma_ws_run_bounds;
use crate::scan::spec_comment;
use crate::scan::spec_operator;
use crate::scan::spec_string_literal;
use crate::scan::spec_unit;
use crate::scan::spec_variable;
use crate::tokens::CanBeUnit;
use crate::tokens::OperatorTokenType;
use crate::tokens::PrefixMatch;
use crate::tokens::SpecToken;
use crate::tokens::Token;
use crate::tokens::TokenParser;
use crate::tokens::TokenType;
use crate::tokens::Variable;

verus! {

/// Whether the token is a line reference; a fresh line reference directly
/// after one is refused by the variable scanner.
pub open spec fn is_lineref_token(t: SpecToken) -> bool {
    t.typ matches TokenType::LineReference { .. }
}

/// Mode after a token: a number lets a following unit apply to it; a closing
/// paren and whitespace-only string literals keep the mode; the
/// unit-converter keyword and division let a unit stand by itself;
/// everything else forbids a unit.
pub open spec fn next_mode(mode: CanBeUnit, t: SpecToken) -> CanBeUnit {
    match t.typ {
        TokenType::Header => mode,
        TokenType::StringLiteral => if t.text.len() > 0 && is_ws(t.text[0]) {
            mode
        } else {
            CanBeUnit::Not
        },
        TokenType::NumberLiteral(_) => CanBeUnit::ApplyToPrevToken,
        TokenType::NumberErr => CanBeUnit::ApplyToPrevToken,
        TokenType::Unit(_) => CanBeUnit::Not,
        TokenType::Operator(op) => match op {
            OperatorTokenType::ParenClose => mode,
            OperatorTokenType::UnitConverter => CanBeUnit::StandInItself,
            OperatorTokenType::Div => CanBeUnit::StandInItself,
            _ => CanBeUnit::Not,
        },
        TokenType::Variable { .. } => CanBeUnit::Not,
        TokenType::LineReference { .. } => CanBeUnit::Not,
    }
}

/// The token produced at the cursor, `rest` being the remainder of the line
/// and `hit` the unit grammar's answer there: the scanners in priority
/// order, first success wins.
pub open spec fn spec_next_token(
    rest: Seq<char>,
    vars: Seq<Option<Variable>>,
    hit: PrefixMatch,
    line_index: int,
    mode: CanBeUnit,
    prev_lineref: bool,
) -> Option<SpecToken> {
    if spec_comment(rest) is Some {
        spec_comment(rest)
    } else if spec_variable(rest, vars, line_index, prev_lineref) is Some {
        spec_variable(rest, vars, line_index, prev_lineref)
    } else if spec_unit(rest, hit, mode) is Some {
        spec_unit(rest, hit, mode)
    } else if spec_operator(rest) is Some {
        spec_operator(rest)
    } else if spec_number_literal(rest) is Some {
        spec_number_literal(rest)
    } else {
        spec_string_literal(rest)
    }
}

/// The token stream produced from `index` onward, in the given mode. The
/// two inner guards can never fire — every token covers at least one and at
/// most the remaining characters — and only bound the recursion.
pub open spec fn spec_tokenize_from(
    line: Seq<char>,
    vars: Seq<Option<Variable>>,
    prefixes: Seq<PrefixMatch>,
    line_index: int,
    index: int,
    mode: CanBeUnit,
    prev_lineref: bool,
) -> Seq<SpecToken>
    decreases line.len() - index,
{
    if index < 0 || index >= line.len() {
        seq![]
    } else {
        match spec_next_token(
            line.skip(index),
            vars,
            prefixes[index],
            line_index,
            mode,
            prev_lineref,
        ) {
            None => seq![],
            Some(t) => {
                if t.text.len() < 1 || index + t.text.len() > line.len() {
                    seq![]
                } else {
                    seq![t] + spec_tokenize_from(
                        line,
                        vars,
                        prefixes,
                        line_index,
                        index + t.text.len() as int,
                        next_mode(mode, t),
                        is_lineref_token(t),
                    )
                }
            },
        }
    }
}

/// The whole line's token stream: one header token for a `#`-prefixed line,
/// the scanners' stream otherwise.
pub open spec fn spec_parse_line(
    line: Seq<char>,
    vars: Seq<Option<Variable>>,
    prefixes: Seq<PrefixMatch>,
    line_index: int,
    prev_lineref: bool,
) -> Seq<SpecToken> {
    if line.len() >= 1 && line[0] == '#' {
        seq![SpecToken { text: line, typ: TokenType::Header, has_error: false }]
    } else {
        spec_tokenize_from(line, vars, prefixes, line_index, 0, CanBeUnit::Not, prev_lineref)
    }
}

/// Whether the last of the tokens already produced is a line reference.
pub open spec fn spec_prev_lineref(toks: Seq<Token>) -> bool {
    toks.len() > 0 && (toks.last().typ matches TokenType::LineReference { .. })
}

/// Well-formedness of the unit-grammar answers for a line: one answer per
/// position, never reaching past the end of the line.
pub open spec fn prefixes_wf(line: Seq<char>, prefixes: Seq<PrefixMatch>) -> bool {
    &&& prefixes.len() == line.len()
    &&& forall|k: int| 0 <= k < line.len() ==> (#[trigger] prefixes[k]).len <= line.len() - k
}

/// Every produced token spans at least one and at most the remaining
/// characters.
pub proof fn lemma_next_token_len(
    rest: Seq<char>,
    vars: Seq<Option<Variable>>,
    hit: PrefixMatch,
    line_index: int,
    mode: CanBeUnit,
    prev_lineref: bool,
)
    requires
        rest.len() > 0,
        hit.len <= rest.len(),
    ensures
        spec_next_token(rest, vars, hit, line_index, mode, prev_lineref) matches Some(t) ==> 1
            <= t.text.len() <= rest.len(),
{
    if spec_comment(rest) is Some {
    } else if spec_variable(rest, vars, line_index, prev_lineref) is Some {
        lemma_scan_vars_bounds(vars, rest, line_index, 0, 0);
    } else if spec_unit(rest, hit, mode) is Some {
        lemma_trim_ws_end_bounds(rest, hit.len as int);
    } else if spec_operator(rest) is Some {
    } else if spec_number_literal(rest) is Some {
        lemma_number_literal_len(rest);
    } else {
        lemma_word_run_bounds(rest, 0);
        lemma_ws_run_bounds(rest, 0);
    }
}

impl TokenParser {
    /// One scanner round at the cursor: the scanners in priority order,
    /// first success wins.
    fn extract_token(
        rest: &[char],
        variable_names: &Vec<Option<Variable>>,
        hit: &PrefixMatch,
        line_index: usize,
        can_be_unit: CanBeUnit,
        prev_was_lineref: bool,
    ) -> (r: Option<Token>)
        requires
            rest@.len() > 0,
            hit.len <= rest@.len(),
            line_index <= variable_names@.len(),
        ensures
            match r {
                Some(t) => spec_next_token(
                    rest@,
                    variable_names@,
                    *hit,
                    line_index as int,
                    can_be_unit,
                    prev_was_lineref,
                ) == Some(t@) && 1 <= t@.text.len() <= rest@.len(),
                None => spec_next_token(
                    rest@,
                    variable_names@,
                    *hit,
                    line_index as int,
                    can_be_unit,
                    prev_was_lineref,
                ) is None,
            },
    {
        proof {
            lemma_next_token_len(
                rest@,
                variable_names@,
                *hit,
                line_index as int,
                can_be_unit,
                prev_was_lineref,
            );
        }
        let mut token: Option<Token> = Self::try_extract_comment(rest);
        if token.is_none() {
            token = Self::try_extract_variable_name(
                rest,
                variable_names,
                line_index,
                prev_was_lineref,
            );
        }
        if token.is_none() {
            token = Self::try_extract_unit(rest, hit, can_be_unit);
        }
        if token.is_none() {
            token = Self::try_extract_operator(rest);
        }
        if token.is_none() {
            token = Self::try_extract_number_literal(rest);
        }
        if token.is_none() {
            token = Self::try_extract_string_literal(rest);
        }
        token
    }

    /// The mode update after a produced token, as [`next_mode`] states it.
    fn update_mode(can_be_unit: CanBeUnit, token: &Token) -> (r: CanBeUnit)
        requires
            token@.text.len() >= 1,
        ensures
            r == next_mode(can_be_unit, token@),
    {
        match &token.typ {
            TokenType::Header => can_be_unit,
            TokenType::StringLiteral => {
                if char_is_ws(token.text[0]) {
                    can_be_unit
                } else {
                    CanBeUnit::Not
                }
            },
            TokenType::NumberLiteral(..) => CanBeUnit::ApplyToPrevToken,
            TokenType::NumberErr => CanBeUnit::ApplyToPrevToken,
            TokenType::Unit(..) => CanBeUnit::Not,
            TokenType::Operator(typ) => match typ {
                OperatorTokenType::ParenClose => can_be_unit,
                OperatorTokenType::UnitConverter => CanBeUnit::StandInItself,
                OperatorTokenType::Div => CanBeUnit::StandInItself,
                _ => CanBeUnit::Not,
            },
            TokenType::Variable { .. } => CanBeUnit::Not,
            TokenType::LineReference { .. } => CanBeUnit::Not,
        }
    }

    /// Tokenizes one line against the variable table (entries declared on
    /// lines before `line_index` are visible) and the unit grammar's prefix
    /// answers, appending the produced tokens to `dst`. The result is
    /// exactly [`spec_parse_line`]'s stream: tokenization never fails, and
    /// unrecognizable input either degrades to string-literal/`NumberErr`
    /// tokens or ends the line early, leaving the tokens produced so far.
    pub fn parse_line(
        line: &[char],
        variable_names: &Vec<Option<Variable>>,
        dst: &mut Vec<Token>,
        units: &Vec<PrefixMatch>,
        line_index: usize,
    )
        requires
            line_index <= variable_names@.len(),
            prefixes_wf(line@, units@),
        ensures
            final(dst)@.len() >= old(dst)@.len(),
            final(dst)@.take(old(dst)@.len() as int) == old(dst)@,
            final(dst).deep_view() == old(dst).deep_view() + spec_parse_line(
                line@,
                variable_names@,
                units@,
                line_index as int,
                spec_prev_lineref(old(dst)@),
            ),
    {
        let ghost prev0 = spec_prev_lineref(old(dst)@);
        if line.len() >= 1 && line[0] == '#' {
            let text = copy_prefix_whole(line);
            dst.push(Token { text, typ: TokenType::Header, has_error: false });
            proof {
                assert(dst@.take(old(dst)@.len() as int) =~= old(dst)@);
                assert(dst.deep_view() =~= old(dst).deep_view() + spec_parse_line(
                    line@,
                    variable_names@,
                    units@,
                    line_index as int,
                    prev0,
                ));
            }
            return ;
        }
        let mut index: usize = 0;
        let mut can_be_unit = CanBeUnit::Not;
        let ghost old_len = old(dst)@.len();
        let ghost total = spec_tokenize_from(
            line@,
            variable_names@,
            units@,
            line_index as int,
            0,
            CanBeUnit::Not,
            prev0,
        );
        while index < line.len()
            invariant_except_break
                index <= line@.len(),
                line_index <= variable_names@.len(),
                prefixes_wf(line@, units@),
                old_len == old(dst)@.len(),
                old_len <= dst@.len(),
                dst@.take(old_len as int) == old(dst)@,
                total == dst.deep_view().skip(old_len as int) + spec_tokenize_from(
                    line@,
                    variable_names@,
                    units@,
                    line_index as int,
                    index as int,
                    can_be_unit,
                    spec_prev_lineref(dst@),
                ),
            ensures
                old_len <= dst@.len(),
                dst@.take(old_len as int) == old(dst)@,
                total == dst.deep_view().skip(old_len as int),
            decreases line@.len() - index,
        {
            let prev_was_lineref = match dst.last() {
                Some(t) => matches!(t.typ, TokenType::LineReference { .. }),
                None => false,
            };
            assert(prev_was_lineref == spec_prev_lineref(dst@));
            let rest = &line[index..line.len()];
            proof {
                assert(rest@ =~= line@.skip(index as int));
            }
            let hit = &units[index];
            let token = Self::extract_token(
                rest,
                variable_names,
                hit,
                line_index,
                can_be_unit,
                prev_was_lineref,
            );
            match token {
                Some(token) => {
                    let ghost dst_before = dst@;
                    let ghost deep_before = dst.deep_view();
                    let ghost mode_before = can_be_unit;
                    let ghost idx0 = index as int;
                    proof {
                        assert(spec_tokenize_from(
                            line@,
                            variable_names@,
                            units@,
                            line_index as int,
                            idx0,
                            mode_before,
                            spec_prev_lineref(dst@),
                        ) == seq![token@] + spec_tokenize_from(
                            line@,
                            variable_names@,
                            units@,
                            line_index as int,
                            idx0 + token@.text.len(),
                            next_mode(mode_before, token@),
                            is_lineref_token(token@),
                        ));
                    }
                    can_be_unit = Self::update_mode(can_be_unit, &token);
                    index += token.text.len();
                    dst.push(token);
                    proof {
                        assert(dst@ == dst_before.push(token));
                        assert(dst.deep_view() =~= deep_before.push(token@));
                        assert(dst.deep_view().skip(old_len as int) =~= deep_before.skip(
                            old_len as int,
                        ).push(token@));
                        assert(dst@.take(old_len as int) =~= dst_before.take(old_len as int));
                        assert(spec_prev_lineref(dst@) == is_lineref_token(token@));
                        assert(total =~= dst.deep_view().skip(old_len as int) + spec_tokenize_from(
                            line@,
                            variable_names@,
                            units@,
                            line_index as int,
                            index as int,
                            can_be_unit,
                            spec_prev_lineref(dst@),
                        ));
                    }
                },
                None => {
                    proof {
                        assert(spec_tokenize_from(
                            line@,
                            variable_names@,
                            units@,
                            line_index as int,
                            index as int,
                            can_be_unit,
                            spec_prev_lineref(dst@),
                        ) =~= Seq::<SpecToken>::empty());
                        assert(total =~= dst.deep_view().skip(old_len as int));
                    }
                    break ;
                },
            }
        }
        proof {
            assert(dst@.take(old_len as int) =~= old(dst)@);
            assert(dst.deep_view().take(old_len as int) =~= old(dst).deep_view()) by {
                assert forall|i: int| 0 <= i < old_len implies dst.deep_view()[i] == old(
                    dst,
                ).deep_view()[i] by {
                    assert(dst@.take(old_len as int)[i] == old(dst)@[i]);
                }
            }
            assert(dst.deep_view() =~= dst.deep_view().take(old_len as int) + dst.deep_view().skip(
                old_len as int,
            ));
            assert(spec_parse_line(line@, variable_names@, units@, line_index as int, prev0)
                == total);
        }
    }
}

/// Copy of the whole line, as the header token's text.
fn copy_prefix_whole(s: &[char]) -> (r: Vec<char>)
    ensures
        r@ == s@,
{
    let r = copy_prefix(s, s.len());
    proof {
        assert(s@.take(s@.len() as int) =~= s@);
    }
    r
}

} // verus!
