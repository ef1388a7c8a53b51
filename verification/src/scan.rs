//! The per-position scanners: comment, string-literal fallback, operator,
//! variable/reference and unit. Each scanner looks at the remainder of the
//! line from the cursor and either yields one token or declines; the
//! orchestrator tries them in a fixed priority order.

use vstd::prelude::*;

use crate::chars::is_alphabetic;
use crate::chars::is_alphanumeric;
use crate::chars::is_ws;
use crate::chars::char_is_alphabetic;
use crate::chars::char_is_alphanumeric;
use crate::chars::char_is_ws;
use crate::tokens::CanBeUnit;
use crate::tokens::OperatorTokenType;
use crate::tokens::PrefixMatch;
use crate::tokens::SpecToken;
use crate::tokens::Token;
use crate::tokens::TokenParser;
use crate::tokens::TokenType;
use crate::tokens::Variable;
use crate::tokens::SUM_VARIABLE_INDEX;

verus! {

/// Copy of the first `n` characters of the remainder, as a token's text.
pub fn copy_prefix(s: &[char], n: usize) -> (r: Vec<char>)
    requires
        n <= s@.len(),
    ensures
        r@ == s@.take(n as int),
{
    let mut v: Vec<char> = Vec::new();
    let mut i: usize = 0;
    while i < n
        invariant
            i <= n <= s@.len(),
            v@ == s@.take(i as int),
        decreases n - i,
    {
        let c = s[i];
        v.push(c);
        i += 1;
        proof {
            assert(s@.take(i as int) =~= s@.take(i - 1).push(c));
        }
    }
    v
}

// ------------------------------------------------------------------
// Comment scanner
// ------------------------------------------------------------------

/// A `//` at the cursor swallows the whole remainder as one string literal.
pub open spec fn spec_comment(s: Seq<char>) -> Option<SpecToken> {
    if s.len() >= 2 && s[0] == '/' && s[1] == '/' {
        Some(SpecToken { text: s, typ: TokenType::StringLiteral, has_error: false })
    } else {
        None
    }
}

impl TokenParser {
    pub fn try_extract_comment(line: &[char]) -> (r: Option<Token>)
        ensures
            match r {
                Some(t) => spec_comment(line@) == Some(t@),
                None => spec_comment(line@) is None,
            },
    {
        if line.len() >= 2 && line[0] == '/' && line[1] == '/' {
            let text = copy_prefix(line, line.len());
            proof {
                assert(line@.take(line@.len() as int) =~= line@);
            }
            Some(Token { text, typ: TokenType::StringLiteral, has_error: false })
        } else {
            None
        }
    }
}

// ------------------------------------------------------------------
// String literal fallback scanner
// ------------------------------------------------------------------

/// Characters that always end a word: the operator characters of the
/// language.
pub open spec fn is_excluded(c: char) -> bool {
    c == '=' || c == '%' || c == '/' || c == '+' || c == '-' || c == '*' || c == '^' || c == '('
        || c == ')' || c == '[' || c == ']'
}

pub fn char_is_excluded(c: char) -> (r: bool)
    ensures
        r == is_excluded(c),
{
    c == '=' || c == '%' || c == '/' || c == '+' || c == '-' || c == '*' || c == '^' || c == '('
        || c == ')' || c == '[' || c == ']'
}

/// A word character: neither an operator character nor ASCII whitespace.
pub open spec fn is_word_char(c: char) -> bool {
    !is_excluded(c) && !is_ws(c)
}

/// End of the run of word characters that starts at `i`.
pub open spec fn word_run(s: Seq<char>, i: int) -> int
    decreases s.len() - i,
{
    if i < 0 || i >= s.len() || !is_word_char(s[i]) {
        i
    } else {
        word_run(s, i + 1)
    }
}

/// End of the run of ASCII whitespace that starts at `i`.
pub open spec fn ws_run(s: Seq<char>, i: int) -> int
    decreases s.len() - i,
{
    if i < 0 || i >= s.len() || !is_ws(s[i]) {
        i
    } else {
        ws_run(s, i + 1)
    }
}

pub proof fn lemma_word_run_bounds(s: Seq<char>, i: int)
    requires
        0 <= i <= s.len(),
    ensures
        i <= word_run(s, i) <= s.len(),
    decreases s.len() - i,
{
    if i < s.len() && is_word_char(s[i]) {
        lemma_word_run_bounds(s, i + 1);
    }
}

pub proof fn lemma_ws_run_bounds(s: Seq<char>, i: int)
    requires
        0 <= i <= s.len(),
    ensures
        i <= ws_run(s, i) <= s.len(),
    decreases s.len() - i,
{
    if i < s.len() && is_ws(s[i]) {
        lemma_ws_run_bounds(s, i + 1);
    }
}

/// Fallback scan: a maximal nonempty run of word characters, else a maximal
/// nonempty run of whitespace, each as one string literal.
pub open spec fn spec_string_literal(s: Seq<char>) -> Option<SpecToken> {
    let w = word_run(s, 0);
    if w > 0 {
        Some(SpecToken { text: s.take(w), typ: TokenType::StringLiteral, has_error: false })
    } else {
        let ws = ws_run(s, 0);
        if ws > 0 {
            Some(SpecToken { text: s.take(ws), typ: TokenType::StringLiteral, has_error: false })
        } else {
            None
        }
    }
}

impl TokenParser {
    pub fn try_extract_string_literal(s: &[char]) -> (r: Option<Token>)
        ensures
            match r {
                Some(t) => spec_string_literal(s@) == Some(t@),
                None => spec_string_literal(s@) is None,
            },
    {
        let mut i: usize = 0;
        while i < s.len() && !char_is_excluded(s[i]) && !char_is_ws(s[i])
            invariant
                0 <= i <= s@.len(),
                word_run(s@, 0) == word_run(s@, i as int),
            decreases s@.len() - i,
        {
            i += 1;
        }
        assert(word_run(s@, i as int) == i);
        if i > 0 {
            return Some(
                Token { text: copy_prefix(s, i), typ: TokenType::StringLiteral, has_error: false },
            );
        }
        while i < s.len() && char_is_ws(s[i])
            invariant
                0 <= i <= s@.len(),
                ws_run(s@, 0) == ws_run(s@, i as int),
            decreases s@.len() - i,
        {
            i += 1;
        }
        assert(ws_run(s@, i as int) == i);
        if i > 0 {
            Some(Token { text: copy_prefix(s, i), typ: TokenType::StringLiteral, has_error: false })
        } else {
            None
        }
    }
}

// ------------------------------------------------------------------
// Operator scanner
// ------------------------------------------------------------------

/// Operator recognized at the cursor and the number of characters it
/// consumes. Single characters map one to one; keyword forms require the
/// following character, if any, not to be alphabetic; `in` requires a
/// trailing space (not consumed); `NOT(` consumes only `NOT`.
pub open spec fn spec_operator_match(s: Seq<char>) -> Option<(OperatorTokenType, int)> {
    if s.len() == 0 {
        None
    } else if s[0] == '=' {
        Some((OperatorTokenType::Assign, 1int))
    } else if s[0] == '+' {
        Some((OperatorTokenType::Add, 1int))
    } else if s[0] == '-' {
        Some((OperatorTokenType::Sub, 1int))
    } else if s[0] == '*' {
        Some((OperatorTokenType::Mult, 1int))
    } else if s[0] == '/' {
        Some((OperatorTokenType::Div, 1int))
    } else if s[0] == '%' {
        Some((OperatorTokenType::Perc, 1int))
    } else if s[0] == '^' {
        Some((OperatorTokenType::Pow, 1int))
    } else if s[0] == '(' {
        Some((OperatorTokenType::ParenOpen, 1int))
    } else if s[0] == ')' {
        Some((OperatorTokenType::ParenClose, 1int))
    } else if s[0] == '[' {
        Some((OperatorTokenType::BracketOpen, 1int))
    } else if s[0] == ']' {
        Some((OperatorTokenType::BracketClose, 1int))
    } else if s[0] == ',' {
        Some((OperatorTokenType::Comma, 1int))
    } else if s[0] == ';' {
        Some((OperatorTokenType::Semicolon, 1int))
    } else if s.len() >= 3 && s[0] == 'i' && s[1] == 'n' && s[2] == ' ' {
        Some((OperatorTokenType::UnitConverter, 2int))
    } else if s.len() >= 3 && s[0] == 'A' && s[1] == 'N' && s[2] == 'D' && (s.len() == 3
        || !is_alphabetic(s[3])) {
        Some((OperatorTokenType::BinAnd, 3int))
    } else if s.len() >= 2 && s[0] == 'O' && s[1] == 'R' && (s.len() == 2 || !is_alphabetic(
        s[2],
    )) {
        Some((OperatorTokenType::BinOr, 2int))
    } else if s.len() >= 4 && s[0] == 'N' && s[1] == 'O' && s[2] == 'T' && s[3] == '(' {
        Some((OperatorTokenType::BinNot, 3int))
    } else if s.len() >= 3 && s[0] == 'X' && s[1] == 'O' && s[2] == 'R' && (s.len() == 3
        || !is_alphabetic(s[3])) {
        Some((OperatorTokenType::BinXor, 3int))
    } else if s.len() >= 2 && s[0] == '<' && s[1] == '<' {
        Some((OperatorTokenType::ShiftLeft, 2int))
    } else if s.len() >= 2 && s[0] == '>' && s[1] == '>' {
        Some((OperatorTokenType::ShiftRight, 2int))
    } else {
        None
    }
}

/// The operator token at the cursor: the matched operator over the consumed
/// span.
pub open spec fn spec_operator(s: Seq<char>) -> Option<SpecToken> {
    match spec_operator_match(s) {
        Some((op, len)) => Some(
            SpecToken { text: s.take(len), typ: TokenType::Operator(op), has_error: false },
        ),
        None => None,
    }
}

impl TokenParser {
    pub fn try_extract_operator(s: &[char]) -> (r: Option<Token>)
        ensures
            match r {
                Some(t) => spec_operator(s@) == Some(t@),
                None => spec_operator(s@) is None,
            },
    {
        if s.len() == 0 {
            return None;
        }
        let c = s[0];
        let m: Option<(OperatorTokenType, usize)> = if c == '=' {
            Some((OperatorTokenType::Assign, 1))
        } else if c == '+' {
            Some((OperatorTokenType::Add, 1))
        } else if c == '-' {
            Some((OperatorTokenType::Sub, 1))
        } else if c == '*' {
            Some((OperatorTokenType::Mult, 1))
        } else if c == '/' {
            Some((OperatorTokenType::Div, 1))
        } else if c == '%' {
            Some((OperatorTokenType::Perc, 1))
        } else if c == '^' {
            Some((OperatorTokenType::Pow, 1))
        } else if c == '(' {
            Some((OperatorTokenType::ParenOpen, 1))
        } else if c == ')' {
            Some((OperatorTokenType::ParenClose, 1))
        } else if c == '[' {
            Some((OperatorTokenType::BracketOpen, 1))
        } else if c == ']' {
            Some((OperatorTokenType::BracketClose, 1))
        } else if c == ',' {
            Some((OperatorTokenType::Comma, 1))
        } else if c == ';' {
            Some((OperatorTokenType::Semicolon, 1))
        } else if s.len() >= 3 && c == 'i' && s[1] == 'n' && s[2] == ' ' {
            Some((OperatorTokenType::UnitConverter, 2))
        } else if s.len() >= 3 && c == 'A' && s[1] == 'N' && s[2] == 'D' && (s.len() == 3
            || !char_is_alphabetic(s[3])) {
            Some((OperatorTokenType::BinAnd, 3))
        } else if s.len() >= 2 && c == 'O' && s[1] == 'R' && (s.len() == 2 || !char_is_alphabetic(
            s[2],
        )) {
            Some((OperatorTokenType::BinOr, 2))
        } else if s.len() >= 4 && c == 'N' && s[1] == 'O' && s[2] == 'T' && s[3] == '(' {
            Some((OperatorTokenType::BinNot, 3))
        } else if s.len() >= 3 && c == 'X' && s[1] == 'O' && s[2] == 'R' && (s.len() == 3
            || !char_is_alphabetic(s[3])) {
            Some((OperatorTokenType::BinXor, 3))
        } else if s.len() >= 2 && c == '<' && s[1] == '<' {
            Some((OperatorTokenType::ShiftLeft, 2))
        } else if s.len() >= 2 && c == '>' && s[1] == '>' {
            Some((OperatorTokenType::ShiftRight, 2))
        } else {
            None
        };
        match m {
            Some((op, len)) => Some(
                Token { text: copy_prefix(s, len), typ: TokenType::Operator(op), has_error: false },
            ),
            None => None,
        }
    }
}

// ------------------------------------------------------------------
// Variable / line-reference scanner
// ------------------------------------------------------------------

/// The reserved running-sum literal: `sum` whose fourth character, if any,
/// is a space.
pub open spec fn is_sum_prefix(line: Seq<char>) -> bool {
    line.len() >= 3 && line[0] == 's' && line[1] == 'u' && line[2] == 'm' && (line.len() == 3
        || line[3] == ' ')
}

/// Whether the declared name matches at the cursor: every character of the
/// name matches the line, and the character immediately after the name, if
/// any, is neither `(` nor alphanumeric.
pub open spec fn var_name_matches(line: Seq<char>, name: Seq<char>) -> bool {
    &&& name.len() <= line.len()
    &&& (forall|k: int| 0 <= k < name.len() ==> line[k] == #[trigger] name[k])
    &&& !(line.len() > name.len() && (line[name.len() as int] == '(' || is_alphanumeric(
        line[name.len() as int],
    )))
}

/// Whether slot `j` of the table holds a name that matches at the cursor.
pub open spec fn var_candidate(vars: Seq<Option<Variable>>, line: Seq<char>, j: int) -> bool {
    vars[j] is Some && var_name_matches(line, vars[j]->Some_0.name@)
}

/// Backward scan over the slots below `j`, carrying the best match so far:
/// a longer name replaces the best, an equally long one does not, so among
/// equal lengths the later-declared entry wins.
pub open spec fn scan_vars(
    vars: Seq<Option<Variable>>,
    line: Seq<char>,
    j: int,
    best_len: int,
    best_idx: int,
) -> (int, int)
    decreases j,
{
    if j <= 0 {
        (best_len, best_idx)
    } else {
        let j1 = j - 1;
        if var_candidate(vars, line, j1) && vars[j1]->Some_0.name@.len() > best_len {
            scan_vars(vars, line, j1, vars[j1]->Some_0.name@.len() as int, j1)
        } else {
            scan_vars(vars, line, j1, best_len, best_idx)
        }
    }
}

/// Variable or line-reference token at the cursor: the reserved `sum`
/// literal first; otherwise the longest matching name declared strictly
/// before `row_index`. A match of length over two that starts with `&[` is a
/// line reference, refused outright when the previous token already was one.
pub open spec fn spec_variable(
    line: Seq<char>,
    vars: Seq<Option<Variable>>,
    row_index: int,
    prev_was_lineref: bool,
) -> Option<SpecToken> {
    if is_sum_prefix(line) {
        Some(
            SpecToken {
                text: line.take(3),
                typ: TokenType::Variable { var_index: SUM_VARIABLE_INDEX },
                has_error: false,
            },
        )
    } else {
        let best = scan_vars(vars, line, row_index, 0, 0);
        if best.0 > 0 {
            if best.0 > 2 && line[0] == '&' && line[1] == '[' {
                if prev_was_lineref {
                    None
                } else {
                    Some(
                        SpecToken {
                            text: line.take(best.0),
                            typ: TokenType::LineReference { var_index: best.1 as usize },
                            has_error: false,
                        },
                    )
                }
            } else {
                Some(
                    SpecToken {
                        text: line.take(best.0),
                        typ: TokenType::Variable { var_index: best.1 as usize },
                        has_error: false,
                    },
                )
            }
        } else {
            None
        }
    }
}

/// Whether `name` matches the line at the cursor, with the boundary rule.
fn var_matches(line: &[char], name: &Vec<char>) -> (r: bool)
    ensures
        r == var_name_matches(line@, name@),
{
    if name.len() > line.len() {
        return false;
    }
    let mut k: usize = 0;
    while k < name.len()
        invariant
            k <= name@.len() <= line@.len(),
            forall|t: int| 0 <= t < k ==> line@[t] == #[trigger] name@[t],
        decreases name@.len() - k,
    {
        if line[k] != name[k] {
            return false;
        }
        k += 1;
    }
    if line.len() > name.len() {
        let nc = line[name.len()];
        if nc == '(' {
            return false;
        }
        if char_is_alphanumeric(nc) {
            return false;
        }
    }
    true
}

/// The bound that a matched name places on the best length: never longer
/// than the line.
pub proof fn lemma_scan_vars_bounds(
    vars: Seq<Option<Variable>>,
    line: Seq<char>,
    j: int,
    best_len: int,
    best_idx: int,
)
    requires
        0 <= best_len <= line.len(),
    ensures
        0 <= scan_vars(vars, line, j, best_len, best_idx).0 <= line.len(),
    decreases j,
{
    if j > 0 {
        let j1 = j - 1;
        if var_candidate(vars, line, j1) && vars[j1]->Some_0.name@.len() > best_len {
            lemma_scan_vars_bounds(vars, line, j1, vars[j1]->Some_0.name@.len() as int, j1);
        } else {
            lemma_scan_vars_bounds(vars, line, j1, best_len, best_idx);
        }
    }
}

impl TokenParser {
    pub fn try_extract_variable_name(
        line: &[char],
        vars: &Vec<Option<Variable>>,
        row_index: usize,
        prev_was_lineref: bool,
    ) -> (r: Option<Token>)
        requires
            row_index <= vars@.len(),
        ensures
            match r {
                Some(t) => spec_variable(line@, vars@, row_index as int, prev_was_lineref) == Some(t@),
                None => spec_variable(line@, vars@, row_index as int, prev_was_lineref) is None,
            },
    {
        if line.len() >= 3 && line[0] == 's' && line[1] == 'u' && line[2] == 'm' && (line.len() == 3
            || line[3] == ' ') {
            return Some(
                Token {
                    text: copy_prefix(line, 3),
                    typ: TokenType::Variable { var_index: SUM_VARIABLE_INDEX },
                    has_error: false,
                },
            );
        }
        let mut longest_match: usize = 0;
        let mut longest_match_index: usize = 0;
        let mut j: usize = row_index;
        while j > 0
            invariant
                j <= row_index <= vars@.len(),
                longest_match <= line@.len(),
                scan_vars(vars@, line@, row_index as int, 0, 0) == scan_vars(
                    vars@,
                    line@,
                    j as int,
                    longest_match as int,
                    longest_match_index as int,
                ),
            decreases j,
        {
            j -= 1;
            match &vars[j] {
                Some(v) => {
                    if var_matches(line, &v.name) && v.name.len() > longest_match {
                        longest_match = v.name.len();
                        longest_match_index = j;
                    }
                },
                None => {},
            }
        }
        if longest_match > 0 {
            let is_line_ref = longest_match > 2 && line[0] == '&' && line[1] == '[';
            let typ = if is_line_ref {
                if prev_was_lineref {
                    return None;
                }
                TokenType::LineReference { var_index: longest_match_index }
            } else {
                TokenType::Variable { var_index: longest_match_index }
            };
            Some(Token { text: copy_prefix(line, longest_match), typ, has_error: false })
        } else {
            None
        }
    }
}

// ------------------------------------------------------------------
// Unit scanner
// ------------------------------------------------------------------

/// Length of the prefix that remains after trailing ASCII whitespace is
/// removed from the first `n` characters.
pub open spec fn trim_ws_end(s: Seq<char>, n: int) -> int
    decreases n,
{
    if n <= 0 {
        0
    } else if is_ws(s[n - 1]) {
        trim_ws_end(s, n - 1)
    } else {
        n
    }
}

pub proof fn lemma_trim_ws_end_bounds(s: Seq<char>, n: int)
    requires
        0 <= n,
    ensures
        trim_ws_end(s, n) <= n,
        n >= 1 && s.len() >= 1 && !is_ws(s[0]) ==> trim_ws_end(s, n) >= 1,
    decreases n,
{
    if n > 0 && is_ws(s[n - 1]) {
        lemma_trim_ws_end_bounds(s, n - 1);
    }
}

/// Unit token at the cursor, driven by the external grammar's answer for
/// this position. Nothing is taken when the mode forbids a unit or the
/// cursor sits on whitespace; a match is trimmed of trailing whitespace and
/// wrapped as an apply-unit operator or a standalone unit per the mode.
pub open spec fn spec_unit(s: Seq<char>, hit: PrefixMatch, mode: CanBeUnit) -> Option<SpecToken> {
    if mode is Not || s.len() == 0 || is_ws(s[0]) {
        None
    } else if hit.len == 0 {
        None
    } else {
        let trimmed = trim_ws_end(s, hit.len as int);
        let typ = if mode is ApplyToPrevToken {
            TokenType::Operator(OperatorTokenType::ApplyUnit(hit.unit))
        } else {
            TokenType::Unit(hit.unit)
        };
        Some(SpecToken { text: s.take(trimmed), typ, has_error: false })
    }
}

impl TokenParser {
    pub fn try_extract_unit(s: &[char], hit: &PrefixMatch, can_be_unit: CanBeUnit) -> (r: Option<
        Token,
    >)
        requires
            s@.len() > 0,
            hit.len <= s@.len(),
        ensures
            match r {
                Some(t) => spec_unit(s@, *hit, can_be_unit) == Some(t@),
                None => spec_unit(s@, *hit, can_be_unit) is None,
            },
    {
        if matches!(can_be_unit, CanBeUnit::Not) || char_is_ws(s[0]) {
            return None;
        }
        if hit.len == 0 {
            return None;
        }
        let mut i: usize = hit.len;
        while i > 0 && char_is_ws(s[i - 1])
            invariant
                i <= hit.len <= s@.len(),
                trim_ws_end(s@, hit.len as int) == trim_ws_end(s@, i as int),
            decreases i,
        {
            i -= 1;
        }
        assert(trim_ws_end(s@, i as int) == i);
        let text = copy_prefix(s, i);
        let typ = match can_be_unit {
            CanBeUnit::ApplyToPrevToken => TokenType::Operator(
                OperatorTokenType::ApplyUnit(hit.unit),
            ),
            _ => TokenType::Unit(hit.unit),
        };
        Some(Token { text, typ, has_error: false })
    }
}

} // verus!
