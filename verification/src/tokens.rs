//! Token data model and the operator precedence/associativity table.

use vstd::prelude::*;

verus! {

/// Handle for a unit descriptor. The unit grammar is an external
/// collaborator: it owns the descriptors and answers prefix queries; the
/// tokenizer only embeds the handle it was given into the token.
pub type UnitId = u64;

/// Handle for a builtin-function kind. `Fn` operator tokens are synthesized
/// by the downstream parser; the kind's meaning is owned there.
pub type FnKind = u64;

/// One answer of the external unit grammar at one line position: the length
/// of the recognized unit-expression prefix (`0` meaning no match) and the
/// descriptor handle for it.
pub struct PrefixMatch {
    pub unit: UnitId,
    pub len: usize,
}

/// An entry of the variable/reference table: the declared name. The value a
/// variable holds is the evaluator's business and is never read during
/// tokenization.
pub struct Variable {
    pub name: Vec<char>,
}

/// Number of lines a document may hold; the variable table has one slot per
/// line, plus the reserved running-sum slot behind them.
pub const MAX_LINE_COUNT: usize = 256;

/// Index of the reserved running-sum variable, reported for the `sum`
/// literal.
pub const SUM_VARIABLE_INDEX: usize = 256;

/// The tokenizer. Its associated functions hold the scanners and the
/// per-line orchestrator.
pub struct TokenParser {}

/// Disambiguation mode of the tokenizer: whether a unit-grammar match at the
/// cursor may be taken at all, and whether it binds to the preceding value
/// or stands as a value of its own.
#[derive(Clone, Copy, Debug, PartialEq, Eq)]
pub enum CanBeUnit {
    Not,
    ApplyToPrevToken,
    StandInItself,
}

#[derive(Clone, Debug, PartialEq, Eq)]
pub enum OperatorTokenType {
    Comma,
    Add,
    UnaryPlus,
    Sub,
    UnaryMinus,
    Mult,
    Div,
    Perc,
    BinAnd,
    BinOr,
    BinXor,
    BinNot,
    Pow,
    ParenOpen,
    ParenClose,
    BracketOpen,
    Semicolon,
    BracketClose,
    ShiftLeft,
    ShiftRight,
    Assign,
    UnitConverter,
    ApplyUnit(UnitId),
    Matrix { row_count: usize, col_count: usize },
    Fn { arg_count: usize, typ: FnKind },
}

#[derive(Clone, Copy, Debug, PartialEq, Eq)]
pub enum Assoc {
    Left,
    Right,
}

/// Binding strength of each operator; larger binds tighter. Global and
/// invariant across all parses.
pub open spec fn spec_precedence(op: OperatorTokenType) -> usize {
    match op {
        OperatorTokenType::Add => 2,
        OperatorTokenType::UnaryPlus => 4,
        OperatorTokenType::Sub => 2,
        OperatorTokenType::UnaryMinus => 4,
        OperatorTokenType::Mult => 3,
        OperatorTokenType::Div => 3,
        OperatorTokenType::Perc => 6,
        OperatorTokenType::BinAnd => 0,
        OperatorTokenType::BinOr => 0,
        OperatorTokenType::BinXor => 0,
        OperatorTokenType::BinNot => 4,
        OperatorTokenType::Pow => 6,
        OperatorTokenType::ParenOpen => 0,
        OperatorTokenType::ParenClose => 0,
        OperatorTokenType::ShiftLeft => 0,
        OperatorTokenType::ShiftRight => 0,
        OperatorTokenType::Assign => 0,
        OperatorTokenType::UnitConverter => 0,
        OperatorTokenType::Semicolon => 0,
        OperatorTokenType::Comma => 0,
        OperatorTokenType::BracketOpen => 0,
        OperatorTokenType::BracketClose => 0,
        OperatorTokenType::Matrix { .. } => 0,
        OperatorTokenType::Fn { .. } => 0,
        OperatorTokenType::ApplyUnit(_) => 5,
    }
}

/// Associativity of each operator: `Right` exactly for power and for the
/// comma/semicolon separators, so that one separator does not replace
/// another on the operator stack; `Left` otherwise.
pub open spec fn spec_assoc(op: OperatorTokenType) -> Assoc {
    match op {
        OperatorTokenType::Pow => Assoc::Right,
        OperatorTokenType::Semicolon => Assoc::Right,
        OperatorTokenType::Comma => Assoc::Right,
        _ => Assoc::Left,
    }
}

impl OperatorTokenType {
    pub fn precedence(&self) -> (r: usize)
        ensures
            r == spec_precedence(*self),
    {
        match self {
            OperatorTokenType::Add => 2,
            OperatorTokenType::UnaryPlus => 4,
            OperatorTokenType::Sub => 2,
            OperatorTokenType::UnaryMinus => 4,
            OperatorTokenType::Mult => 3,
            OperatorTokenType::Div => 3,
            OperatorTokenType::Perc => 6,
            OperatorTokenType::BinAnd => 0,
            OperatorTokenType::BinOr => 0,
            OperatorTokenType::BinXor => 0,
            OperatorTokenType::BinNot => 4,
            OperatorTokenType::Pow => 6,
            OperatorTokenType::ParenOpen => 0,
            OperatorTokenType::ParenClose => 0,
            OperatorTokenType::ShiftLeft => 0,
            OperatorTokenType::ShiftRight => 0,
            OperatorTokenType::Assign => 0,
            OperatorTokenType::UnitConverter => 0,
            OperatorTokenType::Semicolon | OperatorTokenType::Comma => 0,
            OperatorTokenType::BracketOpen => 0,
            OperatorTokenType::BracketClose => 0,
            OperatorTokenType::Matrix { .. } => 0,
            OperatorTokenType::Fn { .. } => 0,
            OperatorTokenType::ApplyUnit(_) => 5,
        }
    }

    pub fn assoc(&self) -> (r: Assoc)
        ensures
            r == spec_assoc(*self),
    {
        match self {
            OperatorTokenType::Pow => Assoc::Right,
            OperatorTokenType::Semicolon | OperatorTokenType::Comma => Assoc::Right,
            _ => Assoc::Left,
        }
    }
}

#[derive(Clone, Debug)]
pub enum TokenType {
    StringLiteral,
    Header,
    Variable { var_index: usize },
    LineReference { var_index: usize },
    NumberLiteral(rust_decimal::Decimal),
    Operator(OperatorTokenType),
    Unit(UnitId),
    NumberErr,
}

/// A classified span of a line's text. `text` is the exact run of characters
/// the token covers; concatenating the texts of a line's tokens in order
/// reproduces the tokenized prefix of the line.
#[derive(Clone, Debug)]
pub struct Token {
    pub text: Vec<char>,
    pub typ: TokenType,
    pub has_error: bool,
}

/// Mathematical image of a [`Token`]: the same classification over a
/// character sequence.
pub ghost struct SpecToken {
    pub text: Seq<char>,
    pub typ: TokenType,
    pub has_error: bool,
}

impl View for Token {
    type V = SpecToken;

    open spec fn view(&self) -> SpecToken {
        SpecToken { text: self.text@, typ: self.typ, has_error: self.has_error }
    }
}

impl DeepView for Token {
    type V = SpecToken;

    open spec fn deep_view(&self) -> SpecToken {
        self.view()
    }
}

impl Token {
    pub fn is_number(&self) -> (r: bool)
        ensures
            r == (self.typ matches TokenType::NumberLiteral(..)),
    {
        matches!(self.typ, TokenType::NumberLiteral(..))
    }

    pub fn is_string(&self) -> (r: bool)
        ensures
            r == (self.typ matches TokenType::StringLiteral),
    {
        matches!(self.typ, TokenType::StringLiteral)
    }

    pub fn has_error(&self) -> (r: bool)
        ensures
            r == self.has_error,
    {
        self.has_error
    }

    /// Marks the token at `index` as erroneous, touching nothing else; an
    /// out-of-range index leaves the tokens unchanged.
    pub fn set_token_error_flag_by_index(index: usize, tokens: &mut Vec<Token>)
        ensures
            final(tokens)@.len() == old(tokens)@.len(),
            forall|j: int|
                0 <= j < old(tokens)@.len() && j != index ==> final(tokens)@[j] == old(tokens)@[j],
            index < old(tokens)@.len() ==> {
                &&& final(tokens)@[index as int].typ == old(tokens)@[index as int].typ
                &&& final(tokens)@[index as int].text == old(tokens)@[index as int].text
                &&& final(tokens)@[index as int].has_error
            },
    {
        if index < tokens.len() {
            tokens[index].has_error = true;
        }
    }
}

} // verus!
