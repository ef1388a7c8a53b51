//! Lexical front end of a units-aware, line-referencing calculator notebook
//! language.
//!
//! Each line of free text may contain numbers in several radices, physical
//! units, inline comments, headers, named variables, cross-line value
//! references and a rich operator set. The tokenizer turns such a line into a
//! flat, position-tracked token stream with context-sensitive disambiguation;
//! the operator table supplies the precedence and associativity contract that
//! a downstream operator-precedence parser honours.

pub mod chars;
pub mod decimal;
pub mod numscan;
pub mod parser;
pub mod props;
pub mod radix;
pub mod scan;
pub mod tokens;

pub use tokens::Assoc;
pub use tokens::OperatorTokenType;
pub use tokens::PrefixMatch;
pub use tokens::Token;
pub use tokens::TokenParser;
pub use tokens::TokenType;
pub use tokens::Variable;
pub use tokens::MAX_LINE_COUNT;
pub use tokens::SUM_VARIABLE_INDEX;
