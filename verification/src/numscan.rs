//! The number literal scanner.
//!
//! Tried forms, first match wins: the `π` constant; a binary literal `0b…`
//! over digits 0/1 with transparent interior whitespace; a hexadecimal
//! literal `0x…` over hex digits and `_`, a digit being taken only when the
//! next character is a hex digit, `_` or non-alphabetic; a decimal or
//! scientific literal with at most one decimal point, at most one exponent
//! marker, transparent interior whitespace, and SI suffixes `k`/`M`.
//!
//! The scan over the characters is given as an explicit state machine in
//! spec land ([`dec_step`]/[`dec_run`] and the binary/hex runs), and the
//! executable scanner is proved to land in exactly the state the machine
//! reaches. Malformed or overflowing decimal literals still consume their
//! span and yield a `NumberErr` token; binary and hexadecimal overflow makes
//! the scanner decline, as `i64::from_str_radix`'s failure did.

use vstd::prelude::*;

use crate::chars::char_is_alphabetic;
use crate::chars::char_is_digit;
use crate::chars::char_is_hex_digit;
use crate::chars::char_is_ws;
use crate::chars::is_alphabetic;
use crate::chars::is_digit;
use crate::chars::is_hex_digit;
use crate::chars::is_ws;
use crate::decimal::dec_checked_mul;
use crate::decimal::dec_from_scientific;
use crate::decimal::dec_from_str;
use crate::decimal::dec_of_i64;
use crate::decimal::dec_pi;
use crate::decimal::decimal_checked_mul;
use crate::decimal::decimal_from_scientific;
use crate::decimal::decimal_from_str;
use crate::decimal::decimal_of_i64;
use crate::decimal::spec_pi;
use crate::radix::i64_from_radix;
use crate::radix::parse_i64_radix;
use crate::scan::copy_prefix;
use crate::tokens::SpecToken;
use crate::tokens::Token;
use crate::tokens::TokenParser;
use crate::tokens::TokenType;

verus! {

/// The byte of an ASCII character, as the scanner stores digit text.
pub open spec fn char_u8(c: char) -> u8 {
    (c as int % 256) as u8
}

/// Byte of a character known to be ASCII.
fn char_byte(c: char) -> (r: u8)
    requires
        c as u32 <= 255,
    ensures
        r == char_u8(c),
{
    (c as u32) as u8
}

/// How the scan starts: a leading `-` is taken into the digit text only when
/// a non-whitespace character follows it directly.
pub open spec fn num_has_minus(s: Seq<char>) -> bool {
    s.len() > 0 && s[0] == '-' && s.len() > 1 && !is_ws(s[1])
}

/// Cursor position after the optional minus.
pub open spec fn num_start(s: Seq<char>) -> int {
    if num_has_minus(s) {
        1
    } else {
        0
    }
}

/// Digit text holding the optional minus.
pub open spec fn num_start_digits(s: Seq<char>) -> Seq<u8> {
    if num_has_minus(s) {
        seq![45u8]
    } else {
        Seq::empty()
    }
}

// ------------------------------------------------------------------
// Binary and hexadecimal runs
// ------------------------------------------------------------------

/// Scan of a binary digit run from `i`: binary digits extend the consumed
/// end and the digit text, whitespace is stepped over without extending the
/// end, anything else stops the run. Yields the final end and digit text.
pub open spec fn bin_run(s: Seq<char>, i: int, end: int, digits: Seq<u8>) -> (int, Seq<u8>)
    decreases s.len() - i,
{
    if i < 0 || i >= s.len() {
        (end, digits)
    } else if s[i] == '0' || s[i] == '1' {
        bin_run(s, i + 1, i + 1, digits.push(char_u8(s[i])))
    } else if is_ws(s[i]) {
        bin_run(s, i + 1, end, digits)
    } else {
        (end, digits)
    }
}

/// Scan of a hexadecimal digit run from `i`: a hex digit is taken only when
/// the character after it, if any, is a hex digit, `_` or non-alphabetic;
/// `_` is stepped over; anything else stops the run.
pub open spec fn hex_run(s: Seq<char>, i: int, end: int, digits: Seq<u8>) -> (int, Seq<u8>)
    decreases s.len() - i,
{
    if i < 0 || i >= s.len() {
        (end, digits)
    } else if is_hex_digit(s[i]) && (i + 1 >= s.len() || is_hex_digit(s[i + 1]) || s[i + 1] == '_'
        || !is_alphabetic(s[i + 1])) {
        hex_run(s, i + 1, i + 1, digits.push(char_u8(s[i])))
    } else if s[i] == '_' {
        hex_run(s, i + 1, end, digits)
    } else {
        (end, digits)
    }
}

proof fn lemma_bin_run_end(s: Seq<char>, i: int, end: int, digits: Seq<u8>)
    requires
        end <= s.len(),
    ensures
        bin_run(s, i, end, digits).0 <= s.len(),
    decreases s.len() - i,
{
    if 0 <= i < s.len() {
        if s[i] == '0' || s[i] == '1' {
            lemma_bin_run_end(s, i + 1, i + 1, digits.push(char_u8(s[i])));
        } else if is_ws(s[i]) {
            lemma_bin_run_end(s, i + 1, end, digits);
        }
    }
}

proof fn lemma_hex_run_end(s: Seq<char>, i: int, end: int, digits: Seq<u8>)
    requires
        end <= s.len(),
    ensures
        hex_run(s, i, end, digits).0 <= s.len(),
    decreases s.len() - i,
{
    if 0 <= i < s.len() {
        if is_hex_digit(s[i]) && (i + 1 >= s.len() || is_hex_digit(s[i + 1]) || s[i + 1] == '_'
            || !is_alphabetic(s[i + 1])) {
            lemma_hex_run_end(s, i + 1, i + 1, digits.push(char_u8(s[i])));
        } else if s[i] == '_' {
            lemma_hex_run_end(s, i + 1, end, digits);
        }
    }
}

// ------------------------------------------------------------------
// Decimal / scientific scan
// ------------------------------------------------------------------

/// State of the decimal scan: cursor, assembled digit text, counters for
/// body digits, decimal points and exponent markers, the pending and
/// committed exponent sign, the consumed end (excluding trailing
/// whitespace), the SI multiplier, and whether the scan has stopped.
pub ghost struct DecState {
    pub i: int,
    pub digits: Seq<u8>,
    pub digit_count: int,
    pub decimal_point_count: int,
    pub e_count: int,
    pub e_neg: bool,
    pub e_already_added: bool,
    pub end: int,
    pub multiplier: Option<i64>,
    pub stop: bool,
}

/// Initial state of the decimal scan.
pub open spec fn dec_init(s: Seq<char>) -> DecState {
    DecState {
        i: num_start(s),
        digits: num_start_digits(s),
        digit_count: 0,
        decimal_point_count: 0,
        e_count: 0,
        e_neg: false,
        e_already_added: false,
        end: 0,
        multiplier: None,
        stop: false,
    }
}

/// One step of the decimal scan at `st.i`, which must be inside the line:
/// `.` is taken once before any exponent; `-` right after the marker records
/// a negative exponent once; `e` not preceded by whitespace opens the
/// exponent; `k`/`M` not preceded by whitespace and not followed by a letter
/// commit an SI multiplier and stop; a digit extends the body or writes the
/// reassembled exponent; whitespace is transparent; anything else stops.
pub open spec fn dec_step(s: Seq<char>, st: DecState) -> DecState {
    let c = s[st.i];
    if c == '.' && st.decimal_point_count < 1 && st.e_count < 1 {
        DecState {
            i: st.i + 1,
            digits: st.digits.push(46u8),
            decimal_point_count: st.decimal_point_count + 1,
            end: st.i + 1,
            ..st
        }
    } else if c == '-' && st.e_count == 1 {
        if st.e_neg || st.e_already_added {
            DecState { stop: true, ..st }
        } else {
            DecState { i: st.i + 1, e_neg: true, ..st }
        }
    } else if c == 'e' && st.e_count < 1 && st.i > 0 && !is_ws(s[st.i - 1]) {
        DecState { i: st.i + 1, e_count: st.e_count + 1, ..st }
    } else if c == 'k' && st.e_count < 1 && st.i > 0 && !is_ws(s[st.i - 1]) && (st.i + 1 >= s.len()
        || !is_alphabetic(s[st.i + 1])) {
        DecState { multiplier: Some(1000i64), end: st.i + 1, stop: true, ..st }
    } else if c == 'M' && st.e_count < 1 && st.i > 0 && !is_ws(s[st.i - 1]) && (st.i + 1 >= s.len()
        || !is_alphabetic(s[st.i + 1])) {
        DecState { multiplier: Some(1000000i64), end: st.i + 1, stop: true, ..st }
    } else if is_digit(c) {
        if st.e_count > 0 && !st.e_already_added {
            let with_marker = if st.e_neg {
                st.digits.push(101u8).push(45u8)
            } else {
                st.digits.push(101u8)
            };
            DecState {
                i: st.i + 1,
                digits: with_marker.push(char_u8(c)),
                end: st.i + 1,
                e_already_added: true,
                ..st
            }
        } else {
            DecState {
                i: st.i + 1,
                digits: st.digits.push(char_u8(c)),
                digit_count: st.digit_count + 1,
                end: st.i + 1,
                ..st
            }
        }
    } else if is_ws(c) {
        DecState { i: st.i + 1, ..st }
    } else {
        DecState { stop: true, ..st }
    }
}

/// The state in which the decimal scan comes to rest.
pub open spec fn dec_run(s: Seq<char>, st: DecState) -> DecState
    decreases s.len() - st.i,
{
    if st.stop || st.i < 0 || st.i >= s.len() {
        st
    } else {
        let st2 = dec_step(s, st);
        if st2.stop {
            st2
        } else {
            dec_run(s, st2)
        }
    }
}

proof fn lemma_dec_run_props(s: Seq<char>, st: DecState)
    requires
        0 <= st.i,
        st.end <= s.len(),
        st.digit_count > 0 ==> st.end >= 1,
    ensures
        dec_run(s, st).end <= s.len(),
        dec_run(s, st).digit_count > 0 ==> dec_run(s, st).end >= 1,
    decreases s.len() - st.i,
{
    if !(st.stop || st.i >= s.len()) {
        let st2 = dec_step(s, st);
        if !st2.stop {
            lemma_dec_run_props(s, st2);
        }
    }
}

// ------------------------------------------------------------------
// The scanner's result
// ------------------------------------------------------------------

/// Result of the binary branch: at least one digit must extend the span
/// past `0b`, and the digit string must fit a 64-bit signed integer, else
/// the scanner declines.
pub open spec fn spec_binary_result(s: Seq<char>) -> Option<SpecToken> {
    let start = num_start(s);
    let r = bin_run(s, start + 2, start + 2, num_start_digits(s));
    if r.0 > 2 {
        match i64_from_radix(r.1, 2) {
            Some(v) => Some(
                SpecToken {
                    text: s.take(r.0),
                    typ: TokenType::NumberLiteral(decimal_of_i64(v)),
                    has_error: false,
                },
            ),
            None => None,
        }
    } else {
        None
    }
}

/// Result of the hexadecimal branch, under the same rules as the binary one.
pub open spec fn spec_hex_result(s: Seq<char>) -> Option<SpecToken> {
    let start = num_start(s);
    let r = hex_run(s, start + 2, start + 2, num_start_digits(s));
    if r.0 > 2 {
        match i64_from_radix(r.1, 16) {
            Some(v) => Some(
                SpecToken {
                    text: s.take(r.0),
                    typ: TokenType::NumberLiteral(decimal_of_i64(v)),
                    has_error: false,
                },
            ),
            None => None,
        }
    } else {
        None
    }
}

/// Result of the decimal branch: with at least one body digit the consumed
/// span always becomes a token — a number when the digit text parses and any
/// SI multiplier fits, a `NumberErr` with the error flag set otherwise.
pub open spec fn spec_decimal_result(s: Seq<char>) -> Option<SpecToken> {
    let fin = dec_run(s, dec_init(s));
    if fin.digit_count > 0 {
        let parsed = if fin.e_already_added {
            decimal_from_scientific(fin.digits)
        } else {
            decimal_from_str(fin.digits)
        };
        match parsed {
            Some(num) => match fin.multiplier {
                Some(m) => match decimal_checked_mul(decimal_of_i64(m), num) {
                    Some(result) => Some(
                        SpecToken {
                            text: s.take(fin.end),
                            typ: TokenType::NumberLiteral(result),
                            has_error: false,
                        },
                    ),
                    None => Some(
                        SpecToken {
                            text: s.take(fin.end),
                            typ: TokenType::NumberErr,
                            has_error: true,
                        },
                    ),
                },
                None => Some(
                    SpecToken {
                        text: s.take(fin.end),
                        typ: TokenType::NumberLiteral(num),
                        has_error: false,
                    },
                ),
            },
            None => Some(
                SpecToken { text: s.take(fin.end), typ: TokenType::NumberErr, has_error: true },
            ),
        }
    } else {
        None
    }
}

/// The number literal at the cursor: `π` first, then the binary, hexadecimal
/// and decimal families; `None` when no family recognizes a literal.
pub open spec fn spec_number_literal(s: Seq<char>) -> Option<SpecToken> {
    let start = num_start(s);
    if s.len() > 0 && s[0] == 'π' {
        Some(
            SpecToken {
                text: s.take(1),
                typ: TokenType::NumberLiteral(spec_pi()),
                has_error: false,
            },
        )
    } else if start + 2 <= s.len() && s[start] == '0' && s[start + 1] == 'b' {
        spec_binary_result(s)
    } else if start + 2 <= s.len() && s[start] == '0' && s[start + 1] == 'x' {
        spec_hex_result(s)
    } else if s.len() > 0 && (is_digit(s[0]) || s[0] == '.' || s[0] == '-') {
        spec_decimal_result(s)
    } else {
        None
    }
}

impl TokenParser {
    /// The number literal at the cursor, as [`spec_number_literal`] gives
    /// it: `None` when no numeral family matches (including binary or
    /// hexadecimal overflow); a `NumberErr` token with the error flag set
    /// when a decimal literal consumes a span but fails to parse or its SI
    /// multiplier overflows.
    pub fn try_extract_number_literal(s: &[char]) -> (r: Option<Token>)
        requires
            s@.len() > 0,
        ensures
            match r {
                Some(t) => spec_number_literal(s@) == Some(t@),
                None => spec_number_literal(s@) is None,
            },
    {
        let mut digits: Vec<u8> = Vec::new();
        let mut i: usize = 0;
        let minus = s[0] == '-' && s.len() > 1 && !char_is_ws(s[1]);
        if minus {
            digits.push(45);
            i = 1;
        }
        proof {
            assert(num_has_minus(s@) == minus);
            assert(digits@ =~= num_start_digits(s@));
            assert(i as int == num_start(s@));
        }
        if s[0] == 'π' {
            return Some(
                Token {
                    text: copy_prefix(s, 1),
                    typ: TokenType::NumberLiteral(dec_pi()),
                    has_error: false,
                },
            );
        }
        if i + 2 <= s.len() && s[i] == '0' && s[i + 1] == 'b' {
            i += 2;
            let mut end: usize = i;
            let ghost start2 = num_start(s@) + 2;
            while i < s.len()
                invariant_except_break
                    i <= s@.len(),
                    end <= s@.len(),
                    bin_run(s@, start2, start2, num_start_digits(s@)) == bin_run(
                        s@,
                        i as int,
                        end as int,
                        digits@,
                    ),
                ensures
                    end <= s@.len(),
                    bin_run(s@, start2, start2, num_start_digits(s@)) == (end as int, digits@),
                decreases s@.len() - i,
            {
                let c = s[i];
                if c == '0' || c == '1' {
                    end = i + 1;
                    digits.push(char_byte(c));
                } else if char_is_ws(c) {
                } else {
                    break;
                }
                i += 1;
            }
            if end > 2 {
                match parse_i64_radix(&digits, 2) {
                    Some(num) => {
                        return Some(
                            Token {
                                text: copy_prefix(s, end),
                                typ: TokenType::NumberLiteral(dec_of_i64(num)),
                                has_error: false,
                            },
                        );
                    },
                    None => {
                        return None;
                    },
                }
            } else {
                return None;
            }
        }
        if i + 2 <= s.len() && s[i] == '0' && s[i + 1] == 'x' {
            i += 2;
            let mut end: usize = i;
            let ghost start2 = num_start(s@) + 2;
            while i < s.len()
                invariant_except_break
                    i <= s@.len(),
                    end <= s@.len(),
                    hex_run(s@, start2, start2, num_start_digits(s@)) == hex_run(
                        s@,
                        i as int,
                        end as int,
                        digits@,
                    ),
                ensures
                    end <= s@.len(),
                    hex_run(s@, start2, start2, num_start_digits(s@)) == (end as int, digits@),
                decreases s@.len() - i,
            {
                let c = s[i];
                if char_is_hex_digit(c) && (i + 1 >= s.len() || char_is_hex_digit(s[i + 1]) || s[i
                    + 1] == '_' || !char_is_alphabetic(s[i + 1])) {
                    end = i + 1;
                    digits.push(char_byte(c));
                } else if c == '_' {
                } else {
                    break;
                }
                i += 1;
            }
            if end > 2 {
                match parse_i64_radix(&digits, 16) {
                    Some(num) => {
                        return Some(
                            Token {
                                text: copy_prefix(s, end),
                                typ: TokenType::NumberLiteral(dec_of_i64(num)),
                                has_error: false,
                            },
                        );
                    },
                    None => {
                        return None;
                    },
                }
            } else {
                return None;
            }
        }
        let c0 = s[0];
        if !(char_is_digit(c0) || c0 == '.' || c0 == '-') {
            return None;
        }
        let mut digit_count: usize = 0;
        let mut decimal_point_count: usize = 0;
        let mut e_count: usize = 0;
        let mut e_neg = false;
        let mut e_already_added = false;
        let mut end: usize = 0;
        let mut multiplier: Option<i64> = None;
        let ghost st0 = dec_init(s@);
        while i < s.len()
            invariant_except_break
                i <= s@.len(),
                end <= s@.len(),
                digit_count <= i,
                dec_run(s@, st0) == dec_run(
                    s@,
                    DecState {
                        i: i as int,
                        digits: digits@,
                        digit_count: digit_count as int,
                        decimal_point_count: decimal_point_count as int,
                        e_count: e_count as int,
                        e_neg: e_neg,
                        e_already_added: e_already_added,
                        end: end as int,
                        multiplier: multiplier,
                        stop: false,
                    },
                ),
            ensures
                end <= s@.len(),
                ({
                    let fin = dec_run(s@, st0);
                    &&& fin.digits == digits@
                    &&& fin.digit_count == digit_count as int
                    &&& fin.e_already_added == e_already_added
                    &&& fin.end == end as int
                    &&& fin.multiplier == multiplier
                }),
            decreases s@.len() - i,
        {
            let ghost cur = DecState {
                i: i as int,
                digits: digits@,
                digit_count: digit_count as int,
                decimal_point_count: decimal_point_count as int,
                e_count: e_count as int,
                e_neg: e_neg,
                e_already_added: e_already_added,
                end: end as int,
                multiplier: multiplier,
                stop: false,
            };
            let c = s[i];
            if c == '.' && decimal_point_count < 1 && e_count < 1 {
                decimal_point_count += 1;
                end = i + 1;
                digits.push(46);
            } else if c == '-' && e_count == 1 {
                if e_neg || e_already_added {
                    proof {
                        assert(dec_run(s@, cur) == dec_step(s@, cur));
                    }
                    break;
                }
                e_neg = true;
            } else if c == 'e' && e_count < 1 && i > 0 && !char_is_ws(s[i - 1]) {
                e_count += 1;
            } else if c == 'k' && e_count < 1 && i > 0 && !char_is_ws(s[i - 1]) && (i + 1
                >= s.len() || !char_is_alphabetic(s[i + 1])) {
                multiplier = Some(1000);
                end = i + 1;
                proof {
                    assert(dec_run(s@, cur) == dec_step(s@, cur));
                }
                break;
            } else if c == 'M' && e_count < 1 && i > 0 && !char_is_ws(s[i - 1]) && (i + 1
                >= s.len() || !char_is_alphabetic(s[i + 1])) {
                multiplier = Some(1000000);
                end = i + 1;
                proof {
                    assert(dec_run(s@, cur) == dec_step(s@, cur));
                }
                break;
            } else if char_is_digit(c) {
                if e_count > 0 && !e_already_added {
                    digits.push(101);
                    if e_neg {
                        digits.push(45);
                    }
                    digits.push(char_byte(c));
                    end = i + 1;
                    e_already_added = true;
                } else {
                    digit_count += 1;
                    end = i + 1;
                    digits.push(char_byte(c));
                }
            } else if char_is_ws(c) {
            } else {
                proof {
                    assert(dec_run(s@, cur) == dec_step(s@, cur));
                }
                break;
            }
            i += 1;
        }
        if digit_count > 0 {
            let parsed = if e_already_added {
                dec_from_scientific(&digits)
            } else {
                dec_from_str(&digits)
            };
            match parsed {
                Some(num) => match multiplier {
                    Some(m) => match dec_checked_mul(dec_of_i64(m), num) {
                        Some(result) => Some(
                            Token {
                                text: copy_prefix(s, end),
                                typ: TokenType::NumberLiteral(result),
                                has_error: false,
                            },
                        ),
                        None => Some(
                            Token {
                                text: copy_prefix(s, end),
                                typ: TokenType::NumberErr,
                                has_error: true,
                            },
                        ),
                    },
                    None => Some(
                        Token {
                            text: copy_prefix(s, end),
                            typ: TokenType::NumberLiteral(num),
                            has_error: false,
                        },
                    ),
                },
                None => Some(
                    Token {
                        text: copy_prefix(s, end),
                        typ: TokenType::NumberErr,
                        has_error: true,
                    },
                ),
            }
        } else {
            None
        }
    }
}

/// A number token spans at least one and at most all of the remaining
/// characters.
pub proof fn lemma_number_literal_len(s: Seq<char>)
    ensures
        spec_number_literal(s) matches Some(t) ==> 1 <= t.text.len() <= s.len(),
{
    let start = num_start(s);
    if s.len() > 0 && s[0] == 'π' {
    } else if start + 2 <= s.len() && s[start] == '0' && s[start + 1] == 'b' {
        lemma_bin_run_end(s, start + 2, start + 2, num_start_digits(s));
    } else if start + 2 <= s.len() && s[start] == '0' && s[start + 1] == 'x' {
        lemma_hex_run_end(s, start + 2, start + 2, num_start_digits(s));
    } else if s.len() > 0 && (is_digit(s[0]) || s[0] == '.' || s[0] == '-') {
        lemma_dec_run_props(s, dec_init(s));
    }
}

/// A number token's span is literally the consumed prefix of the remainder.
pub proof fn lemma_number_literal_text(s: Seq<char>)
    ensures
        spec_number_literal(s) matches Some(t) ==> t.text == s.take(t.text.len() as int),
{
    lemma_number_literal_len(s);
    let start = num_start(s);
    if s.len() > 0 && s[0] == 'π' {
    } else if start + 2 <= s.len() && s[start] == '0' && s[start + 1] == 'b' {
        lemma_bin_run_end(s, start + 2, start + 2, num_start_digits(s));
        let r = bin_run(s, start + 2, start + 2, num_start_digits(s));
        if spec_binary_result(s) is Some {
            let t = spec_binary_result(s)->Some_0;
            assert(t.text == s.take(r.0));
            assert(t.text.len() == r.0);
        }
    } else if start + 2 <= s.len() && s[start] == '0' && s[start + 1] == 'x' {
        lemma_hex_run_end(s, start + 2, start + 2, num_start_digits(s));
        let r = hex_run(s, start + 2, start + 2, num_start_digits(s));
        if spec_hex_result(s) is Some {
            let t = spec_hex_result(s)->Some_0;
            assert(t.text == s.take(r.0));
            assert(t.text.len() == r.0);
        }
    } else if s.len() > 0 && (is_digit(s[0]) || s[0] == '.' || s[0] == '-') {
        lemma_dec_run_props(s, dec_init(s));
        let fin = dec_run(s, dec_init(s));
        if spec_decimal_result(s) is Some {
            let t = spec_decimal_result(s)->Some_0;
            assert(t.text == s.take(fin.end));
            assert(t.text.len() == fin.end);
        }
    }
}

} // verus!
