use notecalc_lib::tokens::Assoc;
use notecalc_lib::tokens::OperatorTokenType;
use notecalc_lib::tokens::PrefixMatch;
use notecalc_lib::tokens::Token;
use notecalc_lib::tokens::TokenParser;
use notecalc_lib::tokens::TokenType;
use notecalc_lib::tokens::Variable;
use notecalc_lib::tokens::MAX_LINE_COUNT;
use notecalc_lib::tokens::SUM_VARIABLE_INDEX;

use rust_decimal::Decimal;
use std::str::FromStr;

fn vars_from(names: &[&str]) -> Vec<Option<Variable>> {
    let mut vars: Vec<Option<Variable>> = (0..MAX_LINE_COUNT + 1).map(|_| None).collect();
    for (i, name) in names.iter().enumerate() {
        vars[i] = Some(Variable {
            name: name.chars().collect(),
        });
    }
    vars
}

fn prefixes_for(len: usize, unit_spans: &[(usize, usize)]) -> Vec<PrefixMatch> {
    let mut prefixes: Vec<PrefixMatch> = (0..len).map(|_| PrefixMatch { unit: 0, len: 0 }).collect();
    for (k, (pos, ulen)) in unit_spans.iter().enumerate() {
        prefixes[*pos] = PrefixMatch {
            unit: k as u64 + 1,
            len: *ulen,
        };
    }
    prefixes
}

fn tokenize(text: &str, names: &[&str], line_index: usize, unit_spans: &[(usize, usize)]) -> Vec<Token> {
    let chars: Vec<char> = text.chars().collect();
    let vars = vars_from(names);
    let prefixes = prefixes_for(chars.len(), unit_spans);
    let mut dst = Vec::new();
    TokenParser::parse_line(&chars, &vars, &mut dst, &prefixes, line_index);
    dst
}

fn joined_text(tokens: &[Token]) -> String {
    tokens.iter().flat_map(|t| t.text.iter().copied()).collect()
}

#[test]
fn span_coverage_reconstructs_the_line() {
    for (text, spans) in [
        ("10km/h * 45min in m", vec![(2usize, 4usize), (11, 3), (18, 1)]),
        ("((0b00101 AND 0xFF) XOR 0xFF00) << 16 >> 16", vec![]),
        ("# fejezet", vec![]),
        ("   leading and trailing   ", vec![]),
        ("0b0101 101     1 + 2", vec![]),
    ] {
        let tokens = tokenize(text, &[], 10, &spans);
        assert_eq!(joined_text(&tokens), text, "span coverage of {:?}", text);
    }
}

#[test]
fn determinism_same_inputs_same_stream() {
    let text = "200kg alma + &[4] * sum";
    let names = ["x", "y", "zzz", "w", "&[4]"];
    let spans = [(3usize, 2usize)];
    let a = tokenize(text, &names, 10, &spans);
    let b = tokenize(text, &names, 10, &spans);
    assert_eq!(a.len(), b.len());
    for (ta, tb) in a.iter().zip(b.iter()) {
        assert_eq!(format!("{:?}", ta), format!("{:?}", tb));
    }
}

#[test]
fn adjacent_line_refs_do_not_both_become_references() {
    let tokens = tokenize("&[1]&[1]&[1]", &["&[1]"], 10, &[]);
    for pair in tokens.windows(2) {
        let both = matches!(pair[0].typ, TokenType::LineReference { .. })
            && matches!(pair[1].typ, TokenType::LineReference { .. });
        assert!(!both, "two adjacent line references");
    }
    // the second reference-shaped span degrades to `&`, `[`, digits, `]`;
    // the third follows a bracket and is a reference again
    assert!(matches!(tokens[0].typ, TokenType::LineReference { .. }));
    assert!(matches!(tokens[1].typ, TokenType::StringLiteral));
    assert_eq!(tokens[1].text.iter().collect::<String>(), "&");
    assert!(matches!(
        tokens[2].typ,
        TokenType::Operator(OperatorTokenType::BracketOpen)
    ));
    assert!(matches!(tokens[5].typ, TokenType::LineReference { .. }));
}

#[test]
fn previous_line_reference_is_seen_across_calls_on_one_buffer() {
    let vars = vars_from(&["&[1]"]);
    let mut dst = Vec::new();
    let first: Vec<char> = "&[1]".chars().collect();
    TokenParser::parse_line(&first, &vars, &mut dst, &prefixes_for(first.len(), &[]), 10);
    assert_eq!(dst.len(), 1);
    assert!(matches!(dst[0].typ, TokenType::LineReference { .. }));
    let second: Vec<char> = "&[1] x".chars().collect();
    TokenParser::parse_line(&second, &vars, &mut dst, &prefixes_for(second.len(), &[]), 10);
    // the buffer still ends with a line reference, so the first span of the
    // second call may not become one
    assert!(matches!(dst[1].typ, TokenType::StringLiteral));
    assert_eq!(dst[1].text.iter().collect::<String>(), "&");
}

#[test]
fn header_line_is_one_token() {
    for text in ["#", "# 12 + 3 kg", "## mélyebb # fejezet"] {
        let tokens = tokenize(text, &[], 0, &[]);
        assert_eq!(tokens.len(), 1, "header of {:?}", text);
        assert!(matches!(tokens[0].typ, TokenType::Header));
        assert_eq!(tokens[0].text.iter().collect::<String>(), text);
        assert!(!tokens[0].has_error);
    }
}

#[test]
fn huge_digit_run_becomes_number_err_not_a_crash() {
    let huge = "1".repeat(300);
    let tokens = tokenize(&huge, &[], 0, &[]);
    assert_eq!(tokens.len(), 1);
    assert!(matches!(tokens[0].typ, TokenType::NumberErr));
    assert!(tokens[0].has_error);
    assert_eq!(tokens[0].text.len(), 300);
}

#[test]
fn huge_exponent_becomes_number_err_not_a_crash() {
    for text in ["1e999999999", "1e99999999999999999999"] {
        let tokens = tokenize(text, &[], 0, &[]);
        assert_eq!(tokens.len(), 1, "for {:?}", text);
        assert!(matches!(tokens[0].typ, TokenType::NumberErr), "for {:?}", text);
        assert!(tokens[0].has_error);
    }
}

#[test]
fn si_multiplier_overflow_becomes_number_err() {
    // Decimal::MAX parses, but scaling it by 1000 overflows
    let text = "79228162514264337593543950335k";
    let tokens = tokenize(text, &[], 0, &[]);
    assert_eq!(tokens.len(), 1);
    assert!(matches!(tokens[0].typ, TokenType::NumberErr));
    assert!(tokens[0].has_error);
    assert_eq!(tokens[0].text.iter().collect::<String>(), text);
}

#[test]
fn binary_and_hex_overflow_fall_back_to_string() {
    let bin = format!("0b{}", "1".repeat(65));
    let tokens = tokenize(&bin, &[], 0, &[]);
    assert_eq!(tokens.len(), 1);
    assert!(matches!(tokens[0].typ, TokenType::StringLiteral));
    assert_eq!(tokens[0].text.len(), bin.chars().count());

    let hex = "0x1FFFFFFFFFFFFFFFF";
    let tokens = tokenize(hex, &[], 0, &[]);
    assert_eq!(tokens.len(), 1);
    assert!(matches!(tokens[0].typ, TokenType::StringLiteral));
}

#[test]
fn binary_value_extremes_round_trip() {
    let chars: Vec<char> = format!("-0b1{}", "0".repeat(63)).chars().collect();
    let token = TokenParser::try_extract_number_literal(&chars).expect("must parse");
    match token.typ {
        TokenType::NumberLiteral(n) => assert_eq!(n, Decimal::from(i64::MIN)),
        other => panic!("expected number, got {:?}", other),
    }

    let chars: Vec<char> = format!("0b{}", "1".repeat(63)).chars().collect();
    let token = TokenParser::try_extract_number_literal(&chars).expect("must parse");
    match token.typ {
        TokenType::NumberLiteral(n) => assert_eq!(n, Decimal::from(i64::MAX)),
        other => panic!("expected number, got {:?}", other),
    }
}

#[test]
fn pi_has_its_28_digit_value() {
    let tokens = tokenize("π", &[], 0, &[]);
    assert_eq!(tokens.len(), 1);
    match &tokens[0].typ {
        TokenType::NumberLiteral(n) => assert_eq!(
            *n,
            Decimal::from_parts(1102470953, 185874565, 1703060790, false, 28)
        ),
        other => panic!("expected number, got {:?}", other),
    }
    assert_eq!(tokens[0].text.iter().collect::<String>(), "π");
}

#[test]
fn unit_span_is_trimmed_of_trailing_whitespace() {
    // the grammar's answer covers "m " (two characters); the token keeps "m"
    let tokens = tokenize("5 m x", &[], 0, &[(2, 2)]);
    assert_eq!(tokens.len(), 5);
    assert!(matches!(
        tokens[2].typ,
        TokenType::Operator(OperatorTokenType::ApplyUnit(_))
    ));
    assert_eq!(tokens[2].text.iter().collect::<String>(), "m");
    assert_eq!(joined_text(&tokens), "5 m x");
}

#[test]
fn sum_literal_is_the_reserved_variable() {
    let tokens = tokenize("sum + 1", &[], 0, &[]);
    match tokens[0].typ {
        TokenType::Variable { var_index } => assert_eq!(var_index, SUM_VARIABLE_INDEX),
        ref other => panic!("expected variable, got {:?}", other),
    }
    assert_eq!(tokens[0].text.iter().collect::<String>(), "sum");

    // a fourth character other than a space blocks the reserved word
    let tokens = tokenize("sums", &[], 0, &[]);
    assert_eq!(tokens.len(), 1);
    assert!(matches!(tokens[0].typ, TokenType::StringLiteral));
}

#[test]
fn equally_long_names_resolve_to_the_later_declaration() {
    let tokens = tokenize("a+1", &["a", "a"], 10, &[]);
    match tokens[0].typ {
        TokenType::Variable { var_index } => assert_eq!(var_index, 1),
        ref other => panic!("expected variable, got {:?}", other),
    }
}

#[test]
fn variable_must_be_declared_on_an_earlier_line() {
    // declared on line 0, tokenizing line 0: not visible
    let tokens = tokenize("a+1", &["a"], 0, &[]);
    assert!(matches!(tokens[0].typ, TokenType::StringLiteral));
    // tokenizing line 1: visible
    let tokens = tokenize("a+1", &["a"], 1, &[]);
    assert!(matches!(tokens[0].typ, TokenType::Variable { .. }));
}

#[test]
fn alphanumeric_boundary_blocks_a_variable_match() {
    let tokens = tokenize("b0", &["b"], 10, &[]);
    assert_eq!(tokens.len(), 1);
    assert!(matches!(tokens[0].typ, TokenType::StringLiteral));
    assert_eq!(tokens[0].text.iter().collect::<String>(), "b0");

    let tokens = tokenize("b(", &["b"], 10, &[]);
    assert!(matches!(tokens[0].typ, TokenType::StringLiteral));
    assert_eq!(tokens[0].text.iter().collect::<String>(), "b");
}

#[test]
fn keyword_operators_respect_the_alphabetic_boundary() {
    let tokens = tokenize("0xFF ANDY", &[], 0, &[]);
    assert_eq!(tokens.len(), 3);
    assert!(matches!(tokens[2].typ, TokenType::StringLiteral));
    assert_eq!(tokens[2].text.iter().collect::<String>(), "ANDY");
}

#[test]
fn empty_line_yields_no_tokens() {
    let tokens = tokenize("", &[], 0, &[]);
    assert!(tokens.is_empty());
}

#[test]
fn precedence_table_exact_values() {
    assert_eq!(OperatorTokenType::Perc.precedence(), 6);
    assert_eq!(OperatorTokenType::Pow.precedence(), 6);
    assert_eq!(OperatorTokenType::ApplyUnit(7).precedence(), 5);
    assert_eq!(OperatorTokenType::UnaryPlus.precedence(), 4);
    assert_eq!(OperatorTokenType::UnaryMinus.precedence(), 4);
    assert_eq!(OperatorTokenType::BinNot.precedence(), 4);
    assert_eq!(OperatorTokenType::Mult.precedence(), 3);
    assert_eq!(OperatorTokenType::Div.precedence(), 3);
    assert_eq!(OperatorTokenType::Add.precedence(), 2);
    assert_eq!(OperatorTokenType::Sub.precedence(), 2);
    for zero in [
        OperatorTokenType::BinAnd,
        OperatorTokenType::BinOr,
        OperatorTokenType::BinXor,
        OperatorTokenType::ParenOpen,
        OperatorTokenType::ParenClose,
        OperatorTokenType::BracketOpen,
        OperatorTokenType::BracketClose,
        OperatorTokenType::ShiftLeft,
        OperatorTokenType::ShiftRight,
        OperatorTokenType::Assign,
        OperatorTokenType::UnitConverter,
        OperatorTokenType::Comma,
        OperatorTokenType::Semicolon,
        OperatorTokenType::Matrix {
            row_count: 2,
            col_count: 3,
        },
        OperatorTokenType::Fn {
            arg_count: 1,
            typ: 0,
        },
    ] {
        assert_eq!(zero.precedence(), 0, "precedence of {:?}", zero);
    }
}

#[test]
fn associativity_right_only_for_power_and_separators() {
    assert_eq!(OperatorTokenType::Pow.assoc(), Assoc::Right);
    assert_eq!(OperatorTokenType::Comma.assoc(), Assoc::Right);
    assert_eq!(OperatorTokenType::Semicolon.assoc(), Assoc::Right);
    for left in [
        OperatorTokenType::Add,
        OperatorTokenType::Sub,
        OperatorTokenType::Mult,
        OperatorTokenType::Div,
        OperatorTokenType::Perc,
        OperatorTokenType::UnaryPlus,
        OperatorTokenType::UnaryMinus,
        OperatorTokenType::BinAnd,
        OperatorTokenType::BinOr,
        OperatorTokenType::BinXor,
        OperatorTokenType::BinNot,
        OperatorTokenType::ParenOpen,
        OperatorTokenType::ParenClose,
        OperatorTokenType::BracketOpen,
        OperatorTokenType::BracketClose,
        OperatorTokenType::ShiftLeft,
        OperatorTokenType::ShiftRight,
        OperatorTokenType::Assign,
        OperatorTokenType::UnitConverter,
        OperatorTokenType::ApplyUnit(0),
    ] {
        assert_eq!(left.assoc(), Assoc::Left, "associativity of {:?}", left);
    }
}

#[test]
fn token_kind_accessors() {
    let tokens = tokenize("2 alma", &[], 0, &[]);
    assert!(tokens[0].is_number());
    assert!(!tokens[0].is_string());
    assert!(!tokens[0].has_error());
    assert!(tokens[1].is_string());
    assert!(!tokens[1].is_number());
}

#[test]
fn error_flag_can_be_set_by_index() {
    let mut tokens = tokenize("1 + 2", &[], 0, &[]);
    assert!(!tokens[2].has_error());
    Token::set_token_error_flag_by_index(2, &mut tokens);
    assert!(tokens[2].has_error());
    assert!(matches!(
        tokens[2].typ,
        TokenType::Operator(OperatorTokenType::Add)
    ));
    assert!(!tokens[0].has_error());
    // an out-of-range index changes nothing
    let before = format!("{:?}", tokens);
    Token::set_token_error_flag_by_index(99, &mut tokens);
    assert_eq!(before, format!("{:?}", tokens));
}

#[test]
fn exact_decimal_values_survive_scaling_and_notation() {
    let cases = [
        ("1k", "1000"),
        ("2.5M", "2500000"),
        ("2.3e-4", "0.00023"),
        ("123.456", "123.456"),
        (".5k", "500"),
    ];
    for (text, expected) in cases {
        let tokens = tokenize(text, &[], 0, &[]);
        match &tokens[0].typ {
            TokenType::NumberLiteral(n) => {
                assert_eq!(*n, Decimal::from_str(expected).unwrap(), "value of {:?}", text)
            }
            other => panic!("{:?}: expected number, got {:?}", text, other),
        }
    }
}
