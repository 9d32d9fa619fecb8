use helix_core::lex::{tokenize, LexError};
use helix_core::parse::{parse, ParseError};
use helix_core::token::TokenKind;
use helix_core::ast::{BinOp, Expr};

fn parse_text(text: &str) -> Result<Expr, ParseError> {
    let bytes = text.as_bytes();
    let tokens = tokenize(bytes).expect("tokenize");
    parse(bytes, &tokens)
}

#[test]
fn tokenize_kinds_and_spans() {
    let tokens = tokenize("1.5 + sin(t)".as_bytes()).unwrap();
    let kinds: Vec<TokenKind> = tokens.iter().map(|t| t.kind).collect();
    assert_eq!(
        kinds,
        vec![
            TokenKind::Number,
            TokenKind::Plus,
            TokenKind::Ident,
            TokenKind::LParen,
            TokenKind::Ident,
            TokenKind::RParen,
            TokenKind::End,
        ]
    );
    assert_eq!((tokens[0].start, tokens[0].end), (0, 3));
    assert_eq!((tokens[2].start, tokens[2].end), (6, 9));
    assert_eq!((tokens[6].start, tokens[6].end), (12, 12));
}

#[test]
fn tokenize_number_with_fraction_and_exponent() {
    let tokens = tokenize("12.25e-3".as_bytes()).unwrap();
    assert_eq!(tokens.len(), 2);
    assert_eq!(tokens[0].kind, TokenKind::Number);
    assert_eq!((tokens[0].start, tokens[0].end), (0, 8));
}

#[test]
fn tokenize_rejects_bad_byte() {
    let err = tokenize("1 $ 2".as_bytes()).unwrap_err();
    assert_eq!(err, LexError { pos: 2, byte: 0x24 });
}

#[test]
fn precedence_mul_binds_tighter() {
    // 2 + 3 * 4 parses as 2 + (3 * 4)
    let e = parse_text("2+3*4").unwrap();
    let expected = Expr::Bin(
        BinOp::Add,
        Box::new(Expr::Num { start: 0, end: 1 }),
        Box::new(Expr::Bin(
            BinOp::Mul,
            Box::new(Expr::Num { start: 2, end: 3 }),
            Box::new(Expr::Num { start: 4, end: 5 }),
        )),
    );
    assert_eq!(e, expected);
}

#[test]
fn power_is_right_associative() {
    // 2 ^ 3 ^ 2 parses as 2 ^ (3 ^ 2)
    let e = parse_text("2^3^2").unwrap();
    let expected = Expr::Bin(
        BinOp::Pow,
        Box::new(Expr::Num { start: 0, end: 1 }),
        Box::new(Expr::Bin(
            BinOp::Pow,
            Box::new(Expr::Num { start: 2, end: 3 }),
            Box::new(Expr::Num { start: 4, end: 5 }),
        )),
    );
    assert_eq!(e, expected);
}

#[test]
fn sin_with_two_arguments_is_arity_mismatch() {
    let text = "sin(t, t)";
    let err = parse_text(text).unwrap_err();
    assert_eq!(
        err,
        ParseError::ArityMismatch { start: 0, end: 3, expected: 1, got: 2 }
    );
    assert_eq!(&text.as_bytes()[0..3], "sin".as_bytes());
}

#[test]
fn unknown_identifier_is_rejected() {
    let text = "foo(t)";
    let err = parse_text(text).unwrap_err();
    assert_eq!(err, ParseError::UnknownIdentifier { start: 0, end: 3 });
    assert_eq!(&text.as_bytes()[0..3], "foo".as_bytes());
}

#[test]
fn pow_function_has_arity_two() {
    let err = parse_text("pow(t)").unwrap_err();
    assert_eq!(
        err,
        ParseError::ArityMismatch { start: 0, end: 3, expected: 2, got: 1 }
    );
    assert!(parse_text("pow(t, 2)").is_ok());
}

#[test]
fn unbalanced_parenthesis_is_rejected() {
    let err = parse_text("(1+2").unwrap_err();
    assert_eq!(err, ParseError::UnexpectedToken { pos: 4 });
}

#[test]
fn trailing_tokens_are_rejected() {
    let err = parse_text("1 2").unwrap_err();
    assert_eq!(err, ParseError::UnexpectedToken { pos: 2 });
}

#[test]
fn empty_input_is_rejected() {
    let err = parse_text("").unwrap_err();
    assert_eq!(err, ParseError::UnexpectedEnd);
}

#[test]
fn unary_minus_and_imaginary_unit() {
    let e = parse_text("-i").unwrap();
    assert_eq!(e, Expr::Neg(Box::new(Expr::ImUnit)));
}

#[test]
fn registry_name_without_call_is_rejected() {
    let err = parse_text("sin + 1").unwrap_err();
    assert_eq!(err, ParseError::UnexpectedToken { pos: 4 });
}
