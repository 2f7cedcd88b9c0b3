//! The parser in isolation: tree shapes, bookkeeping, and syntax errors.

use stringed::{parse, Expected, Expr, FullExpr, ParseError, TokenKind};

fn lit(s: &str) -> Box<Expr> {
    Box::new(Expr::Literal(s.to_string()))
}

#[test]
fn parses_the_input_marker() {
    assert_eq!(
        parse("_"),
        Ok(FullExpr { expr: Expr::Input, token_count: 1, have_input: true })
    );
}

#[test]
fn parses_a_literal() {
    assert_eq!(
        parse("\"hi\""),
        Ok(FullExpr { expr: Expr::Literal("hi".to_string()), token_count: 1, have_input: false })
    );
}

#[test]
fn concatenation_folds_to_the_right() {
    let f = parse("\"a\"+\"b\"+\"c\"").unwrap();
    assert_eq!(f.expr, Expr::Concat(lit("a"), Box::new(Expr::Concat(lit("b"), lit("c")))));
    assert_eq!(f.token_count, 5);
}

#[test]
fn dollar_takes_the_rest_of_the_expression() {
    let f = parse("$\"a\"+\"b\"").unwrap();
    assert_eq!(f.expr, Expr::Eval(Box::new(Expr::Concat(lit("a"), lit("b")))));
}

#[test]
fn slice_suffixes_chain_leftward() {
    let f = parse("_[:][:]").unwrap();
    assert_eq!(
        f.expr,
        Expr::Slice {
            expr: Box::new(Expr::Slice {
                expr: Box::new(Expr::Input),
                lower: None,
                upper: None,
            }),
            lower: None,
            upper: None,
        }
    );
    assert_eq!(f.token_count, 7);
}

#[test]
fn slice_bounds_are_expressions() {
    let f = parse("_[\"1\":\"2\"]").unwrap();
    assert_eq!(
        f.expr,
        Expr::Slice { expr: Box::new(Expr::Input), lower: Some(lit("1")), upper: Some(lit("2")) }
    );
}

#[test]
fn groups_wrap_their_child() {
    let f = parse("(_)").unwrap();
    assert_eq!(f.expr, Expr::Group(Box::new(Expr::Input)));
    assert_eq!(f.token_count, 3);
}

#[test]
fn have_input_sees_slice_bounds() {
    assert!(parse("\"ab\"[\"0\":_]").unwrap().have_input);
    assert!(!parse("\"ab\"[\"0\":\"1\"]").unwrap().have_input);
}

#[test]
fn have_input_cannot_see_through_self_evaluation() {
    // The operand is a literal whose text happens to be the input marker;
    // the flag reflects only parsed surface syntax.
    assert!(!parse("$\"_\"").unwrap().have_input);
}

#[test]
fn empty_source_is_rejected() {
    assert_eq!(parse(""), Err(ParseError::EmptySource));
    assert_eq!(parse("  letters only "), Err(ParseError::EmptySource));
}

#[test]
fn missing_close_paren() {
    assert_eq!(
        parse("(_"),
        Err(ParseError::UnexpectedEnd { expected: Expected::CloseParen })
    );
    assert_eq!(
        parse("(_]"),
        Err(ParseError::UnexpectedToken {
            expected: Expected::CloseParen,
            got: TokenKind::CloseBracket,
        })
    );
}

#[test]
fn group_needs_an_expression() {
    assert_eq!(
        parse("()"),
        Err(ParseError::UnexpectedToken {
            expected: Expected::Expression,
            got: TokenKind::CloseParen,
        })
    );
}

#[test]
fn dollar_needs_an_operand() {
    assert_eq!(parse("$"), Err(ParseError::UnexpectedEnd { expected: Expected::Expression }));
}

#[test]
fn slice_needs_a_colon() {
    assert_eq!(parse("_["), Err(ParseError::UnexpectedEnd { expected: Expected::Colon }));
    assert_eq!(parse("_[\"1\""), Err(ParseError::UnexpectedEnd { expected: Expected::Colon }));
    assert_eq!(
        parse("_[\"1\"]"),
        Err(ParseError::UnexpectedToken {
            expected: Expected::Colon,
            got: TokenKind::CloseBracket,
        })
    );
}

#[test]
fn slice_close_bracket_must_follow_the_upper_bound() {
    assert_eq!(
        parse("_[:\"2\"\"3\"]"),
        Err(ParseError::UnexpectedToken {
            expected: Expected::CloseBracket,
            got: TokenKind::Str,
        })
    );
}

#[test]
fn slice_needs_a_close_bracket() {
    assert_eq!(
        parse("_[:"),
        Err(ParseError::UnexpectedEnd { expected: Expected::CloseBracket })
    );
    assert_eq!(
        parse("_[:\"2\""),
        Err(ParseError::UnexpectedEnd { expected: Expected::CloseBracket })
    );
}

#[test]
fn leftover_tokens_are_rejected() {
    assert_eq!(
        parse("_)"),
        Err(ParseError::TrailingTokens { token: TokenKind::CloseParen })
    );
}
