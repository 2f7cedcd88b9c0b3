//! End-to-end scenarios through the whole pipeline.

use stringed::{eval, EvalError, LexError, ParseError};

#[test]
fn literal_program_yields_its_text() {
    assert_eq!(eval("\"hello\"", ""), Ok("hello".to_string()));
}

#[test]
fn input_marker_yields_the_input() {
    assert_eq!(eval("_", "world"), Ok("world".to_string()));
}

#[test]
fn slice_with_quoted_bounds() {
    assert_eq!(eval("_[\"0\":\"3\"]", "hello"), Ok("hel".to_string()));
}

#[test]
fn bare_digits_are_not_tokens() {
    // Digits are not in the token vocabulary: outside a string literal they
    // are silently skipped, so these bounds read as absent bounds.
    assert_eq!(eval("_[0:3]", "hello"), Ok("hello".to_string()));
    assert_eq!(eval("_[5:3]", "hello"), Ok("hello".to_string()));
}

#[test]
fn concatenation_joins_left_to_right() {
    assert_eq!(eval("\"a\"+\"b\"+\"c\"", ""), Ok("abc".to_string()));
}

#[test]
fn self_evaluation_runs_computed_code() {
    // The operand evaluates to the literal text `_`, which is then parsed
    // and evaluated as the input-reference expression.
    assert_eq!(eval("$\"_\"", "xyz"), Ok("xyz".to_string()));
}

#[test]
fn reversed_bounds_are_out_of_bounds() {
    assert_eq!(eval("_[\"5\":\"3\"]", "hello"), Err(EvalError::OutOfBounds));
}

#[test]
fn unterminated_literal_fails_the_whole_run() {
    assert_eq!(
        eval("\"unterminated", ""),
        Err(EvalError::Parse(ParseError::Lex(LexError::UnterminatedString)))
    );
}

#[test]
fn empty_source_fails_the_whole_run() {
    assert_eq!(eval("", ""), Err(EvalError::Parse(ParseError::EmptySource)));
}
