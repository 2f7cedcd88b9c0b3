//! The evaluator: unescaping, slicing, self-evaluation, and its errors.

use stringed::{
    eval, eval_expr, eval_with_limit, expect, parse, EvalError, Expected, Expr, ParseError,
};

#[test]
fn escapes_are_removed_at_evaluation() {
    // Literal text `a\\b` unescapes to `a\b`; `a\"b` to `a"b`.
    assert_eq!(eval("\"a\\\\b\"", ""), Ok("a\\b".to_string()));
    assert_eq!(eval("\"a\\\"b\"", ""), Ok("a\"b".to_string()));
}

#[test]
fn dangling_trailing_backslash_is_dropped() {
    // Such literal text cannot come out of the tokenizer, but a caller can
    // build the expression directly.
    let e = Expr::Literal("ab\\".to_string());
    assert_eq!(eval_expr(&e, ""), Ok("ab".to_string()));
}

#[test]
fn group_evaluates_as_its_child() {
    assert_eq!(eval("(\"x\")", ""), Ok("x".to_string()));
}

#[test]
fn concatenation_with_input() {
    assert_eq!(eval("\"pre \"+_", "fix"), Ok("pre fix".to_string()));
}

#[test]
fn absent_bounds_default_to_the_full_range() {
    assert_eq!(eval("_[:\"2\"]", "hello"), Ok("he".to_string()));
    assert_eq!(eval("_[\"3\":]", "hello"), Ok("lo".to_string()));
    assert_eq!(eval("_[:]", "hello"), Ok("hello".to_string()));
}

#[test]
fn empty_slice_is_allowed() {
    assert_eq!(eval("_[\"2\":\"2\"]", "hello"), Ok(String::new()));
}

#[test]
fn bounds_are_computed_expressions() {
    assert_eq!(eval("_[\"1\"+\"0\":]", "abcdefghijkl"), Ok("kl".to_string()));
}

#[test]
fn upper_bound_beyond_length_is_out_of_bounds() {
    assert_eq!(eval("_[:\"9\"]", "hi"), Err(EvalError::OutOfBounds));
    assert_eq!(eval("_[\"3\":\"3\"]", "hi"), Err(EvalError::OutOfBounds));
}

#[test]
fn bounds_must_be_plain_digits() {
    assert_eq!(eval("_[\"x\":]", "hi"), Err(EvalError::InvalidNumber));
    assert_eq!(eval("_[\"\":]", "hi"), Err(EvalError::InvalidNumber));
    assert_eq!(eval("_[\"+1\":]", "hi"), Err(EvalError::InvalidNumber));
    assert_eq!(eval("_[\" 1\":]", "hi"), Err(EvalError::InvalidNumber));
}

#[test]
fn oversized_bound_is_invalid() {
    assert_eq!(
        eval("_[\"99999999999999999999999999\":]", "hi"),
        Err(EvalError::InvalidNumber)
    );
}

#[test]
fn leading_zeros_are_digits() {
    assert_eq!(eval("_[\"007\":]", "abcdefgh"), Ok("h".to_string()));
}

#[test]
fn self_evaluation_builds_code_from_pieces() {
    // The operand's literal text `\"a\"+_` unescapes to `"a"+_`, which then
    // runs against the same original input.
    assert_eq!(eval("$\"\\\"a\\\"+_\"", "b"), Ok("ab".to_string()));
}

#[test]
fn self_evaluation_nests() {
    // The operand unescapes to `$"_"`, itself a self-evaluation.
    assert_eq!(eval("$\"$\\\"_\\\"\"", "z"), Ok("z".to_string()));
}

#[test]
fn self_evaluation_propagates_nested_parse_errors() {
    assert_eq!(
        eval("$\"(\"", ""),
        Err(EvalError::Parse(ParseError::UnexpectedEnd { expected: Expected::Expression }))
    );
}

#[test]
fn self_reproducing_program_hits_the_ceiling() {
    // The program `$_` run on the input `$_` evaluates itself forever; the
    // depth ceiling turns that into a reported error.
    assert_eq!(eval("$_", "$_"), Err(EvalError::RecursionLimitExceeded));
}

#[test]
fn the_ceiling_is_configurable() {
    assert_eq!(
        eval_with_limit("$\"_\"", "x", 0),
        Err(EvalError::RecursionLimitExceeded)
    );
    assert_eq!(eval_with_limit("$\"_\"", "x", 1), Ok("x".to_string()));
}

#[test]
fn running_equals_parsing_then_evaluating() {
    let f = parse("_[\"1\":]").unwrap();
    assert_eq!(eval_expr(&f.expr, "abc"), eval("_[\"1\":]", "abc"));
}

#[test]
fn indexing_counts_characters() {
    assert_eq!(eval("_", "héllo"), Ok("héllo".to_string()));
    assert_eq!(eval("_[\"0\":\"2\"]", "hél"), Ok("hé".to_string()));
}

#[test]
fn expect_formats_the_message() {
    assert_eq!(expect("`)`", "EOF"), "expecting `)`, got EOF".to_string());
}
