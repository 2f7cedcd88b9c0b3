//! A minimal string-transformation language: string literals, concatenation,
//! substring slicing, an input reference, and runtime self-evaluation.
//!
//! The pipeline is `lex` (source text to tokens), `parse` (tokens to an
//! abstract syntax tree), and `eval_expr` / `eval` (tree to output string,
//! given a subject input string). Every stage is specified against
//! mathematical models over `Seq<char>` and proved to implement them.

mod lexer;
mod errors;
mod parser;
mod eval;
mod laws;
mod text;

pub use errors::{EvalError, Expected, LexError, ParseError, expect};
pub use eval::{
    DEFAULT_EVAL_DEPTH, eval, eval_expr, eval_expr_with_limit, eval_with_limit, spec_bound,
    spec_eval, spec_parse_usize, spec_run, spec_unescape,
};
pub use laws::{
    lemma_concat_splits, lemma_escape_round_trip, lemma_literal_evaluates_to_itself,
    lemma_parse_reports_input_references, lemma_run_is_parse_then_eval, lemma_slice_full_range,
    lemma_slice_out_of_bounds, lemma_unescape_no_backslash, spec_escape,
};
pub use lexer::{SpecToken, Token, TokenKind, lex, spec_lex};
pub use parser::{Expr, FullExpr, SpecExpr, SpecFullExpr, parse, refs_input, spec_parse};
