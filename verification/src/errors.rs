//! The error taxonomy of the language, and the shared "expecting X, got Y"
//! message builder used when presenting syntax errors.

use vstd::prelude::*;
use vstd::string::StringExecFns;
use crate::lexer::TokenKind;

verus! {

/// A failure of the tokenizer.
#[derive(Clone, Copy, Debug, PartialEq, Eq, Structural)]
pub enum LexError {
    /// A string literal was still open when the source text ended.
    UnterminatedString,
}

/// What the parser was looking for when it failed.
#[derive(Clone, Copy, Debug, PartialEq, Eq, Structural)]
pub enum Expected {
    /// The start of an expression.
    Expression,
    /// The closing parenthesis of a group.
    CloseParen,
    /// The separator between the two bounds of a slice.
    Colon,
    /// The closing bracket of a slice.
    CloseBracket,
}

/// A failure of the parser: either a tokenizer failure, or a structural
/// syntax violation naming what was expected.
#[derive(Clone, Copy, Debug, PartialEq, Eq, Structural)]
pub enum ParseError {
    /// The tokenizer failed before any parsing happened.
    Lex(LexError),
    /// The source text held no token at all.
    EmptySource,
    /// A token other than the expected one was found.
    UnexpectedToken { expected: Expected, got: TokenKind },
    /// The token sequence ended where more was expected.
    UnexpectedEnd { expected: Expected },
    /// A complete expression was parsed but tokens were left over; names the
    /// first unconsumed token.
    TrailingTokens { token: TokenKind },
}

/// A failure during evaluation: either a nested parse failure raised by the
/// self-evaluation operator, or a runtime violation of the slicing rules.
#[derive(Clone, Copy, Debug, PartialEq, Eq, Structural)]
pub enum EvalError {
    /// A program computed at runtime by the self-evaluation operator failed
    /// to parse; the nested failure is carried unchanged.
    Parse(ParseError),
    /// A slice bound exceeded the base string's length, or the lower bound
    /// exceeded the upper bound.
    OutOfBounds,
    /// A slice bound did not evaluate to a non-negative base-10 integer that
    /// fits the machine's word size.
    InvalidNumber,
    /// Self-evaluation nested deeper than the configured ceiling.
    RecursionLimitExceeded,
}

/// Builds the human-readable "expecting X, got Y" message used when a syntax
/// error is presented to a user.
pub fn expect(expecting: &str, got: &str) -> (r: String)
    ensures
        r@ == "expecting "@ + expecting@ + ", got "@ + got@,
{
    let mut r = "expecting ".to_owned();
    r.append(expecting);
    r.append(", got ");
    r.append(got);
    proof {
        assert(r@ =~= "expecting "@ + expecting@ + ", got "@ + got@);
    }
    r
}

} // verus!
