//! The parser: recursive descent over the token sequence, producing an
//! abstract syntax tree together with the number of tokens consumed and a
//! structural "references the input" flag.
//!
//! Grammar, with `expr` as the entry point:
//!
//! ```text
//! expr         := postfixed ( "+" expr )?
//! postfixed    := primary ( slice_suffix )*
//! primary      := "_" | string | "$" expr | "(" expr ")"
//! slice_suffix := "[" expr? ":" expr? "]"
//! ```
//!
//! Concatenation folds to the right; slice suffixes chain left-to-right, each
//! wrapping the previous result as the new base. Instead of a mutable cursor
//! every function takes the position it starts at and reports how many tokens
//! it consumed.

use vstd::prelude::*;
use crate::errors::{Expected, ParseError};
use crate::lexer::{SpecToken, Token, lex, spec_lex};
use crate::text::seq_rem;

verus! {

/// An expression of the language. A `Slice`'s bounds are optional arbitrary
/// sub-expressions; an absent bound defaults at evaluation time to the start
/// or the end of the base string.
#[derive(Debug, PartialEq, Eq)]
pub enum Expr {
    /// A parenthesized sub-expression; evaluates identically to its child.
    Group(Box<Expr>),
    /// The caller-supplied input string.
    Input,
    /// Raw (still escaped) text captured from a string token.
    Literal(String),
    /// String concatenation.
    Concat(Box<Expr>, Box<Expr>),
    /// Substring extraction.
    Slice { expr: Box<Expr>, lower: Option<Box<Expr>>, upper: Option<Box<Expr>> },
    /// Evaluates its operand to a string, then runs that string as a new
    /// program against the same original input.
    Eval(Box<Expr>),
}

/// The mathematical model of an expression: literal text is a sequence of
/// characters.
pub enum SpecExpr {
    Group(Box<SpecExpr>),
    Input,
    Literal(Seq<char>),
    Concat(Box<SpecExpr>, Box<SpecExpr>),
    Slice { expr: Box<SpecExpr>, lower: Option<Box<SpecExpr>>, upper: Option<Box<SpecExpr>> },
    Eval(Box<SpecExpr>),
}

impl Expr {
    /// The model of this expression.
    pub open spec fn model(self) -> SpecExpr
        decreases self,
    {
        match self {
            Expr::Group(e) => SpecExpr::Group(Box::new(e.model())),
            Expr::Input => SpecExpr::Input,
            Expr::Literal(s) => SpecExpr::Literal(s@),
            Expr::Concat(a, b) => SpecExpr::Concat(Box::new(a.model()), Box::new(b.model())),
            Expr::Slice { expr, lower, upper } => SpecExpr::Slice {
                expr: Box::new(expr.model()),
                lower: match lower {
                    Some(e) => Some(Box::new(e.model())),
                    None => None,
                },
                upper: match upper {
                    Some(e) => Some(Box::new(e.model())),
                    None => None,
                },
            },
            Expr::Eval(e) => SpecExpr::Eval(Box::new(e.model())),
        }
    }
}

/// The model of an optional slice bound.
pub open spec fn model_opt(b: Option<Box<Expr>>) -> Option<Box<SpecExpr>> {
    match b {
        Some(e) => Some(Box::new(e.model())),
        None => None,
    }
}

/// Whether the input-marker token appears anywhere in the parsed surface
/// syntax of `e`. This is purely structural: it cannot see through what a
/// self-evaluation operand computes at runtime.
pub open spec fn refs_input(e: SpecExpr) -> bool
    decreases e,
{
    match e {
        SpecExpr::Group(b) => refs_input(*b),
        SpecExpr::Input => true,
        SpecExpr::Literal(_) => false,
        SpecExpr::Concat(a, b) => refs_input(*a) || refs_input(*b),
        SpecExpr::Slice { expr, lower, upper } => refs_input(*expr) || (match lower {
            Some(e2) => refs_input(*e2),
            None => false,
        }) || (match upper {
            Some(e2) => refs_input(*e2),
            None => false,
        }),
        SpecExpr::Eval(b) => refs_input(*b),
    }
}

/// A parsed top-level expression: the tree, the number of tokens it spans,
/// and whether its surface syntax references the input.
#[derive(Debug, PartialEq, Eq)]
pub struct FullExpr {
    pub expr: Expr,
    pub token_count: usize,
    pub have_input: bool,
}

/// The model of a parsed top-level expression.
pub struct SpecFullExpr {
    pub expr: SpecExpr,
    pub token_count: nat,
    pub have_input: bool,
}

impl View for FullExpr {
    type V = SpecFullExpr;

    open spec fn view(&self) -> SpecFullExpr {
        SpecFullExpr {
            expr: self.expr.model(),
            token_count: self.token_count as nat,
            have_input: self.have_input,
        }
    }
}

/// Parsing one `primary` at position `pos`: the parsed expression and the
/// number of tokens consumed, or the syntax error.
pub open spec fn spec_primary(ts: Seq<SpecToken>, pos: nat) -> Result<(SpecExpr, nat), ParseError>
    decreases seq_rem(ts.len(), pos), 0int,
{
    if pos >= ts.len() {
        Err(ParseError::UnexpectedEnd { expected: Expected::Expression })
    } else {
        match ts[pos as int] {
            SpecToken::Input => Ok((SpecExpr::Input, 1)),
            SpecToken::Str(s) => Ok((SpecExpr::Literal(s), 1)),
            SpecToken::Dollar => match spec_expr(ts, (pos + 1) as nat) {
                Ok((e, n)) => Ok((SpecExpr::Eval(Box::new(e)), (n + 1) as nat)),
                Err(pe) => Err(pe),
            },
            SpecToken::OpenParen => match spec_expr(ts, (pos + 1) as nat) {
                Ok((e, n)) => {
                    if pos + 1 + n < ts.len() {
                        if ts[pos as int + 1 + n as int] is CloseParen {
                            Ok((SpecExpr::Group(Box::new(e)), (n + 2) as nat))
                        } else {
                            Err(ParseError::UnexpectedToken {
                                expected: Expected::CloseParen,
                                got: ts[pos as int + 1 + n as int].kind(),
                            })
                        }
                    } else {
                        Err(ParseError::UnexpectedEnd { expected: Expected::CloseParen })
                    }
                },
                Err(pe) => Err(pe),
            },
            t => Err(ParseError::UnexpectedToken {
                expected: Expected::Expression,
                got: t.kind(),
            }),
        }
    }
}

/// Parsing the chain of slice suffixes that follows an already parsed
/// expression `e` ending at position `cur`: the wrapped expression and the
/// number of additional tokens consumed, or the syntax error.
pub open spec fn spec_suffixes(ts: Seq<SpecToken>, cur: nat, e: SpecExpr) -> Result<
    (SpecExpr, nat),
    ParseError,
>
    decreases seq_rem(ts.len(), cur), 1int,
{
    if !(cur < ts.len() && ts[cur as int] is OpenBracket) {
        Ok((e, 0))
    } else if cur + 1 >= ts.len() {
        Err(ParseError::UnexpectedEnd { expected: Expected::Colon })
    } else {
        let lower_res: Result<(Option<Box<SpecExpr>>, nat), ParseError> = if ts[cur as int
            + 1] is Colon {
            Ok((None, 0))
        } else {
            match spec_expr(ts, (cur + 1) as nat) {
                Ok((le, ln)) => Ok((Some(Box::new(le)), ln)),
                Err(pe) => Err(pe),
            }
        };
        match lower_res {
            Err(pe) => Err(pe),
            Ok((lower, ln)) => {
                if cur + 1 + ln >= ts.len() {
                    Err(ParseError::UnexpectedEnd { expected: Expected::Colon })
                } else if !(ts[cur as int + 1 + ln as int] is Colon) {
                    Err(ParseError::UnexpectedToken {
                        expected: Expected::Colon,
                        got: ts[cur as int + 1 + ln as int].kind(),
                    })
                } else if cur + 2 + ln >= ts.len() {
                    Err(ParseError::UnexpectedEnd { expected: Expected::CloseBracket })
                } else {
                    let upper_res: Result<(Option<Box<SpecExpr>>, nat), ParseError> = if ts[cur
                        as int + 2 + ln as int] is CloseBracket {
                        Ok((None, 0))
                    } else {
                        match spec_expr(ts, (cur + 2 + ln) as nat) {
                            Ok((ue, un)) => Ok((Some(Box::new(ue)), un)),
                            Err(pe) => Err(pe),
                        }
                    };
                    match upper_res {
                        Err(pe) => Err(pe),
                        Ok((upper, un)) => {
                            if cur + 2 + ln + un >= ts.len() {
                                Err(ParseError::UnexpectedEnd {
                                    expected: Expected::CloseBracket,
                                })
                            } else if !(ts[cur as int + 2 + ln as int + un as int]
                                is CloseBracket) {
                                Err(ParseError::UnexpectedToken {
                                    expected: Expected::CloseBracket,
                                    got: ts[cur as int + 2 + ln as int + un as int].kind(),
                                })
                            } else {
                                let sliced = SpecExpr::Slice {
                                    expr: Box::new(e),
                                    lower,
                                    upper,
                                };
                                match spec_suffixes(ts, (cur + 3 + ln + un) as nat, sliced) {
                                    Ok((e3, n3)) => Ok((e3, (ln + un + 3 + n3) as nat)),
                                    Err(pe) => Err(pe),
                                }
                            }
                        },
                    }
                }
            },
        }
    }
}

/// Parsing one `postfixed` (a primary and its slice suffixes) at position
/// `pos`.
pub open spec fn spec_postfixed(ts: Seq<SpecToken>, pos: nat) -> Result<
    (SpecExpr, nat),
    ParseError,
>
    decreases seq_rem(ts.len(), pos), 2int,
{
    match spec_primary(ts, pos) {
        Ok((e, n)) => match spec_suffixes(ts, (pos + n) as nat, e) {
            Ok((e2, m)) => Ok((e2, (n + m) as nat)),
            Err(pe) => Err(pe),
        },
        Err(pe) => Err(pe),
    }
}

/// Parsing one `expr` at position `pos`: a postfixed expression, optionally
/// concatenated (right-folding) with the expression after a `+`.
pub open spec fn spec_expr(ts: Seq<SpecToken>, pos: nat) -> Result<(SpecExpr, nat), ParseError>
    decreases seq_rem(ts.len(), pos), 3int,
{
    match spec_postfixed(ts, pos) {
        Ok((e1, n1)) => {
            if pos + n1 < ts.len() && ts[pos as int + n1 as int] is Plus {
                match spec_expr(ts, (pos + n1 + 1) as nat) {
                    Ok((e2, n2)) => Ok((
                        SpecExpr::Concat(Box::new(e1), Box::new(e2)),
                        (n1 + 1 + n2) as nat,
                    )),
                    Err(pe) => Err(pe),
                }
            } else {
                Ok((e1, n1))
            }
        },
        Err(pe) => Err(pe),
    }
}

/// Parsing a whole source text: tokenize, reject an empty token sequence,
/// parse one expression from the start, and require that it consumed every
/// token.
pub open spec fn spec_parse(src: Seq<char>) -> Result<SpecFullExpr, ParseError> {
    match spec_lex(src) {
        Err(le) => Err(ParseError::Lex(le)),
        Ok(ts) => {
            if ts.len() == 0 {
                Err(ParseError::EmptySource)
            } else {
                match spec_expr(ts, 0) {
                    Ok((e, n)) => {
                        if n == ts.len() {
                            Ok(SpecFullExpr {
                                expr: e,
                                token_count: n,
                                have_input: refs_input(e),
                            })
                        } else {
                            Err(ParseError::TrailingTokens { token: ts[n as int].kind() })
                        }
                    },
                    Err(pe) => Err(pe),
                }
            }
        },
    }
}

/// Parses one `primary` starting at `pos`.
fn get_single_expr(tokens: &Vec<Token>, pos: usize) -> (r: Result<
    (Expr, usize, bool),
    ParseError,
>)
    requires
        pos <= tokens@.len(),
    ensures
        match r {
            Ok(p) => {
                &&& spec_primary(tokens.deep_view(), pos as nat) == Ok::<
                    (SpecExpr, nat),
                    ParseError,
                >((p.0.model(), p.1 as nat))
                &&& p.2 == refs_input(p.0.model())
                &&& pos + p.1 <= tokens@.len()
            },
            Err(pe) => spec_primary(tokens.deep_view(), pos as nat) == Err::<
                (SpecExpr, nat),
                ParseError,
            >(pe),
        },
    decreases seq_rem(tokens@.len(), pos as nat), 0int,
{
    proof {
        assert(tokens.deep_view().len() == tokens@.len());
    }
    if pos >= tokens.len() {
        return Err(ParseError::UnexpectedEnd { expected: Expected::Expression });
    }
    proof {
        assert(tokens.deep_view()[pos as int] == tokens@[pos as int].deep_view());
    }
    match &tokens[pos] {
        Token::Input => Ok((Expr::Input, 1, true)),
        Token::Str(s) => Ok((Expr::Literal(s.clone()), 1, false)),
        Token::Dollar => match get_expr(tokens, pos + 1) {
            Ok((e, n, h)) => Ok((Expr::Eval(Box::new(e)), n + 1, h)),
            Err(pe) => Err(pe),
        },
        Token::OpenParen => match get_expr(tokens, pos + 1) {
            Ok((e, n, h)) => {
                let close = pos + 1 + n;
                if close < tokens.len() {
                    proof {
                        assert(tokens.deep_view()[close as int] == tokens@[
                            close as int
                        ].deep_view());
                    }
                    match &tokens[close] {
                        Token::CloseParen => Ok((Expr::Group(Box::new(e)), n + 2, h)),
                        t => Err(ParseError::UnexpectedToken {
                            expected: Expected::CloseParen,
                            got: t.kind(),
                        }),
                    }
                } else {
                    Err(ParseError::UnexpectedEnd { expected: Expected::CloseParen })
                }
            },
            Err(pe) => Err(pe),
        },
        t => Err(ParseError::UnexpectedToken { expected: Expected::Expression, got: t.kind() }),
    }
}

/// Parses the chain of slice suffixes following the already parsed `e`,
/// which ends at position `cur`.
fn get_slice(tokens: &Vec<Token>, cur: usize, e: Expr, h: bool) -> (r: Result<
    (Expr, usize, bool),
    ParseError,
>)
    requires
        cur <= tokens@.len(),
        h == refs_input(e.model()),
    ensures
        match r {
            Ok(p) => {
                &&& spec_suffixes(tokens.deep_view(), cur as nat, e.model()) == Ok::<
                    (SpecExpr, nat),
                    ParseError,
                >((p.0.model(), p.1 as nat))
                &&& p.2 == refs_input(p.0.model())
                &&& cur + p.1 <= tokens@.len()
            },
            Err(pe) => spec_suffixes(tokens.deep_view(), cur as nat, e.model()) == Err::<
                (SpecExpr, nat),
                ParseError,
            >(pe),
        },
    decreases seq_rem(tokens@.len(), cur as nat), 1int,
{
    proof {
        assert(tokens.deep_view().len() == tokens@.len());
        if (cur as nat) < tokens@.len() {
            assert(tokens.deep_view()[cur as int] == tokens@[cur as int].deep_view());
        }
    }
    let is_open = cur < tokens.len() && matches!(&tokens[cur], Token::OpenBracket);
    if !is_open {
        return Ok((e, 0, h));
    }
    if cur + 1 >= tokens.len() {
        return Err(ParseError::UnexpectedEnd { expected: Expected::Colon });
    }
    proof {
        assert(tokens.deep_view()[cur as int + 1] == tokens@[cur as int + 1].deep_view());
    }
    let lower_res: Result<(Option<Box<Expr>>, usize, bool), ParseError> = if matches!(
        &tokens[cur + 1],
        Token::Colon,
    ) {
        Ok((None, 0, false))
    } else {
        match get_expr(tokens, cur + 1) {
            Ok((le, ln, lh)) => Ok((Some(Box::new(le)), ln, lh)),
            Err(pe) => Err(pe),
        }
    };
    match lower_res {
        Err(pe) => Err(pe),
        Ok((lower, ln, lh)) => {
            let colon_pos = cur + 1 + ln;
            if colon_pos >= tokens.len() {
                return Err(ParseError::UnexpectedEnd { expected: Expected::Colon });
            }
            proof {
                assert(tokens.deep_view()[colon_pos as int] == tokens@[
                    colon_pos as int
                ].deep_view());
            }
            if !matches!(&tokens[colon_pos], Token::Colon) {
                return Err(ParseError::UnexpectedToken {
                    expected: Expected::Colon,
                    got: tokens[colon_pos].kind(),
                });
            }
            let up_pos = colon_pos + 1;
            if up_pos >= tokens.len() {
                return Err(ParseError::UnexpectedEnd { expected: Expected::CloseBracket });
            }
            proof {
                assert(tokens.deep_view()[up_pos as int] == tokens@[up_pos as int].deep_view());
            }
            let upper_res: Result<(Option<Box<Expr>>, usize, bool), ParseError> = if matches!(
                &tokens[up_pos],
                Token::CloseBracket,
            ) {
                Ok((None, 0, false))
            } else {
                match get_expr(tokens, up_pos) {
                    Ok((ue, un, uh)) => Ok((Some(Box::new(ue)), un, uh)),
                    Err(pe) => Err(pe),
                }
            };
            match upper_res {
                Err(pe) => Err(pe),
                Ok((upper, un, uh)) => {
                    let close_pos = up_pos + un;
                    if close_pos >= tokens.len() {
                        return Err(ParseError::UnexpectedEnd {
                            expected: Expected::CloseBracket,
                        });
                    }
                    proof {
                        assert(tokens.deep_view()[close_pos as int] == tokens@[
                            close_pos as int
                        ].deep_view());
                    }
                    if !matches!(&tokens[close_pos], Token::CloseBracket) {
                        return Err(ParseError::UnexpectedToken {
                            expected: Expected::CloseBracket,
                            got: tokens[close_pos].kind(),
                        });
                    }
                    let new_h = h || lh || uh;
                    let sliced = Expr::Slice { expr: Box::new(e), lower, upper };
                    match get_slice(tokens, close_pos + 1, sliced, new_h) {
                        Ok((e3, n3, h3)) => Ok((e3, ln + un + 3 + n3, h3)),
                        Err(pe) => Err(pe),
                    }
                },
            }
        },
    }
}

/// Parses one `postfixed` starting at `pos`.
fn get_postfixed(tokens: &Vec<Token>, pos: usize) -> (r: Result<(Expr, usize, bool), ParseError>)
    requires
        pos <= tokens@.len(),
    ensures
        match r {
            Ok(p) => {
                &&& spec_postfixed(tokens.deep_view(), pos as nat) == Ok::<
                    (SpecExpr, nat),
                    ParseError,
                >((p.0.model(), p.1 as nat))
                &&& p.2 == refs_input(p.0.model())
                &&& pos + p.1 <= tokens@.len()
            },
            Err(pe) => spec_postfixed(tokens.deep_view(), pos as nat) == Err::<
                (SpecExpr, nat),
                ParseError,
            >(pe),
        },
    decreases seq_rem(tokens@.len(), pos as nat), 2int,
{
    let total = tokens.len();
    match get_single_expr(tokens, pos) {
        Ok((e, n, h)) => {
            proof {
                assert(pos + n <= total);
            }
            match get_slice(tokens, pos + n, e, h) {
                Ok((e2, m, h2)) => Ok((e2, n + m, h2)),
                Err(pe) => Err(pe),
            }
        },
        Err(pe) => Err(pe),
    }
}

/// Parses one `expr` starting at `pos`.
fn get_expr(tokens: &Vec<Token>, pos: usize) -> (r: Result<(Expr, usize, bool), ParseError>)
    requires
        pos <= tokens@.len(),
    ensures
        match r {
            Ok(p) => {
                &&& spec_expr(tokens.deep_view(), pos as nat) == Ok::<
                    (SpecExpr, nat),
                    ParseError,
                >((p.0.model(), p.1 as nat))
                &&& p.2 == refs_input(p.0.model())
                &&& pos + p.1 <= tokens@.len()
            },
            Err(pe) => spec_expr(tokens.deep_view(), pos as nat) == Err::<
                (SpecExpr, nat),
                ParseError,
            >(pe),
        },
    decreases seq_rem(tokens@.len(), pos as nat), 3int,
{
    let total = tokens.len();
    match get_postfixed(tokens, pos) {
        Ok((e1, n1, h1)) => {
            proof {
                assert(pos + n1 <= total);
            }
            let next = pos + n1;
            let has_plus = next < tokens.len() && matches!(&tokens[next], Token::Plus);
            proof {
                if (next as nat) < tokens@.len() {
                    assert(tokens.deep_view()[next as int] == tokens@[next as int].deep_view());
                }
            }
            if has_plus {
                match get_expr(tokens, next + 1) {
                    Ok((e2, n2, h2)) => Ok((
                        Expr::Concat(Box::new(e1), Box::new(e2)),
                        n1 + 1 + n2,
                        h1 || h2,
                    )),
                    Err(pe) => Err(pe),
                }
            } else {
                Ok((e1, n1, h1))
            }
        },
        Err(pe) => Err(pe),
    }
}

/// Parses a whole source text into a top-level expression; the exact result
/// is `spec_parse` of the text.
pub fn parse(src: &str) -> (r: Result<FullExpr, ParseError>)
    ensures
        match r {
            Ok(f) => spec_parse(src@) == Ok::<SpecFullExpr, ParseError>(f@),
            Err(pe) => spec_parse(src@) == Err::<SpecFullExpr, ParseError>(pe),
        },
{
    let tokens = match lex(src) {
        Ok(ts) => ts,
        Err(le) => {
            return Err(ParseError::Lex(le));
        },
    };
    if tokens.len() == 0 {
        return Err(ParseError::EmptySource);
    }
    match get_expr(&tokens, 0) {
        Ok((e, n, h)) => {
            if n == tokens.len() {
                Ok(FullExpr { expr: e, token_count: n, have_input: h })
            } else {
                proof {
                    assert(tokens.deep_view()[n as int] == tokens@[n as int].deep_view());
                }
                Err(ParseError::TrailingTokens { token: tokens[n].kind() })
            }
        },
        Err(pe) => Err(pe),
    }
}

} // verus!
