//! The evaluator: interprets an abstract syntax tree against a
//! caller-supplied input string, producing an output string or a failure.
//!
//! Literal text has its backslash escapes removed here (never earlier).
//! Slice bounds are sub-expressions evaluated to strings and parsed as
//! non-negative base-10 integers. The self-evaluation operator re-enters the
//! whole pipeline on a string computed at runtime; since such programs can
//! regenerate themselves forever, evaluation carries an explicit
//! recursion-depth ceiling and reports exceeding it as an error instead of
//! exhausting the stack.

use vstd::prelude::*;
use vstd::string::{StrSliceExecFns, StringExecFns};
use crate::errors::EvalError;
use crate::parser::{Expr, SpecExpr, model_opt, parse, spec_parse};
use crate::text::str_to_chars;

verus! {

/// The ceiling on nested self-evaluation used by `eval_expr` and `eval`.
pub const DEFAULT_EVAL_DEPTH: u64 = 64;

/// The literal text `s` with its backslash escapes removed: a backslash
/// makes the following character literal and is itself dropped; a trailing
/// backslash with nothing after it is dropped.
pub open spec fn spec_unescape(s: Seq<char>) -> Seq<char>
    decreases s.len(),
{
    if s.len() == 0 {
        Seq::empty()
    } else if s[0] == '\\' {
        if s.len() == 1 {
            Seq::empty()
        } else {
            seq![s[1]] + spec_unescape(s.skip(2))
        }
    } else {
        seq![s[0]] + spec_unescape(s.skip(1))
    }
}

/// Whether `c` is a decimal digit.
pub open spec fn is_digit(c: char) -> bool {
    48 <= c as u32 <= 57
}

/// The numeric value of the digit `c`.
pub open spec fn digit_val(c: char) -> int {
    c as u32 - 48
}

/// The value of the digits of `s` from position `i` on, folded onto the
/// accumulator `acc` left to right.
pub open spec fn digits_val(s: Seq<char>, i: nat, acc: int) -> int
    decreases s.len() - i when i <= s.len()
{
    if i >= s.len() {
        acc
    } else {
        digits_val(s, (i + 1) as nat, acc * 10 + digit_val(s[i as int]))
    }
}

/// Whether every character of `s` is a decimal digit.
pub open spec fn all_digits(s: Seq<char>) -> bool {
    forall|i: int| 0 <= i < s.len() ==> is_digit(s[i])
}

/// The non-negative base-10 integer denoted by `s`, when `s` is non-empty,
/// all digits, and the value fits the machine's word size; `None` otherwise.
pub open spec fn spec_parse_usize(s: Seq<char>) -> Option<nat> {
    if s.len() > 0 && all_digits(s) && digits_val(s, 0, 0) <= usize::MAX {
        Some(digits_val(s, 0, 0) as nat)
    } else {
        None
    }
}

/// The height of an expression tree; a termination measure for evaluation.
pub open spec fn sheight(e: SpecExpr) -> nat
    decreases e,
{
    match e {
        SpecExpr::Group(b) => sheight(*b) + 1,
        SpecExpr::Input => 0,
        SpecExpr::Literal(_) => 0,
        SpecExpr::Concat(a, b) => {
            let ha = sheight(*a);
            let hb = sheight(*b);
            1 + if ha >= hb {
                ha
            } else {
                hb
            }
        },
        SpecExpr::Slice { expr, lower, upper } => {
            let hb = sheight(*expr);
            let hl = match lower {
                Some(x) => sheight(*x) + 1,
                None => 0,
            };
            let hu = match upper {
                Some(x) => sheight(*x) + 1,
                None => 0,
            };
            let m1 = if hb >= hl {
                hb
            } else {
                hl
            };
            1 + if m1 >= hu {
                m1
            } else {
                hu
            }
        },
        SpecExpr::Eval(b) => sheight(*b) + 1,
    }
}

/// The height of an optional slice bound, one above its expression's.
pub open spec fn sbound_height(b: Option<Box<SpecExpr>>) -> nat {
    match b {
        Some(x) => sheight(*x) + 1,
        None => 0,
    }
}

/// The height of an executable expression tree.
pub open spec fn eheight(e: Expr) -> nat
    decreases e,
{
    match e {
        Expr::Group(b) => eheight(*b) + 1,
        Expr::Input => 0,
        Expr::Literal(_) => 0,
        Expr::Concat(a, b) => {
            let ha = eheight(*a);
            let hb = eheight(*b);
            1 + if ha >= hb {
                ha
            } else {
                hb
            }
        },
        Expr::Slice { expr, lower, upper } => {
            let hb = eheight(*expr);
            let hl = match lower {
                Some(x) => eheight(*x) + 1,
                None => 0,
            };
            let hu = match upper {
                Some(x) => eheight(*x) + 1,
                None => 0,
            };
            let m1 = if hb >= hl {
                hb
            } else {
                hl
            };
            1 + if m1 >= hu {
                m1
            } else {
                hu
            }
        },
        Expr::Eval(b) => eheight(*b) + 1,
    }
}

/// The height of an executable optional slice bound.
pub open spec fn ebound_height(b: Option<Box<Expr>>) -> nat {
    match b {
        Some(x) => eheight(*x) + 1,
        None => 0,
    }
}

/// Evaluating `e` against `input` with `fuel` nested self-evaluations left:
/// the output string or the failure.
pub open spec fn spec_eval(e: SpecExpr, input: Seq<char>, fuel: nat) -> Result<
    Seq<char>,
    EvalError,
>
    decreases fuel, 0int, sheight(e), 1int,
{
    match e {
        SpecExpr::Group(b) => spec_eval(*b, input, fuel),
        SpecExpr::Input => Ok(input),
        SpecExpr::Literal(s) => Ok(spec_unescape(s)),
        SpecExpr::Concat(a, b) => match spec_eval(*a, input, fuel) {
            Ok(x) => match spec_eval(*b, input, fuel) {
                Ok(y) => Ok(x + y),
                Err(e2) => Err(e2),
            },
            Err(e1) => Err(e1),
        },
        SpecExpr::Slice { expr, lower, upper } => match spec_eval(*expr, input, fuel) {
            Ok(s) => match spec_bound(lower, input, fuel, 0) {
                Ok(lo) => match spec_bound(upper, input, fuel, s.len()) {
                    Ok(up) => {
                        if lo > up || up > s.len() {
                            Err(EvalError::OutOfBounds)
                        } else {
                            Ok(s.subrange(lo as int, up as int))
                        }
                    },
                    Err(e2) => Err(e2),
                },
                Err(e1) => Err(e1),
            },
            Err(e0) => Err(e0),
        },
        SpecExpr::Eval(b) => match spec_eval(*b, input, fuel) {
            Ok(code) => {
                if fuel == 0 {
                    Err(EvalError::RecursionLimitExceeded)
                } else {
                    spec_run(code, input, (fuel - 1) as nat)
                }
            },
            Err(e1) => Err(e1),
        },
    }
}

/// Evaluating an optional slice bound: the bound's expression evaluated and
/// parsed as a non-negative integer, or `default` when the bound is absent.
pub open spec fn spec_bound(
    b: Option<Box<SpecExpr>>,
    input: Seq<char>,
    fuel: nat,
    default: nat,
) -> Result<nat, EvalError>
    decreases fuel, 0int, sbound_height(b), 0int,
{
    match b {
        None => Ok(default),
        Some(e) => match spec_eval(*e, input, fuel) {
            Ok(w) => match spec_parse_usize(w) {
                Some(v) => Ok(v),
                None => Err(EvalError::InvalidNumber),
            },
            Err(err) => Err(err),
        },
    }
}

/// Running a whole source text against `input`: parse, then evaluate; a
/// parse failure of the (possibly runtime-computed) source is carried in the
/// evaluation error.
pub open spec fn spec_run(src: Seq<char>, input: Seq<char>, fuel: nat) -> Result<
    Seq<char>,
    EvalError,
>
    decreases fuel, 1int, 0int, 0int,
{
    match spec_parse(src) {
        Ok(f) => spec_eval(f.expr, input, fuel),
        Err(pe) => Err(EvalError::Parse(pe)),
    }
}

/// Removes backslash escapes from literal text; the exact result is
/// `spec_unescape` of the text.
fn unescape(src: &str) -> (r: String)
    ensures
        r@ == spec_unescape(src@),
{
    let chars = str_to_chars(src);
    let mut out = String::new();
    let mut i: usize = 0;
    proof {
        assert(src@.skip(0) =~= src@);
        assert(Seq::<char>::empty() + spec_unescape(src@) =~= spec_unescape(src@));
    }
    while i < chars.len()
        invariant
            chars@ == src@,
            i <= chars@.len(),
            out@ + spec_unescape(src@.skip(i as int)) == spec_unescape(src@),
        decreases chars@.len() - i,
    {
        let ghost i0 = i as int;
        let ghost out0 = out@;
        let c = chars[i];
        if c == '\\' {
            if i + 1 < chars.len() {
                out.append(src.substring_char(i + 1, i + 2));
                i = i + 2;
                proof {
                    assert(src@.subrange(i0 + 1, i0 + 2) =~= seq![src@[i0 + 1]]);
                    assert(src@.skip(i0).skip(2) =~= src@.skip(i0 + 2));
                    assert(out0 + (seq![src@[i0 + 1]] + spec_unescape(src@.skip(i0 + 2))) =~= (out0
                        + seq![src@[i0 + 1]]) + spec_unescape(src@.skip(i0 + 2)));
                }
            } else {
                i = i + 1;
                proof {
                    assert(spec_unescape(src@.skip(i0)) =~= Seq::<char>::empty());
                    assert(out0 + Seq::<char>::empty() =~= out0);
                    assert(src@.skip(i as int).len() == 0);
                }
            }
        } else {
            out.append(src.substring_char(i, i + 1));
            i = i + 1;
            proof {
                assert(src@.subrange(i0, i0 + 1) =~= seq![src@[i0]]);
                assert(src@.skip(i0).skip(1) =~= src@.skip(i0 + 1));
                assert(out0 + (seq![src@[i0]] + spec_unescape(src@.skip(i0 + 1))) =~= (out0
                    + seq![src@[i0]]) + spec_unescape(src@.skip(i0 + 1)));
            }
        }
    }
    proof {
        assert(src@.skip(i as int).len() == 0);
        assert(out@ + spec_unescape(src@.skip(i as int)) =~= out@);
    }
    out
}

/// The folded digit value only grows as more digits are taken in.
proof fn lemma_digits_val_lb(s: Seq<char>, i: nat, acc: int)
    requires
        i <= s.len(),
        forall|j: int| i <= j < s.len() ==> is_digit(s[j]),
        acc >= 0,
    ensures
        digits_val(s, i, acc) >= acc,
    decreases s.len() - i,
{
    if i < s.len() {
        lemma_digits_val_lb(s, (i + 1) as nat, acc * 10 + digit_val(s[i as int]));
    }
}

/// Parses text as a non-negative base-10 integer; the exact result is
/// `spec_parse_usize` of the text, with any failure reported as
/// `InvalidNumber`.
fn parse_number(src: &str) -> (r: Result<usize, EvalError>)
    ensures
        match r {
            Ok(v) => spec_parse_usize(src@) == Some(v as nat),
            Err(e) => spec_parse_usize(src@) is None && e == EvalError::InvalidNumber,
        },
{
    let chars = str_to_chars(src);
    if chars.len() == 0 {
        return Err(EvalError::InvalidNumber);
    }
    let mut acc: usize = 0;
    let mut i: usize = 0;
    while i < chars.len()
        invariant
            chars@ == src@,
            i <= chars@.len(),
            forall|j: int| 0 <= j < i ==> is_digit(src@[j]),
            digits_val(src@, i as nat, acc as int) == digits_val(src@, 0, 0),
        decreases chars@.len() - i,
    {
        let c = chars[i];
        let d = c as u32;
        if d < 48 || d > 57 {
            proof {
                assert(!is_digit(src@[i as int]));
            }
            return Err(EvalError::InvalidNumber);
        }
        let dv = (d - 48) as usize;
        let overflowed: bool;
        match acc.checked_mul(10) {
            Some(m) => match m.checked_add(dv) {
                Some(a2) => {
                    acc = a2;
                    i = i + 1;
                    overflowed = false;
                },
                None => {
                    overflowed = true;
                },
            },
            None => {
                overflowed = true;
            },
        }
        if overflowed {
            proof {
                if all_digits(src@) {
                    lemma_digits_val_lb(
                        src@,
                        (i + 1) as nat,
                        acc as int * 10 + digit_val(src@[i as int]),
                    );
                }
            }
            return Err(EvalError::InvalidNumber);
        }
    }
    Ok(acc)
}

/// Evaluates `e` against `input` with at most `limit` nested
/// self-evaluations; the exact result is `spec_eval` at that fuel.
pub fn eval_expr_with_limit(e: &Expr, input: &str, limit: u64) -> (r: Result<String, EvalError>)
    ensures
        match r {
            Ok(s) => spec_eval(e.model(), input@, limit as nat) == Ok::<Seq<char>, EvalError>(s@),
            Err(err) => spec_eval(e.model(), input@, limit as nat) == Err::<Seq<char>, EvalError>(
                err,
            ),
        },
    decreases limit as nat, 0int, eheight(*e), 1int,
{
    match e {
        Expr::Group(b) => eval_expr_with_limit(&**b, input, limit),
        Expr::Input => Ok(input.to_owned()),
        Expr::Literal(content) => Ok(unescape(content.as_str())),
        Expr::Concat(a, b) => match eval_expr_with_limit(&**a, input, limit) {
            Ok(x) => match eval_expr_with_limit(&**b, input, limit) {
                Ok(y) => Ok(x.concat(y.as_str())),
                Err(e2) => Err(e2),
            },
            Err(e1) => Err(e1),
        },
        Expr::Slice { expr: base, lower, upper } => match eval_expr_with_limit(
            &**base,
            input,
            limit,
        ) {
            Ok(s) => {
                let slen = s.as_str().unicode_len();
                match eval_bound(lower, input, limit, 0) {
                    Ok(lo) => match eval_bound(upper, input, limit, slen) {
                        Ok(up) => {
                            if lo > up || up > slen {
                                Err(EvalError::OutOfBounds)
                            } else {
                                Ok(s.as_str().substring_char(lo, up).to_owned())
                            }
                        },
                        Err(e2) => Err(e2),
                    },
                    Err(e1) => Err(e1),
                }
            },
            Err(e0) => Err(e0),
        },
        Expr::Eval(b) => match eval_expr_with_limit(&**b, input, limit) {
            Ok(code) => {
                if limit == 0 {
                    Err(EvalError::RecursionLimitExceeded)
                } else {
                    eval_with_limit(code.as_str(), input, limit - 1)
                }
            },
            Err(e1) => Err(e1),
        },
    }
}

/// Evaluates an optional slice bound to a number, or to `default` when
/// absent; the exact result is `spec_bound` at that fuel.
fn eval_bound(b: &Option<Box<Expr>>, input: &str, limit: u64, default: usize) -> (r: Result<
    usize,
    EvalError,
>)
    ensures
        match r {
            Ok(v) => spec_bound(model_opt(*b), input@, limit as nat, default as nat) == Ok::<
                nat,
                EvalError,
            >(v as nat),
            Err(err) => spec_bound(model_opt(*b), input@, limit as nat, default as nat) == Err::<
                nat,
                EvalError,
            >(err),
        },
    decreases limit as nat, 0int, ebound_height(*b), 0int,
{
    match b {
        None => Ok(default),
        Some(e) => match eval_expr_with_limit(&**e, input, limit) {
            Ok(w) => parse_number(w.as_str()),
            Err(err) => Err(err),
        },
    }
}

/// Parses and evaluates a whole source text against `input` with at most
/// `limit` nested self-evaluations; the exact result is `spec_run` at that
/// fuel.
pub fn eval_with_limit(src: &str, input: &str, limit: u64) -> (r: Result<String, EvalError>)
    ensures
        match r {
            Ok(s) => spec_run(src@, input@, limit as nat) == Ok::<Seq<char>, EvalError>(s@),
            Err(err) => spec_run(src@, input@, limit as nat) == Err::<Seq<char>, EvalError>(err),
        },
    decreases limit as nat, 1int, 0int, 0int,
{
    match parse(src) {
        Ok(f) => eval_expr_with_limit(&f.expr, input, limit),
        Err(pe) => Err(EvalError::Parse(pe)),
    }
}

/// Evaluates an expression against `input` with the default self-evaluation
/// ceiling.
pub fn eval_expr(expr: &Expr, input: &str) -> (r: Result<String, EvalError>)
    ensures
        match r {
            Ok(s) => spec_eval(expr.model(), input@, DEFAULT_EVAL_DEPTH as nat) == Ok::<
                Seq<char>,
                EvalError,
            >(s@),
            Err(err) => spec_eval(expr.model(), input@, DEFAULT_EVAL_DEPTH as nat) == Err::<
                Seq<char>,
                EvalError,
            >(err),
        },
{
    eval_expr_with_limit(expr, input, DEFAULT_EVAL_DEPTH)
}

/// Parses and evaluates a whole source text against `input` with the
/// default self-evaluation ceiling.
pub fn eval(src: &str, input: &str) -> (r: Result<String, EvalError>)
    ensures
        match r {
            Ok(s) => spec_run(src@, input@, DEFAULT_EVAL_DEPTH as nat) == Ok::<
                Seq<char>,
                EvalError,
            >(s@),
            Err(err) => spec_run(src@, input@, DEFAULT_EVAL_DEPTH as nat) == Err::<
                Seq<char>,
                EvalError,
            >(err),
        },
{
    eval_with_limit(src, input, DEFAULT_EVAL_DEPTH)
}

} // verus!
