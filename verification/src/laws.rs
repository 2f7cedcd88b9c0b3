//! General laws of the language, stated over the same models that the
//! executable functions are proved against.

use vstd::prelude::*;
use crate::errors::EvalError;
use crate::eval::{spec_bound, spec_eval, spec_run, spec_unescape};
use crate::parser::{SpecExpr, SpecFullExpr, refs_input, spec_parse};

verus! {

/// Unescaping is idempotent on already-unescaped text: text that holds no
/// backslash comes through unchanged.
pub proof fn lemma_unescape_no_backslash(s: Seq<char>)
    requires
        forall|i: int| 0 <= i < s.len() ==> s[i] != '\\',
    ensures
        spec_unescape(s) == s,
    decreases s.len(),
{
    if s.len() > 0 {
        lemma_unescape_no_backslash(s.skip(1));
        assert(seq![s[0]] + s.skip(1) =~= s);
    }
}

/// A literal holding no backslash evaluates to exactly its own text, for
/// every input and every fuel.
pub proof fn lemma_literal_evaluates_to_itself(l: Seq<char>, input: Seq<char>, fuel: nat)
    requires
        forall|i: int| 0 <= i < l.len() ==> l[i] != '\\',
    ensures
        spec_eval(SpecExpr::Literal(l), input, fuel) == Ok::<Seq<char>, EvalError>(l),
{
    lemma_unescape_no_backslash(l);
}

/// Text with a backslash put before every backslash and double quote; the
/// form in which arbitrary text can be embedded in a string literal.
pub open spec fn spec_escape(s: Seq<char>) -> Seq<char>
    decreases s.len(),
{
    if s.len() == 0 {
        Seq::empty()
    } else if s[0] == '\\' || s[0] == '"' {
        seq!['\\', s[0]] + spec_escape(s.skip(1))
    } else {
        seq![s[0]] + spec_escape(s.skip(1))
    }
}

/// Escaping text and unescaping the result returns the original text: the
/// two transformations form a round trip.
pub proof fn lemma_escape_round_trip(s: Seq<char>)
    ensures
        spec_unescape(spec_escape(s)) == s,
    decreases s.len(),
{
    if s.len() == 0 {
    } else {
        lemma_escape_round_trip(s.skip(1));
        let e1 = spec_escape(s.skip(1));
        if s[0] == '\\' || s[0] == '"' {
            let t = seq!['\\', s[0]] + e1;
            assert(t[0] == '\\');
            assert(t[1] == s[0]);
            assert(t.skip(2) =~= e1);
            assert(seq![s[0]] + s.skip(1) =~= s);
        } else {
            let t = seq![s[0]] + e1;
            assert(t[0] == s[0]);
            assert(t.skip(1) =~= e1);
            assert(seq![s[0]] + s.skip(1) =~= s);
        }
    }
}

/// Evaluating a concatenation yields the concatenation of what the two
/// operands evaluate to, for every pair of operands, every input and every
/// fuel on which both operands succeed.
pub proof fn lemma_concat_splits(
    a: SpecExpr,
    b: SpecExpr,
    input: Seq<char>,
    fuel: nat,
    x: Seq<char>,
    y: Seq<char>,
)
    requires
        spec_eval(a, input, fuel) == Ok::<Seq<char>, EvalError>(x),
        spec_eval(b, input, fuel) == Ok::<Seq<char>, EvalError>(y),
    ensures
        spec_eval(SpecExpr::Concat(Box::new(a), Box::new(b)), input, fuel) == Ok::<
            Seq<char>,
            EvalError,
        >(x + y),
{
}

/// A slice with both bounds absent spans the full default range, so it
/// evaluates exactly as its base expression does.
pub proof fn lemma_slice_full_range(e: SpecExpr, input: Seq<char>, fuel: nat)
    ensures
        spec_eval(
            SpecExpr::Slice { expr: Box::new(e), lower: None, upper: None },
            input,
            fuel,
        ) == spec_eval(e, input, fuel),
{
    let slice = SpecExpr::Slice { expr: Box::new(e), lower: None, upper: None };
    assert(spec_bound(None, input, fuel, 0) == Ok::<nat, EvalError>(0nat));
    match spec_eval(e, input, fuel) {
        Ok(s) => {
            assert(spec_bound(None, input, fuel, s.len()) == Ok::<nat, EvalError>(s.len()));
            assert(spec_eval(slice, input, fuel) == Ok::<Seq<char>, EvalError>(
                s.subrange(0, s.len() as int),
            ));
            assert(s.subrange(0, s.len() as int) =~= s);
        },
        Err(err) => {
            assert(spec_eval(slice, input, fuel) == Err::<Seq<char>, EvalError>(err));
        },
    }
}

/// When the base evaluates to a string of length `n` and the bounds evaluate
/// to numbers with `upper > n` or `lower > upper`, slicing fails with
/// `OutOfBounds` — never with a truncated result.
pub proof fn lemma_slice_out_of_bounds(
    e: SpecExpr,
    lower: Option<Box<SpecExpr>>,
    upper: Option<Box<SpecExpr>>,
    input: Seq<char>,
    fuel: nat,
    s: Seq<char>,
    lo: nat,
    up: nat,
)
    requires
        spec_eval(e, input, fuel) == Ok::<Seq<char>, EvalError>(s),
        spec_bound(lower, input, fuel, 0) == Ok::<nat, EvalError>(lo),
        spec_bound(upper, input, fuel, s.len()) == Ok::<nat, EvalError>(up),
        lo > up || up > s.len(),
    ensures
        spec_eval(SpecExpr::Slice { expr: Box::new(e), lower, upper }, input, fuel) == Err::<
            Seq<char>,
            EvalError,
        >(EvalError::OutOfBounds),
{
}

/// Running source text is exactly parsing it and evaluating the parsed
/// expression: on every source that parses, the two agree for every input
/// and every fuel.
pub proof fn lemma_run_is_parse_then_eval(
    src: Seq<char>,
    input: Seq<char>,
    fuel: nat,
    f: SpecFullExpr,
)
    requires
        spec_parse(src) == Ok::<SpecFullExpr, crate::errors::ParseError>(f),
    ensures
        spec_run(src, input, fuel) == spec_eval(f.expr, input, fuel),
{
}

/// The parser's `have_input` flag reports exactly whether the input marker
/// appears in the parsed surface syntax.
pub proof fn lemma_parse_reports_input_references(src: Seq<char>, f: SpecFullExpr)
    requires
        spec_parse(src) == Ok::<SpecFullExpr, crate::errors::ParseError>(f),
    ensures
        f.have_input == refs_input(f.expr),
{
}

} // verus!
