//! Laws relating the stages: rendering a literal, reading it back and
//! evaluating it returns exactly the value it denotes.
use crate::ast::{expr_text, SExpr};
use crate::env::SValue;
use crate::eval::{ev, EvOut};
use crate::numerals::{dec_digits, digits_val, is_digit_char, lemma_dec_digits};
use crate::parser::{
    digits_end, parse_model, skip_ws, starts_with, SParseError,
};
use vstd::prelude::*;

verus! {

/// The runtime value a literal form denotes.
pub open spec fn literal_value(lit: SExpr) -> SValue {
    match lit {
        SExpr::Integer32(n) => SValue::Integer32(n),
        SExpr::Integer64(n) => SValue::Integer64(n),
        SExpr::Float(s) => SValue::Float(s),
        SExpr::Bool(b) => SValue::Bool(b),
        SExpr::Str(s) => SValue::Str(s),
        _ => SValue::Bool(false),
    }
}

/// A run of digits reaching the end of the text is scanned to the end.
proof fn lemma_digits_end_full(s: Seq<char>, pos: int)
    requires
        0 <= pos <= s.len(),
        forall|j: int| pos <= j < s.len() ==> is_digit_char(s[j]),
    ensures
        digits_end(s, pos) == s.len(),
    decreases s.len() - pos,
{
    if pos < s.len() {
        lemma_digits_end_full(s, pos + 1);
    }
}

/// Round trip of integer and boolean literal forms: the canonical text of
/// the literal parses back to exactly that literal, and the literal
/// evaluates to the value it denotes, in any environment, printing nothing.
/// The 64-bit form round trips when its value lies beyond 32 bits, which is
/// the only way the reader produces it; a float or string literal keeps its
/// own written text, so its canonical form is the text itself.
pub proof fn lemma_literal_round_trip(lit: SExpr, env: Map<Seq<char>, SValue>, fuel: nat)
    requires
        lit is Integer32 || lit is Bool || (lit is Integer64 && (lit->Integer64_0 > i32::MAX
            || (lit->Integer64_0 as int) < i32::MIN)),
    ensures
        parse_model(expr_text(lit)) == Result::<SExpr, SParseError>::Ok(lit),
        ev(lit, env, fuel) == (EvOut::Done { v: literal_value(lit), env, out: Seq::empty() }),
{
    match lit {
        SExpr::Bool(b) => {
            let s = expr_text(lit);
            if b {
                assert(s =~= seq!['t', 'r', 'u', 'e']);
                assert(s.subrange(0, 4) =~= seq!['t', 'r', 'u', 'e']);
                assert(starts_with(s, 0, seq!['t', 'r', 'u', 'e']));
            } else {
                assert(s =~= seq!['f', 'a', 'l', 's', 'e']);
                assert(s.subrange(0, 5) =~= seq!['f', 'a', 'l', 's', 'e']);
                assert(!starts_with(s, 0, seq!['t', 'r', 'u', 'e'])) by {
                    if starts_with(s, 0, seq!['t', 'r', 'u', 'e']) {
                        assert(s.subrange(0, 4)[0] == 't');
                    }
                }
                assert(starts_with(s, 0, seq!['f', 'a', 'l', 's', 'e']));
            }
            assert(skip_ws(s, 0) == 0);
            assert(skip_ws(s, s.len() as int) == s.len());
        },
        SExpr::Integer32(n) => {
            lemma_int_literal_round_trip(lit, n as int);
        },
        SExpr::Integer64(n) => {
            lemma_int_literal_round_trip(lit, n as int);
        },
        _ => {},
    }
}

/// The shared integer walk: the decimal text of the literal's value parses
/// back to the literal, width-promoted exactly as written.
proof fn lemma_int_literal_round_trip(lit: SExpr, v: int)
    requires
        lit matches SExpr::Integer32(n) && n as int == v && -0x8000_0000 <= v <= 0x7fff_ffff
            || (lit matches SExpr::Integer64(n) && n as int == v && (v > 0x7fff_ffff
            || v < -0x8000_0000) && -0x8000_0000_0000_0000 <= v <= 0x7fff_ffff_ffff_ffff),
    ensures
        parse_model(expr_text(lit)) == Result::<SExpr, SParseError>::Ok(lit),
{
    let s = expr_text(lit);
    let mag: nat = if v < 0 {
        (-v) as nat
    } else {
        v as nat
    };
    lemma_dec_digits(mag);
    let neg = v < 0;
    let p1: int = if neg {
        1
    } else {
        0
    };
    if neg {
        assert(s =~= seq!['-'].add(dec_digits(mag)));
        assert(s.subrange(1, s.len() as int) =~= dec_digits(mag));
        assert(s[0] == '-');
    } else {
        assert(s == dec_digits(mag));
        assert(is_digit_char(s[0]));
    }
    assert(forall|j: int| p1 <= j < s.len() ==> is_digit_char(#[trigger] s[j])) by {
        if neg {
            assert(forall|j: int|
                1 <= j < s.len() ==> s[j] == dec_digits(mag)[j - 1] && is_digit_char(
                    #[trigger] s[j],
                ));
        }
    }
    lemma_digits_end_full(s, p1);
    assert(s.subrange(p1, s.len() as int) =~= (if neg {
        s.subrange(1, s.len() as int)
    } else {
        s
    }));
    assert(digits_val(s.subrange(p1, s.len() as int)) == mag);
    // the leading character is no whitespace, no parenthesis, no keyword head
    assert(skip_ws(s, 0) == 0);
    assert(s[0] != '(');
    assert(!starts_with(s, 0, seq!['t', 'r', 'u', 'e'])) by {
        if starts_with(s, 0, seq!['t', 'r', 'u', 'e']) {
            assert(s.subrange(0, 4)[0] == 't');
        }
    }
    assert(!starts_with(s, 0, seq!['f', 'a', 'l', 's', 'e'])) by {
        if starts_with(s, 0, seq!['f', 'a', 'l', 's', 'e']) {
            assert(s.subrange(0, 5)[0] == 'f');
        }
    }
    // the digit run reaches the end, so no fractional point follows
    assert(skip_ws(s, s.len() as int) == s.len());
}

/// A call with the wrong argument count fails before any argument is
/// evaluated: the outcome carries the arity error and exactly the text the
/// callee's own evaluation printed, so no argument's side effect, such as a
/// print, is observed.
pub proof fn lemma_arity_precedes_argument_effects(e: SExpr, env: Map<Seq<char>, SValue>, fuel: nat)
    requires
        e is Call,
        ev(*e->Call_func, env, fuel) matches EvOut::Done { v: fv, .. } && ((fv
            matches SValue::Closure { params, .. } && params.len() != e->Call_args.len()) || (fv
            matches SValue::Builtin { arity, .. } && e->Call_args.len() != arity)),
    ensures
        ev(e, env, fuel) matches EvOut::Failed { e: err, env: env1, out } && out == ev(
            *e->Call_func,
            env,
            fuel,
        )->Done_out && env1 == ev(*e->Call_func, env, fuel)->Done_env && (err is UserArity
            || err is BuiltinArity),
{
}

} // verus!
