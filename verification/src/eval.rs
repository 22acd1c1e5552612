//! The tree-walking evaluator, with a mathematical mirror (`ev`) that states
//! exactly what each step returns, how the environment changes and what text
//! is printed.  Float arithmetic alone comes from a host-supplied operation,
//! so the mirror abstains from a verdict on it.
use crate::ast::{expr_view, rc_dup, rc_view, sbindings, sexprs, sopt_expr, sopt_type, sopt_view, Expr, SExpr};
use crate::env::snames;
use crate::chars::str_eq;
use crate::env::{env_view, tag_text, value_text, value_view, Environment, SValue, Value};
use crate::floats::{float_text_is_zero, float_text_zero};
use vstd::prelude::*;

verus! {

use std::rc::Rc;

/// A runtime error, tagged by kind.
#[derive(Debug, PartialEq)]
pub enum EvalError {
    Undefined { name: String },
    CondNotBool,
    UserArity { expected: usize, got: usize },
    BuiltinArity { name: String, expected: usize, got: usize },
    IntOperands { op: String },
    FloatOperands { op: String },
    BoolOperands { op: String },
    NotOperand,
    DivisionByZero,
    NotAFunction { value: Value },
    UnknownBuiltin { name: String },
    EmptyList,
    IfArity,
    LetTooFew,
    LetInvalid,
    LetNameNotSymbol,
    Exhausted,
}

/// Mathematical model of an `EvalError`.
pub enum SEvalError {
    Undefined { name: Seq<char> },
    CondNotBool,
    UserArity { expected: nat, got: nat },
    BuiltinArity { name: Seq<char>, expected: nat, got: nat },
    IntOperands { op: Seq<char> },
    FloatOperands { op: Seq<char> },
    BoolOperands { op: Seq<char> },
    NotOperand,
    DivisionByZero,
    NotAFunction { value: SValue },
    UnknownBuiltin { name: Seq<char> },
    EmptyList,
    IfArity,
    LetTooFew,
    LetInvalid,
    LetNameNotSymbol,
    Exhausted,
}

pub open spec fn everr_view(e: EvalError) -> SEvalError {
    match e {
        EvalError::Undefined { name } => SEvalError::Undefined { name: name@ },
        EvalError::CondNotBool => SEvalError::CondNotBool,
        EvalError::UserArity { expected, got } => SEvalError::UserArity {
            expected: expected as nat,
            got: got as nat,
        },
        EvalError::BuiltinArity { name, expected, got } => SEvalError::BuiltinArity {
            name: name@,
            expected: expected as nat,
            got: got as nat,
        },
        EvalError::IntOperands { op } => SEvalError::IntOperands { op: op@ },
        EvalError::FloatOperands { op } => SEvalError::FloatOperands { op: op@ },
        EvalError::BoolOperands { op } => SEvalError::BoolOperands { op: op@ },
        EvalError::NotOperand => SEvalError::NotOperand,
        EvalError::DivisionByZero => SEvalError::DivisionByZero,
        EvalError::NotAFunction { value } => SEvalError::NotAFunction { value: value_view(value) },
        EvalError::UnknownBuiltin { name } => SEvalError::UnknownBuiltin { name: name@ },
        EvalError::EmptyList => SEvalError::EmptyList,
        EvalError::IfArity => SEvalError::IfArity,
        EvalError::LetTooFew => SEvalError::LetTooFew,
        EvalError::LetInvalid => SEvalError::LetInvalid,
        EvalError::LetNameNotSymbol => SEvalError::LetNameNotSymbol,
        EvalError::Exhausted => SEvalError::Exhausted,
    }
}

/// Outcome of evaluating one expression: the value, the environment left
/// behind and the text printed; or the first error; or no verdict, because
/// the host's float arithmetic took part.
pub enum EvOut {
    Done { v: SValue, env: Map<Seq<char>, SValue>, out: Seq<char> },
    Failed { e: SEvalError, env: Map<Seq<char>, SValue>, out: Seq<char> },
    Undetermined,
}

/// Outcome of evaluating an argument list left to right.
pub enum ArgsOut {
    Vals { vs: Seq<SValue>, env: Map<Seq<char>, SValue>, out: Seq<char> },
    Failed { e: SEvalError, env: Map<Seq<char>, SValue>, out: Seq<char> },
    Undetermined,
}

/// Outcome of one built-in operation.
pub enum SCallOut {
    Val { v: SValue, out: Seq<char> },
    Fail { e: SEvalError },
    Undetermined,
}

/// The models of a vector of runtime values, elementwise.
pub open spec fn svals(vs: Seq<Value>) -> Seq<SValue> {
    Seq::new(
        vs.len(),
        |i: int|
            if 0 <= i < vs.len() {
                value_view(vs[i])
            } else {
                SValue::Bool(false)
            },
    )
}

/// The names of a parameter list.
pub open spec fn param_names(ps: Seq<(Seq<char>, crate::ast::SType)>) -> Seq<Seq<char>> {
    Seq::new(
        ps.len(),
        |i: int|
            if 0 <= i < ps.len() {
                ps[i].0
            } else {
                Seq::empty()
            },
    )
}

/// A scope extended with parameter-to-argument bindings, in order.
pub open spec fn env_with_args(
    base: Map<Seq<char>, SValue>,
    names: Seq<Seq<char>>,
    vals: Seq<SValue>,
) -> Map<Seq<char>, SValue>
    decreases names,
{
    if names.len() == 0 || vals.len() == 0 {
        base
    } else {
        env_with_args(base, names.drop_last(), vals.drop_last()).insert(
            names.last(),
            vals.last(),
        )
    }
}

/// Prepend already-printed text to an outcome.
pub open spec fn with_out(r: EvOut, pre: Seq<char>) -> EvOut {
    match r {
        EvOut::Done { v, env, out } => EvOut::Done { v, env, out: pre.add(out) },
        EvOut::Failed { e, env, out } => EvOut::Failed { e, env, out: pre.add(out) },
        EvOut::Undetermined => EvOut::Undetermined,
    }
}

/// Prepend already-collected values and text to an argument outcome.
pub open spec fn args_glue(pre_vs: Seq<SValue>, pre_out: Seq<char>, r: ArgsOut) -> ArgsOut {
    match r {
        ArgsOut::Vals { vs, env, out } => ArgsOut::Vals {
            vs: pre_vs.add(vs),
            env,
            out: pre_out.add(out),
        },
        ArgsOut::Failed { e, env, out } => ArgsOut::Failed { e, env, out: pre_out.add(out) },
        ArgsOut::Undetermined => ArgsOut::Undetermined,
    }
}

pub proof fn lemma_args_glue_assoc(
    vs1: Seq<SValue>,
    o1: Seq<char>,
    vs2: Seq<SValue>,
    o2: Seq<char>,
    r: ArgsOut,
)
    ensures
        args_glue(vs1, o1, args_glue(vs2, o2, r)) == args_glue(vs1.add(vs2), o1.add(o2), r),
{
    match r {
        ArgsOut::Vals { vs, env, out } => {
            assert(vs1.add(vs2.add(vs)) =~= vs1.add(vs2).add(vs));
            assert(o1.add(o2.add(out)) =~= o1.add(o2).add(out));
        },
        ArgsOut::Failed { e, env, out } => {
            assert(o1.add(o2.add(out)) =~= o1.add(o2).add(out));
        },
        ArgsOut::Undetermined => {},
    }
}

/// What one built-in operation yields on the given argument values.  Integer
/// arithmetic wraps around on overflow; division checks its divisor first;
/// the four float operators yield no verdict, since the host computes them.
pub open spec fn apply_builtin_model(name: Seq<char>, vs: Seq<SValue>) -> SCallOut {
    if name == "+"@ || name == "-"@ || name == "*"@ || name == "/"@ {
        int_arith_model(name, vs)
    } else if name == "+."@ || name == "-."@ || name == "*."@ {
        if vs.len() >= 2 && vs[0] is Float && vs[1] is Float {
            SCallOut::Undetermined
        } else {
            SCallOut::Fail { e: SEvalError::FloatOperands { op: name } }
        }
    } else if name == "/."@ {
        if vs.len() >= 2 && vs[0] is Float && vs[1] is Float {
            if float_text_is_zero(vs[1]->Float_0) {
                SCallOut::Fail { e: SEvalError::DivisionByZero }
            } else {
                SCallOut::Undetermined
            }
        } else {
            SCallOut::Fail { e: SEvalError::FloatOperands { op: name } }
        }
    } else if name == "="@ || name == "<"@ || name == ">"@ || name == "<="@ || name == ">="@ {
        int_cmp_model(name, vs)
    } else if name == "and"@ || name == "or"@ {
        if vs.len() >= 2 && vs[0] is Bool && vs[1] is Bool {
            let a = vs[0]->Bool_0;
            let b = vs[1]->Bool_0;
            SCallOut::Val {
                v: SValue::Bool(
                    if name == "and"@ {
                        a && b
                    } else {
                        a || b
                    },
                ),
                out: Seq::empty(),
            }
        } else {
            SCallOut::Fail { e: SEvalError::BoolOperands { op: name } }
        }
    } else if name == "not"@ {
        if vs.len() >= 1 && vs[0] is Bool {
            SCallOut::Val { v: SValue::Bool(!vs[0]->Bool_0), out: Seq::empty() }
        } else {
            SCallOut::Fail { e: SEvalError::NotOperand }
        }
    } else if name == "print"@ {
        if vs.len() >= 1 {
            SCallOut::Val { v: vs[0], out: value_text(vs[0]) }
        } else {
            SCallOut::Fail { e: SEvalError::BuiltinArity { name, expected: 1, got: 0 } }
        }
    } else if name == "println"@ {
        if vs.len() >= 1 {
            SCallOut::Val { v: vs[0], out: value_text(vs[0]).push('\n') }
        } else {
            SCallOut::Fail { e: SEvalError::BuiltinArity { name, expected: 1, got: 0 } }
        }
    } else if name == "type-of"@ {
        if vs.len() >= 1 {
            SCallOut::Val { v: SValue::Str(tag_text(vs[0])), out: Seq::empty() }
        } else {
            SCallOut::Fail { e: SEvalError::BuiltinArity { name, expected: 1, got: 0 } }
        }
    } else {
        SCallOut::Fail { e: SEvalError::UnknownBuiltin { name } }
    }
}

/// 32-bit division wraps on the one overflowing quotient.
pub open spec fn div_i32(a: i32, b: i32) -> i32
    recommends
        b != 0,
{
    match a.checked_div(b) {
        Option::Some(q) => q,
        Option::None => i32::MIN,
    }
}

/// 64-bit division wraps on the one overflowing quotient.
pub open spec fn div_i64(a: i64, b: i64) -> i64
    recommends
        b != 0,
{
    match a.checked_div(b) {
        Option::Some(q) => q,
        Option::None => i64::MIN,
    }
}

/// Integer arithmetic: both operands of the same width, wrapping.
pub open spec fn int_arith_model(name: Seq<char>, vs: Seq<SValue>) -> SCallOut {
    if vs.len() >= 2 && vs[0] is Integer32 && vs[1] is Integer32 {
        let a = vs[0]->Integer32_0;
        let b = vs[1]->Integer32_0;
        if name == "/"@ && b == 0 {
            SCallOut::Fail { e: SEvalError::DivisionByZero }
        } else {
            SCallOut::Val {
                v: SValue::Integer32(
                    if name == "+"@ {
                        vstd::wrapping::i32_specs::wrapping_add(a, b)
                    } else if name == "-"@ {
                        vstd::wrapping::i32_specs::wrapping_sub(a, b)
                    } else if name == "*"@ {
                        vstd::wrapping::i32_specs::wrapping_mul(a, b)
                    } else {
                        div_i32(a, b)
                    },
                ),
                out: Seq::empty(),
            }
        }
    } else if vs.len() >= 2 && vs[0] is Integer64 && vs[1] is Integer64 {
        let a = vs[0]->Integer64_0;
        let b = vs[1]->Integer64_0;
        if name == "/"@ && b == 0 {
            SCallOut::Fail { e: SEvalError::DivisionByZero }
        } else {
            SCallOut::Val {
                v: SValue::Integer64(
                    if name == "+"@ {
                        vstd::wrapping::i64_specs::wrapping_add(a, b)
                    } else if name == "-"@ {
                        vstd::wrapping::i64_specs::wrapping_sub(a, b)
                    } else if name == "*"@ {
                        vstd::wrapping::i64_specs::wrapping_mul(a, b)
                    } else {
                        div_i64(a, b)
                    },
                ),
                out: Seq::empty(),
            }
        }
    } else {
        SCallOut::Fail { e: SEvalError::IntOperands { op: name } }
    }
}

/// Integer comparisons: both operands of the same width.
pub open spec fn int_cmp_model(name: Seq<char>, vs: Seq<SValue>) -> SCallOut {
    if vs.len() >= 2 && vs[0] is Integer32 && vs[1] is Integer32 {
        let a = vs[0]->Integer32_0;
        let b = vs[1]->Integer32_0;
        SCallOut::Val { v: SValue::Bool(int_cmp_holds(name, a as int, b as int)), out: Seq::empty() }
    } else if vs.len() >= 2 && vs[0] is Integer64 && vs[1] is Integer64 {
        let a = vs[0]->Integer64_0;
        let b = vs[1]->Integer64_0;
        SCallOut::Val { v: SValue::Bool(int_cmp_holds(name, a as int, b as int)), out: Seq::empty() }
    } else {
        SCallOut::Fail { e: SEvalError::IntOperands { op: name } }
    }
}

pub open spec fn int_cmp_holds(name: Seq<char>, a: int, b: int) -> bool {
    if name == "="@ {
        a == b
    } else if name == "<"@ {
        a < b
    } else if name == ">"@ {
        a > b
    } else if name == "<="@ {
        a <= b
    } else {
        a >= b
    }
}

/// The value of an expression under an environment, with bounded call depth.
/// Deterministic except where the host's float arithmetic takes part.
pub open spec fn ev(e: SExpr, env: Map<Seq<char>, SValue>, fuel: nat) -> EvOut
    decreases fuel, e, 0nat,
{
    match e {
        SExpr::Integer32(n) => EvOut::Done { v: SValue::Integer32(n), env, out: Seq::empty() },
        SExpr::Integer64(n) => EvOut::Done { v: SValue::Integer64(n), env, out: Seq::empty() },
        SExpr::Float(s) => EvOut::Done { v: SValue::Float(s), env, out: Seq::empty() },
        SExpr::Bool(b) => EvOut::Done { v: SValue::Bool(b), env, out: Seq::empty() },
        SExpr::Str(s) => EvOut::Done { v: SValue::Str(s), env, out: Seq::empty() },
        SExpr::Symbol(name) => if env.contains_key(name) {
            EvOut::Done { v: env[name], env, out: Seq::empty() }
        } else {
            EvOut::Failed { e: SEvalError::Undefined { name }, env, out: Seq::empty() }
        },
        SExpr::If { condition, then_branch, else_branch } => match ev(*condition, env, fuel) {
            EvOut::Failed { e, env, out } => EvOut::Failed { e, env, out },
            EvOut::Undetermined => EvOut::Undetermined,
            EvOut::Done { v: cv, env: env1, out: o1 } => match cv {
                SValue::Bool(true) => with_out(ev(*then_branch, env1, fuel), o1),
                SValue::Bool(false) => with_out(ev(*else_branch, env1, fuel), o1),
                _ => EvOut::Failed { e: SEvalError::CondNotBool, env: env1, out: o1 },
            },
        },
        SExpr::Let { name, type_ann, value, body } => match ev(*value, env, fuel) {
            EvOut::Failed { e, env, out } => EvOut::Failed { e, env, out },
            EvOut::Undetermined => EvOut::Undetermined,
            EvOut::Done { v, env: env1, out: o1 } => match body {
                Option::Some(b) => match ev(*b, env1.insert(name, v), fuel) {
                    EvOut::Done { v: bv, env: _, out: o2 } => EvOut::Done {
                        v: bv,
                        env: env1,
                        out: o1.add(o2),
                    },
                    EvOut::Failed { e, env: _, out: o2 } => EvOut::Failed {
                        e,
                        env: env1,
                        out: o1.add(o2),
                    },
                    EvOut::Undetermined => EvOut::Undetermined,
                },
                Option::None => EvOut::Done { v, env: env1.insert(name, v), out: o1 },
            },
        },
        SExpr::Defn { name, params, return_type, body } => {
            let clos = SValue::Closure { params: param_names(params), body: *body, env };
            EvOut::Done { v: clos, env: env.insert(name, clos), out: Seq::empty() }
        },
        SExpr::Lambda { params, return_type, body } => EvOut::Done {
            v: SValue::Closure { params: param_names(params), body: *body, env },
            env,
            out: Seq::empty(),
        },
        SExpr::Call { func, args } => match ev(*func, env, fuel) {
            EvOut::Failed { e, env, out } => EvOut::Failed { e, env, out },
            EvOut::Undetermined => EvOut::Undetermined,
            EvOut::Done { v: fv, env: env1, out: o1 } => match fv {
                SValue::Closure { params: ps, body, env: cenv } => if ps.len() != args.len() {
                    EvOut::Failed {
                        e: SEvalError::UserArity { expected: ps.len(), got: args.len() },
                        env: env1,
                        out: o1,
                    }
                } else {
                    match ev_args(args, 0, env1, fuel) {
                        ArgsOut::Failed { e, env: env2, out: o2 } => EvOut::Failed {
                            e,
                            env: env2,
                            out: o1.add(o2),
                        },
                        ArgsOut::Undetermined => EvOut::Undetermined,
                        ArgsOut::Vals { vs, env: env2, out: o2 } => {
                            let base = match *func {
                                SExpr::Symbol(fname) => if env2.contains_key(fname) {
                                    cenv.insert(fname, env2[fname])
                                } else {
                                    cenv
                                },
                                _ => cenv,
                            };
                            let callenv = env_with_args(base, ps, vs);
                            if fuel == 0 {
                                EvOut::Failed {
                                    e: SEvalError::Exhausted,
                                    env: env2,
                                    out: o1.add(o2),
                                }
                            } else {
                                match ev(body, callenv, (fuel - 1) as nat) {
                                    EvOut::Done { v, env: _, out: o3 } => EvOut::Done {
                                        v,
                                        env: env2,
                                        out: o1.add(o2).add(o3),
                                    },
                                    EvOut::Failed { e, env: _, out: o3 } => EvOut::Failed {
                                        e,
                                        env: env2,
                                        out: o1.add(o2).add(o3),
                                    },
                                    EvOut::Undetermined => EvOut::Undetermined,
                                }
                            }
                        },
                    }
                },
                SValue::Builtin { name, arity } => if args.len() != arity {
                    EvOut::Failed {
                        e: SEvalError::BuiltinArity { name, expected: arity, got: args.len() },
                        env: env1,
                        out: o1,
                    }
                } else {
                    match ev_args(args, 0, env1, fuel) {
                        ArgsOut::Failed { e, env: env2, out: o2 } => EvOut::Failed {
                            e,
                            env: env2,
                            out: o1.add(o2),
                        },
                        ArgsOut::Undetermined => EvOut::Undetermined,
                        ArgsOut::Vals { vs, env: env2, out: o2 } => match apply_builtin_model(
                            name,
                            vs,
                        ) {
                            SCallOut::Val { v, out: o3 } => EvOut::Done {
                                v,
                                env: env2,
                                out: o1.add(o2).add(o3),
                            },
                            SCallOut::Fail { e } => EvOut::Failed {
                                e,
                                env: env2,
                                out: o1.add(o2),
                            },
                            SCallOut::Undetermined => EvOut::Undetermined,
                        },
                    }
                },
                other => EvOut::Failed {
                    e: SEvalError::NotAFunction { value: other },
                    env: env1,
                    out: o1,
                },
            },
        },
        SExpr::List(items) => if items.len() == 0 {
            EvOut::Failed { e: SEvalError::EmptyList, env, out: Seq::empty() }
        } else {
            match items[0] {
                SExpr::Symbol(op) => if op == "if"@ {
                    if items.len() != 4 {
                        EvOut::Failed { e: SEvalError::IfArity, env, out: Seq::empty() }
                    } else if fuel == 0 {
                        EvOut::Failed { e: SEvalError::Exhausted, env, out: Seq::empty() }
                    } else {
                        ev(
                            SExpr::If {
                                condition: Box::new(items[1]),
                                then_branch: Box::new(items[2]),
                                else_branch: Box::new(items[3]),
                            },
                            env,
                            (fuel - 1) as nat,
                        )
                    }
                } else if op == "let"@ {
                    if items.len() < 3 {
                        EvOut::Failed { e: SEvalError::LetTooFew, env, out: Seq::empty() }
                    } else {
                        match items[1] {
                            SExpr::Symbol(nm) => if items.len() == 3 || items.len() == 4 {
                                if fuel == 0 {
                                    EvOut::Failed {
                                        e: SEvalError::Exhausted,
                                        env,
                                        out: Seq::empty(),
                                    }
                                } else {
                                    ev(
                                        SExpr::Let {
                                            name: nm,
                                            type_ann: Option::None,
                                            value: Box::new(items[2]),
                                            body: if items.len() == 4 {
                                                Option::Some(Box::new(items[3]))
                                            } else {
                                                Option::None
                                            },
                                        },
                                        env,
                                        (fuel - 1) as nat,
                                    )
                                }
                            } else {
                                EvOut::Failed { e: SEvalError::LetInvalid, env, out: Seq::empty() }
                            },
                            _ => EvOut::Failed {
                                e: SEvalError::LetNameNotSymbol,
                                env,
                                out: Seq::empty(),
                            },
                        }
                    }
                } else {
                    ev_list_call(items, env, fuel)
                },
                _ => ev_list_call(items, env, fuel),
            }
        },
    }
}

/// A generic list evaluated as an application of its first element.
pub open spec fn ev_list_call(items: Seq<SExpr>, env: Map<Seq<char>, SValue>, fuel: nat) -> EvOut
    decreases fuel, items, 1nat,
{
    if items.len() == 0 {
        EvOut::Failed { e: SEvalError::EmptyList, env, out: Seq::empty() }
    } else if fuel == 0 {
        EvOut::Failed { e: SEvalError::Exhausted, env, out: Seq::empty() }
    } else {
        ev(
            SExpr::Call {
                func: Box::new(items[0]),
                args: items.subrange(1, items.len() as int),
            },
            env,
            (fuel - 1) as nat,
        )
    }
}

/// Argument positions evaluated left to right, values collected in order.
pub open spec fn ev_args(
    args: Seq<SExpr>,
    i: int,
    env: Map<Seq<char>, SValue>,
    fuel: nat,
) -> ArgsOut
    decreases fuel, args, (if i < args.len() { args.len() - i } else { 0int }) as nat,
{
    if i < 0 || i >= args.len() {
        ArgsOut::Vals { vs: Seq::empty(), env, out: Seq::empty() }
    } else {
        match ev(args[i], env, fuel) {
            EvOut::Failed { e, env: env1, out: o1 } => ArgsOut::Failed { e, env: env1, out: o1 },
            EvOut::Undetermined => ArgsOut::Undetermined,
            EvOut::Done { v, env: env1, out: o1 } => args_glue(
                seq![v],
                o1,
                ev_args(args, i + 1, env1, fuel),
            ),
        }
    }
}

// ---------------------------------------------------------------------------
// The executable evaluator
// ---------------------------------------------------------------------------
/// The host float operation accepts any operands.
pub open spec fn hook_ok<F: Fn(char, &str, &str) -> String>(f: F) -> bool {
    forall|a: (char, &str, &str)| #[trigger] call_requires(f, a)
}

/// The one place the mirror abstains: a call that reaches a built-in float
/// operation with two float operands (and, for division, a nonzero divisor).
/// The payload is the environment after the arguments and the text printed
/// so far, so that even an abstaining call can be pinned to an `Ok` float.
pub open spec fn float_abstention(e: SExpr, env: Map<Seq<char>, SValue>, fuel: nat) -> Option<
    (Map<Seq<char>, SValue>, Seq<char>),
> {
    match e {
        SExpr::Call { func, args } => match ev(*func, env, fuel) {
            EvOut::Done { v: fv, env: env1, out: o1 } => match fv {
                SValue::Builtin { name, arity } => if args.len() == arity {
                    match ev_args(args, 0, env1, fuel) {
                        ArgsOut::Vals { vs, env: env2, out: o2 } => if apply_builtin_model(
                            name,
                            vs,
                        ) is Undetermined {
                            Option::Some((env2, o1.add(o2)))
                        } else {
                            Option::None
                        },
                        _ => Option::None,
                    }
                } else {
                    Option::None
                },
                _ => Option::None,
            },
            _ => Option::None,
        },
        _ => Option::None,
    }
}

/// Even where the mirror abstains, the call itself comes back: an `Ok`
/// carrying a float, with the stated environment and printed text.
pub open spec fn abstention_matches(
    r: Result<Value, EvalError>,
    fa: Option<(Map<Seq<char>, SValue>, Seq<char>)>,
    env_after: Map<Seq<char>, SValue>,
    out_old: Seq<char>,
    out_new: Seq<char>,
) -> bool {
    fa matches Option::Some(p) ==> {
        &&& r matches Result::Ok(rv) && value_view(rv) is Float
        &&& env_after == p.0
        &&& out_new == out_old.add(p.1)
    }
}

/// What `eval` leaves behind, stated against the mirror `ev`.
pub open spec fn ev_matches(
    r: Result<Value, EvalError>,
    o: EvOut,
    env_after: Map<Seq<char>, SValue>,
    out_old: Seq<char>,
    out_new: Seq<char>,
) -> bool {
    match o {
        EvOut::Done { v, env, out } => r matches Result::Ok(rv) && value_view(rv) == v
            && env_after == env && out_new == out_old.add(out),
        EvOut::Failed { e, env, out } => r matches Result::Err(re) && everr_view(re) == e
            && env_after == env && out_new == out_old.add(out),
        EvOut::Undetermined => true,
    }
}

/// Reduce an expression to a value under the environment, printing through
/// `out` and computing float arithmetic through `fhook`; call depth is
/// bounded by `fuel`.  The result is exactly what the mirror `ev` states,
/// wherever the mirror gives a verdict.
#[verifier::loop_isolation(false)]
#[verifier::rlimit(100)]
#[verifier::spinoff_prover]
pub fn eval<F: Fn(char, &str, &str) -> String>(
    expr: &Expr,
    env: &mut Environment,
    out: &mut Vec<char>,
    fuel: u64,
    fhook: &F,
) -> (r: Result<Value, EvalError>)
    requires
        hook_ok(*fhook),
    ensures
        ev_matches(
            r,
            ev(expr_view(*expr), env_view(*old(env)), fuel as nat),
            env_view(*final(env)),
            old(out)@,
            final(out)@,
        ),
        abstention_matches(
            r,
            float_abstention(expr_view(*expr), env_view(*old(env)), fuel as nat),
            env_view(*final(env)),
            old(out)@,
            final(out)@,
        ),
    decreases fuel, *expr, 2nat,
{
    proof {
        assert(old(out)@.add(Seq::<char>::empty()) =~= old(out)@);
    }
    match expr {
        Expr::Integer32(n) => Result::Ok(Value::Integer32(*n)),
        Expr::Integer64(n) => Result::Ok(Value::Integer64(*n)),
        Expr::Float(s) => Result::Ok(Value::Float(s.clone())),
        Expr::Bool(b) => Result::Ok(Value::Bool(*b)),
        Expr::String(s) => Result::Ok(Value::String(s.clone())),
        Expr::Symbol(name) => match env.get(name.as_str()) {
            Option::Some(v) => Result::Ok(v.duplicate()),
            Option::None => Result::Err(EvalError::Undefined { name: name.clone() }),
        },
        Expr::If { condition, then_branch, else_branch } => {
            eval_if(expr, env, out, fuel, fhook)
        },
        Expr::Let { name, type_ann, value, body } => {
            eval_let(expr, env, out, fuel, fhook)
        },
        Expr::Defn { name, params, return_type, body } => {
            let func = make_closure(params, body, env);
            env.set(name.clone(), func.duplicate());
            Result::Ok(func)
        },
        Expr::Lambda { params, return_type, body } => {
            Result::Ok(make_closure(params, body, env))
        },
        Expr::Call { func, args } => {
            proof {
                assert(expr_view(*expr) == (SExpr::Call {
                    func: Box::new(rc_view(func)),
                    args: sexprs(args@),
                }));
            }
            eval_call(expr, env, out, fuel, fhook)
        },
        Expr::List(items) => {
            proof {
                assert(expr_view(*expr) == SExpr::List(sexprs(items@)));
            }
            eval_list(items, env, out, fuel, fhook)
        },
    }
}

/// A parenthesized form, dispatched by its leading symbol: the special forms
/// are rebuilt as their structured nodes, anything else is an application.
#[verifier::loop_isolation(false)]
#[verifier::rlimit(60)]
fn eval_list<F: Fn(char, &str, &str) -> String>(
    items: &Vec<Rc<Expr>>,
    env: &mut Environment,
    out: &mut Vec<char>,
    fuel: u64,
    fhook: &F,
) -> (r: Result<Value, EvalError>)
    requires
        hook_ok(*fhook),
    ensures
        ev_matches(
            r,
            ev(SExpr::List(sexprs(items@)), env_view(*old(env)), fuel as nat),
            env_view(*final(env)),
            old(out)@,
            final(out)@,
        ),
    decreases fuel, items@, 2nat,
{
    proof {
        assert(old(out)@.add(Seq::<char>::empty()) =~= old(out)@);
        assert(sexprs(items@).len() == items@.len());
    }
    if items.len() == 0 {
        return Result::Err(EvalError::EmptyList);
    }
    let head: &Expr = &items[0];
    proof {
        assert(expr_view(*items@[0]) == sexprs(items@)[0]);
    }
    match head {
        Expr::Symbol(op) => {
            if str_eq(op.as_str(), "if") {
                if items.len() != 4 {
                    return Result::Err(EvalError::IfArity);
                }
                if fuel == 0 {
                    return Result::Err(EvalError::Exhausted);
                }
                let node = Expr::If {
                    condition: rc_dup(&items[1]),
                    then_branch: rc_dup(&items[2]),
                    else_branch: rc_dup(&items[3]),
                };
                proof {
                    assert(expr_view(*items@[1]) == sexprs(items@)[1]);
                    assert(expr_view(*items@[2]) == sexprs(items@)[2]);
                    assert(expr_view(*items@[3]) == sexprs(items@)[3]);
                    assert(expr_view(node) == (SExpr::If {
                        condition: Box::new(sexprs(items@)[1]),
                        then_branch: Box::new(sexprs(items@)[2]),
                        else_branch: Box::new(sexprs(items@)[3]),
                    }));
                }
                eval(&node, env, out, fuel - 1, fhook)
            } else if str_eq(op.as_str(), "let") {
                if items.len() < 3 {
                    return Result::Err(EvalError::LetTooFew);
                }
                let second: &Expr = &items[1];
                proof {
                    assert(expr_view(*items@[1]) == sexprs(items@)[1]);
                }
                match second {
                    Expr::Symbol(nm) => {
                        if items.len() == 3 || items.len() == 4 {
                            if fuel == 0 {
                                return Result::Err(EvalError::Exhausted);
                            }
                            if items.len() == 4 {
                                let body_rc = rc_dup(&items[3]);
                                let node = Expr::Let {
                                    name: nm.clone(),
                                    type_ann: Option::None,
                                    value: rc_dup(&items[2]),
                                    body: Option::Some(body_rc),
                                };
                                proof {
                                    assert(expr_view(*items@[2]) == sexprs(items@)[2]);
                                    assert(expr_view(*items@[3]) == sexprs(items@)[3]);
                                    assert(sopt_type(node->Let_type_ann) == Option::<
                                        crate::ast::SType,
                                    >::None);
                                    assert(sopt_expr(node->Let_body) == Option::Some(
                                        Box::new(expr_view(*items@[3])),
                                    ));
                                    assert(expr_view(node) == (SExpr::Let {
                                        name: nm@,
                                        type_ann: Option::None,
                                        value: Box::new(sexprs(items@)[2]),
                                        body: Option::Some(Box::new(sexprs(items@)[3])),
                                    }));
                                }
                                eval(&node, env, out, fuel - 1, fhook)
                            } else {
                                let node = Expr::Let {
                                    name: nm.clone(),
                                    type_ann: Option::None,
                                    value: rc_dup(&items[2]),
                                    body: Option::None,
                                };
                                proof {
                                    assert(expr_view(*items@[2]) == sexprs(items@)[2]);
                                    assert(sopt_type(node->Let_type_ann) == Option::<
                                        crate::ast::SType,
                                    >::None);
                                    assert(sopt_expr(node->Let_body) == Option::<
                                        Box<SExpr>,
                                    >::None);
                                    assert(expr_view(node) == (SExpr::Let {
                                        name: nm@,
                                        type_ann: Option::None,
                                        value: Box::new(sexprs(items@)[2]),
                                        body: Option::None,
                                    }));
                                }
                                eval(&node, env, out, fuel - 1, fhook)
                            }
                        } else {
                            Result::Err(EvalError::LetInvalid)
                        }
                    },
                    _ => Result::Err(EvalError::LetNameNotSymbol),
                }
            } else {
                eval_list_call(items, env, out, fuel, fhook)
            }
        },
        _ => eval_list_call(items, env, out, fuel, fhook),
    }
}

/// An application: the callee, then each argument left to right, then the
/// dispatch on the called value.
#[verifier::loop_isolation(false)]
#[verifier::rlimit(100)]
#[verifier::spinoff_prover]
fn eval_call<F: Fn(char, &str, &str) -> String>(
    expr: &Expr,
    env: &mut Environment,
    out: &mut Vec<char>,
    fuel: u64,
    fhook: &F,
) -> (r: Result<Value, EvalError>)
    requires
        hook_ok(*fhook),
        expr is Call,
    ensures
        ev_matches(
            r,
            ev(expr_view(*expr), env_view(*old(env)), fuel as nat),
            env_view(*final(env)),
            old(out)@,
            final(out)@,
        ),
        abstention_matches(
            r,
            float_abstention(expr_view(*expr), env_view(*old(env)), fuel as nat),
            env_view(*final(env)),
            old(out)@,
            final(out)@,
        ),
    decreases fuel, *expr, 1nat,
{
    proof {
        assert(old(out)@.add(Seq::<char>::empty()) =~= old(out)@);
    }
    match expr {
        Expr::Call { func, args } => {
                let ghost fuel_n = fuel as nat;
                let ghost o_start = out@;
                let ghost env_start = env_view(*env);
                let ghost fspec = ev(rc_view(func), env_start, fuel_n);
                let ghost o1 = fspec->Done_out;
                let ghost env1 = fspec->Done_env;
                let fv = match eval(func, env, out, fuel, fhook) {
                    Result::Ok(v) => v,
                    Result::Err(e) => {
                        return Result::Err(e);
                    },
                };
                let ghost sargs = sexprs(args@);
                proof {
                    assert(sargs.len() == args@.len());
                }
                let callable: bool = match &fv {
                    Value::Function { .. } => true,
                    Value::BuiltinFunction { .. } => true,
                    _ => false,
                };
                if !callable {
                    return Result::Err(EvalError::NotAFunction { value: fv });
                }
                match &fv {
                    Value::Function { params, .. } => {
                        proof {
                            assert(snames(params@).len() == params@.len());
                        }
                        if params.len() != args.len() {
                            return Result::Err(
                                EvalError::UserArity {
                                    expected: params.len(),
                                    got: args.len(),
                                },
                            );
                        }
                    },
                    Value::BuiltinFunction { name, arity } => {
                        if args.len() != *arity {
                            return Result::Err(
                                EvalError::BuiltinArity {
                                    name: name.clone(),
                                    expected: *arity,
                                    got: args.len(),
                                },
                            );
                        }
                    },
                    _ => {},
                }
                let ghost overall = ev_args(sargs, 0, env1, fuel_n);
                let ghost o_args = out@;
                let ghost mut o_acc: Seq<char> = Seq::empty();
                let mut vals: Vec<Value> = Vec::new();
                let mut i: usize = 0;
                proof {
                    assert(sargs.len() == args@.len());
                    assert(svals(vals@) =~= Seq::<SValue>::empty());
                    if fspec is Done {
                        assert(o_args =~= o_args.add(o_acc));
                        assert(args_glue(svals(vals@), o_acc, ev_args(sargs, 0, env1, fuel_n))
                            == overall) by {
                            match ev_args(sargs, 0, env1, fuel_n) {
                                ArgsOut::Vals { vs, env: e, out: o } => {
                                    assert(Seq::<SValue>::empty().add(vs) =~= vs);
                                    assert(Seq::<char>::empty().add(o) =~= o);
                                },
                                ArgsOut::Failed { e, env: en, out: o } => {
                                    assert(Seq::<char>::empty().add(o) =~= o);
                                },
                                ArgsOut::Undetermined => {},
                            }
                        }
                    }
                }
                while i < args.len()
                    invariant
                        i <= args@.len(),
                        vals@.len() == i as int,
                        fspec is Done && !(overall is Undetermined) ==> {
                            &&& out@ == o_args.add(o_acc)
                            &&& overall == args_glue(
                                svals(vals@),
                                o_acc,
                                ev_args(sargs, i as int, env_view(*env), fuel_n),
                            )
                        },
                    decreases args@.len() - i,
                {
                    let ghost vals_pre = svals(vals@);
                    let ghost acc_pre = o_acc;
                    let ghost env_pre = env_view(*env);
                    let ghost o_before = out@;
                    let ghost aspec = ev(sargs[i as int], env_pre, fuel_n);
                    proof {
                        assert(sargs[i as int] == expr_view(*args@[i as int]));
                    }
                    let av = match eval(&args[i], env, out, fuel, fhook) {
                        Result::Ok(v) => v,
                        Result::Err(e) => {
                            proof {
                                if fspec is Done && !(overall is Undetermined) {
                                    match aspec {
                                        EvOut::Failed { e: se, env: sen, out: so } => {
                                            assert(ev_args(sargs, i as int, env_pre, fuel_n)
                                                == (ArgsOut::Failed { e: se, env: sen, out: so }));
                                            assert(overall == (ArgsOut::Failed {
                                                e: se,
                                                env: sen,
                                                out: acc_pre.add(so),
                                            }));
                                            assert(out@ =~= o_args.add(acc_pre.add(so)));
                                            assert(out@ =~= o_start.add(o1).add(acc_pre.add(so)));
                                            assert(o_start.add(o1).add(acc_pre.add(so)) =~= o_start.add(
                                                o1.add(acc_pre.add(so)),
                                            ));
                                        },
                                        EvOut::Undetermined => {
                                            assert(ev_args(sargs, i as int, env_pre, fuel_n)
                                                is Undetermined);
                                            assert(overall is Undetermined);
                                        },
                                        _ => {},
                                    }
                                }
                            }
                            return Result::Err(e);
                        },
                    };
                    vals.push(av);
                    i = i + 1;
                    proof {
                        let iv = i - 1;
                        assert(svals(vals@).drop_last() =~= vals_pre);
                        if fspec is Done && !(overall is Undetermined) {
                            match aspec {
                                EvOut::Done { v: sv, env: sen, out: so } => {
                                    assert(sv == value_view(vals@[iv]));
                                    assert(ev_args(sargs, iv, env_pre, fuel_n) == args_glue(
                                        seq![sv],
                                        so,
                                        ev_args(sargs, iv + 1, sen, fuel_n),
                                    ));
                                    lemma_args_glue_assoc(
                                        vals_pre,
                                        acc_pre,
                                        seq![sv],
                                        so,
                                        ev_args(sargs, iv + 1, sen, fuel_n),
                                    );
                                    assert(vals_pre.add(seq![sv]) =~= svals(vals@));
                                    o_acc = acc_pre.add(so);
                                    assert(out@ =~= o_args.add(acc_pre).add(so));
                                    assert(o_args.add(acc_pre).add(so) =~= o_args.add(o_acc));
                                },
                                EvOut::Undetermined => {
                                    assert(overall is Undetermined);
                                },
                                _ => {},
                            }
                        }
                    }
                }
                let ghost env2 = env_view(*env);
                let ghost o2 = o_acc;
                proof {
                    if fspec is Done && !(overall is Undetermined) {
                        assert(ev_args(sargs, i as int, env2, fuel_n) == (ArgsOut::Vals {
                            vs: Seq::<SValue>::empty(),
                            env: env2,
                            out: Seq::<char>::empty(),
                        }));
                        assert(svals(vals@).add(Seq::<SValue>::empty()) =~= svals(vals@));
                        assert(o2.add(Seq::<char>::empty()) =~= o2);
                        assert(overall == (ArgsOut::Vals { vs: svals(vals@), env: env2, out: o2 }));
                        assert(out@ =~= o_start.add(o1).add(o2));
                        assert(o_start.add(o1).add(o2) =~= o_start.add(o1.add(o2)));
                    }
                }
                match fv {
                    Value::Function { params, body, env: cenv } => {
                        proof {
                            assert(snames(params@).len() == params@.len());
                            assert(svals(vals@).len() == vals@.len());
                        }
                        let mut callenv = cenv;
                        if let Expr::Symbol(fname) = &**func {
                            match env.get(fname.as_str()) {
                                Option::Some(v) => {
                                    let dv = v.duplicate();
                                    callenv.set(fname.clone(), dv);
                                },
                                Option::None => {},
                            }
                        }
                        let ghost base = env_view(callenv);
                        let ghost ps_names = snames(params@);
                        let ghost vvals = svals(vals@);
                        let mut k: usize = 0;
                        proof {
                            assert(ps_names.subrange(0, 0) =~= Seq::<Seq<char>>::empty());
                            assert(vvals.subrange(0, 0) =~= Seq::<SValue>::empty());
                        }
                        while k < params.len()
                            invariant
                                k <= params@.len(),
                                params@.len() == vals@.len(),
                                env_view(callenv) == env_with_args(
                                    base,
                                    ps_names.subrange(0, k as int),
                                    vvals.subrange(0, k as int),
                                ),
                            decreases params@.len() - k,
                        {
                            callenv.set(params[k].clone(), vals[k].duplicate());
                            k = k + 1;
                            proof {
                                let p = ps_names.subrange(0, k as int);
                                let w = vvals.subrange(0, k as int);
                                assert(p.drop_last() =~= ps_names.subrange(0, k - 1));
                                assert(w.drop_last() =~= vvals.subrange(0, k - 1));
                                assert(p.last() == ps_names[k - 1]);
                                assert(w.last() == vvals[k - 1]);
                            }
                        }
                        proof {
                            assert(ps_names.subrange(0, params@.len() as int) =~= ps_names);
                            assert(vvals.subrange(0, vals@.len() as int) =~= vvals);
                        }
                        if fuel == 0 {
                            return Result::Err(EvalError::Exhausted);
                        }
                        let ghost o_mid = out@;
                        let ghost benv = env_view(callenv);
                        let ghost bspec = ev(rc_view(&body), benv, (fuel_n - 1) as nat);
                        let body_ref: &Expr = &body;
                        let r = eval(body_ref, &mut callenv, out, fuel - 1, fhook);
                        proof {
                            if fspec is Done && !(overall is Undetermined) {
                                match bspec {
                                    EvOut::Done { out: o3, .. } => {
                                        assert(out@ =~= o_mid.add(o3));
                                        assert(out@ =~= o_start.add(o1.add(o2).add(o3))) by {
                                            assert(o_mid =~= o_start.add(o1).add(o2));
                                            assert(o_start.add(o1).add(o2).add(o3) =~= o_start.add(
                                                o1.add(o2).add(o3),
                                            ));
                                        }
                                    },
                                    EvOut::Failed { out: o3, .. } => {
                                        assert(out@ =~= o_mid.add(o3));
                                        assert(out@ =~= o_start.add(o1.add(o2).add(o3))) by {
                                            assert(o_mid =~= o_start.add(o1).add(o2));
                                            assert(o_start.add(o1).add(o2).add(o3) =~= o_start.add(
                                                o1.add(o2).add(o3),
                                            ));
                                        }
                                    },
                                    EvOut::Undetermined => {},
                                }
                            }
                        }
                        match r {
                            Result::Ok(bv) => Result::Ok(bv),
                            Result::Err(e) => Result::Err(e),
                        }
                    },
                    Value::BuiltinFunction { name: bname, arity } => {
                        proof {
                            assert(svals(vals@).len() == vals@.len());
                        }
                        let ghost o_mid = out@;
                        let r = apply_builtin(bname.as_str(), &vals, out, fhook);
                        proof {
                            if fspec is Done && !(overall is Undetermined) {
                                match apply_builtin_model(bname@, svals(vals@)) {
                                    SCallOut::Val { v, out: o3 } => {
                                        assert(out@ =~= o_mid.add(o3));
                                        assert(out@ =~= o_start.add(o1.add(o2).add(o3))) by {
                                            assert(o_mid =~= o_start.add(o1).add(o2));
                                            assert(o_start.add(o1).add(o2).add(o3) =~= o_start.add(
                                                o1.add(o2).add(o3),
                                            ));
                                        }
                                    },
                                    _ => {},
                                }
                            }
                        }
                        r
                    },
                    other => {
                        proof {
                            assert(false);
                        }
                        Result::Err(EvalError::NotAFunction { value: other })
                    },
                }
        
        },
        _ => Result::Err(EvalError::EmptyList),
    }
}

/// One structured special form, reduced as the mirror states.
#[verifier::loop_isolation(false)]
#[verifier::rlimit(100)]
#[verifier::spinoff_prover]
fn eval_if<F: Fn(char, &str, &str) -> String>(
    expr: &Expr,
    env: &mut Environment,
    out: &mut Vec<char>,
    fuel: u64,
    fhook: &F,
) -> (r: Result<Value, EvalError>)
    requires
        hook_ok(*fhook),
        expr is If,
    ensures
        ev_matches(
            r,
            ev(expr_view(*expr), env_view(*old(env)), fuel as nat),
            env_view(*final(env)),
            old(out)@,
            final(out)@,
        ),
    decreases fuel, *expr, 1nat,
{
    proof {
        assert(old(out)@.add(Seq::<char>::empty()) =~= old(out)@);
    }
    match expr {
        Expr::If { condition, then_branch, else_branch } => {
                let ghost o_start = out@;
                let cv = match eval(condition, env, out, fuel, fhook) {
                    Result::Ok(v) => v,
                    Result::Err(e) => {
                        return Result::Err(e);
                    },
                };
                match cv {
                    Value::Bool(b) => {
                        let r = if b {
                            eval(then_branch, env, out, fuel, fhook)
                        } else {
                            eval(else_branch, env, out, fuel, fhook)
                        };
                        proof {
                            let fuel_n = fuel as nat;
                            match ev(rc_view(condition), env_view(*old(env)), fuel_n) {
                                EvOut::Done { v: scv, env: env1, out: o1 } => {
                                    let bspec = if b {
                                        ev(rc_view(then_branch), env1, fuel_n)
                                    } else {
                                        ev(rc_view(else_branch), env1, fuel_n)
                                    };
                                    match bspec {
                                        EvOut::Done { out: o2, .. } => {
                                            assert(o_start.add(o1).add(o2) =~= o_start.add(
                                                o1.add(o2),
                                            ));
                                        },
                                        EvOut::Failed { out: o2, .. } => {
                                            assert(o_start.add(o1).add(o2) =~= o_start.add(
                                                o1.add(o2),
                                            ));
                                        },
                                        EvOut::Undetermined => {},
                                    }
                                },
                                _ => {},
                            }
                        }
                        r
                    },
                    _ => Result::Err(EvalError::CondNotBool),
                }
        
        },
        _ => Result::Err(EvalError::EmptyList),
    }
}

/// One structured special form, reduced as the mirror states.
#[verifier::loop_isolation(false)]
#[verifier::rlimit(100)]
#[verifier::spinoff_prover]
fn eval_let<F: Fn(char, &str, &str) -> String>(
    expr: &Expr,
    env: &mut Environment,
    out: &mut Vec<char>,
    fuel: u64,
    fhook: &F,
) -> (r: Result<Value, EvalError>)
    requires
        hook_ok(*fhook),
        expr is Let,
    ensures
        ev_matches(
            r,
            ev(expr_view(*expr), env_view(*old(env)), fuel as nat),
            env_view(*final(env)),
            old(out)@,
            final(out)@,
        ),
    decreases fuel, *expr, 1nat,
{
    proof {
        assert(old(out)@.add(Seq::<char>::empty()) =~= old(out)@);
    }
    match expr {
        Expr::Let { name, type_ann, value, body } => {
                let ghost o_start = out@;
                let v = match eval(value, env, out, fuel, fhook) {
                    Result::Ok(v) => v,
                    Result::Err(e) => {
                        return Result::Err(e);
                    },
                };
                match body {
                    Option::Some(b) => {
                        let mut child = env.extend();
                        child.set(name.clone(), v);
                        let r = eval(b, &mut child, out, fuel, fhook);
                        proof {
                            let fuel_n = fuel as nat;
                            match ev(rc_view(value), env_view(*old(env)), fuel_n) {
                                EvOut::Done { v: sv, env: env1, out: o1 } => {
                                    match ev(rc_view(b), env1.insert(name@, sv), fuel_n) {
                                        EvOut::Done { out: o2, .. } => {
                                            assert(o_start.add(o1).add(o2) =~= o_start.add(
                                                o1.add(o2),
                                            ));
                                        },
                                        EvOut::Failed { out: o2, .. } => {
                                            assert(o_start.add(o1).add(o2) =~= o_start.add(
                                                o1.add(o2),
                                            ));
                                        },
                                        EvOut::Undetermined => {},
                                    }
                                },
                                _ => {},
                            }
                        }
                        r
                    },
                    Option::None => {
                        proof {
                            assert(sopt_view(body) == Option::<Box<SExpr>>::None);
                        }
                        env.set(name.clone(), v.duplicate());
                        Result::Ok(v)
                    },
                }
        
        },
        _ => Result::Err(EvalError::EmptyList),
    }
}

/// A function value capturing the current environment.
#[verifier::loop_isolation(false)]
fn make_closure(params: &Vec<(String, crate::ast::Type)>, body: &Rc<Expr>, env: &Environment) -> (r:
    Value)
    ensures
        value_view(r) == (SValue::Closure {
            params: param_names(sbindings(params@)),
            body: expr_view(**body),
            env: env_view(*env),
        }),
{
    let mut names: Vec<String> = Vec::new();
    let mut i: usize = 0;
    while i < params.len()
        invariant
            i <= params.len(),
            names@.len() == i as int,
            forall|j: int| 0 <= j < i ==> (#[trigger] names@[j])@ == params@[j].0@,
        decreases params.len() - i,
    {
        names.push(params[i].0.clone());
        i = i + 1;
    }
    let r = Value::Function { params: names, body: rc_dup(body), env: env.duplicate() };
    proof {
        assert(snames(r->Function_params@) =~= param_names(sbindings(params@)));
    }
    r
}

/// A generic list evaluated as an application of its first element.
#[verifier::loop_isolation(false)]
fn eval_list_call<F: Fn(char, &str, &str) -> String>(
    items: &Vec<Rc<Expr>>,
    env: &mut Environment,
    out: &mut Vec<char>,
    fuel: u64,
    fhook: &F,
) -> (r: Result<Value, EvalError>)
    requires
        hook_ok(*fhook),
        items@.len() > 0,
    ensures
        ev_matches(
            r,
            ev_list_call(sexprs(items@), env_view(*old(env)), fuel as nat),
            env_view(*final(env)),
            old(out)@,
            final(out)@,
        ),
    decreases fuel, items@, 1nat,
{
    proof {
        assert(old(out)@.add(Seq::<char>::empty()) =~= old(out)@);
    }
    if fuel == 0 {
        return Result::Err(EvalError::Exhausted);
    }
    let mut cargs: Vec<Rc<Expr>> = Vec::new();
    let mut j: usize = 1;
    while j < items.len()
        invariant
            1 <= j <= items@.len(),
            cargs@.len() == j - 1,
            forall|k: int| 0 <= k < j - 1 ==> cargs@[k] == items@[k + 1],
        decreases items@.len() - j,
    {
        cargs.push(rc_dup(&items[j]));
        j = j + 1;
    }
    let ghost cargs_v = cargs@;
    let node = Expr::Call { func: rc_dup(&items[0]), args: cargs };
    proof {
        assert(sexprs(cargs_v) =~= sexprs(items@).subrange(1, items@.len() as int));
        assert(expr_view(*items@[0]) == sexprs(items@)[0]);
    }
    eval(&node, env, out, fuel - 1, fhook)
}

/// The printable facts about each built-in name's characters, so that the
/// names are seen to be pairwise distinct.
proof fn lemma_builtin_name_facts()
    ensures
        "+"@.len() == 1 && "+"@[0] == '+',
        "-"@.len() == 1 && "-"@[0] == '-',
        "*"@.len() == 1 && "*"@[0] == '*',
        "/"@.len() == 1 && "/"@[0] == '/',
        "="@.len() == 1 && "="@[0] == '=',
        "<"@.len() == 1 && "<"@[0] == '<',
        ">"@.len() == 1 && ">"@[0] == '>',
        "+."@.len() == 2 && "+."@[0] == '+',
        "-."@.len() == 2 && "-."@[0] == '-',
        "*."@.len() == 2 && "*."@[0] == '*',
        "/."@.len() == 2 && "/."@[0] == '/',
        "<="@.len() == 2 && "<="@[0] == '<',
        ">="@.len() == 2 && ">="@[0] == '>',
        "or"@.len() == 2 && "or"@[0] == 'o',
        "and"@.len() == 3 && "and"@[0] == 'a',
        "not"@.len() == 3 && "not"@[0] == 'n',
        "print"@.len() == 5 && "print"@[0] == 'p',
        "println"@.len() == 7 && "println"@[0] == 'p',
        "type-of"@.len() == 7 && "type-of"@[0] == 't',
{
    reveal_strlit("+");
    reveal_strlit("-");
    reveal_strlit("*");
    reveal_strlit("/");
    reveal_strlit("=");
    reveal_strlit("<");
    reveal_strlit(">");
    reveal_strlit("+.");
    reveal_strlit("-.");
    reveal_strlit("*.");
    reveal_strlit("/.");
    reveal_strlit("<=");
    reveal_strlit(">=");
    reveal_strlit("or");
    reveal_strlit("and");
    reveal_strlit("not");
    reveal_strlit("print");
    reveal_strlit("println");
    reveal_strlit("type-of");
}

/// One built-in operation applied to evaluated arguments, printing through
/// `out`; exactly what `apply_builtin_model` states, wherever it gives a
/// verdict.
#[verifier::loop_isolation(false)]
fn apply_builtin<F: Fn(char, &str, &str) -> String>(
    name: &str,
    args: &Vec<Value>,
    out: &mut Vec<char>,
    fhook: &F,
) -> (r: Result<Value, EvalError>)
    requires
        hook_ok(*fhook),
    ensures
        ({
            let m = apply_builtin_model(name@, svals(args@));
            match m {
                SCallOut::Val { v, out: od } => r matches Result::Ok(rv) && value_view(rv) == v
                    && final(out)@ == old(out)@.add(od),
                SCallOut::Fail { e } => r matches Result::Err(re) && everr_view(re) == e
                    && final(out)@ == old(out)@,
                SCallOut::Undetermined => r matches Result::Ok(rv) && value_view(rv) is Float
                    && final(out)@ == old(out)@,
            }
        }),
{
    proof {
        lemma_builtin_name_facts();
    }
    proof {
        assert(old(out)@.add(Seq::<char>::empty()) =~= old(out)@);
        assert(svals(args@).len() == args@.len());
        if args@.len() > 0 {
            assert(svals(args@)[0] == value_view(args@[0]));
        }
        if args@.len() > 1 {
            assert(svals(args@)[1] == value_view(args@[1]));
        }
    }
    if str_eq(name, "+") || str_eq(name, "-") || str_eq(name, "*") || str_eq(name, "/") {
        int_arith(name, args)
    } else if str_eq(name, "+.") || str_eq(name, "-.") || str_eq(name, "*.") || str_eq(
        name,
        "/.",
    ) {
        if args.len() >= 2 {
            let a_ok = matches!(&args[0], Value::Float(_));
            let b_ok = matches!(&args[1], Value::Float(_));
            if a_ok && b_ok {
                let a = match &args[0] {
                    Value::Float(t) => t,
                    _ => {
                        return Result::Err(EvalError::FloatOperands { op: name.to_owned() });
                    },
                };
                let b = match &args[1] {
                    Value::Float(t) => t,
                    _ => {
                        return Result::Err(EvalError::FloatOperands { op: name.to_owned() });
                    },
                };
                if str_eq(name, "/.") && float_text_zero(b.as_str()) {
                    Result::Err(EvalError::DivisionByZero)
                } else if str_eq(name, "/.") {
                    let t = fhook('/', a.as_str(), b.as_str());
                    Result::Ok(Value::Float(t))
                } else {
                    let opch = if str_eq(name, "+.") {
                        '+'
                    } else if str_eq(name, "-.") {
                        '-'
                    } else {
                        '*'
                    };
                    let t = fhook(opch, a.as_str(), b.as_str());
                    Result::Ok(Value::Float(t))
                }
            } else {
                Result::Err(EvalError::FloatOperands { op: name.to_owned() })
            }
        } else {
            Result::Err(EvalError::FloatOperands { op: name.to_owned() })
        }
    } else if str_eq(name, "=") || str_eq(name, "<") || str_eq(name, ">") || str_eq(name, "<=")
        || str_eq(name, ">=") {
        int_cmp(name, args)
    } else if str_eq(name, "and") || str_eq(name, "or") {
        if args.len() >= 2 {
            match (&args[0], &args[1]) {
                (Value::Bool(a), Value::Bool(b)) => {
                    let is_and = str_eq(name, "and");
                    Result::Ok(
                        Value::Bool(
                            if is_and {
                                *a && *b
                            } else {
                                *a || *b
                            },
                        ),
                    )
                },
                _ => Result::Err(EvalError::BoolOperands { op: name.to_owned() }),
            }
        } else {
            Result::Err(EvalError::BoolOperands { op: name.to_owned() })
        }
    } else if str_eq(name, "not") {
        if args.len() >= 1 {
            match &args[0] {
                Value::Bool(a) => Result::Ok(Value::Bool(!*a)),
                _ => Result::Err(EvalError::NotOperand),
            }
        } else {
            Result::Err(EvalError::NotOperand)
        }
    } else if str_eq(name, "print") {
        if args.len() >= 1 {
            let mut chunk = args[0].display_chars();
            out.append(&mut chunk);
            Result::Ok(args[0].duplicate())
        } else {
            Result::Err(
                EvalError::BuiltinArity { name: name.to_owned(), expected: 1, got: 0 },
            )
        }
    } else if str_eq(name, "println") {
        if args.len() >= 1 {
            let mut chunk = args[0].display_chars();
            out.append(&mut chunk);
            out.push('\n');
            proof {
                assert(out@ =~= old(out)@.add(value_text(svals(args@)[0]).push('\n')));
            }
            Result::Ok(args[0].duplicate())
        } else {
            Result::Err(
                EvalError::BuiltinArity { name: name.to_owned(), expected: 1, got: 0 },
            )
        }
    } else if str_eq(name, "type-of") {
        if args.len() >= 1 {
            Result::Ok(Value::String(args[0].type_tag()))
        } else {
            Result::Err(
                EvalError::BuiltinArity { name: name.to_owned(), expected: 1, got: 0 },
            )
        }
    } else {
        Result::Err(EvalError::UnknownBuiltin { name: name.to_owned() })
    }
}

/// Integer arithmetic on matching widths, wrapping on overflow.
fn int_arith(name: &str, args: &Vec<Value>) -> (r: Result<Value, EvalError>)
    requires
        name@ == "+"@ || name@ == "-"@ || name@ == "*"@ || name@ == "/"@,
    ensures
        ({
            let m = int_arith_model(name@, svals(args@));
            match m {
                SCallOut::Val { v, out: od } => r matches Result::Ok(rv) && value_view(rv) == v
                    && od == Seq::<char>::empty(),
                SCallOut::Fail { e } => r matches Result::Err(re) && everr_view(re) == e,
                SCallOut::Undetermined => false,
            }
        }),
{
    proof {
        lemma_builtin_name_facts();
    }
    proof {
        assert(svals(args@).len() == args@.len());
        if args@.len() > 0 {
            assert(svals(args@)[0] == value_view(args@[0]));
        }
        if args@.len() > 1 {
            assert(svals(args@)[1] == value_view(args@[1]));
        }
    }
    if args.len() >= 2 {
        let a0 = &args[0];
        let a1 = &args[1];
        proof {
            assert(*a0 == args@[0]);
            assert(*a1 == args@[1]);
        }
        match (a0, a1) {
            (Value::Integer32(a), Value::Integer32(b)) => {
                proof {
                    assert(svals(args@)[0] == SValue::Integer32(*a));
                    assert(svals(args@)[1] == SValue::Integer32(*b));
                }
                if str_eq(name, "+") {
                    Result::Ok(Value::Integer32(a.wrapping_add(*b)))
                } else if str_eq(name, "-") {
                    Result::Ok(Value::Integer32(a.wrapping_sub(*b)))
                } else if str_eq(name, "*") {
                    Result::Ok(Value::Integer32(a.wrapping_mul(*b)))
                } else {
                    if *b == 0 {
                        Result::Err(EvalError::DivisionByZero)
                    } else {
                        let q = match a.checked_div(*b) {
                            Option::Some(q) => q,
                            Option::None => i32::MIN,
                        };
                        Result::Ok(Value::Integer32(q))
                    }
                }
            },
            (Value::Integer64(a), Value::Integer64(b)) => {
                proof {
                    assert(svals(args@)[0] == SValue::Integer64(*a));
                    assert(svals(args@)[1] == SValue::Integer64(*b));
                }
                if str_eq(name, "+") {
                    Result::Ok(Value::Integer64(a.wrapping_add(*b)))
                } else if str_eq(name, "-") {
                    Result::Ok(Value::Integer64(a.wrapping_sub(*b)))
                } else if str_eq(name, "*") {
                    Result::Ok(Value::Integer64(a.wrapping_mul(*b)))
                } else {
                    if *b == 0 {
                        Result::Err(EvalError::DivisionByZero)
                    } else {
                        let q = match a.checked_div(*b) {
                            Option::Some(q) => q,
                            Option::None => i64::MIN,
                        };
                        Result::Ok(Value::Integer64(q))
                    }
                }
            },
            _ => Result::Err(EvalError::IntOperands { op: name.to_owned() }),
        }
    } else {
        Result::Err(EvalError::IntOperands { op: name.to_owned() })
    }
}

/// Integer comparisons on matching widths.
fn int_cmp(name: &str, args: &Vec<Value>) -> (r: Result<Value, EvalError>)
    requires
        name@ == "="@ || name@ == "<"@ || name@ == ">"@ || name@ == "<="@ || name@ == ">="@,
    ensures
        ({
            let m = int_cmp_model(name@, svals(args@));
            match m {
                SCallOut::Val { v, out: od } => r matches Result::Ok(rv) && value_view(rv) == v
                    && od == Seq::<char>::empty(),
                SCallOut::Fail { e } => r matches Result::Err(re) && everr_view(re) == e,
                SCallOut::Undetermined => false,
            }
        }),
{
    proof {
        lemma_builtin_name_facts();
    }
    proof {
        assert(svals(args@).len() == args@.len());
        if args@.len() > 0 {
            assert(svals(args@)[0] == value_view(args@[0]));
        }
        if args@.len() > 1 {
            assert(svals(args@)[1] == value_view(args@[1]));
        }
    }
    if args.len() >= 2 {
        match (&args[0], &args[1]) {
            (Value::Integer32(a), Value::Integer32(b)) => {
                let c = if str_eq(name, "=") {
                    *a == *b
                } else if str_eq(name, "<") {
                    *a < *b
                } else if str_eq(name, ">") {
                    *a > *b
                } else if str_eq(name, "<=") {
                    *a <= *b
                } else {
                    *a >= *b
                };
                Result::Ok(Value::Bool(c))
            },
            (Value::Integer64(a), Value::Integer64(b)) => {
                let c = if str_eq(name, "=") {
                    *a == *b
                } else if str_eq(name, "<") {
                    *a < *b
                } else if str_eq(name, ">") {
                    *a > *b
                } else if str_eq(name, "<=") {
                    *a <= *b
                } else {
                    *a >= *b
                };
                Result::Ok(Value::Bool(c))
            },
            _ => Result::Err(EvalError::IntOperands { op: name.to_owned() }),
        }
    } else {
        Result::Err(EvalError::IntOperands { op: name.to_owned() })
    }
}

} // verus!
