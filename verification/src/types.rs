//! The static type checker: a structural, non-unifying checker that assigns
//! a type to each expression under a flat type environment, with a full
//! mathematical mirror (`tc`) stating exactly what it returns.
use crate::ast::{expr_view, sbindings, sexprs, sopt_view, sparams, type_view, Expr, SExpr, SType, Type};
use std::rc::Rc;
use crate::chars::str_eq;
use vstd::prelude::*;

verus! {

/// A type error, tagged by kind; `text` renders the descriptive message.
#[derive(Debug, PartialEq)]
pub enum TypeError {
    Undefined { name: String },
    CondNotBool { got: Type },
    BranchMismatch { then_type: Type, else_type: Type },
    AnnotationMismatch { expected: Type, got: Type },
    ReturnMismatch { expected: Type, got: Type },
    LambdaReturnMismatch { expected: Type, got: Type },
    ArityMismatch { expected: usize, got: usize },
    ArgMismatch { expected: Type, got: Type },
    NotAFunction { got: Type },
    EmptyList,
    IfArity,
    LetTooFew,
    InvalidAnnotation,
    LetNameNotSymbol,
    UnknownType { name: String },
}

/// Mathematical model of a `TypeError`.
pub enum STypeError {
    Undefined { name: Seq<char> },
    CondNotBool { got: SType },
    BranchMismatch { then_type: SType, else_type: SType },
    AnnotationMismatch { expected: SType, got: SType },
    ReturnMismatch { expected: SType, got: SType },
    LambdaReturnMismatch { expected: SType, got: SType },
    ArityMismatch { expected: nat, got: nat },
    ArgMismatch { expected: SType, got: SType },
    NotAFunction { got: SType },
    EmptyList,
    IfArity,
    LetTooFew,
    InvalidAnnotation,
    LetNameNotSymbol,
    UnknownType { name: Seq<char> },
}

pub open spec fn terr_view(e: TypeError) -> STypeError {
    match e {
        TypeError::Undefined { name } => STypeError::Undefined { name: name@ },
        TypeError::CondNotBool { got } => STypeError::CondNotBool { got: type_view(got) },
        TypeError::BranchMismatch { then_type, else_type } => STypeError::BranchMismatch {
            then_type: type_view(then_type),
            else_type: type_view(else_type),
        },
        TypeError::AnnotationMismatch { expected, got } => STypeError::AnnotationMismatch {
            expected: type_view(expected),
            got: type_view(got),
        },
        TypeError::ReturnMismatch { expected, got } => STypeError::ReturnMismatch {
            expected: type_view(expected),
            got: type_view(got),
        },
        TypeError::LambdaReturnMismatch { expected, got } => STypeError::LambdaReturnMismatch {
            expected: type_view(expected),
            got: type_view(got),
        },
        TypeError::ArityMismatch { expected, got } => STypeError::ArityMismatch {
            expected: expected as nat,
            got: got as nat,
        },
        TypeError::ArgMismatch { expected, got } => STypeError::ArgMismatch {
            expected: type_view(expected),
            got: type_view(got),
        },
        TypeError::NotAFunction { got } => STypeError::NotAFunction { got: type_view(got) },
        TypeError::EmptyList => STypeError::EmptyList,
        TypeError::IfArity => STypeError::IfArity,
        TypeError::LetTooFew => STypeError::LetTooFew,
        TypeError::InvalidAnnotation => STypeError::InvalidAnnotation,
        TypeError::LetNameNotSymbol => STypeError::LetNameNotSymbol,
        TypeError::UnknownType { name } => STypeError::UnknownType { name: name@ },
    }
}

// ---------------------------------------------------------------------------
// The type environment
// ---------------------------------------------------------------------------
/// A flat mapping from names to types; inserting for a name shadows any
/// earlier binding of the same name.
#[derive(Debug, PartialEq)]
pub struct TypeEnv {
    types: Vec<(String, Type)>,
}

/// The map that a type table denotes: later entries win.
pub open spec fn ttable_view(entries: Seq<(String, Type)>) -> Map<Seq<char>, SType>
    decreases entries,
{
    if entries.len() == 0 {
        Map::empty()
    } else {
        ttable_view(entries.drop_last()).insert(
            entries.last().0@,
            type_view(entries.last().1),
        )
    }
}

pub closed spec fn tenv_view(e: TypeEnv) -> Map<Seq<char>, SType> {
    ttable_view(e.types@)
}

pub proof fn lemma_ttable_view_skip(entries: Seq<(String, Type)>, k: Seq<char>, n: int)
    requires
        0 <= n <= entries.len(),
        forall|j: int| n <= j < entries.len() ==> (#[trigger] entries[j].0)@ != k,
    ensures
        ttable_view(entries).contains_key(k) == ttable_view(
            entries.subrange(0, n),
        ).contains_key(k),
        ttable_view(entries).contains_key(k) ==> ttable_view(entries)[k] == ttable_view(
            entries.subrange(0, n),
        )[k],
    decreases entries.len() - n,
{
    if n == entries.len() {
        assert(entries.subrange(0, n) =~= entries);
    } else {
        lemma_ttable_view_skip(entries, k, n + 1);
        let t = entries.subrange(0, n + 1);
        assert(t.drop_last() =~= entries.subrange(0, n));
        assert(t.last() == entries[n]);
    }
}

pub proof fn lemma_ttable_view_congruence(a: Seq<(String, Type)>, b: Seq<(String, Type)>)
    requires
        a.len() == b.len(),
        forall|j: int|
            0 <= j < a.len() ==> (#[trigger] a[j].0)@ == b[j].0@ && type_view(a[j].1) == type_view(
                b[j].1,
            ),
    ensures
        ttable_view(a) == ttable_view(b),
    decreases a.len(),
{
    if a.len() > 0 {
        lemma_ttable_view_congruence(a.drop_last(), b.drop_last());
        assert(a.last() == a[a.len() - 1]);
        assert(b.last() == b[b.len() - 1]);
    }
}

/// The fixed types of the built-in operator table.
pub open spec fn builtin_types() -> Map<Seq<char>, SType> {
    let num_op = SType::Fun {
        params: seq![SType::Inferred, SType::Inferred],
        ret: Box::new(SType::Inferred),
    };
    let float_op = SType::Fun { params: seq![SType::F64, SType::F64], ret: Box::new(SType::F64) };
    let cmp_op = SType::Fun {
        params: seq![SType::Inferred, SType::Inferred],
        ret: Box::new(SType::Bool),
    };
    let bool_op = SType::Fun { params: seq![SType::Bool, SType::Bool], ret: Box::new(SType::Bool) };
    let unary_bool = SType::Fun { params: seq![SType::Bool], ret: Box::new(SType::Bool) };
    let any_op = SType::Fun { params: seq![SType::Inferred], ret: Box::new(SType::Inferred) };
    Map::empty().insert("+"@, num_op).insert("-"@, num_op).insert("*"@, num_op).insert(
        "/"@,
        num_op,
    ).insert("+."@, float_op).insert("-."@, float_op).insert("*."@, float_op).insert(
        "/."@,
        float_op,
    ).insert("="@, cmp_op).insert("<"@, cmp_op).insert(">"@, cmp_op).insert("<="@, cmp_op).insert(
        ">="@,
        cmp_op,
    ).insert("and"@, bool_op).insert("or"@, bool_op).insert("not"@, unary_bool).insert(
        "print"@,
        any_op,
    ).insert("println"@, any_op).insert(
        "type-of"@,
        SType::Fun { params: seq![SType::Inferred], ret: Box::new(SType::Str) },
    )
}

impl TypeEnv {
    /// Build a two-argument builtin operator type.
    fn binary_op(a: Type, b: Type, ret: Type) -> (r: Type)
        ensures
            type_view(r) == (SType::Fun {
                params: seq![type_view(a), type_view(b)],
                ret: Box::new(type_view(ret)),
            }),
    {
        let mut params: Vec<Type> = Vec::new();
        params.push(a);
        params.push(b);
        let r = Type::Function { params, return_type: Box::new(ret) };
        proof {
            assert(sparams(r->Function_params@) =~= seq![
                type_view(r->Function_params@[0]),
                type_view(r->Function_params@[1]),
            ]);
        }
        r
    }

    /// Build a one-argument builtin operator type.
    fn unary_op(a: Type, ret: Type) -> (r: Type)
        ensures
            type_view(r) == (SType::Fun {
                params: seq![type_view(a)],
                ret: Box::new(type_view(ret)),
            }),
    {
        let mut params: Vec<Type> = Vec::new();
        params.push(a);
        let r = Type::Function { params, return_type: Box::new(ret) };
        proof {
            assert(sparams(r->Function_params@) =~= seq![type_view(r->Function_params@[0])]);
        }
        r
    }

    /// The root type environment, holding the types of every built-in.
    pub fn new() -> (r: TypeEnv)
        ensures
            tenv_view(r) == builtin_types(),
    {
        let mut env = TypeEnv { types: Vec::new() };
        env.insert("+".to_owned(), Self::binary_op(Type::Inferred, Type::Inferred, Type::Inferred));
        env.insert("-".to_owned(), Self::binary_op(Type::Inferred, Type::Inferred, Type::Inferred));
        env.insert("*".to_owned(), Self::binary_op(Type::Inferred, Type::Inferred, Type::Inferred));
        env.insert("/".to_owned(), Self::binary_op(Type::Inferred, Type::Inferred, Type::Inferred));
        env.insert("+.".to_owned(), Self::binary_op(Type::F64, Type::F64, Type::F64));
        env.insert("-.".to_owned(), Self::binary_op(Type::F64, Type::F64, Type::F64));
        env.insert("*.".to_owned(), Self::binary_op(Type::F64, Type::F64, Type::F64));
        env.insert("/.".to_owned(), Self::binary_op(Type::F64, Type::F64, Type::F64));
        env.insert("=".to_owned(), Self::binary_op(Type::Inferred, Type::Inferred, Type::Bool));
        env.insert("<".to_owned(), Self::binary_op(Type::Inferred, Type::Inferred, Type::Bool));
        env.insert(">".to_owned(), Self::binary_op(Type::Inferred, Type::Inferred, Type::Bool));
        env.insert("<=".to_owned(), Self::binary_op(Type::Inferred, Type::Inferred, Type::Bool));
        env.insert(">=".to_owned(), Self::binary_op(Type::Inferred, Type::Inferred, Type::Bool));
        env.insert("and".to_owned(), Self::binary_op(Type::Bool, Type::Bool, Type::Bool));
        env.insert("or".to_owned(), Self::binary_op(Type::Bool, Type::Bool, Type::Bool));
        env.insert("not".to_owned(), Self::unary_op(Type::Bool, Type::Bool));
        env.insert("print".to_owned(), Self::unary_op(Type::Inferred, Type::Inferred));
        env.insert("println".to_owned(), Self::unary_op(Type::Inferred, Type::Inferred));
        env.insert("type-of".to_owned(), Self::unary_op(Type::Inferred, Type::String));
        env
    }

    /// The type bound to a name, if any: the most recent binding wins.
    pub fn get(&self, name: &str) -> (r: Option<&Type>)
        ensures
            match r {
                Option::Some(t) => tenv_view(*self).contains_key(name@) && type_view(*t)
                    == tenv_view(*self)[name@],
                Option::None => !tenv_view(*self).contains_key(name@),
            },
    {
        let key: String = name.to_owned();
        let mut i: usize = self.types.len();
        while i > 0
            invariant
                i <= self.types.len(),
                key@ == name@,
                forall|j: int|
                    i <= j < self.types.len() ==> (#[trigger] self.types@[j].0)@ != name@,
            decreases i,
        {
            i = i - 1;
            if self.types[i].0 == key {
                proof {
                    lemma_ttable_view_skip(self.types@, name@, i + 1);
                    let t = self.types@.subrange(0, i + 1);
                    assert(t.drop_last() =~= self.types@.subrange(0, i as int));
                    assert(t.last() == self.types@[i as int]);
                }
                return Option::Some(&self.types[i].1);
            }
        }
        proof {
            lemma_ttable_view_skip(self.types@, name@, 0);
            assert(self.types@.subrange(0, 0) =~= Seq::<(String, Type)>::empty());
        }
        Option::None
    }

    /// Bind a name to a type, shadowing any earlier binding.
    pub fn insert(&mut self, name: String, ty: Type)
        ensures
            tenv_view(*final(self)) == tenv_view(*old(self)).insert(name@, type_view(ty)),
    {
        let ghost before = self.types@;
        self.types.push((name, ty));
        proof {
            assert(self.types@.drop_last() =~= before);
        }
    }

    /// A copy of the environment, for checking a function body in its own
    /// scope.
    pub fn extend(&self) -> (r: Self)
        ensures
            tenv_view(r) == tenv_view(*self),
    {
        let mut ts: Vec<(String, Type)> = Vec::new();
        let mut i: usize = 0;
        while i < self.types.len()
            invariant
                i <= self.types.len(),
                ts@.len() == i as int,
                forall|j: int|
                    0 <= j < i ==> (#[trigger] ts@[j].0)@ == self.types@[j].0@ && type_view(
                        ts@[j].1,
                    ) == type_view(self.types@[j].1),
            decreases self.types.len() - i,
        {
            let name = self.types[i].0.clone();
            let ty = (&self.types[i].1).duplicate();
            ts.push((name, ty));
            i = i + 1;
        }
        let r = TypeEnv { types: ts };
        proof {
            lemma_ttable_view_congruence(ts@, self.types@);
        }
        r
    }
}

/// The name of a basic type, resolved as a bare annotation.
pub open spec fn parse_type_model(s: Seq<char>) -> Option<SType> {
    if s == "i32"@ {
        Option::Some(SType::I32)
    } else if s == "i64"@ {
        Option::Some(SType::I64)
    } else if s == "f64"@ {
        Option::Some(SType::F64)
    } else if s == "bool"@ {
        Option::Some(SType::Bool)
    } else if s == "String"@ {
        Option::Some(SType::Str)
    } else if s == "_"@ {
        Option::Some(SType::Inferred)
    } else {
        Option::None
    }
}

/// Resolve a bare type-annotation name inside a `let` form.
pub fn parse_type(s: &str) -> (r: Result<Type, TypeError>)
    ensures
        match r {
            Result::Ok(t) => parse_type_model(s@) == Option::Some(type_view(t)),
            Result::Err(e) => parse_type_model(s@) is None && terr_view(e)
                == (STypeError::UnknownType { name: s@ }),
        },
{
    if str_eq(s, "i32") {
        Result::Ok(Type::I32)
    } else if str_eq(s, "i64") {
        Result::Ok(Type::I64)
    } else if str_eq(s, "f64") {
        Result::Ok(Type::F64)
    } else if str_eq(s, "bool") {
        Result::Ok(Type::Bool)
    } else if str_eq(s, "String") {
        Result::Ok(Type::String)
    } else if str_eq(s, "_") {
        Result::Ok(Type::Inferred)
    } else {
        Result::Err(TypeError::UnknownType { name: s.to_owned() })
    }
}

// ---------------------------------------------------------------------------
// The checking relation, as a total function on models
// ---------------------------------------------------------------------------
/// Outcome of checking one expression: its type and the environment left
/// behind, or the first error and the environment at that point.
pub enum TcOut {
    Typed { t: SType, env: Map<Seq<char>, SType> },
    Failed { e: STypeError, env: Map<Seq<char>, SType> },
}

/// The declared types of a parameter list.
pub open spec fn stype_params(ps: Seq<(Seq<char>, SType)>) -> Seq<SType> {
    Seq::new(
        ps.len(),
        |i: int|
            if 0 <= i < ps.len() {
                ps[i].1
            } else {
                SType::Inferred
            },
    )
}

/// A scope extended with each parameter binding in order.
pub open spec fn tenv_with_params(
    env: Map<Seq<char>, SType>,
    ps: Seq<(Seq<char>, SType)>,
) -> Map<Seq<char>, SType>
    decreases ps,
{
    if ps.len() == 0 {
        env
    } else {
        tenv_with_params(env, ps.drop_last()).insert(ps.last().0, ps.last().1)
    }
}

/// Checking a `let` binding: a real annotation must equal the value's type;
/// the placeholder annotation resolves to the value's type; the resolved
/// type is installed in the current scope and returned.
pub open spec fn tc_let_finish(
    name: Seq<char>,
    ann: Option<SType>,
    vt: SType,
    env: Map<Seq<char>, SType>,
) -> TcOut {
    match ann {
        Option::Some(a) => if a == SType::Inferred {
            TcOut::Typed { t: vt, env: env.insert(name, vt) }
        } else if a != vt {
            TcOut::Failed { e: STypeError::AnnotationMismatch { expected: a, got: vt }, env }
        } else {
            TcOut::Typed { t: a, env: env.insert(name, a) }
        },
        Option::None => TcOut::Typed { t: vt, env: env.insert(name, vt) },
    }
}

/// The type assigned to an expression, with the environment threaded through
/// exactly as the checker threads it.
pub open spec fn tc(e: SExpr, env: Map<Seq<char>, SType>) -> TcOut
    decreases e, 0nat,
{
    match e {
        SExpr::Integer32(_) => TcOut::Typed { t: SType::I32, env },
        SExpr::Integer64(_) => TcOut::Typed { t: SType::I64, env },
        SExpr::Float(_) => TcOut::Typed { t: SType::F64, env },
        SExpr::Bool(_) => TcOut::Typed { t: SType::Bool, env },
        SExpr::Str(_) => TcOut::Typed { t: SType::Str, env },
        SExpr::Symbol(name) => if env.contains_key(name) {
            TcOut::Typed { t: env[name], env }
        } else {
            TcOut::Failed { e: STypeError::Undefined { name }, env }
        },
        SExpr::If { condition, then_branch, else_branch } => match tc(*condition, env) {
            TcOut::Failed { e, env } => TcOut::Failed { e, env },
            TcOut::Typed { t: ct, env: env1 } => if ct != SType::Bool {
                TcOut::Failed { e: STypeError::CondNotBool { got: ct }, env: env1 }
            } else {
                match tc(*then_branch, env1) {
                    TcOut::Failed { e, env } => TcOut::Failed { e, env },
                    TcOut::Typed { t: tt, env: env2 } => match tc(*else_branch, env2) {
                        TcOut::Failed { e, env } => TcOut::Failed { e, env },
                        TcOut::Typed { t: et, env: env3 } => if tt != et {
                            TcOut::Failed {
                                e: STypeError::BranchMismatch { then_type: tt, else_type: et },
                                env: env3,
                            }
                        } else {
                            TcOut::Typed { t: tt, env: env3 }
                        },
                    },
                }
            },
        },
        SExpr::Let { name, type_ann, value, body } => match tc(*value, env) {
            TcOut::Failed { e, env } => TcOut::Failed { e, env },
            TcOut::Typed { t: vt, env: env1 } => match tc_let_finish(name, type_ann, vt, env1) {
                TcOut::Failed { e, env } => TcOut::Failed { e, env },
                TcOut::Typed { t: resolved, env: env2 } => match body {
                    Option::None => TcOut::Typed { t: resolved, env: env2 },
                    Option::Some(b) => tc(*b, env2),
                },
            },
        },
        SExpr::Defn { name, params, return_type, body } => {
            let ft = SType::Fun { params: stype_params(params), ret: Box::new(return_type) };
            match tc(*body, tenv_with_params(env.insert(name, ft), params)) {
                TcOut::Failed { e, .. } => TcOut::Failed { e, env },
                TcOut::Typed { t: bt, .. } => if bt != return_type && return_type
                    != SType::Inferred {
                    TcOut::Failed {
                        e: STypeError::ReturnMismatch { expected: return_type, got: bt },
                        env,
                    }
                } else {
                    TcOut::Typed { t: ft, env: env.insert(name, ft) }
                },
            }
        },
        SExpr::Lambda { params, return_type, body } => match tc(
            *body,
            tenv_with_params(env, params),
        ) {
            TcOut::Failed { e, .. } => TcOut::Failed { e, env },
            TcOut::Typed { t: bt, .. } => match return_type {
                Option::Some(rt) => if bt != rt && rt != SType::Inferred {
                    TcOut::Failed {
                        e: STypeError::LambdaReturnMismatch { expected: rt, got: bt },
                        env,
                    }
                } else {
                    TcOut::Typed {
                        t: SType::Fun { params: stype_params(params), ret: Box::new(bt) },
                        env,
                    }
                },
                Option::None => TcOut::Typed {
                    t: SType::Fun { params: stype_params(params), ret: Box::new(bt) },
                    env,
                },
            },
        },
        SExpr::Call { func, args } => match tc(*func, env) {
            TcOut::Failed { e, env } => TcOut::Failed { e, env },
            TcOut::Typed { t: ft, env: env1 } => match ft {
                SType::Fun { params: pts, ret } => if args.len() != pts.len() {
                    TcOut::Failed {
                        e: STypeError::ArityMismatch { expected: pts.len(), got: args.len() },
                        env: env1,
                    }
                } else {
                    tc_args(args, pts, *ret, *ret, 0, env1)
                },
                _ => TcOut::Failed { e: STypeError::NotAFunction { got: ft }, env: env1 },
            },
        },
        SExpr::List(items) => if items.len() == 0 {
            TcOut::Failed { e: STypeError::EmptyList, env }
        } else {
            match items[0] {
                SExpr::Symbol(op) => if op == "if"@ {
                    if items.len() != 4 {
                        TcOut::Failed { e: STypeError::IfArity, env }
                    } else {
                        match tc(items[1], env) {
                            TcOut::Failed { e, env } => TcOut::Failed { e, env },
                            TcOut::Typed { t: ct, env: env1 } => if ct != SType::Bool {
                                TcOut::Failed { e: STypeError::CondNotBool { got: ct }, env: env1 }
                            } else {
                                match tc(items[2], env1) {
                                    TcOut::Failed { e, env } => TcOut::Failed { e, env },
                                    TcOut::Typed { t: tt, env: env2 } => match tc(items[3], env2) {
                                        TcOut::Failed { e, env } => TcOut::Failed { e, env },
                                        TcOut::Typed { t: et, env: env3 } => if tt != et {
                                            TcOut::Failed {
                                                e: STypeError::BranchMismatch {
                                                    then_type: tt,
                                                    else_type: et,
                                                },
                                                env: env3,
                                            }
                                        } else {
                                            TcOut::Typed { t: tt, env: env3 }
                                        },
                                    },
                                }
                            },
                        }
                    }
                } else if op == "let"@ {
                    if items.len() < 3 {
                        TcOut::Failed { e: STypeError::LetTooFew, env }
                    } else {
                        match items[1] {
                            SExpr::Symbol(nm) => if items.len() == 4 {
                                match items[2] {
                                    SExpr::Symbol(ty_s) => match parse_type_model(ty_s) {
                                        Option::None => TcOut::Failed {
                                            e: STypeError::UnknownType { name: ty_s },
                                            env,
                                        },
                                        Option::Some(ann) => match tc(items[3], env) {
                                            TcOut::Failed { e, env } => TcOut::Failed { e, env },
                                            TcOut::Typed { t: vt, env: env1 } => tc_let_finish(
                                                nm,
                                                Option::Some(ann),
                                                vt,
                                                env1,
                                            ),
                                        },
                                    },
                                    _ => TcOut::Failed { e: STypeError::InvalidAnnotation, env },
                                }
                            } else {
                                match tc(items[2], env) {
                                    TcOut::Failed { e, env } => TcOut::Failed { e, env },
                                    TcOut::Typed { t: vt, env: env1 } => tc_let_finish(
                                        nm,
                                        Option::None,
                                        vt,
                                        env1,
                                    ),
                                }
                            },
                            _ => TcOut::Failed { e: STypeError::LetNameNotSymbol, env },
                        }
                    }
                } else {
                    tc_list_call(items, env)
                },
                _ => tc_list_call(items, env),
            }
        },
    }
}

/// A generic list checked as an application of its first element.
pub open spec fn tc_list_call(items: Seq<SExpr>, env: Map<Seq<char>, SType>) -> TcOut
    decreases items, items.len() + 1,
{
    if items.len() == 0 {
        TcOut::Failed { e: STypeError::EmptyList, env }
    } else {
        match tc(items[0], env) {
        TcOut::Failed { e, env } => TcOut::Failed { e, env },
        TcOut::Typed { t: ft, env: env1 } => match ft {
            SType::Fun { params: pts, ret } => if items.len() - 1 != pts.len() {
                TcOut::Failed {
                    e: STypeError::ArityMismatch {
                        expected: pts.len(),
                        got: (items.len() - 1) as nat,
                    },
                    env: env1,
                }
            } else {
                tc_args(items.subrange(1, items.len() as int), pts, *ret, *ret, 0, env1)
            },
            _ => TcOut::Failed { e: STypeError::NotAFunction { got: ft }, env: env1 },
        },
        }
    }
}

/// The argument positions of a call, checked left to right; when the
/// declared result is the placeholder, the last argument's type becomes the
/// call's type.
pub open spec fn tc_args(
    args: Seq<SExpr>,
    pts: Seq<SType>,
    ret0: SType,
    actual: SType,
    i: int,
    env: Map<Seq<char>, SType>,
) -> TcOut
    decreases args, (if i < args.len() { args.len() - i } else { 0int }) as nat,
{
    if i < 0 || i >= args.len() {
        TcOut::Typed { t: actual, env }
    } else {
        match tc(args[i], env) {
            TcOut::Failed { e, env } => TcOut::Failed { e, env },
            TcOut::Typed { t: at, env: env1 } => if pts[i] != SType::Inferred && at != pts[i] {
                TcOut::Failed { e: STypeError::ArgMismatch { expected: pts[i], got: at }, env: env1 }
            } else {
                tc_args(
                    args,
                    pts,
                    ret0,
                    if ret0 == SType::Inferred {
                        at
                    } else {
                        actual
                    },
                    i + 1,
                    env1,
                )
            },
        }
    }
}

// ---------------------------------------------------------------------------
// The executable checker
// ---------------------------------------------------------------------------
/// What `type_check` leaves behind, stated against the mirror `tc`.
pub open spec fn tc_matches(
    r: Result<Type, TypeError>,
    out: TcOut,
    env_after: Map<Seq<char>, SType>,
) -> bool {
    match r {
        Result::Ok(t) => out == (TcOut::Typed { t: type_view(t), env: env_after }),
        Result::Err(e) => out == (TcOut::Failed { e: terr_view(e), env: env_after }),
    }
}

/// Assign a static type to an expression, or report the first error; the
/// returned value and the final environment are exactly those of `tc`.
#[verifier::loop_isolation(false)]
pub fn type_check(expr: &Expr, env: &mut TypeEnv) -> (r: Result<Type, TypeError>)
    ensures
        tc_matches(r, tc(expr_view(*expr), tenv_view(*old(env))), tenv_view(*final(env))),
    decreases *expr, 0nat,
{
    match expr {
        Expr::Integer32(_) => Result::Ok(Type::I32),
        Expr::Integer64(_) => Result::Ok(Type::I64),
        Expr::Float(_) => Result::Ok(Type::F64),
        Expr::Bool(_) => Result::Ok(Type::Bool),
        Expr::String(_) => Result::Ok(Type::String),
        Expr::Symbol(name) => match env.get(name.as_str()) {
            Option::Some(t) => Result::Ok(t.duplicate()),
            Option::None => Result::Err(TypeError::Undefined { name: name.clone() }),
        },
        Expr::If { condition, then_branch, else_branch } => {
            let ct = match type_check(condition, env) {
                Result::Ok(t) => t,
                Result::Err(e) => {
                    return Result::Err(e);
                },
            };
            if !ct.same_as(&Type::Bool) {
                return Result::Err(TypeError::CondNotBool { got: ct });
            }
            let tt = match type_check(then_branch, env) {
                Result::Ok(t) => t,
                Result::Err(e) => {
                    return Result::Err(e);
                },
            };
            let et = match type_check(else_branch, env) {
                Result::Ok(t) => t,
                Result::Err(e) => {
                    return Result::Err(e);
                },
            };
            if !tt.same_as(&et) {
                return Result::Err(TypeError::BranchMismatch { then_type: tt, else_type: et });
            }
            Result::Ok(tt)
        },
        Expr::Let { name, type_ann, value, body } => {
            let vt = match type_check(value, env) {
                Result::Ok(t) => t,
                Result::Err(e) => {
                    return Result::Err(e);
                },
            };
            let resolved: Type = match type_ann {
                Option::Some(ann) => {
                    let inferred = match ann {
                        Type::Inferred => true,
                        _ => false,
                    };
                    if !inferred && !ann.same_as(&vt) {
                        return Result::Err(
                            TypeError::AnnotationMismatch { expected: ann.duplicate(), got: vt },
                        );
                    }
                    if inferred {
                        vt
                    } else {
                        ann.duplicate()
                    }
                },
                Option::None => vt,
            };
            env.insert(name.clone(), resolved.duplicate());
            match body {
                Option::None => {
                    proof {
                        assert(sopt_view(body) == Option::<Box<SExpr>>::None);
                    }
                    Result::Ok(resolved)
                },
                Option::Some(b) => {
                    proof {
                        assert(sopt_view(body) == Option::Some(
                            Box::new(crate::ast::rc_view(b)),
                        ));
                    }
                    type_check(b, env)
                },
            }
        },
        Expr::Defn { name, params, return_type, body } => {
            let ft = function_type_of(params, return_type.duplicate());
            let mut inner = env.extend();
            inner.insert(name.clone(), ft.duplicate());
            insert_params(&mut inner, params);
            let bt = match type_check(body, &mut inner) {
                Result::Ok(t) => t,
                Result::Err(e) => {
                    return Result::Err(e);
                },
            };
            if !bt.same_as(return_type) && !return_type.same_as(&Type::Inferred) {
                return Result::Err(
                    TypeError::ReturnMismatch { expected: return_type.duplicate(), got: bt },
                );
            }
            env.insert(name.clone(), ft.duplicate());
            Result::Ok(ft)
        },
        Expr::Lambda { params, return_type, body } => {
            let mut inner = scope_with_params(env, params);
            let bt = match type_check(body, &mut inner) {
                Result::Ok(t) => t,
                Result::Err(e) => {
                    return Result::Err(e);
                },
            };
            match type_ann_ref(return_type) {
                Option::Some(rt) => {
                    if !bt.same_as(rt) && !rt.same_as(&Type::Inferred) {
                        return Result::Err(
                            TypeError::LambdaReturnMismatch {
                                expected: rt.duplicate(),
                                got: bt,
                            },
                        );
                    }
                    Result::Ok(function_type_of(params, bt))
                },
                Option::None => Result::Ok(function_type_of(params, bt)),
            }
        },
        Expr::Call { func, args } => {
            let ft = match type_check(func, env) {
                Result::Ok(t) => t,
                Result::Err(e) => {
                    return Result::Err(e);
                },
            };
            match ft {
                Type::Function { params: pts, return_type: ret } => {
                    proof {
                        assert(sparams(pts@).len() == pts@.len());
                        assert(sexprs(args@).len() == args@.len());
                    }
                    if args.len() != pts.len() {
                        return Result::Err(
                            TypeError::ArityMismatch { expected: pts.len(), got: args.len() },
                        );
                    }
                    proof {
                        assert(sexprs(args@).subrange(0, args@.len() as int) =~= sexprs(args@));
                    }
                    check_args(args, 0, &pts, &ret, env)
                },
                other => Result::Err(TypeError::NotAFunction { got: other }),
            }
        },
        Expr::List(items) => {
            if items.len() == 0 {
                return Result::Err(TypeError::EmptyList);
            }
            let head: &Expr = &items[0];
            proof {
                assert(expr_view(*items@[0]) == sexprs(items@)[0]);
            }
            match head {
                Expr::Symbol(op) => {
                    if str_eq(op.as_str(), "if") {
                        if items.len() != 4 {
                            return Result::Err(TypeError::IfArity);
                        }
                        let ct = match type_check(&items[1], env) {
                            Result::Ok(t) => t,
                            Result::Err(e) => {
                                return Result::Err(e);
                            },
                        };
                        if !ct.same_as(&Type::Bool) {
                            return Result::Err(TypeError::CondNotBool { got: ct });
                        }
                        let tt = match type_check(&items[2], env) {
                            Result::Ok(t) => t,
                            Result::Err(e) => {
                                return Result::Err(e);
                            },
                        };
                        let et = match type_check(&items[3], env) {
                            Result::Ok(t) => t,
                            Result::Err(e) => {
                                return Result::Err(e);
                            },
                        };
                        if !tt.same_as(&et) {
                            return Result::Err(
                                TypeError::BranchMismatch { then_type: tt, else_type: et },
                            );
                        }
                        Result::Ok(tt)
                    } else if str_eq(op.as_str(), "let") {
                        if items.len() < 3 {
                            return Result::Err(TypeError::LetTooFew);
                        }
                        let second: &Expr = &items[1];
                        proof {
                            assert(expr_view(*items@[1]) == sexprs(items@)[1]);
                        }
                        match second {
                            Expr::Symbol(nm) => {
                                if items.len() == 4 {
                                    let third: &Expr = &items[2];
                                    proof {
                                        assert(expr_view(*items@[2]) == sexprs(items@)[2]);
                                    }
                                    match third {
                                        Expr::Symbol(ty_s) => {
                                            let ann = match parse_type(ty_s.as_str()) {
                                                Result::Ok(t) => t,
                                                Result::Err(e) => {
                                                    return Result::Err(e);
                                                },
                                            };
                                            let vt = match type_check(&items[3], env) {
                                                Result::Ok(t) => t,
                                                Result::Err(e) => {
                                                    return Result::Err(e);
                                                },
                                            };
                                            let inferred = match &ann {
                                                Type::Inferred => true,
                                                _ => false,
                                            };
                                            if !inferred && !ann.same_as(&vt) {
                                                return Result::Err(
                                                    TypeError::AnnotationMismatch {
                                                        expected: ann,
                                                        got: vt,
                                                    },
                                                );
                                            }
                                            if inferred {
                                                env.insert(nm.clone(), vt.duplicate());
                                                Result::Ok(vt)
                                            } else {
                                                env.insert(nm.clone(), ann.duplicate());
                                                Result::Ok(ann)
                                            }
                                        },
                                        _ => Result::Err(TypeError::InvalidAnnotation),
                                    }
                                } else {
                                    let vt = match type_check(&items[2], env) {
                                        Result::Ok(t) => t,
                                        Result::Err(e) => {
                                            return Result::Err(e);
                                        },
                                    };
                                    env.insert(nm.clone(), vt.duplicate());
                                    Result::Ok(vt)
                                }
                            },
                            _ => Result::Err(TypeError::LetNameNotSymbol),
                        }
                    } else {
                        check_list_call(items, env)
                    }
                },
                _ => check_list_call(items, env),
            }
        },
    }
}

/// A fresh scope holding the surrounding bindings and the parameters.
#[verifier::loop_isolation(false)]
fn scope_with_params(env: &TypeEnv, params: &Vec<(String, Type)>) -> (r: TypeEnv)
    ensures
        tenv_view(r) == tenv_with_params(tenv_view(*env), sbindings(params@)),
{
    let mut inner = env.extend();
    insert_params(&mut inner, params);
    inner
}

/// Install each parameter binding, in order, into the given scope.
#[verifier::loop_isolation(false)]
fn insert_params(inner: &mut TypeEnv, params: &Vec<(String, Type)>)
    ensures
        tenv_view(*final(inner)) == tenv_with_params(tenv_view(*old(inner)), sbindings(params@)),
{
    let ghost e0 = tenv_view(*inner);
    let ghost sb = sbindings(params@);
    let mut i: usize = 0;
    proof {
        assert(sb.subrange(0, 0) =~= Seq::<(Seq<char>, SType)>::empty());
    }
    while i < params.len()
        invariant
            i <= params.len(),
            tenv_view(*inner) == tenv_with_params(e0, sb.subrange(0, i as int)),
        decreases params.len() - i,
    {
        inner.insert(params[i].0.clone(), (&params[i].1).duplicate());
        i = i + 1;
        proof {
            assert(sb.subrange(0, i as int).drop_last() =~= sb.subrange(0, i - 1));
            assert(sb.subrange(0, i as int).last() == sb[i - 1]);
        }
    }
    proof {
        assert(sb.subrange(0, params@.len() as int) =~= sb);
    }
}

/// The function type written over a parameter list.
#[verifier::loop_isolation(false)]
fn function_type_of(params: &Vec<(String, Type)>, ret: Type) -> (r: Type)
    ensures
        type_view(r) == (SType::Fun {
            params: stype_params(sbindings(params@)),
            ret: Box::new(type_view(ret)),
        }),
{
    let mut ps: Vec<Type> = Vec::new();
    let mut i: usize = 0;
    while i < params.len()
        invariant
            i <= params.len(),
            ps@.len() == i as int,
            forall|j: int|
                0 <= j < i ==> type_view(#[trigger] ps@[j]) == type_view(params@[j].1),
        decreases params.len() - i,
    {
        ps.push((&params[i].1).duplicate());
        i = i + 1;
    }
    let r = Type::Function { params: ps, return_type: Box::new(ret) };
    proof {
        assert(sparams(r->Function_params@) =~= stype_params(sbindings(params@)));
    }
    r
}

/// Borrow the optional annotation.
fn type_ann_ref(o: &Option<Type>) -> (r: Option<&Type>)
    ensures
        match r {
            Option::Some(t) => o matches Option::Some(t0) && *t == t0,
            Option::None => o is None,
        },
{
    match o {
        Option::Some(t) => Option::Some(t),
        Option::None => Option::None,
    }
}

/// A generic list checked as an application of its first element.
#[verifier::loop_isolation(false)]
fn check_list_call(items: &Vec<Rc<Expr>>, env: &mut TypeEnv) -> (r: Result<Type, TypeError>)
    requires
        items@.len() > 0,
    ensures
        tc_matches(r, tc_list_call(sexprs(items@), tenv_view(*old(env))), tenv_view(*final(env))),
    decreases items@, items@.len() + 2,
{
    proof {
        assert(expr_view(*items@[0]) == sexprs(items@)[0]);
    }
    let ft = match type_check(&items[0], env) {
        Result::Ok(t) => t,
        Result::Err(e) => {
            return Result::Err(e);
        },
    };
    match ft {
        Type::Function { params: pts, return_type: ret } => {
            proof {
                assert(sparams(pts@).len() == pts@.len());
                assert(sexprs(items@).len() == items@.len());
            }
            if items.len() - 1 != pts.len() {
                return Result::Err(
                    TypeError::ArityMismatch { expected: pts.len(), got: items.len() - 1 },
                );
            }
            check_args(items, 1, &pts, &ret, env)
        },
        other => Result::Err(TypeError::NotAFunction { got: other }),
    }
}

/// The argument positions of a call, checked left to right.
#[verifier::loop_isolation(false)]
fn check_args(
    items: &Vec<Rc<Expr>>,
    start: usize,
    pts: &Vec<Type>,
    ret: &Type,
    env: &mut TypeEnv,
) -> (r: Result<Type, TypeError>)
    requires
        start <= items@.len(),
        items@.len() - start == pts@.len(),
    ensures
        tc_matches(
            r,
            tc_args(
                sexprs(items@).subrange(start as int, items@.len() as int),
                sparams(pts@),
                type_view(*ret),
                type_view(*ret),
                0,
                tenv_view(*old(env)),
            ),
            tenv_view(*final(env)),
        ),
    decreases items@, 0nat,
{
    let ghost sargs = sexprs(items@).subrange(start as int, items@.len() as int);
    let ghost spts = sparams(pts@);
    let ghost sret = type_view(*ret);
    let ghost env0 = tenv_view(*env);
    proof {
        assert(sexprs(items@).len() == items@.len());
        assert(sparams(pts@).len() == pts@.len());
    }
    let ret_inferred = match ret {
        Type::Inferred => true,
        _ => false,
    };
    let mut actual: Type = ret.duplicate();
    let mut i: usize = 0;
    while i < pts.len()
        invariant
            i <= pts@.len(),
            start + pts@.len() == items@.len(),
            sargs.len() == pts@.len(),
            spts.len() == pts@.len(),
            ret_inferred == (sret == SType::Inferred),
            tc_args(sargs, spts, sret, type_view(actual), i as int, tenv_view(*env)) == tc_args(
                sargs,
                spts,
                sret,
                sret,
                0,
                env0,
            ),
        decreases pts@.len() - i,
    {
        proof {
            vstd::std_specs::vec::axiom_spec_len(items);
            assert(sargs[i as int] == expr_view(*items@[start + i]));
        }
        let at = match type_check(&items[start + i], env) {
            Result::Ok(t) => t,
            Result::Err(e) => {
                return Result::Err(e);
            },
        };
        let pt = &pts[i];
        let pt_inferred = match pt {
            Type::Inferred => true,
            _ => false,
        };
        if !pt_inferred && !at.same_as(pt) {
            return Result::Err(TypeError::ArgMismatch { expected: pt.duplicate(), got: at });
        }
        if ret_inferred {
            actual = at;
        }
        i = i + 1;
    }
    Result::Ok(actual)
}

} // verus!
