//! The expression and type vocabulary shared by the parser, the type checker
//! and the evaluator: executable trees, their mathematical models, and the
//! canonical text of each tree.
use crate::chars::str_chars;
use crate::numerals::{i32_text, i64_text, int_text};
use std::rc::Rc;
use vstd::prelude::*;

verus! {

/// Relies on `Rc::clone`: it returns a second handle to the same value.
#[verifier::external_body]
pub fn rc_dup<T>(v: &Rc<T>) -> (res: Rc<T>)
    ensures
        res == *v,
{
    Rc::clone(v)
}

// ---------------------------------------------------------------------------
// Types
// ---------------------------------------------------------------------------
/// The static types of the language.
#[derive(Debug, PartialEq)]
pub enum Type {
    I32,
    I64,
    F64,
    Bool,
    String,
    Function { params: Vec<Type>, return_type: Box<Type> },
    /// The placeholder that accepts any type, written `_`.
    Inferred,
}

/// Mathematical model of a `Type`.
pub enum SType {
    I32,
    I64,
    F64,
    Bool,
    Str,
    Fun { params: Seq<SType>, ret: Box<SType> },
    Inferred,
}

pub open spec fn type_view(t: Type) -> SType
    decreases t,
{
    match t {
        Type::I32 => SType::I32,
        Type::I64 => SType::I64,
        Type::F64 => SType::F64,
        Type::Bool => SType::Bool,
        Type::String => SType::Str,
        Type::Inferred => SType::Inferred,
        Type::Function { params, return_type } => SType::Fun {
            params: sparams(params@),
            ret: Box::new(type_view(*return_type)),
        },
    }
}

/// The printed form of a type: `i32`, `bool`, `fn(i32, i32) -> bool`, `_`.
pub open spec fn type_text(t: SType) -> Seq<char>
    decreases t, 0nat,
{
    match t {
        SType::I32 => seq!['i', '3', '2'],
        SType::I64 => seq!['i', '6', '4'],
        SType::F64 => seq!['f', '6', '4'],
        SType::Bool => seq!['b', 'o', 'o', 'l'],
        SType::Str => seq!['S', 't', 'r', 'i', 'n', 'g'],
        SType::Inferred => seq!['_'],
        SType::Fun { params, ret } => seq!['f', 'n', '('].add(types_text_from(params, 0)).add(
            seq![')', ' ', '-', '>', ' '],
        ).add(type_text(*ret)),
    }
}

/// The types from index `i` on, joined with `, `.
pub open spec fn types_text_from(ts: Seq<SType>, i: int) -> Seq<char>
    decreases ts, (if i < ts.len() { ts.len() - i } else { 0int }) as nat, 1nat,
{
    if i < 0 || i >= ts.len() {
        Seq::empty()
    } else if i == ts.len() - 1 {
        type_text(ts[i])
    } else {
        type_text(ts[i]).add(seq![',', ' ']).add(types_text_from(ts, i + 1))
    }
}

impl Type {
    /// Structural equality of types, decided executably.
    #[verifier::loop_isolation(false)]
    pub fn same_as(&self, other: &Type) -> (r: bool)
        ensures
            r == (type_view(*self) == type_view(*other)),
        decreases *self,
    {
        match (self, other) {
            (Type::I32, Type::I32) => true,
            (Type::I64, Type::I64) => true,
            (Type::F64, Type::F64) => true,
            (Type::Bool, Type::Bool) => true,
            (Type::String, Type::String) => true,
            (Type::Inferred, Type::Inferred) => true,
            (
                Type::Function { params: p1, return_type: r1 },
                Type::Function { params: p2, return_type: r2 },
            ) => {
                let ghost s1 = sparams(p1@);
                let ghost s2 = sparams(p2@);
                if p1.len() != p2.len() {
                    assert(s1.len() != s2.len());
                    false
                } else if !(&**r1).same_as(&**r2) {
                    false
                } else {
                    let mut i: usize = 0;
                    let mut all_eq = true;
                    while i < p1.len()
                        invariant
                            i <= p1.len(),
                            p1.len() == p2.len(),
                            s1 == sparams(p1@),
                            s2 == sparams(p2@),
                            all_eq == (forall|j: int| 0 <= j < i ==> s1[j] == s2[j]),
                        decreases p1.len() - i,
                    {
                        proof {
                            assert(decreases_to!(*self => *p1));
                            assert(decreases_to!(*p1 => p1@[i as int]));
                        }
                        let e = (&p1[i]).same_as(&p2[i]);
                        all_eq = all_eq && e;
                        proof {
                            assert(s1[i as int] == type_view(p1@[i as int]));
                            assert(s2[i as int] == type_view(p2@[i as int]));
                        }
                        i = i + 1;
                    }
                    proof {
                        if all_eq {
                            assert(s1 =~= s2);
                        } else {
                            assert(s1 != s2);
                        }
                    }
                    all_eq
                }
            },
            _ => false,
        }
    }

    /// A structurally equal copy of the type.
    #[verifier::loop_isolation(false)]
    pub fn duplicate(&self) -> (r: Type)
        ensures
            type_view(r) == type_view(*self),
        decreases *self,
    {
        match self {
            Type::I32 => Type::I32,
            Type::I64 => Type::I64,
            Type::F64 => Type::F64,
            Type::Bool => Type::Bool,
            Type::String => Type::String,
            Type::Inferred => Type::Inferred,
            Type::Function { params, return_type } => {
                let mut ps: Vec<Type> = Vec::new();
                let mut i: usize = 0;
                while i < params.len()
                    invariant
                        i <= params.len(),
                        ps.len() == i,
                        forall|j: int|
                            0 <= j < i ==> type_view(#[trigger] ps[j]) == type_view(params[j]),
                    decreases params.len() - i,
                {
                    proof {
                        assert(decreases_to!(*self => *params));
                        assert(decreases_to!(*params => params@[i as int]));
                    }
                    ps.push((&params[i]).duplicate());
                    i = i + 1;
                }
                let r = Type::Function {
                    params: ps,
                    return_type: Box::new((&**return_type).duplicate()),
                };
                proof {
                    assert(sparams(ps@) =~= sparams(params@));
                }
                r
            },
        }
    }

    /// The printed form of the type.
    #[verifier::loop_isolation(false)]
    pub fn text(&self) -> (r: Vec<char>)
        ensures
            r@ == type_text(type_view(*self)),
        decreases *self,
    {
        match self {
            Type::I32 => {
                let r = vec!['i', '3', '2'];
                proof {
                    assert(r@ =~= type_text(type_view(*self)));
                }
                r
            },
            Type::I64 => {
                let r = vec!['i', '6', '4'];
                proof {
                    assert(r@ =~= type_text(type_view(*self)));
                }
                r
            },
            Type::F64 => {
                let r = vec!['f', '6', '4'];
                proof {
                    assert(r@ =~= type_text(type_view(*self)));
                }
                r
            },
            Type::Bool => {
                let r = vec!['b', 'o', 'o', 'l'];
                proof {
                    assert(r@ =~= type_text(type_view(*self)));
                }
                r
            },
            Type::String => {
                let r = vec!['S', 't', 'r', 'i', 'n', 'g'];
                proof {
                    assert(r@ =~= type_text(type_view(*self)));
                }
                r
            },
            Type::Inferred => {
                let r = vec!['_'];
                proof {
                    assert(r@ =~= type_text(type_view(*self)));
                }
                r
            },
            Type::Function { params, return_type } => {
                let ghost ts = sparams(params@);
                let mut out: Vec<char> = vec!['f', 'n', '('];
                let mut i: usize = 0;
                proof {
                    assert(out@ =~= seq!['f', 'n', '(']);
                }
                while i < params.len()
                    invariant
                        i <= params.len(),
                        ts == sparams(params@),
                        ts.len() == params.len(),
                        seq!['f', 'n', '('].add(types_text_from(ts, 0)) =~= out@.add(
                            types_text_from(ts, i as int),
                        ),
                    decreases params.len() - i,
                {
                    proof {
                        assert(decreases_to!(*self => *params));
                        assert(decreases_to!(*params => params@[i as int]));
                    }
                    let mut piece = (&params[i]).text();
                    out.append(&mut piece);
                    if i + 1 < params.len() {
                        out.push(',');
                        out.push(' ');
                        proof {
                            assert(types_text_from(ts, i as int) =~= type_text(ts[i as int]).add(
                                seq![',', ' '],
                            ).add(types_text_from(ts, i + 1)));
                            assert(seq!['f', 'n', '('].add(types_text_from(ts, 0)) =~= out@.add(
                                types_text_from(ts, i + 1),
                            ));
                        }
                    } else {
                        proof {
                            assert(types_text_from(ts, i as int) =~= type_text(ts[i as int]));
                            assert(types_text_from(ts, i + 1) =~= Seq::<char>::empty());
                            assert(seq!['f', 'n', '('].add(types_text_from(ts, 0)) =~= out@.add(
                                types_text_from(ts, i + 1),
                            ));
                        }
                    }
                    i = i + 1;
                }
                out.push(')');
                out.push(' ');
                out.push('-');
                out.push('>');
                out.push(' ');
                let mut rt = (&**return_type).text();
                out.append(&mut rt);
                proof {
                    assert(types_text_from(ts, params@.len() as int) =~= Seq::<char>::empty());
                    assert(out@ =~= type_text(type_view(*self)));
                }
                out
            },
        }
    }
}

/// The models of a parameter-type vector, elementwise.
pub open spec fn sparams(ps: Seq<Type>) -> Seq<SType>
    decreases ps,
{
    Seq::new(
        ps.len(),
        |i: int|
            if 0 <= i < ps.len() {
                type_view(ps[i])
            } else {
                SType::Inferred
            },
    )
}

// ---------------------------------------------------------------------------
// Expressions
// ---------------------------------------------------------------------------
/// An expression tree.  The float literal carries the decimal text it was
/// written with; shared subtrees are reference counted.
#[derive(Debug, PartialEq)]
pub enum Expr {
    Integer32(i32),
    Integer64(i64),
    Float(String),
    Bool(bool),
    String(String),
    Symbol(String),
    /// A parenthesized form not yet resolved into a special form or a call.
    List(Vec<Rc<Expr>>),
    If { condition: Rc<Expr>, then_branch: Rc<Expr>, else_branch: Rc<Expr> },
    Let { name: String, type_ann: Option<Type>, value: Rc<Expr>, body: Option<Rc<Expr>> },
    Defn { name: String, params: Vec<(String, Type)>, return_type: Type, body: Rc<Expr> },
    Lambda { params: Vec<(String, Type)>, return_type: Option<Type>, body: Rc<Expr> },
    Call { func: Rc<Expr>, args: Vec<Rc<Expr>> },
}

/// Mathematical model of an `Expr`.
pub enum SExpr {
    Integer32(i32),
    Integer64(i64),
    Float(Seq<char>),
    Bool(bool),
    Str(Seq<char>),
    Symbol(Seq<char>),
    List(Seq<SExpr>),
    If { condition: Box<SExpr>, then_branch: Box<SExpr>, else_branch: Box<SExpr> },
    Let { name: Seq<char>, type_ann: Option<SType>, value: Box<SExpr>, body: Option<Box<SExpr>> },
    Defn { name: Seq<char>, params: Seq<(Seq<char>, SType)>, return_type: SType, body: Box<SExpr> },
    Lambda { params: Seq<(Seq<char>, SType)>, return_type: Option<SType>, body: Box<SExpr> },
    Call { func: Box<SExpr>, args: Seq<SExpr> },
}

/// The models of a parameter list, elementwise.
pub open spec fn sbindings(ps: Seq<(String, Type)>) -> Seq<(Seq<char>, SType)>
    decreases ps,
{
    Seq::new(
        ps.len(),
        |i: int|
            if 0 <= i < ps.len() {
                (ps[i].0@, type_view(ps[i].1))
            } else {
                (Seq::empty(), SType::Inferred)
            },
    )
}

/// The model of an optional type annotation.
pub open spec fn sopt_type(o: Option<Type>) -> Option<SType>
    decreases o,
{
    match o {
        Option::Some(t) => Option::Some(type_view(t)),
        Option::None => Option::None,
    }
}

/// The model of an optional shared subexpression.
pub open spec fn sopt_expr(o: Option<Rc<Expr>>) -> Option<Box<SExpr>>
    decreases o,
{
    match o {
        Option::Some(b) => Option::Some(Box::new(expr_view(*b))),
        Option::None => Option::None,
    }
}

pub open spec fn expr_view(e: Expr) -> SExpr
    decreases e,
{
    match e {
        Expr::Integer32(n) => SExpr::Integer32(n),
        Expr::Integer64(n) => SExpr::Integer64(n),
        Expr::Float(s) => SExpr::Float(s@),
        Expr::Bool(b) => SExpr::Bool(b),
        Expr::String(s) => SExpr::Str(s@),
        Expr::Symbol(s) => SExpr::Symbol(s@),
        Expr::List(items) => SExpr::List(sexprs(items@)),
        Expr::If { condition, then_branch, else_branch } => SExpr::If {
            condition: Box::new(expr_view(*condition)),
            then_branch: Box::new(expr_view(*then_branch)),
            else_branch: Box::new(expr_view(*else_branch)),
        },
        Expr::Let { name, type_ann, value, body } => SExpr::Let {
            name: name@,
            type_ann: sopt_type(type_ann),
            value: Box::new(expr_view(*value)),
            body: sopt_expr(body),
        },
        Expr::Defn { name, params, return_type, body } => SExpr::Defn {
            name: name@,
            params: sbindings(params@),
            return_type: type_view(return_type),
            body: Box::new(expr_view(*body)),
        },
        Expr::Lambda { params, return_type, body } => SExpr::Lambda {
            params: sbindings(params@),
            return_type: sopt_type(return_type),
            body: Box::new(expr_view(*body)),
        },
        Expr::Call { func, args } => SExpr::Call {
            func: Box::new(expr_view(*func)),
            args: sexprs(args@),
        },
    }
}

/// The model of an optional type annotation, through its reference.
pub open spec fn sopt_type_view(o: &Option<Type>) -> Option<SType> {
    sopt_type(*o)
}

// ---------------------------------------------------------------------------
// The canonical text of an expression
// ---------------------------------------------------------------------------
/// The printed form of an expression, exactly as the language writes it
/// back: literals in their own text, strings quoted, lists and the special
/// forms parenthesized with single spaces.
pub open spec fn expr_text(e: SExpr) -> Seq<char>
    decreases e, 0nat,
{
    match e {
        SExpr::Integer32(n) => int_text(n as int),
        SExpr::Integer64(n) => int_text(n as int),
        SExpr::Float(s) => s,
        SExpr::Bool(b) => if b {
            seq!['t', 'r', 'u', 'e']
        } else {
            seq!['f', 'a', 'l', 's', 'e']
        },
        SExpr::Str(s) => seq!['"'].add(s).push('"'),
        SExpr::Symbol(s) => s,
        SExpr::List(items) => seq!['('].add(exprs_text_from(items, 0)).push(')'),
        SExpr::If { condition, then_branch, else_branch } => seq!['(', 'i', 'f', ' '].add(
            expr_text(*condition),
        ).push(' ').add(expr_text(*then_branch)).push(' ').add(expr_text(*else_branch)).push(')'),
        SExpr::Let { name, type_ann, value, body } => {
            let ann_part = match type_ann {
                Option::Some(t) => seq![' '].add(type_text(t)),
                Option::None => Seq::empty(),
            };
            let body_part = match body {
                Option::Some(b) => seq![' '].add(expr_text(*b)),
                Option::None => Seq::empty(),
            };
            seq!['(', 'l', 'e', 't', ' '].add(name).add(ann_part).push(' ').add(
                expr_text(*value),
            ).add(body_part).push(')')
        },
        SExpr::Defn { name, params, return_type, body } => seq!['(', 'd', 'e', 'f', 'n', ' '].add(
            name,
        ).add(seq![' ', '[']).add(params_text_from(params, 0)).add(
            seq![']', ' ', '-', '>', ' '],
        ).add(type_text(return_type)).push(' ').add(expr_text(*body)).push(')'),
        SExpr::Lambda { params, return_type, body } => {
            let rt_part = match return_type {
                Option::Some(t) => seq![' ', '-', '>', ' '].add(type_text(t)),
                Option::None => Seq::empty(),
            };
            seq!['(', 'f', 'n', ' ', '['].add(params_text_from(params, 0)).push(']').add(
                rt_part,
            ).push(' ').add(expr_text(*body)).push(')')
        },
        SExpr::Call { func, args } => seq!['('].add(expr_text(*func)).add(
            call_args_text_from(args, 0),
        ).push(')'),
    }
}

/// The elements from index `i` on, joined with single spaces.
pub open spec fn exprs_text_from(items: Seq<SExpr>, i: int) -> Seq<char>
    decreases items, (if i < items.len() { items.len() - i } else { 0int }) as nat, 1nat,
{
    if i < 0 || i >= items.len() {
        Seq::empty()
    } else if i == items.len() - 1 {
        expr_text(items[i])
    } else {
        expr_text(items[i]).push(' ').add(exprs_text_from(items, i + 1))
    }
}

/// The arguments from index `i` on, each preceded by a space.
pub open spec fn call_args_text_from(args: Seq<SExpr>, i: int) -> Seq<char>
    decreases args, (if i < args.len() { args.len() - i } else { 0int }) as nat, 1nat,
{
    if i < 0 || i >= args.len() {
        Seq::empty()
    } else {
        seq![' '].add(expr_text(args[i])).add(call_args_text_from(args, i + 1))
    }
}

/// One `name: type` parameter.
pub open spec fn param_text(p: (Seq<char>, SType)) -> Seq<char> {
    p.0.add(seq![':', ' ']).add(type_text(p.1))
}

/// The parameters from index `i` on, joined with single spaces.
pub open spec fn params_text_from(ps: Seq<(Seq<char>, SType)>, i: int) -> Seq<char>
    decreases ps, (if i < ps.len() { ps.len() - i } else { 0int }) as nat, 1nat,
{
    if i < 0 || i >= ps.len() {
        Seq::empty()
    } else if i == ps.len() - 1 {
        param_text(ps[i])
    } else {
        param_text(ps[i]).push(' ').add(params_text_from(ps, i + 1))
    }
}

/// The model of an optional shared subexpression, through its reference.
pub open spec fn sopt_view(o: &Option<Rc<Expr>>) -> Option<Box<SExpr>> {
    sopt_expr(*o)
}

/// The model of a shared expression, through its handle.
pub open spec fn rc_view(e: &Rc<Expr>) -> SExpr {
    expr_view(**e)
}

/// The models of a vector of shared expressions, elementwise.
pub open spec fn sexprs(items: Seq<Rc<Expr>>) -> Seq<SExpr>
    decreases items,
{
    Seq::new(
        items.len(),
        |i: int|
            if 0 <= i < items.len() {
                expr_view(*items[i])
            } else {
                SExpr::Bool(false)
            },
    )
}

impl Expr {
    /// The printed form of the expression.
    #[verifier::loop_isolation(false)]
    #[verifier::rlimit(60)]
    pub fn text(&self) -> (r: Vec<char>)
        ensures
            r@ == expr_text(expr_view(*self)),
        decreases *self, 2nat,
    {
        match self {
            Expr::Integer32(n) => i32_text(*n),
            Expr::Integer64(n) => i64_text(*n),
            Expr::Float(s) => str_chars(s.as_str()),
            Expr::Bool(b) => {
                if *b {
                    let r = vec!['t', 'r', 'u', 'e'];
                    proof {
                        assert(r@ =~= expr_text(expr_view(*self)));
                    }
                    r
                } else {
                    let r = vec!['f', 'a', 'l', 's', 'e'];
                    proof {
                        assert(r@ =~= expr_text(expr_view(*self)));
                    }
                    r
                }
            },
            Expr::String(s) => {
                let mut out: Vec<char> = vec!['"'];
                let mut cs = str_chars(s.as_str());
                out.append(&mut cs);
                out.push('"');
                proof {
                    assert(out@ =~= expr_text(expr_view(*self)));
                }
                out
            },
            Expr::Symbol(s) => str_chars(s.as_str()),
            Expr::List(items) => {
                let mut out: Vec<char> = vec!['('];
                let mut inner = list_items_chars(items);
                out.append(&mut inner);
                out.push(')');
                proof {
                    assert(out@ =~= expr_text(expr_view(*self)));
                }
                out
            },
            Expr::If { condition, then_branch, else_branch } => {
                let mut out: Vec<char> = vec!['(', 'i', 'f', ' '];
                let mut c = condition.text();
                out.append(&mut c);
                out.push(' ');
                let mut t = then_branch.text();
                out.append(&mut t);
                out.push(' ');
                let mut e = else_branch.text();
                out.append(&mut e);
                out.push(')');
                proof {
                    assert(out@ =~= expr_text(expr_view(*self)));
                }
                out
            },
            Expr::Let { name, type_ann, value, body } => {
                let mut out: Vec<char> = vec!['(', 'l', 'e', 't', ' '];
                let mut nm = str_chars(name.as_str());
                out.append(&mut nm);
                match type_ann {
                    Option::Some(t) => {
                        proof {
                            assert(sopt_type_view(type_ann) == Option::Some(type_view(*t)));
                        }
                        out.push(' ');
                        let mut tt = t.text();
                        out.append(&mut tt);
                    },
                    Option::None => {
                        proof {
                            assert(sopt_type_view(type_ann) == Option::<SType>::None);
                        }
                    },
                }
                out.push(' ');
                let mut v = value.text();
                out.append(&mut v);
                match body {
                    Option::Some(b) => {
                        proof {
                            assert(sopt_view(body) == Option::Some(Box::new(rc_view(b))));
                        }
                        out.push(' ');
                        let mut bb = b.text();
                        out.append(&mut bb);
                    },
                    Option::None => {
                        proof {
                            assert(sopt_view(body) == Option::<Box<SExpr>>::None);
                        }
                    },
                }
                out.push(')');
                proof {
                    assert(out@ =~= expr_text(expr_view(*self)));
                }
                out
            },
            Expr::Defn { name, params, return_type, body } => {
                let mut out: Vec<char> = vec!['(', 'd', 'e', 'f', 'n', ' '];
                let mut nm = str_chars(name.as_str());
                out.append(&mut nm);
                out.push(' ');
                out.push('[');
                let mut ps = params_chars(params);
                out.append(&mut ps);
                out.push(']');
                out.push(' ');
                out.push('-');
                out.push('>');
                out.push(' ');
                let mut rt = return_type.text();
                out.append(&mut rt);
                out.push(' ');
                let mut bb = body.text();
                out.append(&mut bb);
                out.push(')');
                proof {
                    assert(out@ =~= expr_text(expr_view(*self)));
                }
                out
            },
            Expr::Lambda { params, return_type, body } => {
                let mut out: Vec<char> = vec!['(', 'f', 'n', ' ', '['];
                let mut ps = params_chars(params);
                out.append(&mut ps);
                out.push(']');
                match return_type {
                    Option::Some(t) => {
                        proof {
                            assert(sopt_type_view(return_type) == Option::Some(type_view(*t)));
                        }
                        out.push(' ');
                        out.push('-');
                        out.push('>');
                        out.push(' ');
                        let mut tt = t.text();
                        out.append(&mut tt);
                    },
                    Option::None => {
                        proof {
                            assert(sopt_type_view(return_type) == Option::<SType>::None);
                        }
                    },
                }
                out.push(' ');
                let mut bb = body.text();
                out.append(&mut bb);
                out.push(')');
                proof {
                    assert(out@ =~= expr_text(expr_view(*self)));
                }
                out
            },
            Expr::Call { func, args } => {
                let mut out: Vec<char> = vec!['('];
                let mut f = func.text();
                out.append(&mut f);
                let mut rest = call_args_chars(args);
                out.append(&mut rest);
                out.push(')');
                proof {
                    assert(out@ =~= expr_text(expr_view(*self)));
                }
                out
            },
        }
    }
}

/// The elements of a list form, joined with single spaces.
#[verifier::loop_isolation(false)]
fn list_items_chars(items: &Vec<Rc<Expr>>) -> (r: Vec<char>)
    ensures
        r@ == exprs_text_from(sexprs(items@), 0),
    decreases items@, 3nat,
{
    let ghost sv = sexprs(items@);
    let mut out: Vec<char> = Vec::new();
    let mut i: usize = 0;
    proof {
        assert(sv.len() == items@.len());
        assert(out@ =~= Seq::<char>::empty());
    }
    while i < items.len()
        invariant
            i <= items@.len(),
            exprs_text_from(sv, 0) =~= out@.add(exprs_text_from(sv, i as int)),
        decreases items@.len() - i,
    {
        proof {
            assert(sv[i as int] == expr_view(*items@[i as int]));
        }
        let mut piece = items[i].text();
        out.append(&mut piece);
        if i + 1 < items.len() {
            out.push(' ');
            proof {
                assert(exprs_text_from(sv, i as int) =~= expr_text(sv[i as int]).push(' ').add(
                    exprs_text_from(sv, i + 1),
                ));
                assert(exprs_text_from(sv, 0) =~= out@.add(exprs_text_from(sv, i + 1)));
            }
        } else {
            proof {
                assert(exprs_text_from(sv, i as int) =~= expr_text(sv[i as int]));
                assert(exprs_text_from(sv, i + 1) =~= Seq::<char>::empty());
                assert(exprs_text_from(sv, 0) =~= out@.add(exprs_text_from(sv, i + 1)));
            }
        }
        i = i + 1;
    }
    proof {
        assert(exprs_text_from(sv, items@.len() as int) =~= Seq::<char>::empty());
        assert(out@ =~= exprs_text_from(sv, 0));
    }
    out
}

/// The arguments of a call, each preceded by a space.
#[verifier::loop_isolation(false)]
fn call_args_chars(args: &Vec<Rc<Expr>>) -> (r: Vec<char>)
    ensures
        r@ == call_args_text_from(sexprs(args@), 0),
    decreases args@, 3nat,
{
    let ghost sv = sexprs(args@);
    let mut out: Vec<char> = Vec::new();
    let mut i: usize = 0;
    proof {
        assert(sv.len() == args@.len());
        assert(out@ =~= Seq::<char>::empty());
    }
    while i < args.len()
        invariant
            i <= args@.len(),
            call_args_text_from(sv, 0) =~= out@.add(call_args_text_from(sv, i as int)),
        decreases args@.len() - i,
    {
        proof {
            assert(sv[i as int] == expr_view(*args@[i as int]));
        }
        out.push(' ');
        let mut piece = args[i].text();
        out.append(&mut piece);
        proof {
            assert(call_args_text_from(sv, i as int) =~= seq![' '].add(
                expr_text(sv[i as int]),
            ).add(call_args_text_from(sv, i + 1)));
            assert(call_args_text_from(sv, 0) =~= out@.add(call_args_text_from(sv, i + 1)));
        }
        i = i + 1;
    }
    proof {
        assert(call_args_text_from(sv, args@.len() as int) =~= Seq::<char>::empty());
        assert(out@ =~= call_args_text_from(sv, 0));
    }
    out
}

/// A bracketed parameter list, `name: type` pairs joined with spaces.
#[verifier::loop_isolation(false)]
fn params_chars(params: &Vec<(String, Type)>) -> (r: Vec<char>)
    ensures
        r@ == params_text_from(sbindings(params@), 0),
{
    let ghost sv = sbindings(params@);
    let mut out: Vec<char> = Vec::new();
    let mut i: usize = 0;
    proof {
        assert(sv.len() == params@.len());
        assert(out@ =~= Seq::<char>::empty());
    }
    while i < params.len()
        invariant
            i <= params@.len(),
            params_text_from(sv, 0) =~= out@.add(params_text_from(sv, i as int)),
        decreases params@.len() - i,
    {
        proof {
            assert(sv[i as int] == (params@[i as int].0@, type_view(params@[i as int].1)));
        }
        let mut nm = str_chars(params[i].0.as_str());
        out.append(&mut nm);
        out.push(':');
        out.push(' ');
        let mut tt = (&params[i].1).text();
        out.append(&mut tt);
        if i + 1 < params.len() {
            out.push(' ');
            proof {
                assert(params_text_from(sv, i as int) =~= param_text(sv[i as int]).push(' ').add(
                    params_text_from(sv, i + 1),
                ));
                assert(params_text_from(sv, 0) =~= out@.add(params_text_from(sv, i + 1)));
            }
        } else {
            proof {
                assert(params_text_from(sv, i as int) =~= param_text(sv[i as int]));
                assert(params_text_from(sv, i + 1) =~= Seq::<char>::empty());
                assert(params_text_from(sv, 0) =~= out@.add(params_text_from(sv, i + 1)));
            }
        }
        i = i + 1;
    }
    proof {
        assert(params_text_from(sv, params@.len() as int) =~= Seq::<char>::empty());
        assert(out@ =~= params_text_from(sv, 0));
    }
    out
}

} // verus!
