//! Runtime values and the environment model: a flat association table with
//! later bindings shadowing earlier ones, which realizes the chained
//! local-then-parent lookup of lexical scopes, abstracted as a map from
//! names to values.
use crate::ast::{rc_dup, expr_view, Expr, SExpr};
use crate::chars::{str_chars, string_from_chars};
use crate::numerals::{dec_digits, int_text, i32_text, i64_text, u64_digits};
use vstd::prelude::*;

verus! {

use std::rc::Rc;

/// A runtime value.  A float carries the decimal text denoting it; a
/// function value captures its defining environment by value.
#[derive(Debug, PartialEq)]
pub enum Value {
    Integer32(i32),
    Integer64(i64),
    Float(String),
    Bool(bool),
    String(String),
    Function { params: Vec<String>, body: Rc<Expr>, env: Environment },
    BuiltinFunction { name: String, arity: usize },
}

/// Mathematical model of a `Value`.
pub enum SValue {
    Integer32(i32),
    Integer64(i64),
    Float(Seq<char>),
    Bool(bool),
    Str(Seq<char>),
    Closure { params: Seq<Seq<char>>, body: SExpr, env: Map<Seq<char>, SValue> },
    Builtin { name: Seq<char>, arity: nat },
}

/// A lexical scope: name-to-value bindings, the last binding for a name
/// shadowing every earlier one.
#[derive(Debug, PartialEq)]
pub struct Environment {
    values: Vec<(String, Value)>,
}

/// The parameter names of a closure, as character sequences.
pub open spec fn snames(ps: Seq<String>) -> Seq<Seq<char>> {
    Seq::new(
        ps.len(),
        |i: int|
            if 0 <= i < ps.len() {
                ps[i]@
            } else {
                Seq::empty()
            },
    )
}

pub open spec fn value_view(v: Value) -> SValue
    decreases v,
{
    match v {
        Value::Integer32(n) => SValue::Integer32(n),
        Value::Integer64(n) => SValue::Integer64(n),
        Value::Float(s) => SValue::Float(s@),
        Value::Bool(b) => SValue::Bool(b),
        Value::String(s) => SValue::Str(s@),
        Value::Function { params, body, env } => SValue::Closure {
            params: snames(params@),
            body: expr_view(*body),
            env: env_view(env),
        },
        Value::BuiltinFunction { name, arity } => SValue::Builtin {
            name: name@,
            arity: arity as nat,
        },
    }
}

/// The map that an association table denotes: later entries win.
pub open spec fn table_view(entries: Seq<(String, Value)>) -> Map<Seq<char>, SValue>
    decreases entries,
{
    if entries.len() == 0 {
        Map::empty()
    } else {
        table_view(entries.drop_last()).insert(
            entries.last().0@,
            value_view(entries.last().1),
        )
    }
}

pub closed spec fn env_view(e: Environment) -> Map<Seq<char>, SValue>
    decreases e,
{
    table_view(e.values@)
}

/// Entries beyond position `n` that never mention a name leave its binding
/// untouched.
pub proof fn lemma_table_view_skip(entries: Seq<(String, Value)>, k: Seq<char>, n: int)
    requires
        0 <= n <= entries.len(),
        forall|j: int| n <= j < entries.len() ==> (#[trigger] entries[j].0)@ != k,
    ensures
        table_view(entries).contains_key(k) == table_view(
            entries.subrange(0, n),
        ).contains_key(k),
        table_view(entries).contains_key(k) ==> table_view(entries)[k] == table_view(
            entries.subrange(0, n),
        )[k],
    decreases entries.len() - n,
{
    if n == entries.len() {
        assert(entries.subrange(0, n) =~= entries);
    } else {
        lemma_table_view_skip(entries, k, n + 1);
        let t = entries.subrange(0, n + 1);
        assert(t.drop_last() =~= entries.subrange(0, n));
        assert(t.last() == entries[n]);
    }
}

/// The fixed operator and function table of the root environment.
pub open spec fn builtins() -> Map<Seq<char>, SValue> {
    Map::empty().insert("+"@, SValue::Builtin { name: "+"@, arity: 2 }).insert(
        "-"@,
        SValue::Builtin { name: "-"@, arity: 2 },
    ).insert("*"@, SValue::Builtin { name: "*"@, arity: 2 }).insert(
        "/"@,
        SValue::Builtin { name: "/"@, arity: 2 },
    ).insert("+."@, SValue::Builtin { name: "+."@, arity: 2 }).insert(
        "-."@,
        SValue::Builtin { name: "-."@, arity: 2 },
    ).insert("*."@, SValue::Builtin { name: "*."@, arity: 2 }).insert(
        "/."@,
        SValue::Builtin { name: "/."@, arity: 2 },
    ).insert("="@, SValue::Builtin { name: "="@, arity: 2 }).insert(
        "<"@,
        SValue::Builtin { name: "<"@, arity: 2 },
    ).insert(">"@, SValue::Builtin { name: ">"@, arity: 2 }).insert(
        "<="@,
        SValue::Builtin { name: "<="@, arity: 2 },
    ).insert(">="@, SValue::Builtin { name: ">="@, arity: 2 }).insert(
        "and"@,
        SValue::Builtin { name: "and"@, arity: 2 },
    ).insert("or"@, SValue::Builtin { name: "or"@, arity: 2 }).insert(
        "not"@,
        SValue::Builtin { name: "not"@, arity: 1 },
    ).insert("print"@, SValue::Builtin { name: "print"@, arity: 1 }).insert(
        "println"@,
        SValue::Builtin { name: "println"@, arity: 1 },
    ).insert("type-of"@, SValue::Builtin { name: "type-of"@, arity: 1 })
}

impl Environment {
    /// An environment with no bindings at all.
    pub fn empty() -> (r: Environment)
        ensures
            env_view(r) == Map::<Seq<char>, SValue>::empty(),
    {
        Environment { values: Vec::new() }
    }

    /// Install one built-in operation.
    fn add_builtin(&mut self, name: &str, arity: usize)
        ensures
            env_view(*final(self)) == env_view(*old(self)).insert(
                name@,
                SValue::Builtin { name: name@, arity: arity as nat },
            ),
    {
        self.set(name.to_owned(), Value::BuiltinFunction { name: name.to_owned(), arity });
    }

    /// The root environment, pre-populated with the built-in operator and
    /// function table.
    pub fn new() -> (r: Environment)
        ensures
            env_view(r) == builtins(),
    {
        let mut env = Environment::empty();
        env.add_builtin("+", 2);
        env.add_builtin("-", 2);
        env.add_builtin("*", 2);
        env.add_builtin("/", 2);
        env.add_builtin("+.", 2);
        env.add_builtin("-.", 2);
        env.add_builtin("*.", 2);
        env.add_builtin("/.", 2);
        env.add_builtin("=", 2);
        env.add_builtin("<", 2);
        env.add_builtin(">", 2);
        env.add_builtin("<=", 2);
        env.add_builtin(">=", 2);
        env.add_builtin("and", 2);
        env.add_builtin("or", 2);
        env.add_builtin("not", 1);
        env.add_builtin("print", 1);
        env.add_builtin("println", 1);
        env.add_builtin("type-of", 1);
        env
    }

    /// The value bound to a name, if any: the most recent binding wins.
    pub fn get(&self, name: &str) -> (r: Option<&Value>)
        ensures
            match r {
                Option::Some(v) => env_view(*self).contains_key(name@) && value_view(*v)
                    == env_view(*self)[name@],
                Option::None => !env_view(*self).contains_key(name@),
            },
    {
        let key: String = name.to_owned();
        let mut i: usize = self.values.len();
        while i > 0
            invariant
                i <= self.values.len(),
                key@ == name@,
                forall|j: int|
                    i <= j < self.values.len() ==> (#[trigger] self.values@[j].0)@ != name@,
            decreases i,
        {
            i = i - 1;
            if self.values[i].0 == key {
                proof {
                    lemma_table_view_skip(self.values@, name@, i + 1);
                    let t = self.values@.subrange(0, i + 1);
                    assert(t.drop_last() =~= self.values@.subrange(0, i as int));
                    assert(t.last() == self.values@[i as int]);
                }
                return Option::Some(&self.values[i].1);
            }
        }
        proof {
            lemma_table_view_skip(self.values@, name@, 0);
            assert(self.values@.subrange(0, 0) =~= Seq::<(String, Value)>::empty());
        }
        Option::None
    }

    /// Bind a name in this scope, shadowing any earlier binding.
    pub fn set(&mut self, name: String, value: Value)
        ensures
            env_view(*final(self)) == env_view(*old(self)).insert(name@, value_view(value)),
    {
        let ghost before = self.values@;
        let ghost k = name@;
        let ghost v = value_view(value);
        self.values.push((name, value));
        proof {
            assert(self.values@.drop_last() =~= before);
        }
    }

    /// A child scope: it sees every binding of this scope, and bindings made
    /// in it never leak back.
    pub fn extend(&self) -> (r: Self)
        ensures
            env_view(r) == env_view(*self),
    {
        self.duplicate()
    }

    /// A copy of the scope with the same bindings.
    pub fn duplicate(&self) -> (r: Self)
        ensures
            env_view(r) == env_view(*self),
        decreases *self,
    {
        let mut vs: Vec<(String, Value)> = Vec::new();
        let mut i: usize = 0;
        while i < self.values.len()
            invariant
                i <= self.values.len(),
                vs@.len() == i as int,
                forall|j: int|
                    0 <= j < i ==> (#[trigger] vs@[j].0)@ == self.values@[j].0@ && value_view(
                        vs@[j].1,
                    ) == value_view(self.values@[j].1),
            decreases self.values.len() - i,
        {
            proof {
                assert(decreases_to!(*self => self.values));
                assert(decreases_to!(self.values => self.values@[i as int]));
            }
            let name = self.values[i].0.clone();
            let val = self.values[i].1.duplicate();
            vs.push((name, val));
            i = i + 1;
        }
        let r = Environment { values: vs };
        proof {
            lemma_table_view_congruence(vs@, self.values@);
        }
        r
    }
}

/// Tables whose entries agree in name and model denote the same map.
pub proof fn lemma_table_view_congruence(a: Seq<(String, Value)>, b: Seq<(String, Value)>)
    requires
        a.len() == b.len(),
        forall|j: int|
            0 <= j < a.len() ==> (#[trigger] a[j].0)@ == b[j].0@ && value_view(a[j].1)
                == value_view(b[j].1),
    ensures
        table_view(a) == table_view(b),
    decreases a.len(),
{
    if a.len() > 0 {
        lemma_table_view_congruence(a.drop_last(), b.drop_last());
        assert(a.last() == a[a.len() - 1]);
        assert(b.last() == b[b.len() - 1]);
    }
}

impl Value {
    /// A value with the same model: scalars are copied, closures copy their
    /// captured scope.
    pub fn duplicate(&self) -> (r: Value)
        ensures
            value_view(r) == value_view(*self),
        decreases *self,
    {
        match self {
            Value::Integer32(n) => Value::Integer32(*n),
            Value::Integer64(n) => Value::Integer64(*n),
            Value::Float(s) => Value::Float(s.clone()),
            Value::Bool(b) => Value::Bool(*b),
            Value::String(s) => Value::String(s.clone()),
            Value::Function { params, body, env } => {
                let mut ps: Vec<String> = Vec::new();
                let mut i: usize = 0;
                while i < params.len()
                    invariant
                        i <= params.len(),
                        ps@.len() == i as int,
                        forall|j: int| 0 <= j < i ==> (#[trigger] ps@[j])@ == params@[j]@,
                    decreases params.len() - i,
                {
                    ps.push(params[i].clone());
                    i = i + 1;
                }
                let r = Value::Function {
                    params: ps,
                    body: rc_dup(body),
                    env: env.duplicate(),
                };
                proof {
                    assert(snames(ps@) =~= snames(params@));
                }
                r
            },
            Value::BuiltinFunction { name, arity } => Value::BuiltinFunction {
                name: name.clone(),
                arity: *arity,
            },
        }
    }

    /// The name of the value's runtime type tag.
    pub fn type_tag(&self) -> (r: String)
        ensures
            r@ == tag_text(value_view(*self)),
    {
        let chars: Vec<char> = match self {
            Value::Integer32(_) => vec!['i', '3', '2'],
            Value::Integer64(_) => vec!['i', '6', '4'],
            Value::Float(_) => vec!['f', '6', '4'],
            Value::Bool(_) => vec!['b', 'o', 'o', 'l'],
            Value::String(_) => vec!['S', 't', 'r', 'i', 'n', 'g'],
            Value::Function { .. } => vec!['f', 'u', 'n', 'c', 't', 'i', 'o', 'n'],
            Value::BuiltinFunction { .. } => vec!['b', 'u', 'i', 'l', 't', 'i', 'n'],
        };
        proof {
            assert(chars@ =~= tag_text(value_view(*self)));
        }
        string_from_chars(&chars)
    }
}

/// The runtime type tag of a value, as printed by `type-of`.
pub open spec fn tag_text(v: SValue) -> Seq<char> {
    match v {
        SValue::Integer32(_) => seq!['i', '3', '2'],
        SValue::Integer64(_) => seq!['i', '6', '4'],
        SValue::Float(_) => seq!['f', '6', '4'],
        SValue::Bool(_) => seq!['b', 'o', 'o', 'l'],
        SValue::Str(_) => seq!['S', 't', 'r', 'i', 'n', 'g'],
        SValue::Closure { .. } => seq!['f', 'u', 'n', 'c', 't', 'i', 'o', 'n'],
        SValue::Builtin { .. } => seq!['b', 'u', 'i', 'l', 't', 'i', 'n'],
    }
}

/// The printed form of a value: integers and booleans in their decimal or
/// keyword form, floats and strings as their own text, functions and
/// builtins as tagged summaries.
pub open spec fn value_text(v: SValue) -> Seq<char> {
    match v {
        SValue::Integer32(n) => int_text(n as int),
        SValue::Integer64(n) => int_text(n as int),
        SValue::Float(s) => s,
        SValue::Bool(b) => if b {
            seq!['t', 'r', 'u', 'e']
        } else {
            seq!['f', 'a', 'l', 's', 'e']
        },
        SValue::Str(s) => s,
        SValue::Closure { params, .. } => seq![
            '#', '<', 'f', 'u', 'n', 'c', 't', 'i', 'o', 'n', ':',
        ].add(dec_digits(params.len())).push('>'),
        SValue::Builtin { name, arity } => seq!['#', '<', 'b', 'u', 'i', 'l', 't', 'i', 'n', ':']
            .add(name).push(':').add(dec_digits(arity)).push('>'),
    }
}

impl Value {
    /// The characters of the value's printed form.
    pub fn display_chars(&self) -> (r: Vec<char>)
        ensures
            r@ == value_text(value_view(*self)),
    {
        match self {
            Value::Integer32(n) => i32_text(*n),
            Value::Integer64(n) => i64_text(*n),
            Value::Float(s) => str_chars(s.as_str()),
            Value::Bool(b) => {
                if *b {
                    let r = vec!['t', 'r', 'u', 'e'];
                    proof {
                        assert(r@ =~= value_text(value_view(*self)));
                    }
                    r
                } else {
                    let r = vec!['f', 'a', 'l', 's', 'e'];
                    proof {
                        assert(r@ =~= value_text(value_view(*self)));
                    }
                    r
                }
            },
            Value::String(s) => str_chars(s.as_str()),
            Value::Function { params, .. } => {
                let mut r = vec!['#', '<', 'f', 'u', 'n', 'c', 't', 'i', 'o', 'n', ':'];
                let mut count = u64_digits(params.len() as u64);
                r.append(&mut count);
                r.push('>');
                proof {
                    assert(snames(params@).len() == params@.len());
                    assert(r@ =~= value_text(value_view(*self)));
                }
                r
            },
            Value::BuiltinFunction { name, arity } => {
                let mut r = vec!['#', '<', 'b', 'u', 'i', 'l', 't', 'i', 'n', ':'];
                let mut nm = str_chars(name.as_str());
                r.append(&mut nm);
                r.push(':');
                let mut count = u64_digits(*arity as u64);
                r.append(&mut count);
                r.push('>');
                proof {
                    assert(r@ =~= value_text(value_view(*self)));
                }
                r
            },
        }
    }

    /// The value's printed form as a string.
    pub fn display_text(&self) -> (r: String)
        ensures
            r@ == value_text(value_view(*self)),
    {
        let chars = self.display_chars();
        string_from_chars(&chars)
    }
}

} // verus!
