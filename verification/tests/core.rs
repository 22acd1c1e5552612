use rusp::ast::Expr;
use rusp::env::{Environment, Value};
use rusp::eval::{eval, EvalError};
use rusp::types::{parse_type, type_check, TypeEnv, TypeError};
use rusp::ast::Type;
use std::rc::Rc;

fn hook(_op: char, _a: &str, _b: &str) -> String {
    "0".to_string()
}

fn run(expr: &Expr, env: &mut Environment) -> Result<Value, EvalError> {
    let mut out: Vec<char> = Vec::new();
    eval(expr, env, &mut out, 1000, &hook)
}

#[test]
fn literal_integer_evaluates_to_itself() {
    let mut env = Environment::new();
    let r = run(&Expr::Integer32(42), &mut env).unwrap();
    assert_eq!(r, Value::Integer32(42));
}

#[test]
fn division_by_zero_fails() {
    let mut env = Environment::new();
    let e = Expr::Call {
        func: Rc::new(Expr::Symbol("/".to_string())),
        args: vec![Rc::new(Expr::Integer32(5)), Rc::new(Expr::Integer32(0))],
    };
    assert_eq!(run(&e, &mut env), Err(EvalError::DivisionByZero));
}

#[test]
fn nested_let_shadows_and_does_not_leak() {
    let mut env = Environment::new();
    let inner = Expr::Let {
        name: "x".to_string(),
        type_ann: None,
        value: Rc::new(Expr::Integer32(2)),
        body: Some(Rc::new(Expr::Symbol("x".to_string()))),
    };
    let outer = Expr::Let {
        name: "x".to_string(),
        type_ann: None,
        value: Rc::new(Expr::Integer32(1)),
        body: Some(Rc::new(inner)),
    };
    assert_eq!(run(&outer, &mut env).unwrap(), Value::Integer32(2));
    assert!(env.get("x").is_none());
}

#[test]
fn sequential_let_persists() {
    let mut env = Environment::new();
    let seq_let = Expr::Let {
        name: "x".to_string(),
        type_ann: None,
        value: Rc::new(Expr::Integer32(1)),
        body: None,
    };
    assert_eq!(run(&seq_let, &mut env).unwrap(), Value::Integer32(1));
    assert_eq!(
        run(&Expr::Symbol("x".to_string()), &mut env).unwrap(),
        Value::Integer32(1)
    );
}

#[test]
fn if_with_integer_condition_is_rejected() {
    let mut tenv = TypeEnv::new();
    let e = Expr::List(vec![
        Rc::new(Expr::Symbol("if".to_string())),
        Rc::new(Expr::Integer32(1)),
        Rc::new(Expr::Integer32(2)),
        Rc::new(Expr::Integer32(3)),
    ]);
    match type_check(&e, &mut tenv) {
        Err(TypeError::CondNotBool { .. }) => {}
        other => panic!("expected condition error, got {:?}", other),
    }
}

#[test]
fn call_arity_is_checked_statically() {
    let mut tenv = TypeEnv::new();
    let e = Expr::Call {
        func: Rc::new(Expr::Symbol("+".to_string())),
        args: vec![Rc::new(Expr::Integer32(1))],
    };
    match type_check(&e, &mut tenv) {
        Err(TypeError::ArityMismatch { expected: 2, got: 1 }) => {}
        other => panic!("expected arity error, got {:?}", other),
    }
}

#[test]
fn mismatched_integer_widths_fail() {
    let mut env = Environment::new();
    let e = Expr::Call {
        func: Rc::new(Expr::Symbol("+".to_string())),
        args: vec![Rc::new(Expr::Integer32(1)), Rc::new(Expr::Integer64(2))],
    };
    assert_eq!(
        run(&e, &mut env),
        Err(EvalError::IntOperands { op: "+".to_string() })
    );
}

#[test]
fn recursion_through_the_bound_name() {
    let mut env = Environment::new();
    let body = Expr::If {
        condition: Rc::new(Expr::Call {
            func: Rc::new(Expr::Symbol("=".to_string())),
            args: vec![
                Rc::new(Expr::Symbol("n".to_string())),
                Rc::new(Expr::Integer32(0)),
            ],
        }),
        then_branch: Rc::new(Expr::Integer32(1)),
        else_branch: Rc::new(Expr::Call {
            func: Rc::new(Expr::Symbol("*".to_string())),
            args: vec![
                Rc::new(Expr::Symbol("n".to_string())),
                Rc::new(Expr::Call {
                    func: Rc::new(Expr::Symbol("fact".to_string())),
                    args: vec![Rc::new(Expr::Call {
                        func: Rc::new(Expr::Symbol("-".to_string())),
                        args: vec![
                            Rc::new(Expr::Symbol("n".to_string())),
                            Rc::new(Expr::Integer32(1)),
                        ],
                    })],
                }),
            ],
        }),
    };
    let defn = Expr::Defn {
        name: "fact".to_string(),
        params: vec![("n".to_string(), rusp::ast::Type::I32)],
        return_type: rusp::ast::Type::I32,
        body: Rc::new(body),
    };
    run(&defn, &mut env).unwrap();
    let call = Expr::Call {
        func: Rc::new(Expr::Symbol("fact".to_string())),
        args: vec![Rc::new(Expr::Integer32(5))],
    };
    assert_eq!(run(&call, &mut env).unwrap(), Value::Integer32(120));
}

#[test]
fn print_returns_its_argument_and_writes_it() {
    let mut env = Environment::new();
    let mut out: Vec<char> = Vec::new();
    let e = Expr::Call {
        func: Rc::new(Expr::Symbol("println".to_string())),
        args: vec![Rc::new(Expr::Integer32(7))],
    };
    let r = eval(&e, &mut env, &mut out, 10, &hook).unwrap();
    assert_eq!(r, Value::Integer32(7));
    assert_eq!(out.iter().collect::<String>(), "7\n");
}

#[test]
fn type_of_names_the_runtime_tag() {
    let mut env = Environment::new();
    let e = Expr::Call {
        func: Rc::new(Expr::Symbol("type-of".to_string())),
        args: vec![Rc::new(Expr::Bool(true))],
    };
    assert_eq!(
        run(&e, &mut env).unwrap(),
        Value::String("bool".to_string())
    );
}

#[test]
fn recursive_defn_passes_the_checker() {
    let mut tenv = TypeEnv::new();
    let body = Expr::If {
        condition: Rc::new(Expr::Call {
            func: Rc::new(Expr::Symbol("=".to_string())),
            args: vec![
                Rc::new(Expr::Symbol("n".to_string())),
                Rc::new(Expr::Integer32(0)),
            ],
        }),
        then_branch: Rc::new(Expr::Integer32(1)),
        else_branch: Rc::new(Expr::Call {
            func: Rc::new(Expr::Symbol("fact".to_string())),
            args: vec![Rc::new(Expr::Integer32(4))],
        }),
    };
    let defn = Expr::Defn {
        name: "fact".to_string(),
        params: vec![("n".to_string(), rusp::ast::Type::I32)],
        return_type: rusp::ast::Type::I32,
        body: Rc::new(body),
    };
    type_check(&defn, &mut tenv).unwrap();
    let call = Expr::Call {
        func: Rc::new(Expr::Symbol("fact".to_string())),
        args: vec![Rc::new(Expr::Integer32(5))],
    };
    assert_eq!(type_check(&call, &mut tenv), Ok(rusp::ast::Type::I32));
}

#[test]
fn placeholder_annotation_resolves_to_value_type() {
    let mut tenv = TypeEnv::new();
    let e = Expr::Let {
        name: "x".to_string(),
        type_ann: Some(rusp::ast::Type::Inferred),
        value: Rc::new(Expr::Integer32(42)),
        body: None,
    };
    assert_eq!(type_check(&e, &mut tenv), Ok(rusp::ast::Type::I32));
    assert_eq!(
        type_check(&Expr::Symbol("x".to_string()), &mut tenv),
        Ok(rusp::ast::Type::I32)
    );
}

#[test]
fn let_in_body_is_type_checked() {
    let mut tenv = TypeEnv::new();
    let e = Expr::Let {
        name: "x".to_string(),
        type_ann: None,
        value: Rc::new(Expr::Integer32(1)),
        body: Some(Rc::new(Expr::Symbol("nope".to_string()))),
    };
    match type_check(&e, &mut tenv) {
        Err(TypeError::Undefined { name }) => assert_eq!(name, "nope"),
        other => panic!("expected undefined-variable error, got {:?}", other),
    }
}

#[test]
fn let_in_has_the_body_type() {
    let mut tenv = TypeEnv::new();
    let e = Expr::Let {
        name: "x".to_string(),
        type_ann: None,
        value: Rc::new(Expr::Integer32(1)),
        body: Some(Rc::new(Expr::Bool(true))),
    };
    assert_eq!(type_check(&e, &mut tenv), Ok(rusp::ast::Type::Bool));
}

#[test]
fn parse_type_knows_every_base_type() {
    assert_eq!(parse_type("i32"), Ok(Type::I32));
    assert_eq!(parse_type("i64"), Ok(Type::I64));
    assert_eq!(parse_type("f64"), Ok(Type::F64));
    assert_eq!(parse_type("bool"), Ok(Type::Bool));
    assert_eq!(parse_type("String"), Ok(Type::String));
    assert_eq!(parse_type("_"), Ok(Type::Inferred));
    assert_eq!(
        parse_type("i65"),
        Err(TypeError::UnknownType { name: "i65".to_string() })
    );
}

#[test]
fn type_of_passes_the_checker() {
    let mut tenv = TypeEnv::new();
    let e = Expr::Call {
        func: Rc::new(Expr::Symbol("type-of".to_string())),
        args: vec![Rc::new(Expr::Bool(true))],
    };
    assert_eq!(type_check(&e, &mut tenv), Ok(rusp::ast::Type::String));
}

#[test]
fn arity_failure_precedes_argument_effects() {
    let mut env = Environment::new();
    let mut out: Vec<char> = Vec::new();
    let e = Expr::Call {
        func: Rc::new(Expr::Symbol("not".to_string())),
        args: vec![
            Rc::new(Expr::Call {
                func: Rc::new(Expr::Symbol("println".to_string())),
                args: vec![Rc::new(Expr::Integer32(7))],
            }),
            Rc::new(Expr::Bool(true)),
        ],
    };
    let r = eval(&e, &mut env, &mut out, 100, &hook);
    assert_eq!(
        r,
        Err(EvalError::BuiltinArity {
            name: "not".to_string(),
            expected: 1,
            got: 2
        })
    );
    assert!(out.is_empty());
}

fn real_hook(op: char, a: &str, b: &str) -> String {
    let x: f64 = a.parse().unwrap();
    let y: f64 = b.parse().unwrap();
    let r = match op {
        '+' => x + y,
        '-' => x - y,
        '*' => x * y,
        _ => x / y,
    };
    format!("{}", r)
}

#[test]
fn float_division_returns_a_float() {
    let mut env = Environment::new();
    let mut out: Vec<char> = Vec::new();
    let e = Expr::Call {
        func: Rc::new(Expr::Symbol("/.".to_string())),
        args: vec![
            Rc::new(Expr::Float("3.0".to_string())),
            Rc::new(Expr::Float("2.0".to_string())),
        ],
    };
    let r = eval(&e, &mut env, &mut out, 100, &real_hook).unwrap();
    assert_eq!(r, Value::Float("1.5".to_string()));
    assert!(out.is_empty());
}

#[test]
fn float_division_by_zero_fails_before_the_host_runs() {
    let mut env = Environment::new();
    let mut out: Vec<char> = Vec::new();
    let e = Expr::Call {
        func: Rc::new(Expr::Symbol("/.".to_string())),
        args: vec![
            Rc::new(Expr::Float("1.0".to_string())),
            Rc::new(Expr::Float("-0.00".to_string())),
        ],
    };
    assert_eq!(
        eval(&e, &mut env, &mut out, 100, &real_hook),
        Err(EvalError::DivisionByZero)
    );
}

fn parse_ok(src: &str) -> Expr {
    rusp::parser::parse(src).unwrap()
}

#[test]
fn test_parse_integer() {
    let result = parse_ok("42");
    assert_eq!(result, Expr::Integer32(42));
}

#[test]
fn test_parse_simple_addition() {
    let result = parse_ok("(+ 1 2)");
    match result {
        Expr::List(exprs) => {
            assert_eq!(exprs.len(), 3);
            assert_eq!(*exprs[0], Expr::Symbol("+".to_string()));
            assert_eq!(*exprs[1], Expr::Integer32(1));
            assert_eq!(*exprs[2], Expr::Integer32(2));
        }
        _ => panic!("Expected List"),
    }
}

#[test]
fn integer_width_promotion() {
    assert_eq!(parse_ok("42"), Expr::Integer32(42));
    assert_eq!(parse_ok("2147483648"), Expr::Integer64(2147483648));
    assert_eq!(parse_ok("-2147483648"), Expr::Integer32(-2147483648));
    assert_eq!(parse_ok("-2147483649"), Expr::Integer64(-2147483649));
    assert_eq!(
        rusp::parser::parse("99999999999999999999"),
        Err(rusp::parser::ParseError::InvalidNumber(
            "99999999999999999999".to_string()
        ))
    );
}

#[test]
fn float_and_string_literals_parse() {
    assert_eq!(parse_ok("2.50"), Expr::Float("2.50".to_string()));
    assert_eq!(parse_ok("-0.5"), Expr::Float("-0.5".to_string()));
    assert_eq!(parse_ok("\"hi\""), Expr::String("hi".to_string()));
    assert_eq!(parse_ok("true"), Expr::Bool(true));
}

#[test]
fn trailing_input_is_reported() {
    assert_eq!(
        rusp::parser::parse("42 junk"),
        Err(rusp::parser::ParseError::UnexpectedInput(" junk".to_string()))
    );
}

#[test]
fn scoping_through_the_whole_pipeline() {
    let mut tenv = TypeEnv::new();
    let mut env = Environment::new();
    let mut out: Vec<char> = Vec::new();
    let e1 = parse_ok("(let x 1 (let x 2 x))");
    type_check(&e1, &mut tenv).unwrap();
    assert_eq!(
        eval(&e1, &mut env, &mut out, 100, &hook).unwrap(),
        Value::Integer32(2)
    );
    let e2 = parse_ok("(let x 1)");
    type_check(&e2, &mut tenv).unwrap();
    assert_eq!(
        eval(&e2, &mut env, &mut out, 100, &hook).unwrap(),
        Value::Integer32(1)
    );
    let e3 = parse_ok("x");
    type_check(&e3, &mut tenv).unwrap();
    assert_eq!(
        eval(&e3, &mut env, &mut out, 100, &hook).unwrap(),
        Value::Integer32(1)
    );
    let e4 = parse_ok("(let y 2 y)");
    type_check(&e4, &mut tenv).unwrap();
    eval(&e4, &mut env, &mut out, 100, &hook).unwrap();
    assert!(env.get("y").is_none());
}

#[test]
fn factorial_through_the_whole_pipeline() {
    let mut tenv = TypeEnv::new();
    let mut env = Environment::new();
    let mut out: Vec<char> = Vec::new();
    let d = parse_ok("(defn fact [n: i32] -> i32 (if (= n 0) 1 (* n (fact (- n 1)))))");
    type_check(&d, &mut tenv).unwrap();
    eval(&d, &mut env, &mut out, 1000, &hook).unwrap();
    let c = parse_ok("(fact 5)");
    assert_eq!(type_check(&c, &mut tenv), Ok(Type::I32));
    assert_eq!(
        eval(&c, &mut env, &mut out, 1000, &hook).unwrap(),
        Value::Integer32(120)
    );
}

#[test]
fn lambda_and_function_types_parse() {
    let e = parse_ok("(fn [x: i32] -> i32 x)");
    match &e {
        Expr::Lambda { params, return_type, .. } => {
            assert_eq!(params[0], ("x".to_string(), Type::I32));
            assert_eq!(*return_type, Some(Type::I32));
        }
        other => panic!("expected lambda, got {:?}", other),
    }
    let f = parse_ok("(let g fn(i32, i64) -> bool h)");
    match &f {
        Expr::Let { type_ann, .. } => {
            assert_eq!(
                *type_ann,
                Some(Type::Function {
                    params: vec![Type::I32, Type::I64],
                    return_type: Box::new(Type::Bool),
                })
            );
        }
        other => panic!("expected let, got {:?}", other),
    }
}

#[test]
fn literal_round_trip_through_render() {
    let cases = ["42", "2147483648", "-7", "true", "false", "\"hi\"", "2.50"];
    for src in cases.iter() {
        let e = parse_ok(src);
        let rendered: String = e.text().iter().collect();
        assert_eq!(&rendered, src);
        assert_eq!(parse_ok(&rendered), e);
    }
}

#[test]
fn renderer_writes_canonical_forms() {
    let e = parse_ok("(if true (+ 1 2) (let x 3 x))");
    let rendered: String = e.text().iter().collect();
    assert_eq!(rendered, "(if true (+ 1 2) (let x 3 x))");
    let d = parse_ok("(defn add [a: i32 b: i32] -> i32 (+ a b))");
    let rendered2: String = d.text().iter().collect();
    assert_eq!(rendered2, "(defn add [a: i32 b: i32] -> i32 (+ a b))");
}
