use risp::ast::LispErr;
use risp::ast::LispVal;
use risp::ast::LispVal::{Bool, Nil, Number};
use risp::eval::{eval, Env};
use risp::parser::scheme;

fn eval_str(expr: &str) -> Result<LispVal, LispErr> {
    let mut env: Env = Env::new();
    eval_str_with_env(&mut env, expr)
}

fn eval_str_with_env(env: &mut Env, expr: &str) -> Result<LispVal, LispErr> {
    scheme(expr).and_then(|ast| eval(env, &ast))
}

fn parse(expr: &str) -> Result<LispVal, LispErr> {
    scheme(expr)
}

fn evals_to(e: &str, to: &str) {
    let expr = eval_str(e);
    let res = parse(to);
    assert_eq!(expr, res)
}

#[test]
fn test_cons() {
    evals_to("(cons 1 '())", "(1)");
    evals_to("(cons 2 (cons 1 '()))", "(2 1)");
    evals_to("(cons 3 (cons 2 (cons 1 '())))", "(3 2 1)");
}

#[test]
fn test_car() {
    evals_to("(car (cons 1 2))", "1");
}

#[test]
fn test_cdr() {
    evals_to("(cdr (cons 1 2))", "2");
    evals_to("(cdr '(1))", "()");
    evals_to("(cdr '((1 2 3) 4))", "(4)");
}

#[test]
fn test_monoidal_identities() {
    evals_to("(+)", "0");
    evals_to("(*)", "1");
    evals_to("(+ 1 2 3)", "6");
    evals_to("(* 2 3 4)", "24");
}

#[test]
fn test_cons_car_cdr_scenarios() {
    evals_to("(car (cons 1 2))", "1");
    evals_to("(cdr (cons 1 2))", "2");
    let v = eval_str("(cons 1 (quote ()))").unwrap();
    assert_eq!(v.render(), "(1)");
}

#[test]
fn test_if_branches() {
    evals_to("(if #t 1 2)", "1");
    evals_to("(if #f 1 2)", "2");
    match eval_str("(if 5 1 2)") {
        Err(LispErr::TypeMismatch(_, v)) => assert_eq!(v, Number(5)),
        other => panic!("expected a type mismatch, got {:?}", other),
    }
}

#[test]
fn test_if_short_circuits_side_effects() {
    let mut env = Env::new();
    eval_str_with_env(&mut env, "(define x 1)").unwrap();
    // only the selected branch runs, so x keeps its binding from the then branch
    eval_str_with_env(&mut env, "(if #t (set! x 2) (set! x 3))").unwrap();
    assert_eq!(eval_str_with_env(&mut env, "x"), Ok(Number(2)));
}

#[test]
fn test_define_and_set() {
    let mut env = Env::new();
    assert_eq!(eval_str_with_env(&mut env, "(define x 5)"), Ok(Number(5)));
    assert_eq!(eval_str_with_env(&mut env, "x"), Ok(Number(5)));
    match eval_str_with_env(&mut env, "y") {
        Err(LispErr::UnboundVar(_, name)) => assert_eq!(name, "y"),
        other => panic!("expected an unbound variable error, got {:?}", other),
    }
    match eval_str_with_env(&mut env, "(set! y 1)") {
        Err(LispErr::UnboundVar(_, name)) => assert_eq!(name, "y"),
        other => panic!("expected an unbound variable error, got {:?}", other),
    }
    assert_eq!(eval_str_with_env(&mut env, "(set! x 6)"), Ok(Number(6)));
    assert_eq!(eval_str_with_env(&mut env, "x"), Ok(Number(6)));
}

#[test]
fn test_arity_and_type_checks() {
    match eval_str("(cons 1)") {
        Err(LispErr::NumArgs(2, _)) => {}
        other => panic!("expected a wrong-argument-count error, got {:?}", other),
    }
    match eval_str("(+ 1 \"a\")") {
        Err(LispErr::TypeMismatch(_, v)) => assert_eq!(v, LispVal::Str("a".to_string())),
        other => panic!("expected a type mismatch, got {:?}", other),
    }
    match eval_str("(car 1 2)") {
        Err(LispErr::NumArgs(1, _)) => {}
        other => panic!("expected a wrong-argument-count error, got {:?}", other),
    }
}

#[test]
fn test_binary_numeric_primitives() {
    evals_to("(- 7 2)", "5");
    evals_to("(/ 7 2)", "3");
    evals_to("(quotient 7 2)", "3");
    evals_to("(remainder 7 2)", "1");
    assert_eq!(eval_str("(quotient (- 0 7) 2)"), Ok(Number(-3)));
    assert_eq!(eval_str("(remainder (- 0 7) 2)"), Ok(Number(-1)));
    evals_to("(= 1 1)", "#t");
    evals_to("(= 1 2)", "#f");
    evals_to("(> 2 1)", "#t");
    evals_to("(< 2 1)", "#f");
    evals_to("(>= 2 2)", "#t");
    evals_to("(<= 3 2)", "#f");
}

#[test]
fn test_division_by_zero_fails() {
    match eval_str("(/ 1 0)") {
        Err(LispErr::Default(_)) => {}
        other => panic!("expected the default error, got {:?}", other),
    }
    match eval_str("(remainder 1 0)") {
        Err(LispErr::Default(_)) => {}
        other => panic!("expected the default error, got {:?}", other),
    }
}

#[test]
fn test_arithmetic_overflow_fails() {
    match eval_str("(+ 2147483647 1)") {
        Err(LispErr::Default(_)) => {}
        other => panic!("expected the default error, got {:?}", other),
    }
    match eval_str("(* 65536 65536)") {
        Err(LispErr::Default(_)) => {}
        other => panic!("expected the default error, got {:?}", other),
    }
}

#[test]
fn test_boolean_folds() {
    evals_to("(&&)", "#t");
    evals_to("(||)", "#f");
    evals_to("(&& #t #t)", "#t");
    evals_to("(&& #t #f)", "#f");
    evals_to("(|| #f #t)", "#t");
    evals_to("(|| #f #f)", "#f");
    match eval_str("(&& #t 1)") {
        Err(LispErr::TypeMismatch(_, v)) => assert_eq!(v, Number(1)),
        other => panic!("expected a type mismatch, got {:?}", other),
    }
}

#[test]
fn test_equality_predicates() {
    evals_to("(eq? 1 1)", "#t");
    evals_to("(eqv? 1 2)", "#f");
    evals_to("(eq? (quote (1 2)) (quote (1 2)))", "#t");
    evals_to("(eq? 1 \"1\")", "#f");
    evals_to("(eqv? '() '())", "#t");
}

#[test]
fn test_unknown_name_is_not_a_function() {
    match eval_str("(frobnicate 1)") {
        Err(LispErr::NotFunction(name, _)) => assert_eq!(name, "frobnicate"),
        other => panic!("expected a not-a-function error, got {:?}", other),
    }
}

#[test]
fn test_bad_special_form() {
    match eval_str("((1) 2)") {
        Err(LispErr::BadSpecialForm(_, _)) => {}
        other => panic!("expected a bad-special-form error, got {:?}", other),
    }
}

#[test]
fn test_quote_returns_argument_unevaluated() {
    let v = eval_str("(quote (+ 1 2))").unwrap();
    assert_eq!(v.render(), "(+ 1 2)");
    // the dotted shape reaches quote through the same element view
    assert_eq!(eval_str("(quote . 5)"), Ok(Number(5)));
    // self-evaluating forms
    assert_eq!(eval_str("7"), Ok(Number(7)));
    assert_eq!(eval_str("#t"), Ok(Bool(true)));
    assert_eq!(eval_str("()"), Ok(Nil));
    assert_eq!(eval_str("\"s\""), Ok(LispVal::Str("s".to_string())));
}

#[test]
fn test_debug_returns_first_argument() {
    assert_eq!(eval_str("(debug 7 8)"), Ok(Number(7)));
    match eval_str("(debug)") {
        Err(LispErr::NumArgs(1, _)) => {}
        other => panic!("expected a wrong-argument-count error, got {:?}", other),
    }
}

#[test]
fn test_arguments_evaluate_left_to_right() {
    let mut env = Env::new();
    eval_str_with_env(&mut env, "(define x 1)").unwrap();
    // the second argument sees the mutation made by the first
    assert_eq!(
        eval_str_with_env(&mut env, "(+ (set! x 10) x)"),
        Ok(Number(20))
    );
}
