use risp::ast::LispErr;
use risp::ast::LispVal;
use risp::ast::LispVal::{Atom, Bool};
use risp::parser::{atom, boolean, expr, scheme};

#[test]
fn test_parse_true() {
    let b = boolean("#t", 0);
    assert_eq!(b, Some((Bool(true), 2)))
}

#[test]
fn test_parse_fail_not_true() {
    fn parse(string: &str) {
        let b = boolean(string, 0);
        assert_eq!(b, None)
    }
    parse("true");
    parse("#T");
    parse("TRUE");
    parse("TruE");
}

#[test]
fn test_parse_atom() {
    fn parse_success(string: &str) {
        let a = atom(string, 0);
        assert_eq!(a, Some((Atom(string.to_string()), string.chars().count())))
    }
    fn parse_failed(string: &str) {
        let a = atom(string, 0);
        assert!(a.is_none(), "When parsing {}, result was {:?}", string, a)
    }
    parse_success("qwerty");
    parse_success("Qwerty");
    parse_success("QWERTY");
    parse_success("q1234");
    parse_success("Q1234");
    parse_success("Q1234!#$%&|*+-/:<=>?@^_~");
    parse_failed("1");
    parse_failed("\\");
}

#[test]
fn test_parse_expr() {
    fn parse_success(string: &str) {
        let a = expr(string, 0).map(|(v, p)| (v.render(), p));
        assert_eq!(a, Some((string.to_string(), string.chars().count())))
    }
    parse_success("cons");
    parse_success("1");
    parse_success("()");
    parse_success("(1)");
    parse_success("(1 2)");
    parse_success("\"1\"");
    parse_success("(1 . 2)");
    parse_success("\"1\"");
    parse_success("(define (adder x y) (+ x y))")
}

#[test]
fn test_round_trip_literals() {
    for text in ["42", "\"foo\"", "#t", "#f", "()", "(1 2 3)", "(1 . 2)"] {
        let v = scheme(text).unwrap();
        assert_eq!(v.render(), text);
    }
}

#[test]
fn test_total_consumption() {
    match scheme("(1 2) extra") {
        Err(LispErr::ParseError(_)) => {}
        other => panic!("expected a parse error, got {:?}", other),
    }
    assert!(scheme("").is_err());
    assert!(scheme(" 1").is_err());
    assert!(scheme("(1").is_err());
}

#[test]
fn test_boolean_token_is_not_an_atom() {
    assert_eq!(scheme("#t"), Ok(Bool(true)));
    assert_eq!(scheme("#f"), Ok(Bool(false)));
    // a longer token that merely starts like a boolean stays an atom
    assert_eq!(scheme("#true"), Ok(Atom("#true".to_string())));
}

#[test]
fn test_number_bounds() {
    assert_eq!(scheme("2147483647"), Ok(LispVal::Number(i32::MAX)));
    assert!(scheme("2147483648").is_err());
    assert!(scheme("99999999999999999999").is_err());
}

#[test]
fn test_quote_shorthand() {
    let v = scheme("'(1 2)").unwrap();
    assert_eq!(v.render(), "(quote (1 2))");
    let w = scheme("'x").unwrap();
    assert_eq!(w.render(), "(quote x)");
}

#[test]
fn test_malformed_lists() {
    assert!(scheme("(1 . 2 3)").is_err());
    assert!(scheme("(1 .2)").is_err());
    assert!(scheme("( 1)").is_err());
    assert!(scheme("(1  .  2)").is_err());
    assert!(scheme("(. 2)").is_err());
}

#[test]
fn test_nested_round_trip() {
    for text in ["((a b) (c d) . e)", "(quote (1 (2 (3))))", "(a . (1 2))"] {
        let v = scheme(text).unwrap();
        // a dotted tail that is itself a list prints in flattened form
        let canonical = scheme(&v.render()).unwrap();
        assert_eq!(v, canonical);
    }
}

#[test]
fn test_string_with_wide_characters() {
    let v = scheme("\"héllo λ\"").unwrap();
    assert_eq!(v, LispVal::Str("héllo λ".to_string()));
    assert_eq!(v.render(), "\"héllo λ\"");
}

#[test]
fn test_string_contents() {
    assert_eq!(scheme("\"\""), Ok(LispVal::Str("".to_string())));
    assert_eq!(
        scheme("\"a \\ b\""),
        Ok(LispVal::Str("a \\ b".to_string()))
    );
    assert!(scheme("\"unterminated").is_err());
}
