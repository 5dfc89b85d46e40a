use risp::ast::Cons;
use risp::ast::LispVal;
use risp::ast::LispVal::{Bool, ConsList, Nil, Number, Str};
use std::rc::Rc;

#[test]
fn test_render_true() {
    let s = Bool(true).render();
    assert_eq!(s, "#t")
}

#[test]
fn test_render_false() {
    let s = Bool(true).render();
    assert_eq!(s, "#t")
}

#[test]
fn test_render_string() {
    let s = Str("foo".to_string()).render();
    assert_eq!(s, "\"foo\"")
}

#[test]
fn test_render_int() {
    let s = Number(1).render();
    assert_eq!(s, "1")
}

#[test]
fn test_render_empty_list() {
    let s = Nil.render();
    assert_eq!(s, "()")
}

#[test]
fn test_render_one_item_list() {
    let s = ConsList(Rc::new(Cons {
        car: Rc::new(Number(1)),
        cdr: Rc::new(Nil),
    }))
    .render();
    assert_eq!(s, "(1)")
}

#[test]
fn test_render_two_item_list() {
    let s = LispVal::cons(Number(1), LispVal::cons(Number(2), Nil)).render();
    assert_eq!(s, "(1 2)")
}

#[test]
fn test_render_one_item_dotted_list() {
    let s = LispVal::cons(Nil, Number(1)).render();
    assert_eq!(s, "(() . 1)")
}

#[test]
fn test_render_negative_int() {
    assert_eq!(Number(-5).render(), "-5");
    assert_eq!(Number(i32::MIN).render(), "-2147483648");
    assert_eq!(Number(i32::MAX).render(), "2147483647");
    assert_eq!(Number(0).render(), "0");
}

#[test]
fn test_car_cdr_of_pair() {
    let p = LispVal::cons(Number(1), Number(2));
    assert_eq!(p.car(), Ok(Number(1)));
    assert_eq!(p.cdr(), Ok(Number(2)));
    assert!(p.is_cons());
    assert!(!Nil.is_cons());
    assert!(Number(3).car().is_err());
    assert!(Number(3).cdr().is_err());
}

#[test]
fn test_projections() {
    assert_eq!(Bool(true).boolean(), Ok(true));
    assert_eq!(Number(7).integer(), Ok(7));
    assert!(Number(7).boolean().is_err());
    assert!(Bool(true).integer().is_err());
}

#[test]
fn test_is_dotted() {
    let proper = LispVal::cons(Number(1), LispVal::cons(Number(2), Nil));
    let dotted = LispVal::cons(Number(1), Number(2));
    match proper {
        ConsList(c) => assert!(!c.is_dotted()),
        _ => panic!("expected a cons"),
    }
    match dotted {
        ConsList(c) => assert!(c.is_dotted()),
        _ => panic!("expected a cons"),
    }
}

#[test]
fn test_iter_yields_elements_and_dotted_tail() {
    let dotted = LispVal::cons(Number(1), LispVal::cons(Number(2), Number(3)));
    let mut it = dotted.iter();
    assert_eq!(it.next(), Some(&Number(1)));
    assert_eq!(it.next(), Some(&Number(2)));
    assert_eq!(it.next(), Some(&Number(3)));
    assert_eq!(it.next(), None);

    let mut empty = Nil.iter();
    assert_eq!(empty.next(), None::<&LispVal>);

    let scalar = Number(9);
    let mut single = scalar.iter();
    assert_eq!(single.next(), Some(&Number(9)));
    assert_eq!(single.next(), None);
}

#[test]
fn test_eqv_ignores_sharing() {
    // one shared tail, aliased by two lists
    let tail = LispVal::cons(Number(2), Nil);
    let shared_a = LispVal::cons(Number(1), tail.clone());
    let shared_b = LispVal::cons(Number(1), tail);
    // the same lists, built from separate allocations
    let fresh = LispVal::cons(Number(1), LispVal::cons(Number(2), Nil));
    assert!(risp::ast::eqv_vals(&shared_a, &shared_b));
    assert!(risp::ast::eqv_vals(&shared_a, &fresh));
    assert!(!risp::ast::eqv_vals(&shared_a, &tail_less(&fresh)));
    // values of different tags are unequal, never an error
    assert!(!risp::ast::eqv_vals(&Number(1), &Str("1".to_string())));
}

fn tail_less(v: &LispVal) -> LispVal {
    v.cdr().unwrap()
}
