//! The evaluator: a tree walk over one value against a mutable variable
//! environment. Call-shaped forms named `quote`, `set!`, `define` and `if`
//! are special forms; every other call evaluates its arguments left to
//! right and applies a named primitive operation to them.
use crate::ast::result_view;
use crate::ast::str_eq;
use crate::ast::views_of;
use crate::ast::LispErr;
use crate::ast::LispVal;
use crate::ast::Sexpr;
use crate::ast::SpecErr;
use std::io::Write;
use vstd::prelude::*;

verus! {

/// The variable environment: one flat namespace mapping names to values,
/// owned by the host and mutated in place by `define` and `set!`.
#[derive(Debug)]
pub struct Env {
    entries: Vec<(String, LispVal)>,
}

/// The mapping a list of bindings stands for; a later binding for a name
/// overrides an earlier one.
pub open spec fn env_map(s: Seq<(String, LispVal)>) -> Map<Seq<char>, Sexpr>
    decreases s.len(),
{
    if s.len() == 0 {
        Map::empty()
    } else {
        env_map(s.drop_last()).insert(s.last().0@, s.last().1@)
    }
}

impl View for Env {
    type V = Map<Seq<char>, Sexpr>;

    closed spec fn view(&self) -> Map<Seq<char>, Sexpr> {
        env_map(self.entries@)
    }
}

/// A binding list whose suffix holds no binding for `key` maps `key` to
/// the value bound at the last position that names it.
proof fn lemma_env_map_found(s: Seq<(String, LispVal)>, key: Seq<char>, k: int)
    requires
        0 <= k < s.len(),
        s[k].0@ == key,
        forall|j: int| k < j < s.len() ==> s[j].0@ != key,
    ensures
        env_map(s).contains_key(key),
        env_map(s)[key] == s[k].1@,
    decreases s.len(),
{
    if k == s.len() - 1 {
    } else {
        lemma_env_map_found(s.drop_last(), key, k);
    }
}

/// A binding list that never names `key` does not map it.
proof fn lemma_env_map_absent(s: Seq<(String, LispVal)>, key: Seq<char>)
    requires
        forall|j: int| 0 <= j < s.len() ==> s[j].0@ != key,
    ensures
        !env_map(s).contains_key(key),
    decreases s.len(),
{
    if s.len() > 0 {
        lemma_env_map_absent(s.drop_last(), key);
    }
}

impl Env {
    /// A fresh environment with no bindings.
    pub fn new() -> (r: Env)
        ensures
            r@ == Map::<Seq<char>, Sexpr>::empty(),
    {
        Env { entries: Vec::new() }
    }

    /// The value bound to `name`, if any.
    pub fn get(&self, name: &str) -> (r: Option<&LispVal>)
        ensures
            match r {
                Some(v) => self@.contains_key(name@) && v@ == self@[name@],
                None => !self@.contains_key(name@),
            },
    {
        let mut k = self.entries.len();
        while k > 0
            invariant
                k <= self.entries@.len(),
                forall|j: int| k <= j < self.entries@.len() ==> self.entries@[j].0@ != name@,
            decreases k,
        {
            k = k - 1;
            if str_eq(self.entries[k].0.as_str(), name) {
                proof {
                    lemma_env_map_found(self.entries@, name@, k as int);
                }
                return Some(&self.entries[k].1);
            }
        }
        proof {
            lemma_env_map_absent(self.entries@, name@);
        }
        None
    }

    /// Binds `name` to `v`, overriding any earlier binding.
    pub fn insert(&mut self, name: String, v: LispVal)
        ensures
            final(self)@ == old(self)@.insert(name@, v@),
    {
        let ghost old_entries = self.entries@;
        let ghost key = name@;
        let ghost sval = v@;
        self.entries.push((name, v));
        proof {
            assert(self.entries@.drop_last() =~= old_entries);
            assert(self.entries@.last().0@ == key);
            assert(self.entries@.last().1@ == sval);
        }
    }
}

/// The single remaining element of an argument chain, when there is
/// exactly one: the head of a one-element chain, or a bare dotted tail.
pub open spec fn args1(d: Sexpr) -> Option<Sexpr> {
    match d {
        Sexpr::Nil => None,
        Sexpr::Pair(x, d2) => if *d2 == Sexpr::Nil {
            Some(*x)
        } else {
            None
        },
        _ => Some(d),
    }
}

/// The two remaining elements of an argument chain, when there are
/// exactly two.
pub open spec fn args2(d: Sexpr) -> Option<(Sexpr, Sexpr)> {
    match d {
        Sexpr::Pair(x, d2) => match args1(*d2) {
            Some(y) => Some((*x, y)),
            None => None,
        },
        _ => None,
    }
}

/// The three remaining elements of an argument chain, when there are
/// exactly three.
pub open spec fn args3(d: Sexpr) -> Option<(Sexpr, Sexpr, Sexpr)> {
    match d {
        Sexpr::Pair(x, d2) => match args2(*d2) {
            Some((y, z)) => Some((*x, y, z)),
            None => None,
        },
        _ => None,
    }
}

/// Whether an argument chain has the `(<atom> <form>)` shape that
/// `set!` and `define` ask for.
pub open spec fn is_var_form(d: Sexpr) -> bool {
    match args2(d) {
        Some((v, _)) => v is Atom,
        None => false,
    }
}

/// Truncated integer division, the quotient rounding toward zero.
pub open spec fn tdiv(x: int, d: int) -> int {
    if x == 0 {
        0
    } else if x > 0 && d > 0 {
        x / d
    } else if x < 0 && d < 0 {
        (x * -1) / (d * -1)
    } else if x < 0 {
        ((x * -1) / d) * -1
    } else {
        (x / (d * -1)) * -1
    }
}

/// The remainder of truncated division, taking the sign of the dividend.
pub open spec fn tmod(x: int, d: int) -> int {
    if x == 0 {
        0
    } else if x > 0 && d > 0 {
        x % d
    } else if x < 0 && d < 0 {
        ((x * -1) % (d * -1)) * -1
    } else if x < 0 {
        ((x * -1) % d) * -1
    } else {
        x % (d * -1)
    }
}

/// One step of a numeric fold.
pub open spec fn num_fold_step(op: NumFold, x: int, y: int) -> int {
    match op {
        NumFold::Add => x + y,
        NumFold::Mul => x * y,
    }
}

/// A numeric fold over already-evaluated arguments: a non-number argument
/// is a type mismatch, and a partial result outside the fixed width is a
/// default error.
pub open spec fn fold_num_spec(op: NumFold, acc: int, args: Seq<Sexpr>) -> Result<Sexpr, SpecErr>
    decreases args.len(),
{
    if args.len() == 0 {
        Ok(Sexpr::Number(acc))
    } else {
        match args[0] {
            Sexpr::Number(n) => {
                let s = num_fold_step(op, acc, n);
                if i32::MIN <= s <= i32::MAX {
                    fold_num_spec(op, s, args.skip(1))
                } else {
                    Err(SpecErr::DefaultErr)
                }
            },
            other => Err(SpecErr::TypeMismatch(other)),
        }
    }
}

/// One step of a boolean fold.
pub open spec fn bool_fold_step(op: BoolFold, x: bool, y: bool) -> bool {
    match op {
        BoolFold::Conj => x && y,
        BoolFold::Disj => x || y,
    }
}

/// A boolean fold over already-evaluated arguments: a non-boolean
/// argument is a type mismatch.
pub open spec fn fold_bool_spec(op: BoolFold, acc: bool, args: Seq<Sexpr>) -> Result<
    Sexpr,
    SpecErr,
>
    decreases args.len(),
{
    if args.len() == 0 {
        Ok(Sexpr::Bool(acc))
    } else {
        match args[0] {
            Sexpr::Bool(b) => fold_bool_spec(op, bool_fold_step(op, acc, b), args.skip(1)),
            other => Err(SpecErr::TypeMismatch(other)),
        }
    }
}

/// A strictly binary numeric primitive on two in-range numbers. Division
/// by zero, a quotient outside the fixed width, and the one remainder
/// whose division overflows are default errors, never silent wraparound.
pub open spec fn num_bin_spec(op: NumBin, x: int, y: int) -> Result<Sexpr, SpecErr> {
    match op {
        NumBin::Subtract => if i32::MIN <= x - y <= i32::MAX {
            Ok(Sexpr::Number(x - y))
        } else {
            Err(SpecErr::DefaultErr)
        },
        NumBin::Quotient => if y == 0 || !(i32::MIN <= tdiv(x, y) <= i32::MAX) {
            Err(SpecErr::DefaultErr)
        } else {
            Ok(Sexpr::Number(tdiv(x, y)))
        },
        NumBin::Remainder => if y == 0 || (x == i32::MIN && y == -1) {
            Err(SpecErr::DefaultErr)
        } else {
            Ok(Sexpr::Number(tmod(x, y)))
        },
        NumBin::NumEq => Ok(Sexpr::Bool(x == y)),
        NumBin::Greater => Ok(Sexpr::Bool(x > y)),
        NumBin::Less => Ok(Sexpr::Bool(x < y)),
        NumBin::GreaterEq => Ok(Sexpr::Bool(x >= y)),
        NumBin::LessEq => Ok(Sexpr::Bool(x <= y)),
    }
}

/// A strictly binary numeric primitive: exactly two arguments, both
/// numbers, else a wrong-argument-count or type-mismatch error.
pub open spec fn binary_num_spec(op: NumBin, args: Seq<Sexpr>) -> Result<Sexpr, SpecErr> {
    if args.len() != 2 {
        Err(SpecErr::NumArgs(2, Sexpr::Nil))
    } else {
        match (args[0], args[1]) {
            (Sexpr::Number(x), Sexpr::Number(y)) => num_bin_spec(op, x, y),
            _ => Err(SpecErr::TypeMismatch(Sexpr::Nil)),
        }
    }
}

/// A strictly unary primitive: `car` or `cdr` of a single pair argument.
pub open spec fn unary_spec(op: UnaryPrim, args: Seq<Sexpr>) -> Result<Sexpr, SpecErr> {
    if args.len() != 1 {
        Err(SpecErr::NumArgs(1, Sexpr::Nil))
    } else {
        match args[0] {
            Sexpr::Pair(a, d) => Ok(
                match op {
                    UnaryPrim::Car => *a,
                    UnaryPrim::Cdr => *d,
                },
            ),
            other => Err(SpecErr::TypeMismatch(other)),
        }
    }
}

/// A strictly binary constructor: `cons` of any two arguments.
pub open spec fn binary_spec(op: BinaryPrim, args: Seq<Sexpr>) -> Result<Sexpr, SpecErr> {
    if args.len() != 2 {
        Err(SpecErr::NumArgs(2, Sexpr::Nil))
    } else {
        match op {
            BinaryPrim::ConsCell => Ok(Sexpr::Pair(Box::new(args[0]), Box::new(args[1]))),
        }
    }
}

/// The equality predicate: exactly two arguments, compared structurally.
pub open spec fn eqv_prim_spec(args: Seq<Sexpr>) -> Result<Sexpr, SpecErr> {
    if args.len() != 2 {
        Err(SpecErr::NumArgs(2, Sexpr::Nil))
    } else {
        Ok(Sexpr::Bool(args[0] == args[1]))
    }
}

/// The debug primitive: at least one argument, whose first argument is
/// handed back after the arguments are printed.
pub open spec fn debug_spec(args: Seq<Sexpr>) -> Result<Sexpr, SpecErr> {
    if args.len() == 0 {
        Err(SpecErr::NumArgs(1, Sexpr::Nil))
    } else {
        Ok(args[0])
    }
}

/// The primitive table: what each known primitive name returns on a list
/// of already-evaluated arguments, or `None` for an unknown name.
pub open spec fn apply_prim_spec(name: Seq<char>, args: Seq<Sexpr>) -> Option<
    Result<Sexpr, SpecErr>,
> {
    if name == "debug"@ {
        Some(debug_spec(args))
    } else if name == "+"@ {
        Some(fold_num_spec(NumFold::Add, 0, args))
    } else if name == "*"@ {
        Some(fold_num_spec(NumFold::Mul, 1, args))
    } else if name == "quotient"@ {
        Some(binary_num_spec(NumBin::Quotient, args))
    } else if name == "remainder"@ {
        Some(binary_num_spec(NumBin::Remainder, args))
    } else if name == "-"@ {
        Some(binary_num_spec(NumBin::Subtract, args))
    } else if name == "/"@ {
        Some(binary_num_spec(NumBin::Quotient, args))
    } else if name == "="@ {
        Some(binary_num_spec(NumBin::NumEq, args))
    } else if name == ">"@ {
        Some(binary_num_spec(NumBin::Greater, args))
    } else if name == "<"@ {
        Some(binary_num_spec(NumBin::Less, args))
    } else if name == ">="@ {
        Some(binary_num_spec(NumBin::GreaterEq, args))
    } else if name == "<="@ {
        Some(binary_num_spec(NumBin::LessEq, args))
    } else if name == "||"@ {
        Some(fold_bool_spec(BoolFold::Disj, false, args))
    } else if name == "&&"@ {
        Some(fold_bool_spec(BoolFold::Conj, true, args))
    } else if name == "eq?"@ {
        Some(eqv_prim_spec(args))
    } else if name == "eqv?"@ {
        Some(eqv_prim_spec(args))
    } else if name == "cons"@ {
        Some(binary_spec(BinaryPrim::ConsCell, args))
    } else if name == "car"@ {
        Some(unary_spec(UnaryPrim::Car, args))
    } else if name == "cdr"@ {
        Some(unary_spec(UnaryPrim::Cdr, args))
    } else {
        None
    }
}

/// Application of a name to evaluated arguments: the primitive table,
/// with unknown names failing as not-a-function.
pub open spec fn apply_spec(name: Seq<char>, args: Seq<Sexpr>) -> Result<Sexpr, SpecErr> {
    match apply_prim_spec(name, args) {
        Some(r) => r,
        None => Err(SpecErr::NotFunction(name)),
    }
}

/// What one evaluation step returns, and the environment it leaves
/// behind. Self-evaluating forms return themselves; a bare atom is a
/// variable reference; `quote`, `set!`, `define` and `if` are special
/// forms; any other pair headed by an atom applies a primitive to its
/// evaluated arguments; a pair headed by anything else is a bad special
/// form.
pub open spec fn eval_spec(env: Map<Seq<char>, Sexpr>, e: Sexpr) -> (Map<Seq<char>, Sexpr>, Result<
    Sexpr,
    SpecErr,
>)
    decreases e, 0int,
{
    match e {
        Sexpr::Nil => (env, Ok(e)),
        Sexpr::Number(_) => (env, Ok(e)),
        Sexpr::Str(_) => (env, Ok(e)),
        Sexpr::Bool(_) => (env, Ok(e)),
        Sexpr::Atom(name) => if env.contains_key(name) {
            (env, Ok(env[name]))
        } else {
            (env, Err(SpecErr::UnboundVar(name)))
        },
        Sexpr::Pair(f, d) => match *f {
            Sexpr::Atom(name) => {
                if name == "quote"@ && args1(*d) is Some {
                    (
                        env,
                        Ok(
                            match args1(*d) {
                                Some(q) => q,
                                None => e,
                            },
                        ),
                    )
                } else if name == "set!"@ && is_var_form(*d) {
                    match *d {
                        Sexpr::Pair(v0, d1) => {
                            let var = match *v0 {
                                Sexpr::Atom(vn) => vn,
                                _ => Seq::empty(),
                            };
                            let form = match *d1 {
                                Sexpr::Pair(f0, _) => *f0,
                                _ => *d1,
                            };
                            let (env1, r1) = eval_spec(env, form);
                            match r1 {
                                Ok(v) => if env1.contains_key(var) {
                                    (env1.insert(var, v), Ok(v))
                                } else {
                                    (env1, Err(SpecErr::UnboundVar(var)))
                                },
                                Err(err) => (env1, Err(err)),
                            }
                        },
                        _ => (env, Err(SpecErr::BadSpecialForm(e))),
                    }
                } else if name == "define"@ && is_var_form(*d) {
                    match *d {
                        Sexpr::Pair(v0, d1) => {
                            let var = match *v0 {
                                Sexpr::Atom(vn) => vn,
                                _ => Seq::empty(),
                            };
                            let form = match *d1 {
                                Sexpr::Pair(f0, _) => *f0,
                                _ => *d1,
                            };
                            let (env1, r1) = eval_spec(env, form);
                            match r1 {
                                Ok(v) => (env1.insert(var, v), Ok(v)),
                                Err(err) => (env1, Err(err)),
                            }
                        },
                        _ => (env, Err(SpecErr::BadSpecialForm(e))),
                    }
                } else if name == "if"@ && args3(*d) is Some {
                    match *d {
                        Sexpr::Pair(c0, d1) => {
                            let (env1, r1) = eval_spec(env, *c0);
                            match r1 {
                                Ok(cv) => match cv {
                                    Sexpr::Bool(true) => match *d1 {
                                        Sexpr::Pair(t0, _) => eval_spec(env1, *t0),
                                        _ => (env1, Err(SpecErr::BadSpecialForm(e))),
                                    },
                                    Sexpr::Bool(false) => match *d1 {
                                        Sexpr::Pair(_, d2) => match *d2 {
                                            Sexpr::Pair(e0, _) => eval_spec(env1, *e0),
                                            _ => eval_spec(env1, *d2),
                                        },
                                        _ => (env1, Err(SpecErr::BadSpecialForm(e))),
                                    },
                                    other => (env1, Err(SpecErr::TypeMismatch(other))),
                                },
                                Err(err) => (env1, Err(err)),
                            }
                        },
                        _ => (env, Err(SpecErr::BadSpecialForm(e))),
                    }
                } else {
                    let (env1, r1) = eval_args_spec(env, *d);
                    match r1 {
                        Ok(vals) => (env1, apply_spec(name, vals)),
                        Err(err) => (env1, Err(err)),
                    }
                }
            },
            _ => (env, Err(SpecErr::BadSpecialForm(e))),
        },
    }
}

/// Evaluates the elements of an argument chain left to right, threading
/// the environment through, and stopping at the first error.
pub open spec fn eval_args_spec(env: Map<Seq<char>, Sexpr>, args: Sexpr) -> (Map<
    Seq<char>,
    Sexpr,
>, Result<Seq<Sexpr>, SpecErr>)
    decreases args, 1int,
{
    match args {
        Sexpr::Nil => (env, Ok(Seq::empty())),
        Sexpr::Pair(a, d) => {
            let (env1, r1) = eval_spec(env, *a);
            match r1 {
                Ok(v) => {
                    let (env2, r2) = eval_args_spec(env1, *d);
                    match r2 {
                        Ok(vs) => (env2, Ok(seq![v] + vs)),
                        Err(err) => (env2, Err(err)),
                    }
                },
                Err(err) => (env1, Err(err)),
            }
        },
        _ => {
            let (env1, r1) = eval_spec(env, args);
            match r1 {
                Ok(v) => (env1, Ok(seq![v])),
                Err(err) => (env1, Err(err)),
            }
        },
    }
}

/// The single remaining element of an argument chain, when there is
/// exactly one.
fn one_form<'a>(d: &'a LispVal) -> (r: Option<&'a LispVal>)
    ensures
        match r {
            Some(x) => args1(d@) == Some(x@) && (x == d || decreases_to!(*d => *x)),
            None => args1(d@) is None,
        },
{
    match d {
        LispVal::Nil => None,
        LispVal::ConsList(c) => match &*c.cdr {
            LispVal::Nil => {
                proof {
                    assert((*c.cdr)@ == Sexpr::Nil);
                    assert(decreases_to!(*d => *c.car));
                }
                Some(&*c.car)
            },
            _ => {
                proof {
                    assert(!((*c.cdr)@ is Nil));
                }
                None
            },
        },
        _ => Some(d),
    }
}

/// The two remaining elements of an argument chain, when there are
/// exactly two.
fn two_forms<'a>(d: &'a LispVal) -> (r: Option<(&'a LispVal, &'a LispVal)>)
    ensures
        match r {
            Some((x, y)) => args2(d@) == Some((x@, y@)) && decreases_to!(*d => *x)
                && decreases_to!(*d => *y),
            None => args2(d@) is None,
        },
{
    match d {
        LispVal::ConsList(c) => match one_form(&*c.cdr) {
            Some(y) => Some((&*c.car, y)),
            None => None,
        },
        _ => None,
    }
}

/// The three remaining elements of an argument chain, when there are
/// exactly three.
fn three_forms<'a>(d: &'a LispVal) -> (r: Option<(&'a LispVal, &'a LispVal, &'a LispVal)>)
    ensures
        match r {
            Some((x, y, z)) => args3(d@) == Some((x@, y@, z@)) && decreases_to!(*d => *x)
                && decreases_to!(*d => *y) && decreases_to!(*d => *z),
            None => args3(d@) is None,
        },
{
    match d {
        LispVal::ConsList(c) => match two_forms(&*c.cdr) {
            Some((y, z)) => Some((&*c.car, y, z)),
            None => None,
        },
        _ => None,
    }
}

/// Binds `var` to the given value, inserting or overwriting, and hands
/// the value back; `define` never fails.
pub fn define_var(env: &mut Env, var: String, form: &LispVal) -> (r: Result<LispVal, LispErr>)
    ensures
        final(env)@ == old(env)@.insert(var@, form@),
        r matches Ok(v) && v@ == form@,
{
    let value = form.clone();
    env.insert(var, value.clone());
    Ok(value)
}

/// Rebinds `var`, which must already be bound, to the given value and
/// hands the value back; an unbound name is an error and leaves the
/// environment unchanged.
pub fn set_var(env: &mut Env, var: String, form: &LispVal) -> (r: Result<LispVal, LispErr>)
    ensures
        old(env)@.contains_key(var@) ==> final(env)@ == old(env)@.insert(var@, form@) && (
        r matches Ok(v) && v@ == form@),
        !old(env)@.contains_key(var@) ==> final(env)@ == old(env)@ && (r matches Err(e) && e@
            == SpecErr::UnboundVar(var@)),
{
    let bound = env.get(var.as_str()).is_some();
    if bound {
        let value = form.clone();
        env.insert(var, value.clone());
        Ok(value)
    } else {
        Err(LispErr::UnboundVar("Setting an unbound variable".to_owned(), var))
    }
}

/// A numeric fold with the given identity element, so that zero
/// arguments yield the identity.
pub fn monoidal_numeric_op(op: NumFold, init: i32, args: &[LispVal]) -> (r: Result<
    LispVal,
    LispErr,
>)
    ensures
        result_view(r) == fold_num_spec(op, init as int, views_of(args@)),
{
    let mut acc: i32 = init;
    let mut k: usize = 0;
    proof {
        assert(views_of(args@).skip(0) =~= views_of(args@));
    }
    while k < args.len()
        invariant
            k <= args@.len(),
            fold_num_spec(op, init as int, views_of(args@)) == fold_num_spec(
                op,
                acc as int,
                views_of(args@).skip(k as int),
            ),
        decreases args@.len() - k,
    {
        let n = match args[k].integer() {
            Ok(n) => n,
            Err(e) => {
                return Err(e);
            },
        };
        let stepped = match op {
            NumFold::Add => acc.checked_add(n),
            NumFold::Mul => acc.checked_mul(n),
        };
        acc = match stepped {
            Some(s) => s,
            None => {
                return Err(
                    LispErr::Default("arithmetic result out of the fixed width".to_owned()),
                );
            },
        };
        k = k + 1;
        proof {
            assert(views_of(args@).skip(k - 1 as int).skip(1) =~= views_of(args@).skip(k as int));
        }
    }
    proof {
        assert(views_of(args@).skip(args@.len() as int) =~= Seq::<Sexpr>::empty());
    }
    Ok(LispVal::Number(acc))
}

/// A boolean fold with the given identity element.
pub fn monoidal_op(op: BoolFold, init: bool, args: &[LispVal]) -> (r: Result<LispVal, LispErr>)
    ensures
        result_view(r) == fold_bool_spec(op, init, views_of(args@)),
{
    let mut acc: bool = init;
    let mut k: usize = 0;
    proof {
        assert(views_of(args@).skip(0) =~= views_of(args@));
    }
    while k < args.len()
        invariant
            k <= args@.len(),
            fold_bool_spec(op, init, views_of(args@)) == fold_bool_spec(
                op,
                acc,
                views_of(args@).skip(k as int),
            ),
        decreases args@.len() - k,
    {
        let b = match args[k].boolean() {
            Ok(b) => b,
            Err(e) => {
                return Err(e);
            },
        };
        acc = match op {
            BoolFold::Conj => acc && b,
            BoolFold::Disj => acc || b,
        };
        k = k + 1;
        proof {
            assert(views_of(args@).skip(k - 1 as int).skip(1) =~= views_of(args@).skip(k as int));
        }
    }
    proof {
        assert(views_of(args@).skip(args@.len() as int) =~= Seq::<Sexpr>::empty());
    }
    Ok(LispVal::Bool(acc))
}

/// A strictly binary numeric primitive: exactly two number arguments.
pub fn binary_numeric_op(op: NumBin, args: &[LispVal]) -> (r: Result<LispVal, LispErr>)
    ensures
        result_view(r) == binary_num_spec(op, views_of(args@)),
{
    if args.len() != 2 {
        return Err(LispErr::NumArgs(2, LispVal::Nil));
    }
    match (&args[0], &args[1]) {
        (LispVal::Number(x), LispVal::Number(y)) => {
            let x = *x;
            let y = *y;
            match op {
                NumBin::Subtract => match x.checked_sub(y) {
                    Some(s) => Ok(LispVal::Number(s)),
                    None => Err(
                        LispErr::Default("arithmetic result out of the fixed width".to_owned()),
                    ),
                },
                NumBin::Quotient => match x.checked_div(y) {
                    Some(q) => Ok(LispVal::Number(q)),
                    None => Err(
                        LispErr::Default("division by zero or out of the fixed width".to_owned()),
                    ),
                },
                NumBin::Remainder => match x.checked_rem(y) {
                    Some(m) => Ok(LispVal::Number(m)),
                    None => Err(
                        LispErr::Default("division by zero or out of the fixed width".to_owned()),
                    ),
                },
                NumBin::NumEq => Ok(LispVal::Bool(x == y)),
                NumBin::Greater => Ok(LispVal::Bool(x > y)),
                NumBin::Less => Ok(LispVal::Bool(x < y)),
                NumBin::GreaterEq => Ok(LispVal::Bool(x >= y)),
                NumBin::LessEq => Ok(LispVal::Bool(x <= y)),
            }
        },
        _ => Err(
            LispErr::TypeMismatch(
                "Wrong type arguments for primitive function".to_owned(),
                LispVal::Nil,
            ),
        ),
    }
}

/// A strictly unary primitive: `car` or `cdr` of one argument.
pub fn unary_op(op: UnaryPrim, args: &[LispVal]) -> (r: Result<LispVal, LispErr>)
    ensures
        result_view(r) == unary_spec(op, views_of(args@)),
{
    if args.len() != 1 {
        return Err(LispErr::NumArgs(1, LispVal::Nil));
    }
    match op {
        UnaryPrim::Car => args[0].car(),
        UnaryPrim::Cdr => args[0].cdr(),
    }
}

/// A strictly binary constructor: `cons` of two arguments.
pub fn binary_op(op: BinaryPrim, args: &[LispVal]) -> (r: Result<LispVal, LispErr>)
    ensures
        result_view(r) == binary_spec(op, views_of(args@)),
{
    if args.len() != 2 {
        return Err(LispErr::NumArgs(2, LispVal::Nil));
    }
    match op {
        BinaryPrim::ConsCell => Ok(LispVal::cons(args[0].clone(), args[1].clone())),
    }
}

/// The equality predicate over exactly two arguments.
pub fn eqv(args: &[LispVal]) -> (r: Result<LispVal, LispErr>)
    ensures
        result_view(r) == eqv_prim_spec(views_of(args@)),
{
    if args.len() != 2 {
        return Err(LispErr::NumArgs(2, LispVal::Nil));
    }
    Ok(LispVal::Bool(crate::ast::eqv_vals(&args[0], &args[1])))
}

/// Relies on `std::io::Stdout` and the `Write` trait to print one value's
/// internal structure on standard output, as a debugging aid; nothing is
/// promised of the output.
#[verifier::external_body]
fn debug_line(v: &LispVal) {
    let mut out = std::io::stdout();
    let _ = writeln!(out, "{:?}", v);
}

/// The debug primitive: prints each argument's internal structure and
/// hands back the first; zero arguments is a wrong-argument-count error.
pub fn print_debug(args: &[LispVal]) -> (r: Result<LispVal, LispErr>)
    ensures
        result_view(r) == debug_spec(views_of(args@)),
{
    if args.len() == 0 {
        return Err(LispErr::NumArgs(1, LispVal::Nil));
    }
    let mut k: usize = 0;
    while k < args.len()
        decreases args@.len() - k,
    {
        debug_line(&args[k]);
        k = k + 1;
    }
    Ok(args[0].clone())
}

/// Looks a name up in the primitive table and applies it to evaluated
/// arguments, or says that no primitive has that name.
pub fn apply_prim(func: &str, args: &[LispVal]) -> (r: Option<Result<LispVal, LispErr>>)
    ensures
        match r {
            Some(res) => apply_prim_spec(func@, views_of(args@)) == Some(result_view(res)),
            None => apply_prim_spec(func@, views_of(args@)) is None,
        },
{
    if str_eq(func, "debug") {
        Some(print_debug(args))
    } else if str_eq(func, "+") {
        Some(monoidal_numeric_op(NumFold::Add, 0, args))
    } else if str_eq(func, "*") {
        Some(monoidal_numeric_op(NumFold::Mul, 1, args))
    } else if str_eq(func, "quotient") {
        Some(binary_numeric_op(NumBin::Quotient, args))
    } else if str_eq(func, "remainder") {
        Some(binary_numeric_op(NumBin::Remainder, args))
    } else if str_eq(func, "-") {
        Some(binary_numeric_op(NumBin::Subtract, args))
    } else if str_eq(func, "/") {
        Some(binary_numeric_op(NumBin::Quotient, args))
    } else if str_eq(func, "=") {
        Some(binary_numeric_op(NumBin::NumEq, args))
    } else if str_eq(func, ">") {
        Some(binary_numeric_op(NumBin::Greater, args))
    } else if str_eq(func, "<") {
        Some(binary_numeric_op(NumBin::Less, args))
    } else if str_eq(func, ">=") {
        Some(binary_numeric_op(NumBin::GreaterEq, args))
    } else if str_eq(func, "<=") {
        Some(binary_numeric_op(NumBin::LessEq, args))
    } else if str_eq(func, "||") {
        Some(monoidal_op(BoolFold::Disj, false, args))
    } else if str_eq(func, "&&") {
        Some(monoidal_op(BoolFold::Conj, true, args))
    } else if str_eq(func, "eq?") {
        Some(eqv(args))
    } else if str_eq(func, "eqv?") {
        Some(eqv(args))
    } else if str_eq(func, "cons") {
        Some(binary_op(BinaryPrim::ConsCell, args))
    } else if str_eq(func, "car") {
        Some(unary_op(UnaryPrim::Car, args))
    } else if str_eq(func, "cdr") {
        Some(unary_op(UnaryPrim::Cdr, args))
    } else {
        None
    }
}

/// Applies a name to evaluated arguments: an unknown name fails as
/// not-a-function.
pub fn apply(func: &str, args: &[LispVal]) -> (r: Result<LispVal, LispErr>)
    ensures
        result_view(r) == apply_spec(func@, views_of(args@)),
{
    match apply_prim(func, args) {
        Some(res) => res,
        None => Err(LispErr::NotFunction(func.to_owned(), "is not a function".to_owned())),
    }
}

/// Evaluates one value against the environment. The contract is the
/// big-step semantics `eval_spec`, covering both the result and the
/// final state of the environment.
pub fn eval(env: &mut Env, e: &LispVal) -> (r: Result<LispVal, LispErr>)
    ensures
        ({
            let (em, rr) = eval_spec(old(env)@, e@);
            final(env)@ == em && result_view(r) == rr
        }),
    decreases *e, 0int,
{
    match e {
        LispVal::Nil => Ok(e.clone()),
        LispVal::Number(_) => Ok(e.clone()),
        LispVal::Str(_) => Ok(e.clone()),
        LispVal::Bool(_) => Ok(e.clone()),
        LispVal::Atom(name) => match env.get(name.as_str()) {
            Some(v) => Ok(v.clone()),
            None => Err(
                LispErr::UnboundVar("Retrieved an unbound variable".to_owned(), name.clone()),
            ),
        },
        LispVal::ConsList(c) => {
            proof {
                assert(e@ == Sexpr::Pair(Box::new((*c.car)@), Box::new((*c.cdr)@)));
            }
            match &*c.car {
                LispVal::Atom(name) => {
                    proof {
                        assert((*c.car)@ == Sexpr::Atom(name@));
                    }
                    let d: &LispVal = &*c.cdr;
                    if str_eq(name.as_str(), "quote") {
                        if let Some(q) = one_form(d) {
                            return Ok(q.clone());
                        }
                    }
                    if str_eq(name.as_str(), "set!") {
                        if let Some((v0, form)) = two_forms(d) {
                            if let LispVal::Atom(var) = v0 {
                                let value = match eval(env, form) {
                                    Ok(v) => v,
                                    Err(err) => {
                                        return Err(err);
                                    },
                                };
                                return set_var(env, var.clone(), &value);
                            }
                        }
                    }
                    if str_eq(name.as_str(), "define") {
                        if let Some((v0, form)) = two_forms(d) {
                            if let LispVal::Atom(var) = v0 {
                                let value = match eval(env, form) {
                                    Ok(v) => v,
                                    Err(err) => {
                                        return Err(err);
                                    },
                                };
                                return define_var(env, var.clone(), &value);
                            }
                        }
                    }
                    if str_eq(name.as_str(), "if") {
                        if let Some((cnd, thn, els)) = three_forms(d) {
                            let cv = match eval(env, cnd) {
                                Ok(v) => v,
                                Err(err) => {
                                    return Err(err);
                                },
                            };
                            return match cv {
                                LispVal::Bool(true) => eval(env, thn),
                                LispVal::Bool(false) => eval(env, els),
                                other => Err(
                                    LispErr::TypeMismatch(
                                        "if's condition must evaluate to a boolean".to_owned(),
                                        other,
                                    ),
                                ),
                            };
                        }
                    }
                    let vals = match eval_args(env, d) {
                        Ok(vs) => vs,
                        Err(err) => {
                            return Err(err);
                        },
                    };
                    apply(name.as_str(), vals.as_slice())
                },
                _ => Err(
                    LispErr::BadSpecialForm("Unrecognized special form".to_owned(), e.clone()),
                ),
            }
        },
    }
}

/// Evaluates the elements of an argument chain left to right, stopping
/// at the first error.
pub fn eval_args(env: &mut Env, args: &LispVal) -> (r: Result<Vec<LispVal>, LispErr>)
    ensures
        ({
            let (em, rr) = eval_args_spec(old(env)@, args@);
            final(env)@ == em && match (r, rr) {
                (Ok(vs), Ok(svs)) => views_of(vs@) == svs,
                (Err(e1), Err(e2)) => e1@ == e2,
                _ => false,
            }
        }),
    decreases *args, 1int,
{
    match args {
        LispVal::Nil => {
            let vs: Vec<LispVal> = Vec::new();
            proof {
                assert(views_of(vs@) =~= Seq::<Sexpr>::empty());
            }
            Ok(vs)
        },
        LispVal::ConsList(c) => {
            let v = match eval(env, &*c.car) {
                Ok(v) => v,
                Err(err) => {
                    return Err(err);
                },
            };
            match eval_args(env, &*c.cdr) {
                Ok(mut vs) => {
                    let ghost tail_views = views_of(vs@);
                    let ghost head_view = v@;
                    vs.insert(0, v);
                    proof {
                        assert(views_of(vs@) =~= seq![head_view] + tail_views);
                    }
                    Ok(vs)
                },
                Err(err) => Err(err),
            }
        },
        _ => {
            let v = match eval(env, args) {
                Ok(v) => v,
                Err(err) => {
                    return Err(err);
                },
            };
            let ghost head_view = v@;
            let mut vs: Vec<LispVal> = Vec::new();
            vs.push(v);
            proof {
                assert(views_of(vs@) =~= seq![head_view]);
            }
            Ok(vs)
        },
    }
}

/// The numeric fold operations.
pub enum NumFold {
    Add,
    Mul,
}

/// The strictly binary numeric operations.
pub enum NumBin {
    Subtract,
    Quotient,
    Remainder,
    NumEq,
    Greater,
    Less,
    GreaterEq,
    LessEq,
}

/// The boolean fold operations.
pub enum BoolFold {
    Conj,
    Disj,
}

/// The strictly unary primitives.
pub enum UnaryPrim {
    Car,
    Cdr,
}

/// The strictly binary constructors.
pub enum BinaryPrim {
    ConsCell,
}

} // verus!
