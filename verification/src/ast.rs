//! The symbolic value representation: atoms, numbers, strings, booleans,
//! and cons-pair lists with reference-counted, immutable sharing.
use std::rc::Rc;
use vstd::prelude::*;

verus! {

/// The mathematical model of a value: a finite S-expression tree.
/// Sharing in the executable representation is invisible here, so two
/// values with equal models are exactly the structurally identical ones.
pub enum Sexpr {
    Atom(Seq<char>),
    Number(int),
    Str(Seq<char>),
    Bool(bool),
    Nil,
    Pair(Box<Sexpr>, Box<Sexpr>),
}

/// The errors the parser and the evaluator report. Only the kind and the
/// payload carry meaning; the message strings are diagnostics.
pub enum SpecErr {
    TypeMismatch(Sexpr),
    BadSpecialForm(Sexpr),
    ParseError,
    NotFunction(Seq<char>),
    UnboundVar(Seq<char>),
    NumArgs(int, Sexpr),
    DefaultErr,
}

/// A runtime value of the language.
#[derive(Debug, PartialEq, Eq)]
pub enum LispVal {
    Atom(String),
    ConsList(Rc<Cons>),
    Nil,
    Number(i32),
    Str(String),
    Bool(bool),
}

/// One immutable cons cell. Both slots are reference counted so that
/// `quote`, `cons` and traversal can alias tail structure without copying.
#[derive(Debug, PartialEq, Eq)]
pub struct Cons {
    pub car: Rc<LispVal>,
    pub cdr: Rc<LispVal>,
}

/// The model of a runtime value: the S-expression tree it represents,
/// with all sharing of cons cells forgotten.
pub open spec fn model(v: LispVal) -> Sexpr
    decreases v,
{
    match v {
        LispVal::Atom(s) => Sexpr::Atom(s@),
        LispVal::ConsList(c) => Sexpr::Pair(Box::new(model(*c.car)), Box::new(model(*c.cdr))),
        LispVal::Nil => Sexpr::Nil,
        LispVal::Number(i) => Sexpr::Number(i as int),
        LispVal::Str(s) => Sexpr::Str(s@),
        LispVal::Bool(b) => Sexpr::Bool(b),
    }
}

impl View for LispVal {
    type V = Sexpr;

    open spec fn view(&self) -> Sexpr {
        model(*self)
    }
}

impl Clone for LispVal {
    /// Cloning shares cons cells instead of copying them; the model value
    /// is unchanged.
    fn clone(&self) -> (res: Self)
        ensures
            res == *self,
    {
        match self {
            LispVal::Atom(s) => LispVal::Atom(s.clone()),
            LispVal::ConsList(c) => LispVal::ConsList(c.clone()),
            LispVal::Nil => LispVal::Nil,
            LispVal::Number(i) => LispVal::Number(*i),
            LispVal::Str(s) => LispVal::Str(s.clone()),
            LispVal::Bool(b) => LispVal::Bool(*b),
        }
    }
}

/// The elements a value stands for when it is read as a sequence:
/// `Nil` is empty, a pair chain yields each `car` and, for a dotted
/// chain, the final non-pair tail as a last element, and any other
/// value yields itself alone.
pub open spec fn elems(v: Sexpr) -> Seq<Sexpr>
    decreases v,
{
    match v {
        Sexpr::Nil => Seq::empty(),
        Sexpr::Pair(a, d) => seq![*a] + elems(*d),
        _ => seq![v],
    }
}

/// The model of an evaluation outcome.
pub open spec fn result_view(r: Result<LispVal, LispErr>) -> Result<Sexpr, SpecErr> {
    match r {
        Ok(v) => Ok(v@),
        Err(e) => Err(e@),
    }
}

/// The models of a sequence of runtime values, in order.
pub open spec fn views_of(s: Seq<LispVal>) -> Seq<Sexpr> {
    s.map_values(|v: LispVal| v@)
}

impl LispVal {
    /// Whether this value is a cons cell.
    pub fn is_cons(&self) -> (r: bool)
        ensures
            r == (self@ is Pair),
    {
        match self {
            LispVal::ConsList(_) => true,
            _ => false,
        }
    }

    /// Builds a new immutable cons cell from the two given values.
    pub fn cons(car: LispVal, cdr: LispVal) -> (r: LispVal)
        ensures
            r@ == Sexpr::Pair(Box::new(car@), Box::new(cdr@)),
    {
        LispVal::ConsList(Rc::new(Cons { car: Rc::new(car), cdr: Rc::new(cdr) }))
    }

    /// The first slot of a cons cell; any other value is a type mismatch.
    pub fn car(&self) -> (r: Result<LispVal, LispErr>)
        ensures
            match r {
                Ok(v) => self@ matches Sexpr::Pair(a, _) && v@ == *a,
                Err(e) => !(self@ is Pair) && e@ == SpecErr::TypeMismatch(self@),
            },
    {
        match self {
            LispVal::ConsList(c) => Ok((*c.car).clone()),
            _ => Err(
                LispErr::TypeMismatch("Expected an cons cell".to_owned(), self.clone()),
            ),
        }
    }

    /// The second slot of a cons cell; any other value is a type mismatch.
    pub fn cdr(&self) -> (r: Result<LispVal, LispErr>)
        ensures
            match r {
                Ok(v) => self@ matches Sexpr::Pair(_, d) && v@ == *d,
                Err(e) => !(self@ is Pair) && e@ == SpecErr::TypeMismatch(self@),
            },
    {
        match self {
            LispVal::ConsList(c) => Ok((*c.cdr).clone()),
            _ => Err(
                LispErr::TypeMismatch("Expected a cons cell".to_owned(), self.clone()),
            ),
        }
    }

    /// Projects a boolean out of the value; any other tag is a type mismatch.
    pub fn boolean(&self) -> (r: Result<bool, LispErr>)
        ensures
            match r {
                Ok(b) => self@ == Sexpr::Bool(b),
                Err(e) => !(self@ is Bool) && e@ == SpecErr::TypeMismatch(self@),
            },
    {
        match self {
            LispVal::Bool(b) => Ok(*b),
            _ => Err(
                LispErr::TypeMismatch("Expected an boolean".to_owned(), self.clone()),
            ),
        }
    }

    /// Projects an integer out of the value; any other tag is a type mismatch.
    pub fn integer(&self) -> (r: Result<i32, LispErr>)
        ensures
            match r {
                Ok(i) => self@ == Sexpr::Number(i as int),
                Err(e) => !(self@ is Number) && e@ == SpecErr::TypeMismatch(self@),
            },
    {
        match self {
            LispVal::Number(i) => Ok(*i),
            _ => Err(
                LispErr::TypeMismatch("Expected an integer".to_owned(), self.clone()),
            ),
        }
    }
}

impl Cons {
    /// Whether the chain starting at this cell ends in something other
    /// than `Nil`, i.e. prints with a ` . ` before its last element.
    pub fn is_dotted(&self) -> (r: bool)
        ensures
            r == dotted(self.cdr@),
        decreases *self,
    {
        match &*self.cdr {
            LispVal::ConsList(c) => c.is_dotted(),
            LispVal::Nil => false,
            _ => true,
        }
    }
}

/// Whether a chain tail makes the chain a dotted (improper) list.
pub open spec fn dotted(tail: Sexpr) -> bool
    decreases tail,
{
    match tail {
        Sexpr::Nil => false,
        Sexpr::Pair(_, d) => dotted(*d),
        _ => true,
    }
}

/// Compares two string slices character by character.
pub fn str_eq(a: &str, b: &str) -> (r: bool)
    ensures
        r == (a@ == b@),
{
    let n = a.unicode_len();
    if n != b.unicode_len() {
        return false;
    }
    let mut i: usize = 0;
    while i < n
        invariant
            n == a@.len(),
            n == b@.len(),
            i <= n,
            forall|j: int| 0 <= j < i ==> a@[j] == b@[j],
        decreases n - i,
    {
        if a.get_char(i) != b.get_char(i) {
            return false;
        }
        i = i + 1;
    }
    proof {
        assert(a@ =~= b@);
    }
    true
}

/// The decimal digit with value `d`.
pub open spec fn digit_char(d: int) -> char {
    if d == 0 { '0' }
    else if d == 1 { '1' }
    else if d == 2 { '2' }
    else if d == 3 { '3' }
    else if d == 4 { '4' }
    else if d == 5 { '5' }
    else if d == 6 { '6' }
    else if d == 7 { '7' }
    else if d == 8 { '8' }
    else { '9' }
}

/// The decimal digits of a non-negative integer, most significant first.
pub open spec fn nat_chars(n: int) -> Seq<char>
    decreases n,
{
    if n < 10 {
        seq![digit_char(n)]
    } else {
        nat_chars(n / 10).push(digit_char(n % 10))
    }
}

/// The canonical decimal text of an integer.
pub open spec fn int_chars(i: int) -> Seq<char> {
    if i < 0 {
        seq!['-'] + nat_chars(-i)
    } else {
        nat_chars(i)
    }
}

/// The canonical text of a value: atoms bare, strings double-quoted,
/// booleans `#t`/`#f`, `Nil` as `()`, a proper list space-separated in
/// parentheses, and a dotted list with ` . ` before its final element.
pub open spec fn render_spec(v: Sexpr) -> Seq<char>
    decreases v, 1int,
{
    match v {
        Sexpr::Atom(s) => s,
        Sexpr::Number(i) => int_chars(i),
        Sexpr::Str(s) => seq!['"'] + s + seq!['"'],
        Sexpr::Bool(b) => if b { seq!['#', 't'] } else { seq!['#', 'f'] },
        Sexpr::Nil => seq!['(', ')'],
        Sexpr::Pair(_, _) => seq!['('] + render_chain(v) + seq![')'],
    }
}

/// The text between the parentheses of a rendered pair chain.
pub open spec fn render_chain(v: Sexpr) -> Seq<char>
    decreases v, 0int,
{
    match v {
        Sexpr::Pair(a, d) => render_spec(*a) + match *d {
            Sexpr::Nil => Seq::empty(),
            Sexpr::Pair(_, _) => seq![' '] + render_chain(*d),
            _ => seq![' ', '.', ' '] + render_spec(*d),
        },
        _ => Seq::empty(),
    }
}

/// The text of one decimal digit.
fn digit_str(d: u32) -> (r: &'static str)
    requires
        d < 10,
    ensures
        r@ == seq![digit_char(d as int)],
{
    proof {
        reveal_strlit("0");
        reveal_strlit("1");
        reveal_strlit("2");
        reveal_strlit("3");
        reveal_strlit("4");
        reveal_strlit("5");
        reveal_strlit("6");
        reveal_strlit("7");
        reveal_strlit("8");
        reveal_strlit("9");
    }
    let r = if d == 0 { "0" }
    else if d == 1 { "1" }
    else if d == 2 { "2" }
    else if d == 3 { "3" }
    else if d == 4 { "4" }
    else if d == 5 { "5" }
    else if d == 6 { "6" }
    else if d == 7 { "7" }
    else if d == 8 { "8" }
    else { "9" };
    proof {
        assert(r@ =~= seq![digit_char(d as int)]);
    }
    r
}

/// The decimal text of a non-negative number.
fn render_u32(n: u32) -> (s: String)
    ensures
        s@ == nat_chars(n as int),
    decreases n,
{
    if n < 10 {
        let s = digit_str(n).to_owned();
        s
    } else {
        let mut s = render_u32(n / 10);
        s.append(digit_str(n % 10));
        proof {
            assert(s@ =~= nat_chars(n as int));
        }
        s
    }
}

/// The decimal text of a signed number, with a leading minus sign when
/// it is negative.
fn render_i32(i: i32) -> (s: String)
    ensures
        s@ == int_chars(i as int),
{
    if i >= 0 {
        render_u32(i as u32)
    } else {
        let mag: u32 = (-(i as i64)) as u32;
        let mut s = "-".to_owned();
        s.append(render_u32(mag).as_str());
        proof {
            reveal_strlit("-");
            assert(s@ =~= int_chars(i as int));
        }
        s
    }
}

impl LispVal {
    /// Renders the value in its canonical textual form.
    pub fn render(&self) -> (s: String)
        ensures
            s@ == render_spec(self@),
        decreases *self, 1int,
    {
        match self {
            LispVal::Atom(s) => s.clone(),
            LispVal::Number(i) => render_i32(*i),
            LispVal::Str(s) => {
                let mut out = "\"".to_owned();
                out.append(s.as_str());
                out.append("\"");
                proof {
                    reveal_strlit("\"");
                    assert(out@ =~= render_spec(self@));
                }
                out
            },
            LispVal::Bool(b) => {
                let out = if *b { "#t".to_owned() } else { "#f".to_owned() };
                proof {
                    reveal_strlit("#t");
                    reveal_strlit("#f");
                    assert(out@ =~= render_spec(self@));
                }
                out
            },
            LispVal::Nil => {
                let out = "()".to_owned();
                proof {
                    reveal_strlit("()");
                    assert(out@ =~= render_spec(self@));
                }
                out
            },
            LispVal::ConsList(_) => {
                let mut out = "(".to_owned();
                out.append(self.render_chain_text().as_str());
                out.append(")");
                proof {
                    reveal_strlit("(");
                    reveal_strlit(")");
                    assert(out@ =~= render_spec(self@));
                }
                out
            },
        }
    }

    /// Renders the elements of a pair chain, without the surrounding
    /// parentheses.
    fn render_chain_text(&self) -> (s: String)
        ensures
            s@ == render_chain(self@),
        decreases *self, 0int,
    {
        proof {
            reveal_strlit(" ");
            reveal_strlit(" . ");
        }
        match self {
            LispVal::ConsList(c) => {
                let mut out = (*c.car).render();
                match &*c.cdr {
                    LispVal::Nil => {
                        proof {
                            assert(model(*c.cdr) == Sexpr::Nil);
                            assert(out@ =~= render_chain(self@));
                        }
                    },
                    LispVal::ConsList(_) => {
                        out.append(" ");
                        out.append((*c.cdr).render_chain_text().as_str());
                        proof {
                            assert(model(*c.cdr) is Pair);
                            assert(out@ =~= render_chain(self@));
                        }
                    },
                    _ => {
                        out.append(" . ");
                        out.append((*c.cdr).render().as_str());
                        proof {
                            assert(!(model(*c.cdr) is Pair) && !(model(*c.cdr) is Nil));
                            assert(out@ =~= render_chain(self@));
                        }
                    },
                }
                out
            },
            _ => String::new(),
        }
    }
}

/// Structural equality of two values: equal tags, equal contents, and
/// recursively equal pair slots; sharing of cells plays no part in it.
pub fn eqv_vals(a: &LispVal, b: &LispVal) -> (r: bool)
    ensures
        r == (a@ == b@),
    decreases *a,
{
    match (a, b) {
        (LispVal::Atom(x), LispVal::Atom(y)) => str_eq(x.as_str(), y.as_str()),
        (LispVal::Number(x), LispVal::Number(y)) => *x == *y,
        (LispVal::Str(x), LispVal::Str(y)) => str_eq(x.as_str(), y.as_str()),
        (LispVal::Bool(x), LispVal::Bool(y)) => *x == *y,
        (LispVal::Nil, LispVal::Nil) => true,
        (LispVal::ConsList(x), LispVal::ConsList(y)) => {
            eqv_vals(&*x.car, &*y.car) && eqv_vals(&*x.cdr, &*y.cdr)
        },
        _ => false,
    }
}

/// A cursor over the elements of a value, in the sense of `elems`.
pub struct LispIter<'a> {
    val: Option<&'a LispVal>,
}

impl<'a> LispIter<'a> {
    /// The elements the cursor has still to hand out.
    pub closed spec fn remaining(&self) -> Seq<Sexpr> {
        match self.val {
            Some(v) => elems(v@),
            None => Seq::empty(),
        }
    }

    /// Hands out the next element: the `car` of a pair, a scalar itself,
    /// nothing once past the end of the chain.
    pub fn next(&mut self) -> (r: Option<&'a LispVal>)
        ensures
            old(self).remaining().len() == 0 ==> r is None && final(self).remaining()
                == old(self).remaining(),
            old(self).remaining().len() > 0 ==> (r matches Some(v) && v@ == old(
                self,
            ).remaining()[0] && final(self).remaining() == old(self).remaining().skip(1)),
    {
        match self.val {
            None => None,
            Some(v) => match v {
                LispVal::ConsList(c) => {
                    self.val = Some(&*c.cdr);
                    proof {
                        assert(old(self).remaining().skip(1) =~= final(self).remaining());
                    }
                    Some(&*c.car)
                },
                LispVal::Nil => {
                    self.val = None;
                    None
                },
                _ => {
                    self.val = None;
                    proof {
                        assert(old(self).remaining().skip(1) =~= final(self).remaining());
                    }
                    Some(v)
                },
            },
        }
    }
}

impl LispVal {
    /// A fresh cursor over this value's elements.
    pub fn iter(&self) -> (r: LispIter)
        ensures
            r.remaining() == elems(self@),
    {
        LispIter { val: Some(self) }
    }
}

/// An evaluation or parse error, as data. The string fields are
/// human-readable context only; the model keeps the kind and the payload.
#[derive(Debug, PartialEq, Eq)]
pub enum LispErr {
    TypeMismatch(String, LispVal),
    BadSpecialForm(String, LispVal),
    ParseError(String),
    NotFunction(String, String),
    UnboundVar(String, String),
    NumArgs(i32, LispVal),
    Default(String),
}

impl View for LispErr {
    type V = SpecErr;

    open spec fn view(&self) -> SpecErr {
        match self {
            LispErr::TypeMismatch(_, v) => SpecErr::TypeMismatch(v@),
            LispErr::BadSpecialForm(_, v) => SpecErr::BadSpecialForm(v@),
            LispErr::ParseError(_) => SpecErr::ParseError,
            LispErr::NotFunction(name, _) => SpecErr::NotFunction(name@),
            LispErr::UnboundVar(_, name) => SpecErr::UnboundVar(name@),
            LispErr::NumArgs(n, v) => SpecErr::NumArgs(*n as int, v@),
            LispErr::Default(_) => SpecErr::DefaultErr,
        }
    }
}

} // verus!
