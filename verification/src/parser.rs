//! The textual parser: a recursive grammar over characters that turns a
//! complete unit of source text into exactly one value, or reports why it
//! could not. Rules are tried so that a token with the exact shape of a
//! boolean literal never parses as an atom, numbers never parse as atoms,
//! and a dotted list wins over a proper list when the ` . ` separator is
//! present.
use crate::ast::str_eq;
use crate::ast::views_of;
use crate::ast::LispErr;
use crate::ast::LispVal;
use crate::ast::Sexpr;
use crate::ast::SpecErr;
use vstd::prelude::*;

verus! {

/// The symbol characters an atom may contain.
pub open spec fn is_symbol_char(c: char) -> bool {
    c == '!' || c == '#' || c == '$' || c == '%' || c == '&' || c == '|' || c == '*' || c == '+'
        || c == '-' || c == '/' || c == ':' || c == '<' || c == '=' || c == '>' || c == '?' || c
        == '@' || c == '^' || c == '_' || c == '~'
}

/// Letters, the only characters an atom may start with besides symbols.
pub open spec fn is_letter(c: char) -> bool {
    (97 <= c as u32 && c as u32 <= 122) || (65 <= c as u32 && c as u32 <= 90)
}

/// Decimal digits.
pub open spec fn is_digit_char(c: char) -> bool {
    48 <= c as u32 && c as u32 <= 57
}

/// The separator characters between list elements.
pub open spec fn is_space_char(c: char) -> bool {
    c == ' ' || c == '\t'
}

/// A character that may start an atom.
pub open spec fn is_atom_first(c: char) -> bool {
    is_letter(c) || is_symbol_char(c)
}

/// A character that may continue an atom.
pub open spec fn is_atom_rest(c: char) -> bool {
    is_letter(c) || is_digit_char(c) || is_symbol_char(c)
}

/// The value of one decimal digit.
pub open spec fn dval(c: char) -> int {
    c as u32 - 48
}

/// Where the run of atom characters starting at `pos` ends.
pub open spec fn atom_end(s: Seq<char>, pos: int) -> int
    decreases s.len() - pos,
{
    if pos < s.len() && is_atom_rest(s[pos]) {
        atom_end(s, pos + 1)
    } else {
        pos
    }
}

/// Where the run of digits starting at `pos` ends.
pub open spec fn digits_end(s: Seq<char>, pos: int) -> int
    decreases s.len() - pos,
{
    if pos < s.len() && is_digit_char(s[pos]) {
        digits_end(s, pos + 1)
    } else {
        pos
    }
}

/// Where the run of non-quote characters starting at `pos` ends.
pub open spec fn string_end(s: Seq<char>, pos: int) -> int
    decreases s.len() - pos,
{
    if pos < s.len() && s[pos] != '"' {
        string_end(s, pos + 1)
    } else {
        pos
    }
}

/// Where the run of separator characters starting at `pos` ends.
pub open spec fn spaces_end(s: Seq<char>, pos: int) -> int
    decreases s.len() - pos,
{
    if pos < s.len() && is_space_char(s[pos]) {
        spaces_end(s, pos + 1)
    } else {
        pos
    }
}

/// The numeric value of the digits `s[from .. to)`, read left to right.
pub open spec fn digits_val(s: Seq<char>, from: int, to: int) -> int
    decreases to - from,
{
    if to <= from {
        0
    } else {
        digits_val(s, from, to - 1) * 10 + dval(s[to - 1])
    }
}

/// The atom the parser reserves for quotation.
pub open spec fn quote_sym() -> Sexpr {
    Sexpr::Atom(seq!['q', 'u', 'o', 't', 'e'])
}

/// The right-associated pair chain holding `vs` and ending in `tail`.
pub open spec fn chain_of(vs: Seq<Sexpr>, tail: Sexpr) -> Sexpr
    decreases vs.len(),
{
    if vs.len() == 0 {
        tail
    } else {
        Sexpr::Pair(Box::new(vs[0]), Box::new(chain_of(vs.skip(1), tail)))
    }
}

/// The boolean rule: the literal token `#t` or `#f`, by itself.
pub open spec fn parse_boolean_spec(s: Seq<char>, pos: int) -> Option<(Sexpr, int)> {
    if pos + 2 <= s.len() && s[pos] == '#' && s[pos + 1] == 't' {
        Some((Sexpr::Bool(true), pos + 2))
    } else if pos + 2 <= s.len() && s[pos] == '#' && s[pos + 1] == 'f' {
        Some((Sexpr::Bool(false), pos + 2))
    } else {
        None
    }
}

/// The atom rule: a letter or symbol character followed by the longest
/// run of letters, digits and symbol characters.
pub open spec fn parse_atom_spec(s: Seq<char>, pos: int) -> Option<(Sexpr, int)> {
    if pos < s.len() && is_atom_first(s[pos]) {
        Some((Sexpr::Atom(s.subrange(pos, atom_end(s, pos + 1))), atom_end(s, pos + 1)))
    } else {
        None
    }
}

/// The number rule: the longest run of digits, read as a fixed-width
/// signed integer; a run whose value does not fit is a parse failure.
pub open spec fn parse_number_spec(s: Seq<char>, pos: int) -> Option<(Sexpr, int)> {
    if pos < s.len() && is_digit_char(s[pos]) {
        let end = digits_end(s, pos);
        let v = digits_val(s, pos, end);
        if v <= i32::MAX {
            Some((Sexpr::Number(v), end))
        } else {
            None
        }
    } else {
        None
    }
}

/// The string rule: a double quote, any characters other than a double
/// quote (no escapes; a backslash is an ordinary character), and a
/// closing double quote.
pub open spec fn parse_string_spec(s: Seq<char>, pos: int) -> Option<(Sexpr, int)> {
    if pos < s.len() && s[pos] == '"' {
        let e = string_end(s, pos + 1);
        if e < s.len() {
            Some((Sexpr::Str(s.subrange(pos + 1, e)), e + 1))
        } else {
            None
        }
    } else {
        None
    }
}

/// One or more expressions separated by runs of spaces or tabs. A
/// separator not followed by an expression is left unconsumed.
pub open spec fn parse_seq_spec(s: Seq<char>, pos: int) -> Option<(Seq<Sexpr>, int)>
    decreases s.len() - pos, 3int,
{
    match parse_expr_spec(s, pos) {
        None => None,
        Some((v, p1)) => {
            if pos < p1 <= s.len() {
                let p2 = spaces_end(s, p1);
                if p1 < p2 <= s.len() {
                    match parse_seq_spec(s, p2) {
                        Some((vs, p3)) => Some((seq![v] + vs, p3)),
                        None => Some((seq![v], p1)),
                    }
                } else {
                    Some((seq![v], p1))
                }
            } else {
                Some((seq![v], p1))
            }
        },
    }
}

/// The list rule: `()` for the empty list, else one or more elements in
/// parentheses, as a right-associated chain ending in `Nil`.
pub open spec fn parse_list_spec(s: Seq<char>, pos: int) -> Option<(Sexpr, int)>
    decreases s.len() - pos, 1int,
{
    if pos + 2 <= s.len() && s[pos] == '(' && s[pos + 1] == ')' {
        Some((Sexpr::Nil, pos + 2))
    } else if pos < s.len() && s[pos] == '(' {
        match parse_seq_spec(s, pos + 1) {
            Some((vs, p)) => if p < s.len() && s[p] == ')' {
                Some((chain_of(vs, Sexpr::Nil), p + 1))
            } else {
                None
            },
            None => None,
        }
    } else {
        None
    }
}

/// The dotted-list rule: one or more elements, the ` . ` separator, and
/// one trailing element, in parentheses; the chain ends in the trailing
/// element instead of `Nil`.
pub open spec fn parse_dotted_spec(s: Seq<char>, pos: int) -> Option<(Sexpr, int)>
    decreases s.len() - pos, 1int,
{
    if pos < s.len() && s[pos] == '(' {
        match parse_seq_spec(s, pos + 1) {
            Some((vs, p)) => {
                if pos < p && p + 3 <= s.len() && s[p] == ' ' && s[p + 1] == '.' && s[p + 2]
                    == ' ' {
                    match parse_expr_spec(s, p + 3) {
                        Some((tail, p2)) => if p2 < s.len() && s[p2] == ')' {
                            Some((chain_of(vs, tail), p2 + 1))
                        } else {
                            None
                        },
                        None => None,
                    }
                } else {
                    None
                }
            },
            None => None,
        }
    } else {
        None
    }
}

/// The quote shorthand: a leading `'` and one expression `e`, standing
/// for the two-element list `(quote e)`.
pub open spec fn parse_quoted_spec(s: Seq<char>, pos: int) -> Option<(Sexpr, int)>
    decreases s.len() - pos, 1int,
{
    if pos < s.len() && s[pos] == '\'' {
        match parse_expr_spec(s, pos + 1) {
            Some((v, p)) => Some(
                (
                    Sexpr::Pair(
                        Box::new(quote_sym()),
                        Box::new(Sexpr::Pair(Box::new(v), Box::new(Sexpr::Nil))),
                    ),
                    p,
                ),
            ),
            None => None,
        }
    } else {
        None
    }
}

/// One expression. The rules are disjoint on their first character,
/// except that the exact tokens `#t` and `#f` are booleans, never atoms.
pub open spec fn parse_expr_spec(s: Seq<char>, pos: int) -> Option<(Sexpr, int)>
    decreases s.len() - pos, 2int,
{
    if pos >= s.len() {
        None
    } else {
        let c = s[pos];
        if is_atom_first(c) {
            match parse_atom_spec(s, pos) {
                Some((a, p)) => {
                    if a == Sexpr::Atom(seq!['#', 't']) {
                        Some((Sexpr::Bool(true), p))
                    } else if a == Sexpr::Atom(seq!['#', 'f']) {
                        Some((Sexpr::Bool(false), p))
                    } else {
                        Some((a, p))
                    }
                },
                None => None,
            }
        } else if is_digit_char(c) {
            parse_number_spec(s, pos)
        } else if c == '"' {
            parse_string_spec(s, pos)
        } else if c == '(' {
            match parse_dotted_spec(s, pos) {
                Some(r) => Some(r),
                None => parse_list_spec(s, pos),
            }
        } else if c == '\'' {
            parse_quoted_spec(s, pos)
        } else {
            None
        }
    }
}

/// A run of atom characters never ends before it starts nor past the end
/// of the text.
proof fn lemma_atom_end(s: Seq<char>, pos: int)
    requires
        0 <= pos <= s.len(),
    ensures
        pos <= atom_end(s, pos) <= s.len(),
    decreases s.len() - pos,
{
    if pos < s.len() && is_atom_rest(s[pos]) {
        lemma_atom_end(s, pos + 1);
    }
}

/// A run of digits never ends before it starts nor past the end.
proof fn lemma_digits_end(s: Seq<char>, pos: int)
    requires
        0 <= pos <= s.len(),
    ensures
        pos <= digits_end(s, pos) <= s.len(),
    decreases s.len() - pos,
{
    if pos < s.len() && is_digit_char(s[pos]) {
        lemma_digits_end(s, pos + 1);
    }
}

/// A run of string characters never ends before it starts nor past the
/// end.
proof fn lemma_string_end(s: Seq<char>, pos: int)
    requires
        0 <= pos <= s.len(),
    ensures
        pos <= string_end(s, pos) <= s.len(),
    decreases s.len() - pos,
{
    if pos < s.len() && s[pos] != '"' {
        lemma_string_end(s, pos + 1);
    }
}

/// A run of separators never ends before it starts nor past the end.
proof fn lemma_spaces_end(s: Seq<char>, pos: int)
    requires
        0 <= pos <= s.len(),
    ensures
        pos <= spaces_end(s, pos) <= s.len(),
    decreases s.len() - pos,
{
    if pos < s.len() && is_space_char(s[pos]) {
        lemma_spaces_end(s, pos + 1);
    }
}

/// A successful expression always consumes at least one character and
/// never runs past the end of the text.
pub proof fn lemma_expr_progress(s: Seq<char>, pos: int)
    requires
        0 <= pos <= s.len(),
    ensures
        parse_expr_spec(s, pos) matches Some((v, p)) ==> pos < p <= s.len(),
    decreases s.len() - pos, 2int,
{
    if pos < s.len() {
        let c = s[pos];
        if is_atom_first(c) {
            lemma_atom_end(s, pos + 1);
        } else if is_digit_char(c) {
            lemma_digits_end(s, pos + 1);
        } else if c == '"' {
            lemma_string_end(s, pos + 1);
        } else if c == '(' {
            lemma_dotted_progress(s, pos);
            lemma_list_progress(s, pos);
        } else if c == '\'' {
            lemma_expr_progress(s, pos + 1);
        }
    }
}

/// A successful list always consumes at least one character.
proof fn lemma_list_progress(s: Seq<char>, pos: int)
    requires
        0 <= pos <= s.len(),
    ensures
        parse_list_spec(s, pos) matches Some((v, p)) ==> pos < p <= s.len(),
    decreases s.len() - pos, 1int,
{
    if pos < s.len() && s[pos] == '(' {
        lemma_seq_progress(s, pos + 1);
    }
}

/// A successful dotted list always consumes at least one character.
proof fn lemma_dotted_progress(s: Seq<char>, pos: int)
    requires
        0 <= pos <= s.len(),
    ensures
        parse_dotted_spec(s, pos) matches Some((v, p)) ==> pos < p <= s.len(),
    decreases s.len() - pos, 1int,
{
    if pos < s.len() && s[pos] == '(' {
        lemma_seq_progress(s, pos + 1);
        match parse_seq_spec(s, pos + 1) {
            Some((vs, p)) => {
                if pos < p && p + 3 <= s.len() && s[p] == ' ' && s[p + 1] == '.' && s[p + 2]
                    == ' ' {
                    lemma_expr_progress(s, p + 3);
                }
            },
            None => {},
        }
    }
}

/// The digits of a run are all decimal digits, and the run is maximal.
proof fn lemma_digits_end_chars(s: Seq<char>, pos: int)
    requires
        0 <= pos <= s.len(),
    ensures
        forall|j: int| pos <= j < digits_end(s, pos) ==> is_digit_char(s[j]),
    decreases s.len() - pos,
{
    if pos < s.len() && is_digit_char(s[pos]) {
        lemma_digits_end_chars(s, pos + 1);
    }
}

/// The digits of a prefix of a run never exceed the value of the whole
/// run.
proof fn lemma_digits_val_nonneg(s: Seq<char>, from: int, to: int)
    requires
        from <= to,
        forall|j: int| from <= j < to ==> is_digit_char(s[j]),
    ensures
        digits_val(s, from, to) >= 0,
    decreases to - from,
{
    if to > from {
        lemma_digits_val_nonneg(s, from, to - 1);
    }
}

/// Reading more digits never lowers the value already read.
proof fn lemma_digits_val_mono(s: Seq<char>, from: int, mid: int, to: int)
    requires
        from <= mid <= to,
        forall|j: int| from <= j < to ==> is_digit_char(s[j]),
    ensures
        digits_val(s, from, mid) <= digits_val(s, from, to),
    decreases to - mid,
{
    if to > mid {
        lemma_digits_val_mono(s, from, mid, to - 1);
        lemma_digits_val_nonneg(s, from, to - 1);
    }
}

/// Whether `c` is one of the symbol characters an atom may contain.
pub fn symbol(c: char) -> (r: bool)
    ensures
        r == is_symbol_char(c),
{
    c == '!' || c == '#' || c == '$' || c == '%' || c == '&' || c == '|' || c == '*' || c == '+'
        || c == '-' || c == '/' || c == ':' || c == '<' || c == '=' || c == '>' || c == '?' || c
        == '@' || c == '^' || c == '_' || c == '~'
}

/// Whether `c` is a letter.
pub fn alpha(c: char) -> (r: bool)
    ensures
        r == is_letter(c),
{
    let u = c as u32;
    (97 <= u && u <= 122) || (65 <= u && u <= 90)
}

/// Whether `c` is a letter or a decimal digit.
pub fn alphanumeric(c: char) -> (r: bool)
    ensures
        r == (is_letter(c) || is_digit_char(c)),
{
    let u = c as u32;
    (97 <= u && u <= 122) || (65 <= u && u <= 90) || (48 <= u && u <= 57)
}

/// Whether `c` is a decimal digit.
fn digit(c: char) -> (r: bool)
    ensures
        r == is_digit_char(c),
{
    let u = c as u32;
    48 <= u && u <= 57
}

/// Whether `c` separates list elements.
fn space(c: char) -> (r: bool)
    ensures
        r == is_space_char(c),
{
    c == ' ' || c == '\t'
}

/// Scans to the end of the run of atom characters starting at `e`.
fn scan_atom(i: &str, e: usize) -> (r: usize)
    requires
        e <= i@.len(),
    ensures
        r == atom_end(i@, e as int),
    decreases i@.len() - e,
{
    let n = i.unicode_len();
    if e < n {
        let c = i.get_char(e);
        if alphanumeric(c) || symbol(c) {
            return scan_atom(i, e + 1);
        }
    }
    e
}

/// Scans to the end of the run of digits starting at `e`.
fn scan_digits(i: &str, e: usize) -> (r: usize)
    requires
        e <= i@.len(),
    ensures
        r == digits_end(i@, e as int),
    decreases i@.len() - e,
{
    let n = i.unicode_len();
    if e < n {
        let c = i.get_char(e);
        if digit(c) {
            return scan_digits(i, e + 1);
        }
    }
    e
}

/// Scans to the end of the run of non-quote characters starting at `e`.
fn scan_string(i: &str, e: usize) -> (r: usize)
    requires
        e <= i@.len(),
    ensures
        r == string_end(i@, e as int),
    decreases i@.len() - e,
{
    let n = i.unicode_len();
    if e < n {
        let c = i.get_char(e);
        if c != '"' {
            return scan_string(i, e + 1);
        }
    }
    e
}

/// Scans to the end of the run of separator characters starting at `e`.
fn scan_spaces(i: &str, e: usize) -> (r: usize)
    requires
        e <= i@.len(),
    ensures
        r == spaces_end(i@, e as int),
    decreases i@.len() - e,
{
    let n = i.unicode_len();
    if e < n {
        let c = i.get_char(e);
        if space(c) {
            return scan_spaces(i, e + 1);
        }
    }
    e
}

/// Reads the value of the digit run `i[from .. to)`, or reports that it
/// does not fit in a fixed-width signed integer.
fn digits_value(i: &str, from: usize, to: usize) -> (r: Option<i32>)
    requires
        from <= to <= i@.len(),
        forall|j: int| from <= j < to ==> is_digit_char(i@[j]),
    ensures
        match r {
            Some(v) => v as int == digits_val(i@, from as int, to as int),
            None => digits_val(i@, from as int, to as int) > i32::MAX,
        },
{
    let mut acc: i32 = 0;
    let mut e: usize = from;
    while e < to
        invariant
            from <= e <= to <= i@.len(),
            forall|j: int| from <= j < to ==> is_digit_char(i@[j]),
            0 <= acc,
            acc as int == digits_val(i@, from as int, e as int),
        decreases to - e,
    {
        let c = i.get_char(e);
        let d: u32 = c as u32 - 48;
        let big: i64 = acc as i64 * 10 + d as i64;
        if big > i32::MAX as i64 {
            proof {
                lemma_digits_val_mono(i@, from as int, e as int + 1, to as int);
            }
            return None;
        }
        acc = big as i32;
        e = e + 1;
    }
    Some(acc)
}

/// The boolean rule: the literal token `#t` or `#f`.
pub fn boolean(i: &str, pos: usize) -> (r: Option<(LispVal, usize)>)
    requires
        pos <= i@.len(),
    ensures
        match r {
            Some((v, p)) => parse_boolean_spec(i@, pos as int) == Some((v@, p as int)),
            None => parse_boolean_spec(i@, pos as int) is None,
        },
{
    let n = i.unicode_len();
    if n - pos >= 2 {
        let c0 = i.get_char(pos);
        let c1 = i.get_char(pos + 1);
        if c0 == '#' && c1 == 't' {
            return Some((LispVal::Bool(true), pos + 2));
        }
        if c0 == '#' && c1 == 'f' {
            return Some((LispVal::Bool(false), pos + 2));
        }
    }
    None
}

/// The atom rule: a letter or symbol character followed by the longest
/// run of letters, digits and symbol characters.
pub fn atom(i: &str, pos: usize) -> (r: Option<(LispVal, usize)>)
    requires
        pos <= i@.len(),
    ensures
        match r {
            Some((v, p)) => parse_atom_spec(i@, pos as int) == Some((v@, p as int)),
            None => parse_atom_spec(i@, pos as int) is None,
        },
{
    let n = i.unicode_len();
    if pos < n {
        let c = i.get_char(pos);
        if alpha(c) || symbol(c) {
            proof {
                lemma_atom_end(i@, pos as int + 1);
            }
            let end = scan_atom(i, pos + 1);
            let tok = i.substring_char(pos, end).to_owned();
            return Some((LispVal::Atom(tok), end));
        }
    }
    None
}

/// The number rule: the longest run of digits, read as a fixed-width
/// signed integer.
pub fn number(i: &str, pos: usize) -> (r: Option<(LispVal, usize)>)
    requires
        pos <= i@.len(),
    ensures
        match r {
            Some((v, p)) => parse_number_spec(i@, pos as int) == Some((v@, p as int)),
            None => parse_number_spec(i@, pos as int) is None,
        },
{
    let n = i.unicode_len();
    if pos < n {
        let c = i.get_char(pos);
        if digit(c) {
            proof {
                lemma_digits_end(i@, pos as int);
                lemma_digits_end_chars(i@, pos as int);
            }
            let end = scan_digits(i, pos);
            return match digits_value(i, pos, end) {
                Some(v) => Some((LispVal::Number(v), end)),
                None => None,
            };
        }
    }
    None
}

/// The string rule: a double-quoted run of characters, with no escape
/// interpretation.
pub fn string(i: &str, pos: usize) -> (r: Option<(LispVal, usize)>)
    requires
        pos <= i@.len(),
    ensures
        match r {
            Some((v, p)) => parse_string_spec(i@, pos as int) == Some((v@, p as int)),
            None => parse_string_spec(i@, pos as int) is None,
        },
{
    let n = i.unicode_len();
    if pos < n {
        let c = i.get_char(pos);
        if c == '"' {
            proof {
                lemma_string_end(i@, pos as int + 1);
            }
            let e = scan_string(i, pos + 1);
            if e < n {
                let contents = i.substring_char(pos + 1, e).to_owned();
                return Some((LispVal::Str(contents), e + 1));
            }
        }
    }
    None
}

/// Builds the right-associated pair chain holding `vs` and ending in
/// `tail`.
fn chain_vals(vs: Vec<LispVal>, tail: LispVal) -> (r: LispVal)
    ensures
        r@ == chain_of(views_of(vs@), tail@),
{
    let ghost t = tail@;
    let mut acc = tail;
    let mut k = vs.len();
    proof {
        assert(views_of(vs@).skip(k as int) =~= Seq::<Sexpr>::empty());
    }
    while k > 0
        invariant
            k <= vs.len(),
            acc@ == chain_of(views_of(vs@).skip(k as int), t),
        decreases k,
    {
        k = k - 1;
        acc = LispVal::cons(vs[k].clone(), acc);
        proof {
            assert(views_of(vs@).skip(k as int).skip(1) =~= views_of(vs@).skip(k as int + 1));
        }
    }
    proof {
        assert(views_of(vs@).skip(0) =~= views_of(vs@));
    }
    acc
}

/// One or more expressions separated by runs of spaces or tabs; a
/// separator not followed by an expression stays unconsumed.
fn parse_elems(i: &str, pos: usize) -> (r: Option<(Vec<LispVal>, usize)>)
    requires
        pos <= i@.len(),
    ensures
        match r {
            Some((vs, p)) => parse_seq_spec(i@, pos as int) == Some((views_of(vs@), p as int))
                && pos < p <= i@.len(),
            None => parse_seq_spec(i@, pos as int) is None,
        },
    decreases i@.len() - pos, 3int,
{
    proof {
        lemma_seq_progress(i@, pos as int);
    }
    match expr(i, pos) {
        None => None,
        Some((v, p1)) => {
            proof {
                lemma_spaces_end(i@, p1 as int);
            }
            let p2 = scan_spaces(i, p1);
            if p2 > p1 {
                match parse_elems(i, p2) {
                    Some((mut vs, p3)) => {
                        vs.insert(0, v);
                        proof {
                            assert(views_of(vs@) =~= seq![vs@[0]@] + views_of(vs@.skip(1)));
                        }
                        Some((vs, p3))
                    },
                    None => {
                        let mut vs: Vec<LispVal> = Vec::new();
                        vs.push(v);
                        proof {
                            assert(views_of(vs@) =~= seq![v@]);
                        }
                        Some((vs, p1))
                    },
                }
            } else {
                let mut vs: Vec<LispVal> = Vec::new();
                vs.push(v);
                proof {
                    assert(views_of(vs@) =~= seq![v@]);
                }
                Some((vs, p1))
            }
        },
    }
}

/// The list rule: `()` for the empty list, else one or more elements in
/// parentheses, ending in `Nil`.
pub fn list(i: &str, pos: usize) -> (r: Option<(LispVal, usize)>)
    requires
        pos <= i@.len(),
    ensures
        match r {
            Some((v, p)) => parse_list_spec(i@, pos as int) == Some((v@, p as int)),
            None => parse_list_spec(i@, pos as int) is None,
        },
    decreases i@.len() - pos, 1int,
{
    let n = i.unicode_len();
    if pos < n && i.get_char(pos) == '(' {
        if n - pos >= 2 && i.get_char(pos + 1) == ')' {
            return Some((LispVal::Nil, pos + 2));
        }
        match parse_elems(i, pos + 1) {
            Some((vs, p)) => {
                if p < n && i.get_char(p) == ')' {
                    Some((chain_vals(vs, LispVal::Nil), p + 1))
                } else {
                    None
                }
            },
            None => None,
        }
    } else {
        None
    }
}

/// The dotted-list rule: one or more elements, the ` . ` separator, and
/// a trailing element, all in parentheses.
pub fn dotted_list(i: &str, pos: usize) -> (r: Option<(LispVal, usize)>)
    requires
        pos <= i@.len(),
    ensures
        match r {
            Some((v, p)) => parse_dotted_spec(i@, pos as int) == Some((v@, p as int)),
            None => parse_dotted_spec(i@, pos as int) is None,
        },
    decreases i@.len() - pos, 1int,
{
    let n = i.unicode_len();
    if pos < n && i.get_char(pos) == '(' {
        match parse_elems(i, pos + 1) {
            Some((vs, p)) => {
                if n - p >= 3 && i.get_char(p) == ' ' && i.get_char(p + 1) == '.' && i.get_char(
                    p + 2,
                ) == ' ' {
                    match expr(i, p + 3) {
                        Some((tail, p2)) => {
                            if p2 < n && i.get_char(p2) == ')' {
                                Some((chain_vals(vs, tail), p2 + 1))
                            } else {
                                None
                            }
                        },
                        None => None,
                    }
                } else {
                    None
                }
            },
            None => None,
        }
    } else {
        None
    }
}

/// The quote shorthand: `'e` stands for the two-element list `(quote e)`.
pub fn quoted(i: &str, pos: usize) -> (r: Option<(LispVal, usize)>)
    requires
        pos <= i@.len(),
    ensures
        match r {
            Some((v, p)) => parse_quoted_spec(i@, pos as int) == Some((v@, p as int)),
            None => parse_quoted_spec(i@, pos as int) is None,
        },
    decreases i@.len() - pos, 1int,
{
    let n = i.unicode_len();
    if pos < n && i.get_char(pos) == '\'' {
        match expr(i, pos + 1) {
            Some((v, p)) => {
                let q = LispVal::cons(
                    LispVal::Atom("quote".to_owned()),
                    LispVal::cons(v, LispVal::Nil),
                );
                proof {
                    reveal_strlit("quote");
                    assert("quote"@ =~= seq!['q', 'u', 'o', 't', 'e']);
                }
                Some((q, p))
            },
            None => None,
        }
    } else {
        None
    }
}

/// One expression, by whichever rule matches at this position.
pub fn expr(i: &str, pos: usize) -> (r: Option<(LispVal, usize)>)
    requires
        pos <= i@.len(),
    ensures
        match r {
            Some((v, p)) => parse_expr_spec(i@, pos as int) == Some((v@, p as int)) && pos < p
                <= i@.len(),
            None => parse_expr_spec(i@, pos as int) is None,
        },
    decreases i@.len() - pos, 2int,
{
    proof {
        lemma_expr_progress(i@, pos as int);
    }
    let n = i.unicode_len();
    if pos >= n {
        return None;
    }
    let c = i.get_char(pos);
    if alpha(c) || symbol(c) {
        match atom(i, pos) {
            Some((a, p)) => match a {
                LispVal::Atom(tok) => {
                    proof {
                        reveal_strlit("#t");
                        reveal_strlit("#f");
                        assert("#t"@ =~= seq!['#', 't']);
                        assert("#f"@ =~= seq!['#', 'f']);
                    }
                    if str_eq(tok.as_str(), "#t") {
                        Some((LispVal::Bool(true), p))
                    } else if str_eq(tok.as_str(), "#f") {
                        Some((LispVal::Bool(false), p))
                    } else {
                        Some((LispVal::Atom(tok), p))
                    }
                },
                _ => vstd::pervasive::unreached(),
            },
            None => None,
        }
    } else if digit(c) {
        number(i, pos)
    } else if c == '"' {
        string(i, pos)
    } else if c == '(' {
        match dotted_list(i, pos) {
            Some(r) => Some(r),
            None => list(i, pos),
        }
    } else if c == '\'' {
        quoted(i, pos)
    } else {
        None
    }
}

/// The top-level entry point: the whole input must be consumed by exactly
/// one expression; unconsumed text, or no expression at all, is a parse
/// error.
pub fn scheme(i: &str) -> (r: Result<LispVal, LispErr>)
    ensures
        match r {
            Ok(v) => parse_expr_spec(i@, 0) == Some((v@, i@.len() as int)),
            Err(e) => e@ == SpecErr::ParseError && match parse_expr_spec(i@, 0) {
                Some((v, p)) => p != i@.len(),
                None => true,
            },
        },
{
    match expr(i, 0) {
        Some((v, p)) => {
            if p == i.unicode_len() {
                Ok(v)
            } else {
                Err(LispErr::ParseError("input continues after one expression".to_owned()))
            }
        },
        None => Err(LispErr::ParseError("no expression recognized".to_owned())),
    }
}

/// A successful element sequence always consumes at least one character.
pub proof fn lemma_seq_progress(s: Seq<char>, pos: int)
    requires
        0 <= pos <= s.len(),
    ensures
        parse_seq_spec(s, pos) matches Some((vs, p)) ==> pos < p <= s.len(),
    decreases s.len() - pos, 3int,
{
    lemma_expr_progress(s, pos);
    match parse_expr_spec(s, pos) {
        Some((v, p1)) => {
            lemma_spaces_end(s, p1);
            let p2 = spaces_end(s, p1);
            if p1 < p2 <= s.len() {
                lemma_seq_progress(s, p2);
            }
        },
        None => {},
    }
}

} // verus!
