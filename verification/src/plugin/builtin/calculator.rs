//! The grammar of the calculator: arithmetic with `+ - * /`, parentheses
//! and decimal literals, parsed into an expression tree. Evaluating the
//! tree in floating point is left to the program around the library.
use crate::plugin::{PluginAction, SearchResult};
use crate::text::{chars_of, owned, trim, trim_seq};
use vstd::prelude::*;
use vstd::utf8::encode_utf8;

verus! {

/// An arithmetic expression; literals are kept as their text, which is a
/// valid decimal number.
#[derive(Debug)]
pub enum Expr {
    Number(Vec<u8>),
    Add(Box<Expr>, Box<Expr>),
    Sub(Box<Expr>, Box<Expr>),
    Mul(Box<Expr>, Box<Expr>),
    Div(Box<Expr>, Box<Expr>),
}

/// The mathematical form of an expression tree.
pub ghost enum Arith {
    Number(Seq<u8>),
    Add(Box<Arith>, Box<Arith>),
    Sub(Box<Arith>, Box<Arith>),
    Mul(Box<Arith>, Box<Arith>),
    Div(Box<Arith>, Box<Arith>),
}

/// The mathematical form of `e`.
pub open spec fn arith_of(e: Expr) -> Arith
    decreases e,
{
    match e {
        Expr::Number(t) => Arith::Number(t@),
        Expr::Add(a, b) => Arith::Add(Box::new(arith_of(*a)), Box::new(arith_of(*b))),
        Expr::Sub(a, b) => Arith::Sub(Box::new(arith_of(*a)), Box::new(arith_of(*b))),
        Expr::Mul(a, b) => Arith::Mul(Box::new(arith_of(*a)), Box::new(arith_of(*b))),
        Expr::Div(a, b) => Arith::Div(Box::new(arith_of(*a)), Box::new(arith_of(*b))),
    }
}

/// Space or tab.
pub open spec fn is_blank_byte(b: u8) -> bool {
    b == 32 || b == 9
}

/// A digit or a decimal point.
pub open spec fn is_number_byte(b: u8) -> bool {
    (48 <= b && b <= 57) || b == 46
}

/// The first position at or after `pos` that is not a space or tab.
pub open spec fn skip_blanks(s: Seq<u8>, pos: int) -> int
    decreases s.len() - pos,
{
    if 0 <= pos < s.len() && is_blank_byte(s[pos]) {
        skip_blanks(s, pos + 1)
    } else {
        pos
    }
}

/// The first position at or after `pos` that is not a digit or point.
pub open spec fn scan_number(s: Seq<u8>, pos: int) -> int
    decreases s.len() - pos,
{
    if 0 <= pos < s.len() && is_number_byte(s[pos]) {
        scan_number(s, pos + 1)
    } else {
        pos
    }
}

/// Where a literal starting at `q` ends: an optional `-`, then digits and
/// points.
pub open spec fn number_end(s: Seq<u8>, q: int) -> int {
    scan_number(
        s,
        if 0 <= q < s.len() && s[q] == 45 {
            q + 1
        } else {
            q
        },
    )
}

/// How many bytes of `t` are digits.
pub open spec fn digit_count(t: Seq<u8>) -> nat
    decreases t.len(),
{
    if t.len() == 0 {
        0
    } else {
        digit_count(t.drop_last()) + if 48 <= t.last() && t.last() <= 57 {
            1nat
        } else {
            0nat
        }
    }
}

/// How many bytes of `t` are points.
pub open spec fn point_count(t: Seq<u8>) -> nat
    decreases t.len(),
{
    if t.len() == 0 {
        0
    } else {
        point_count(t.drop_last()) + if t.last() == 46 {
            1nat
        } else {
            0nat
        }
    }
}

/// Whether a scanned literal (an optional `-`, then digits and points) is
/// a decimal number: at least one digit and at most one point.
pub open spec fn valid_number(t: Seq<u8>) -> bool {
    let body = if t.len() > 0 && t[0] == 45 {
        t.drop_first()
    } else {
        t
    };
    digit_count(body) >= 1 && point_count(body) <= 1
}

/// Skipping blanks moves forward over blanks only and stops at the end or
/// at the first byte that is not a blank.
pub proof fn lemma_skip_blanks(s: Seq<u8>, pos: int)
    requires
        0 <= pos,
    ensures
        pos <= skip_blanks(s, pos),
        pos <= s.len() ==> skip_blanks(s, pos) <= s.len(),
        forall|k: int| pos <= k < skip_blanks(s, pos) ==> is_blank_byte(#[trigger] s[k]),
        skip_blanks(s, pos) < s.len() ==> !is_blank_byte(s[skip_blanks(s, pos)]),
    decreases s.len() - pos,
{
    if 0 <= pos < s.len() && is_blank_byte(s[pos]) {
        lemma_skip_blanks(s, pos + 1);
    }
}

proof fn lemma_scan_number(s: Seq<u8>, pos: int)
    requires
        0 <= pos,
    ensures
        pos <= scan_number(s, pos),
        pos <= s.len() ==> scan_number(s, pos) <= s.len(),
        forall|k: int| pos <= k < scan_number(s, pos) ==> is_number_byte(#[trigger] s[k]),
        scan_number(s, pos) < s.len() ==> !is_number_byte(s[scan_number(s, pos)]),
    decreases s.len() - pos,
{
    if 0 <= pos < s.len() && is_number_byte(s[pos]) {
        lemma_scan_number(s, pos + 1);
    }
}

/// An expression at `pos`: terms joined by `+` and `-`, left to right.
/// The result is the tree and the position after it.
pub open spec fn expr(s: Seq<u8>, pos: int) -> Option<(Arith, int)>
    decreases s.len() - pos, 3int,
{
    if !(0 <= pos <= s.len()) {
        None
    } else {
        match term(s, pos) {
            None => None,
            Some((v, p)) => if pos < p <= s.len() {
                expr_rest(s, v, p)
            } else {
                None
            },
        }
    }
}

/// The rest of an expression after the tree `acc` parsed up to `pos`.
pub open spec fn expr_rest(s: Seq<u8>, acc: Arith, pos: int) -> Option<(Arith, int)>
    decreases s.len() - pos, 2int,
{
    if !(0 <= pos <= s.len()) {
        None
    } else {
        let q = skip_blanks(s, pos);
        proof {
            lemma_skip_blanks(s, pos);
        }
        if q < s.len() && (s[q] == 43 || s[q] == 45) {
            match term(s, q + 1) {
                None => None,
                Some((v, p)) => if pos < p <= s.len() {
                    let next = if s[q] == 43 {
                        Arith::Add(Box::new(acc), Box::new(v))
                    } else {
                        Arith::Sub(Box::new(acc), Box::new(v))
                    };
                    expr_rest(s, next, p)
                } else {
                    None
                },
            }
        } else {
            Some((acc, q))
        }
    }
}

/// A term at `pos`: factors joined by `*` and `/`, left to right.
pub open spec fn term(s: Seq<u8>, pos: int) -> Option<(Arith, int)>
    decreases s.len() - pos, 1int,
{
    if !(0 <= pos <= s.len()) {
        None
    } else {
        match factor(s, pos) {
            None => None,
            Some((v, p)) => if pos < p <= s.len() {
                term_rest(s, v, p)
            } else {
                None
            },
        }
    }
}

/// The rest of a term after the tree `acc` parsed up to `pos`.
pub open spec fn term_rest(s: Seq<u8>, acc: Arith, pos: int) -> Option<(Arith, int)>
    decreases s.len() - pos, 0int,
{
    if !(0 <= pos <= s.len()) {
        None
    } else {
        let q = skip_blanks(s, pos);
        proof {
            lemma_skip_blanks(s, pos);
        }
        if q < s.len() && (s[q] == 42 || s[q] == 47) {
            match factor(s, q + 1) {
                None => None,
                Some((v, p)) => if pos < p <= s.len() {
                    let next = if s[q] == 42 {
                        Arith::Mul(Box::new(acc), Box::new(v))
                    } else {
                        Arith::Div(Box::new(acc), Box::new(v))
                    };
                    term_rest(s, next, p)
                } else {
                    None
                },
            }
        } else {
            Some((acc, q))
        }
    }
}

/// A factor at `pos`: an expression in parentheses or a literal.
pub open spec fn factor(s: Seq<u8>, pos: int) -> Option<(Arith, int)>
    decreases s.len() - pos, 0int,
{
    if !(0 <= pos <= s.len()) {
        None
    } else {
        let q = skip_blanks(s, pos);
        proof {
            lemma_skip_blanks(s, pos);
        }
        if q < s.len() && s[q] == 40 {
            match expr(s, q + 1) {
                None => None,
                Some((v, p)) => {
                    let r = skip_blanks(s, p);
                    if 0 <= r < s.len() && s[r] == 41 {
                        Some((v, r + 1))
                    } else {
                        None
                    }
                },
            }
        } else {
            let e = number_end(s, q);
            if q <= e <= s.len() && valid_number(s.subrange(q, e)) {
                Some((Arith::Number(s.subrange(q, e)), e))
            } else {
                None
            }
        }
    }
}

/// The tree of a whole input: an expression followed only by spaces and
/// tabs.
pub open spec fn arithmetic(s: Seq<u8>) -> Option<Arith> {
    match expr(s, 0) {
        Some((v, p)) => if skip_blanks(s, p) == s.len() {
            Some(v)
        } else {
            None
        },
        None => None,
    }
}

fn skip_ws(s: &[u8], pos: usize) -> (q: usize)
    requires
        pos <= s@.len(),
    ensures
        q == skip_blanks(s@, pos as int),
{
    let mut q = pos;
    proof {
        lemma_skip_blanks(s@, pos as int);
    }
    while q < s.len() && (s[q] == 32 || s[q] == 9)
        invariant
            pos <= q <= s@.len(),
            skip_blanks(s@, q as int) == skip_blanks(s@, pos as int),
        decreases s@.len() - q,
    {
        q = q + 1;
    }
    q
}

fn count_kind(t: &Vec<u8>, points: bool) -> (n: usize)
    ensures
        n == (if points {
            point_count(t@)
        } else {
            digit_count(t@)
        }),
{
    let mut n: usize = 0;
    let mut i: usize = 0;
    while i < t.len()
        invariant
            i <= t.len(),
            n <= i,
            n == (if points {
                point_count(t@.take(i as int))
            } else {
                digit_count(t@.take(i as int))
            }),
        decreases t.len() - i,
    {
        proof {
            assert(t@.take(i + 1).drop_last() =~= t@.take(i as int));
        }
        let b = t[i];
        if (points && b == 46) || (!points && 48 <= b && b <= 57) {
            n = n + 1;
        }
        i = i + 1;
    }
    assert(t@.take(t.len() as int) =~= t@);
    n
}

fn is_valid_number(t: &Vec<u8>) -> (b: bool)
    ensures
        b == valid_number(t@),
{
    let mut body: Vec<u8> = Vec::new();
    let start: usize = if t.len() > 0 && t[0] == 45 {
        1
    } else {
        0
    };
    let mut i = start;
    while i < t.len()
        invariant
            start <= i <= t.len(),
            body@ == t@.subrange(start as int, i as int),
        decreases t.len() - i,
    {
        body.push(t[i]);
        i = i + 1;
        assert(body@ =~= t@.subrange(start as int, i as int));
    }
    if start == 1 {
        assert(body@ =~= t@.drop_first());
    } else {
        assert(body@ =~= t@);
    }
    count_kind(&body, false) >= 1 && count_kind(&body, true) <= 1
}

fn parse_factor(s: &[u8], pos: usize) -> (r: Option<(Expr, usize)>)
    requires
        pos <= s@.len(),
    ensures
        match factor(s@, pos as int) {
            None => r is None,
            Some((v, p)) => r matches Some((e, q)) && arith_of(e) == v && q == p,
        },
    decreases s@.len() - pos, 0int,
{
    let q = skip_ws(s, pos);
    proof {
        lemma_skip_blanks(s@, pos as int);
    }
    if q < s.len() && s[q] == 40 {
        match parse_expr(s, q + 1) {
            None => None,
            Some((v, p)) => {
                proof {
                    lemma_expr_bounds(s@, (q + 1) as int);
                }
                let r = skip_ws(s, p);
                if r < s.len() && s[r] == 41 {
                    Some((v, r + 1))
                } else {
                    None
                }
            },
        }
    } else {
        let start = q;
        let mut e = q;
        if e < s.len() && s[e] == 45 {
            e = e + 1;
        }
        proof {
            lemma_scan_number(s@, e as int);
        }
        let ghost from = e;
        while e < s.len() && ((48 <= s[e] && s[e] <= 57) || s[e] == 46)
            invariant
                from <= e <= s@.len(),
                scan_number(s@, e as int) == scan_number(s@, from as int),
            decreases s@.len() - e,
        {
            e = e + 1;
        }
        let mut text: Vec<u8> = Vec::new();
        let mut k = start;
        while k < e
            invariant
                start <= k <= e <= s@.len(),
                text@ == s@.subrange(start as int, k as int),
            decreases e - k,
        {
            text.push(s[k]);
            k = k + 1;
            assert(text@ =~= s@.subrange(start as int, k as int));
        }
        if is_valid_number(&text) {
            Some((Expr::Number(text), e))
        } else {
            None
        }
    }
}

fn parse_term(s: &[u8], pos: usize) -> (r: Option<(Expr, usize)>)
    requires
        pos <= s@.len(),
    ensures
        match term(s@, pos as int) {
            None => r is None,
            Some((v, p)) => r matches Some((e, q)) && arith_of(e) == v && q == p,
        },
    decreases s@.len() - pos, 1int,
{
    let (first, p0) = match parse_factor(s, pos) {
        None => return None,
        Some(x) => x,
    };
    proof {
        lemma_factor_bounds(s@, pos as int);
    }
    let mut value = first;
    let mut cur = p0;
    loop
        invariant
            pos < cur <= s@.len(),
            term(s@, pos as int) == term_rest(s@, arith_of(value), cur as int),
        decreases s@.len() - cur,
    {
        let q = skip_ws(s, cur);
        proof {
            lemma_skip_blanks(s@, cur as int);
        }
        if q < s.len() && (s[q] == 42 || s[q] == 47) {
            let op = s[q];
            match parse_factor(s, q + 1) {
                None => return None,
                Some((v, p)) => {
                    proof {
                        lemma_factor_bounds(s@, (q + 1) as int);
                    }
                    if op == 42 {
                        value = Expr::Mul(Box::new(value), Box::new(v));
                    } else {
                        value = Expr::Div(Box::new(value), Box::new(v));
                    }
                    cur = p;
                },
            }
        } else {
            return Some((value, q));
        }
    }
}

fn parse_expr(s: &[u8], pos: usize) -> (r: Option<(Expr, usize)>)
    requires
        pos <= s@.len(),
    ensures
        match expr(s@, pos as int) {
            None => r is None,
            Some((v, p)) => r matches Some((e, q)) && arith_of(e) == v && q == p,
        },
    decreases s@.len() - pos, 3int,
{
    let (first, p0) = match parse_term(s, pos) {
        None => return None,
        Some(x) => x,
    };
    proof {
        lemma_term_bounds(s@, pos as int);
    }
    let mut value = first;
    let mut cur = p0;
    loop
        invariant
            pos < cur <= s@.len(),
            expr(s@, pos as int) == expr_rest(s@, arith_of(value), cur as int),
        decreases s@.len() - cur,
    {
        let q = skip_ws(s, cur);
        proof {
            lemma_skip_blanks(s@, cur as int);
        }
        if q < s.len() && (s[q] == 43 || s[q] == 45) {
            let op = s[q];
            match parse_term(s, q + 1) {
                None => return None,
                Some((v, p)) => {
                    proof {
                        lemma_term_bounds(s@, (q + 1) as int);
                    }
                    if op == 43 {
                        value = Expr::Add(Box::new(value), Box::new(v));
                    } else {
                        value = Expr::Sub(Box::new(value), Box::new(v));
                    }
                    cur = p;
                },
            }
        } else {
            return Some((value, q));
        }
    }
}

proof fn lemma_factor_bounds(s: Seq<u8>, pos: int)
    requires
        0 <= pos <= s.len(),
    ensures
        factor(s, pos) matches Some((v, p)) ==> pos < p <= s.len(),
    decreases s.len() - pos, 0int,
{
    let q = skip_blanks(s, pos);
    lemma_skip_blanks(s, pos);
    if q < s.len() && s[q] == 40 {
        lemma_expr_bounds(s, q + 1);
        match expr(s, q + 1) {
            None => {},
            Some((v, p)) => {
                if p >= 0 {
                    lemma_skip_blanks(s, p);
                }
            },
        }
    } else {
        let e = number_end(s, q);
        let start = if 0 <= q < s.len() && s[q] == 45 {
            q + 1
        } else {
            q
        };
        lemma_scan_number(s, start);
        if q <= e <= s.len() && valid_number(s.subrange(q, e)) {
            if e == q {
                let t = s.subrange(q, e);
                assert(t.len() == 0);
                assert(digit_count(t) == 0);
            }
        }
    }
}

proof fn lemma_term_rest_bounds(s: Seq<u8>, acc: Arith, pos: int)
    requires
        0 <= pos <= s.len(),
    ensures
        term_rest(s, acc, pos) matches Some((v, p)) ==> pos <= p <= s.len(),
    decreases s.len() - pos, 0int,
{
    let q = skip_blanks(s, pos);
    lemma_skip_blanks(s, pos);
    if q < s.len() && (s[q] == 42 || s[q] == 47) {
        lemma_factor_bounds(s, q + 1);
        match factor(s, q + 1) {
            None => {},
            Some((v, p)) => {
                if pos < p <= s.len() {
                    let next = if s[q] == 42 {
                        Arith::Mul(Box::new(acc), Box::new(v))
                    } else {
                        Arith::Div(Box::new(acc), Box::new(v))
                    };
                    lemma_term_rest_bounds(s, next, p);
                }
            },
        }
    }
}

proof fn lemma_term_bounds(s: Seq<u8>, pos: int)
    requires
        0 <= pos <= s.len(),
    ensures
        term(s, pos) matches Some((v, p)) ==> pos < p <= s.len(),
    decreases s.len() - pos, 1int,
{
    lemma_factor_bounds(s, pos);
    match factor(s, pos) {
        None => {},
        Some((v, p)) => {
            if pos < p <= s.len() {
                lemma_term_rest_bounds(s, v, p);
            }
        },
    }
}

proof fn lemma_expr_rest_bounds(s: Seq<u8>, acc: Arith, pos: int)
    requires
        0 <= pos <= s.len(),
    ensures
        expr_rest(s, acc, pos) matches Some((v, p)) ==> pos <= p <= s.len(),
    decreases s.len() - pos, 2int,
{
    let q = skip_blanks(s, pos);
    lemma_skip_blanks(s, pos);
    if q < s.len() && (s[q] == 43 || s[q] == 45) {
        lemma_term_bounds(s, q + 1);
        match term(s, q + 1) {
            None => {},
            Some((v, p)) => {
                if pos < p <= s.len() {
                    let next = if s[q] == 43 {
                        Arith::Add(Box::new(acc), Box::new(v))
                    } else {
                        Arith::Sub(Box::new(acc), Box::new(v))
                    };
                    lemma_expr_rest_bounds(s, next, p);
                }
            },
        }
    }
}

proof fn lemma_expr_bounds(s: Seq<u8>, pos: int)
    requires
        0 <= pos <= s.len(),
    ensures
        expr(s, pos) matches Some((v, p)) ==> pos < p <= s.len(),
    decreases s.len() - pos, 3int,
{
    lemma_term_bounds(s, pos);
    match term(s, pos) {
        None => {},
        Some((v, p)) => {
            if pos < p <= s.len() {
                lemma_expr_rest_bounds(s, v, p);
            }
        },
    }
}

/// The expression tree of `input`, if the whole input is an arithmetic
/// expression.
pub fn parse_arithmetic(input: &str) -> (r: Option<Expr>)
    ensures
        match arithmetic(encode_utf8(input@)) {
            None => r is None,
            Some(v) => r matches Some(e) && arith_of(e) == v,
        },
{
    let s = input.as_bytes();
    match parse_expr(s, 0) {
        None => None,
        Some((v, p)) => {
            proof {
                lemma_expr_bounds(s@, 0);
            }
            let q = skip_ws(s, p);
            if q == s.len() {
                Some(v)
            } else {
                None
            }
        },
    }
}

/// Whether `expr` holds one of `+ - * /`.
pub open spec fn has_operator_seq(expr: Seq<char>) -> bool {
    exists|i: int| 0 <= i < expr.len() && #[trigger] is_operator_char(expr[i])
}

pub open spec fn is_operator_char(c: char) -> bool {
    c == '+' || c == '-' || c == '*' || c == '/'
}

/// Whether `expr` holds one of `+ - * /`.
pub fn has_operator(expr: &str) -> (b: bool)
    ensures
        b == has_operator_seq(expr@),
{
    let v = chars_of(expr);
    let mut i: usize = 0;
    while i < v.len()
        invariant
            v@ == expr@,
            i <= v.len(),
            forall|k: int| 0 <= k < i ==> !is_operator_char(#[trigger] v@[k]),
        decreases v.len() - i,
    {
        let c = v[i];
        if c == '+' || c == '-' || c == '*' || c == '/' {
            assert(is_operator_char(expr@[i as int]));
            return true;
        }
        i = i + 1;
    }
    false
}


/// A product of literals, grouped from the left: each `*` or `/` takes a
/// single literal as its right operand.
pub open spec fn is_product(t: Arith) -> bool
    decreases t,
{
    match t {
        Arith::Number(_) => true,
        Arith::Mul(a, b) => is_product(*a) && *b is Number,
        Arith::Div(a, b) => is_product(*a) && *b is Number,
        _ => false,
    }
}

/// A sum of products, grouped from the left: each `+` or `-` takes a
/// product as its right operand.
pub open spec fn is_sum_of_products(t: Arith) -> bool
    decreases t,
{
    match t {
        Arith::Add(a, b) => is_sum_of_products(*a) && is_product(*b),
        Arith::Sub(a, b) => is_sum_of_products(*a) && is_product(*b),
        _ => is_product(t),
    }
}

/// Whether `s` holds no opening parenthesis.
pub open spec fn has_no_parenthesis(s: Seq<u8>) -> bool {
    forall|k: int| 0 <= k < s.len() ==> s[k] != 40
}

proof fn lemma_factor_is_literal(s: Seq<u8>, pos: int)
    requires
        has_no_parenthesis(s),
    ensures
        factor(s, pos) matches Some((v, p)) ==> v is Number,
{
    if 0 <= pos <= s.len() {
        lemma_skip_blanks(s, pos);
    }
}

proof fn lemma_term_rest_is_product(s: Seq<u8>, acc: Arith, pos: int)
    requires
        has_no_parenthesis(s),
        is_product(acc),
    ensures
        term_rest(s, acc, pos) matches Some((v, p)) ==> is_product(v),
    decreases s.len() - pos,
{
    if 0 <= pos <= s.len() {
        let q = skip_blanks(s, pos);
        lemma_skip_blanks(s, pos);
        if q < s.len() && (s[q] == 42 || s[q] == 47) {
            lemma_factor_is_literal(s, q + 1);
            match factor(s, q + 1) {
                None => {},
                Some((v, p)) => {
                    if pos < p <= s.len() {
                        let next = if s[q] == 42 {
                            Arith::Mul(Box::new(acc), Box::new(v))
                        } else {
                            Arith::Div(Box::new(acc), Box::new(v))
                        };
                        assert(is_product(next));
                        lemma_term_rest_is_product(s, next, p);
                    }
                },
            }
        }
    }
}

proof fn lemma_term_is_product(s: Seq<u8>, pos: int)
    requires
        has_no_parenthesis(s),
    ensures
        term(s, pos) matches Some((v, p)) ==> is_product(v),
{
    lemma_factor_is_literal(s, pos);
    match factor(s, pos) {
        None => {},
        Some((v, p)) => {
            lemma_term_rest_is_product(s, v, p);
        },
    }
}

proof fn lemma_expr_rest_is_sum(s: Seq<u8>, acc: Arith, pos: int)
    requires
        has_no_parenthesis(s),
        is_sum_of_products(acc),
    ensures
        expr_rest(s, acc, pos) matches Some((v, p)) ==> is_sum_of_products(v),
    decreases s.len() - pos,
{
    if 0 <= pos <= s.len() {
        let q = skip_blanks(s, pos);
        lemma_skip_blanks(s, pos);
        if q < s.len() && (s[q] == 43 || s[q] == 45) {
            lemma_term_is_product(s, q + 1);
            match term(s, q + 1) {
                None => {},
                Some((v, p)) => {
                    if pos < p <= s.len() {
                        let next = if s[q] == 43 {
                            Arith::Add(Box::new(acc), Box::new(v))
                        } else {
                            Arith::Sub(Box::new(acc), Box::new(v))
                        };
                        assert(is_sum_of_products(next));
                        lemma_expr_rest_is_sum(s, next, p);
                    }
                },
            }
        }
    }
}

/// Precedence and grouping: without parentheses, `*` and `/` bind tighter
/// than `+` and `-`, and all four group from the left. The tree of such an
/// input is a sum of products: every `*` or `/` has a single literal as its
/// right operand, and every `+` or `-` a product (so `a*b+c` is read as
/// `(a*b)+c`, never as `a*(b+c)`).
pub proof fn arithmetic_precedence(s: Seq<u8>)
    requires
        has_no_parenthesis(s),
    ensures
        arithmetic(s) matches Some(t) ==> is_sum_of_products(t),
{
    lemma_term_is_product(s, 0);
    match term(s, 0) {
        None => {},
        Some((v, p)) => {
            if is_product(v) {
                assert(is_sum_of_products(v)) by {
                    match v {
                        Arith::Add(_, _) => {},
                        Arith::Sub(_, _) => {},
                        _ => {},
                    }
                }
            }
            lemma_expr_rest_is_sum(s, v, p);
        },
    }
}

/// The expression a calculator query asks for: the trimmed query, when it
/// is not blank, holds an operator and is an arithmetic expression.
pub open spec fn calculation_of(query: Seq<char>) -> Option<Arith> {
    let t = trim_seq(query);
    if t.len() == 0 || !has_operator_seq(t) {
        None
    } else {
        arithmetic(encode_utf8(t))
    }
}

/// The expression tree a calculator query asks for, if any.
pub fn calculator_query(query: &str) -> (r: Option<Expr>)
    ensures
        match calculation_of(query@) {
            None => r is None,
            Some(v) => r matches Some(e) && arith_of(e) == v,
        },
{
    let expr = trim(query);
    if expr.unicode_len() == 0 || !has_operator(expr) {
        return None;
    }
    parse_arithmetic(expr)
}

/// The result showing the value of a calculation: the value as title, the
/// trimmed query as subtitle, pinned, and copying the value when activated.
pub open spec fn is_calculation_result(r: SearchResult, query: Seq<char>, value: Seq<char>) -> bool {
    &&& r.title@ == value
    &&& r.subtitle@ == trim_seq(query)
    &&& r.icon matches Some(i) && i@ == "accessories-calculator-symbolic"@
    &&& r.pinned
    &&& r.action matches PluginAction::CopyText(t) && t@ == value
    &&& r.buttons@.len() == 0
    &&& r.refresh_key is None
    &&& r.refresh_interval_ms is None
    &&& r.source_plugin_id is None
}

/// The result for a calculator query whose value reads `value`.
pub fn calculator_result(query: &str, value: &str) -> (r: SearchResult)
    ensures
        is_calculation_result(r, query@, value@),
{
    SearchResult {
        title: owned(value),
        subtitle: owned(trim(query)),
        icon: Some(owned("accessories-calculator-symbolic")),
        pinned: true,
        action: PluginAction::CopyText(owned(value)),
        buttons: Vec::new(),
        refresh_key: None,
        refresh_interval_ms: None,
        source_plugin_id: None,
    }
}

} // verus!
