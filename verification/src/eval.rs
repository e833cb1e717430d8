//! The arithmetic expression evaluator.
//!
//! The grammar covers decimal integer literals, the binary operators
//! `+ - * / %` with standard precedence and left-to-right associativity,
//! parenthesized sub-expressions and an optional leading unary minus.
//! All arithmetic is carried out on 64-bit signed integers; division and
//! modulo truncate toward zero. Evaluation fails on unbalanced parentheses,
//! unknown tokens (including identifiers left after substitution), division
//! by zero, empty input, or any intermediate value outside the 64-bit range.
use vstd::prelude::*;

use crate::text::{char_in_class, char_in_class_x, run_len, run_len_x, CharClass};

verus! {

/// One token of the expression grammar.
#[derive(Clone, Copy, Debug, PartialEq, Eq, Structural)]
pub enum Tok {
    Num(i64),
    Plus,
    Minus,
    Star,
    Slash,
    Percent,
    LParen,
    RParen,
}

/// Numeric value of a decimal digit character.
pub open spec fn digit_of(c: char) -> int {
    c as u32 - 48
}

/// Value of a sequence of decimal digit characters, most significant first.
pub open spec fn digits_val(ds: Seq<char>) -> int
    decreases ds.len(),
{
    if ds.len() == 0 {
        0
    } else {
        digits_val(ds.drop_last()) * 10 + digit_of(ds.last())
    }
}

pub proof fn lemma_digits_val_nonneg(ds: Seq<char>)
    requires
        forall|k: int| 0 <= k < ds.len() ==> char_in_class(ds[k], CharClass::Digit),
    ensures
        digits_val(ds) >= 0,
    decreases ds.len(),
{
    if ds.len() > 0 {
        lemma_digits_val_nonneg(ds.drop_last());
    }
}

/// A prefix of a digit sequence never exceeds the whole sequence in value.
pub proof fn lemma_digits_val_prefix_le(ds: Seq<char>, k: int)
    requires
        0 <= k <= ds.len(),
        forall|m: int| 0 <= m < ds.len() ==> char_in_class(ds[m], CharClass::Digit),
    ensures
        digits_val(ds.take(k)) <= digits_val(ds),
    decreases ds.len() - k,
{
    if k < ds.len() {
        lemma_digits_val_prefix_le(ds, k + 1);
        let p = ds.take(k + 1);
        assert(p.drop_last() =~= ds.take(k));
        lemma_digits_val_nonneg(ds.take(k));
        assert(digits_val(ds.take(k)) <= digits_val(ds.take(k + 1)));
    } else {
        assert(ds.take(k) =~= ds);
    }
}

pub open spec fn cons_tok(t: Tok, r: Option<Seq<Tok>>) -> Option<Seq<Tok>> {
    match r {
        None => None,
        Some(ts) => Some(seq![t] + ts),
    }
}

/// Termination helper for the tokenizer: a digit run stays inside the text.
#[via_fn]
proof fn spec_tokenize_from_dec(s: Seq<char>, i: int) {
    if 0 <= i < s.len() {
        crate::text::lemma_run_len_bound(s, i, CharClass::Digit);
    }
}

/// Tokens of `s` from position `i` on; `None` when an unknown character or
/// an oversized literal is found.
pub open spec fn spec_tokenize_from(s: Seq<char>, i: int) -> Option<Seq<Tok>>
    decreases s.len() - i,
        via spec_tokenize_from_dec
{
    if !(0 <= i <= s.len()) {
        None
    } else if i == s.len() {
        Some(Seq::empty())
    } else {
        let c = s[i];
        if char_in_class(c, CharClass::Space) {
            spec_tokenize_from(s, i + 1)
        } else if c == '+' {
            cons_tok(Tok::Plus, spec_tokenize_from(s, i + 1))
        } else if c == '-' {
            cons_tok(Tok::Minus, spec_tokenize_from(s, i + 1))
        } else if c == '*' {
            cons_tok(Tok::Star, spec_tokenize_from(s, i + 1))
        } else if c == '/' {
            cons_tok(Tok::Slash, spec_tokenize_from(s, i + 1))
        } else if c == '%' {
            cons_tok(Tok::Percent, spec_tokenize_from(s, i + 1))
        } else if c == '(' {
            cons_tok(Tok::LParen, spec_tokenize_from(s, i + 1))
        } else if c == ')' {
            cons_tok(Tok::RParen, spec_tokenize_from(s, i + 1))
        } else if char_in_class(c, CharClass::Digit) {
            let r = run_len(s, i, CharClass::Digit);
            let v = digits_val(s.subrange(i, i + r));
            if v > i64::MAX {
                None
            } else {
                cons_tok(Tok::Num(v as i64), spec_tokenize_from(s, i + r))
            }
        } else {
            None
        }
    }
}

pub open spec fn spec_tokenize(s: Seq<char>) -> Option<Seq<Tok>> {
    spec_tokenize_from(s, 0)
}

spec fn prepend_toks(pre: Seq<Tok>, r: Option<Seq<Tok>>) -> Option<Seq<Tok>> {
    match r {
        None => None,
        Some(ts) => Some(pre + ts),
    }
}

proof fn lemma_prepend_empty(r: Option<Seq<Tok>>)
    ensures
        prepend_toks(Seq::empty(), r) == r,
{
    match r {
        None => {},
        Some(ts) => {
            assert(Seq::<Tok>::empty() + ts =~= ts);
        },
    }
}

proof fn lemma_prepend_cons(pre: Seq<Tok>, t: Tok, r: Option<Seq<Tok>>)
    ensures
        prepend_toks(pre, cons_tok(t, r)) == prepend_toks(pre.push(t), r),
{
    match r {
        None => {},
        Some(ts) => {
            assert(pre + (seq![t] + ts) =~= pre.push(t) + ts);
        },
    }
}

/// Tokenize the characters of an expression.
#[verifier::loop_isolation(false)]
pub fn tokenize(v: &Vec<char>) -> (r: Option<Vec<Tok>>)
    ensures
        match r {
            Some(ts) => spec_tokenize(v@) == Some(ts@),
            None => spec_tokenize(v@) is None,
        },
{
    let mut out: Vec<Tok> = Vec::new();
    let mut i: usize = 0;
    proof {
        lemma_prepend_empty(spec_tokenize_from(v@, 0));
    }
    while i < v.len()
        invariant
            0 <= i <= v.len(),
            spec_tokenize(v@) == prepend_toks(out@, spec_tokenize_from(v@, i as int)),
        decreases v.len() - i,
    {
        let c = v[i];
        if char_in_class_x(c, CharClass::Space) {
            i = i + 1;
        } else if c == '+' || c == '-' || c == '*' || c == '/' || c == '%' || c == '(' || c
            == ')' {
            let t = if c == '+' {
                Tok::Plus
            } else if c == '-' {
                Tok::Minus
            } else if c == '*' {
                Tok::Star
            } else if c == '/' {
                Tok::Slash
            } else if c == '%' {
                Tok::Percent
            } else if c == '(' {
                Tok::LParen
            } else {
                Tok::RParen
            };
            proof {
                lemma_prepend_cons(out@, t, spec_tokenize_from(v@, i + 1));
            }
            out.push(t);
            i = i + 1;
        } else if char_in_class_x(c, CharClass::Digit) {
            let r = run_len_x(v, i, CharClass::Digit);
            let ghost run = v@.subrange(i as int, i + r);
            proof {
                assert(forall|m: int| 0 <= m < run.len() ==> char_in_class(run[m], CharClass::Digit));
                lemma_digits_val_nonneg(run);
            }
            let mut acc: u64 = 0;
            let mut j: usize = i;
            while j < i + r
                invariant
                    i <= j <= i + r,
                    i + r <= v.len(),
                    run == v@.subrange(i as int, i + r),
                    forall|k: int| i <= k < i + r ==> char_in_class(v@[k], CharClass::Digit),
                    acc as int == digits_val(run.take(j - i)),
                    acc <= i64::MAX as u64,
                decreases i + r - j,
            {
                let cj = v[j];
                proof {
                    assert(run[j - i] == v@[j as int]);
                    assert(char_in_class(v@[j as int], CharClass::Digit));
                }
                let d: u64 = (cj as u32 - 48) as u64;
                proof {
                    assert(d < 10);
                    assert(d as int == digit_of(run[j - i]));
                }
                if acc > (0x7fff_ffff_ffff_ffffu64 - d) / 10 {
                    proof {
                        let p = run.take(j - i + 1);
                        assert(p.drop_last() =~= run.take(j - i));
                        assert(p.last() == run[j - i]);
                        assert(digits_val(p) == acc as int * 10 + d);
                        assert(digits_val(p) > i64::MAX);
                        lemma_digits_val_prefix_le(run, j - i + 1);
                        assert(digits_val(run) > i64::MAX);
                        assert(spec_tokenize_from(v@, i as int) is None);
                        assert(spec_tokenize(v@) is None);
                    }
                    return None;
                }
                proof {
                    let p = run.take(j - i + 1);
                    assert(p.drop_last() =~= run.take(j - i));
                    assert(p.last() == run[j - i]);
                }
                acc = acc * 10 + d;
                j = j + 1;
            }
            proof {
                assert(run.take(r as int) =~= run);
                assert(acc as int == digits_val(run));
                lemma_prepend_cons(out@, Tok::Num(acc as i64), spec_tokenize_from(v@, i + r));
            }
            out.push(Tok::Num(acc as i64));
            i = i + r;
        } else {
            return None;
        }
    }
    Some(out)
}

/// The value fits in a 64-bit signed integer.
pub open spec fn in_i64(x: int) -> bool {
    i64::MIN <= x <= i64::MAX
}

pub open spec fn abs_int(a: int) -> int {
    if a < 0 {
        -a
    } else {
        a
    }
}

/// Truncating (toward-zero) division.
pub open spec fn tdiv(a: int, b: int) -> int
    recommends
        b != 0,
{
    if (a < 0) != (b < 0) {
        -(abs_int(a) / abs_int(b))
    } else {
        abs_int(a) / abs_int(b)
    }
}

/// Remainder of truncating division; its sign follows the dividend.
pub open spec fn tmod(a: int, b: int) -> int
    recommends
        b != 0,
{
    a - b * tdiv(a, b)
}

/// The remainder of truncating division is the Euclidean remainder of the
/// magnitudes, carrying the sign of the dividend.
proof fn lemma_tmod_magnitude(a: int, b: int)
    requires
        b != 0,
    ensures
        tmod(a, b) == if a < 0 {
            -(abs_int(a) % abs_int(b))
        } else {
            abs_int(a) % abs_int(b)
        },
{
    let aa = abs_int(a);
    let ab = abs_int(b);
    let q = aa / ab;
    let r = aa % ab;
    vstd::arithmetic::div_mod::lemma_fundamental_div_mod(aa, ab);
    assert(aa == ab * q + r);
    if a >= 0 && b > 0 {
        assert(tmod(a, b) == a - b * q);
        assert(a - b * q == r);
    } else if a >= 0 && b < 0 {
        assert(tmod(a, b) == a - b * (-q));
        assert(b * (-q) == ab * q) by (nonlinear_arith)
            requires
                b == -ab,
        ;
        assert(a - ab * q == r);
    } else if a < 0 && b > 0 {
        assert(tmod(a, b) == a - b * (-q));
        assert(b * (-q) == -(ab * q)) by (nonlinear_arith)
            requires
                b == ab,
        ;
        assert(a + ab * q == -r);
    } else {
        assert(tmod(a, b) == a - b * q);
        assert(b * q == -(ab * q)) by (nonlinear_arith)
            requires
                b == -ab,
        ;
        assert(a + ab * q == -r);
    }
}

/// Magnitude of a 64-bit signed integer.
fn abs_u64(a: i64) -> (m: u64)
    ensures
        m as int == abs_int(a as int),
{
    if a >= 0 {
        a as u64
    } else {
        let w: i128 = -(a as i128);
        w as u64
    }
}

/// Truncating division on 64-bit values; `None` when the quotient does not
/// fit (the smallest value divided by minus one).
fn exec_tdiv(a: i64, b: i64) -> (r: Option<i64>)
    requires
        b != 0,
    ensures
        match r {
            Some(q) => in_i64(tdiv(a as int, b as int)) && q as int == tdiv(a as int, b as int),
            None => !in_i64(tdiv(a as int, b as int)),
        },
{
    let ma = abs_u64(a);
    let mb = abs_u64(b);
    let q0 = ma / mb;
    proof {
        vstd::arithmetic::div_mod::lemma_div_pos_is_pos(ma as int, mb as int);
        vstd::arithmetic::div_mod::lemma_div_nonincreasing(ma as int, mb as int);
    }
    if (a < 0) != (b < 0) {
        if q0 == 0 {
            Some(0)
        } else {
            let w: i128 = -(q0 as i128);
            Some(w as i64)
        }
    } else {
        if q0 > 0x7fff_ffff_ffff_ffffu64 {
            None
        } else {
            Some(q0 as i64)
        }
    }
}

/// Remainder of truncating division on 64-bit values; always representable.
fn exec_tmod(a: i64, b: i64) -> (r: i64)
    requires
        b != 0,
    ensures
        r as int == tmod(a as int, b as int),
{
    let ma = abs_u64(a);
    let mb = abs_u64(b);
    let r0 = ma % mb;
    proof {
        lemma_tmod_magnitude(a as int, b as int);
        vstd::arithmetic::div_mod::lemma_mod_division_less_than_divisor(ma as int, mb as int);
    }
    if a < 0 {
        if r0 == 0 {
            0
        } else {
            let w: i128 = -(r0 as i128);
            w as i64
        }
    } else {
        r0 as i64
    }
}

/// Parse and evaluate a factor: an integer literal or a parenthesized
/// sub-expression. Yields the value and the position after the factor.
pub open spec fn sp_factor(ts: Seq<Tok>, i: int) -> Option<(int, int)>
    decreases ts.len() - i, 1int,
{
    if !(0 <= i < ts.len()) {
        None
    } else {
        match ts[i] {
            Tok::Num(n) => Some((n as int, i + 1)),
            Tok::LParen => match sp_expr(ts, i + 1) {
                None => None,
                Some((v, j)) => if 0 <= j < ts.len() && ts[j] == Tok::RParen {
                    Some((v, j + 1))
                } else {
                    None
                },
            },
            _ => None,
        }
    }
}

/// Parse and evaluate a term: factors joined by `* / %`.
pub open spec fn sp_term(ts: Seq<Tok>, i: int) -> Option<(int, int)>
    decreases ts.len() - i, 2int,
{
    if !(0 <= i <= ts.len()) {
        None
    } else {
        match sp_factor(ts, i) {
            None => None,
            Some((v, j)) => if j <= i || j > ts.len() {
                None
            } else {
                sp_ftail(ts, j, v)
            },
        }
    }
}

/// Remaining `* / %` steps of a term, applied left to right to `acc`.
pub open spec fn sp_ftail(ts: Seq<Tok>, i: int, acc: int) -> Option<(int, int)>
    decreases ts.len() - i, 4int,
{
    if !(0 <= i <= ts.len()) {
        None
    } else if i < ts.len() && (ts[i] == Tok::Star || ts[i] == Tok::Slash || ts[i]
        == Tok::Percent) {
        match sp_factor(ts, i + 1) {
            None => None,
            Some((v2, j)) => {
                let a2 = if ts[i] == Tok::Star {
                    acc * v2
                } else if ts[i] == Tok::Slash {
                    if v2 == 0 {
                        acc
                    } else {
                        tdiv(acc, v2)
                    }
                } else {
                    if v2 == 0 {
                        acc
                    } else {
                        tmod(acc, v2)
                    }
                };
                if (ts[i] != Tok::Star && v2 == 0) || !in_i64(a2) {
                    None
                } else if j <= i || j > ts.len() {
                    None
                } else {
                    sp_ftail(ts, j, a2)
                }
            },
        }
    } else {
        Some((acc, i))
    }
}

/// Parse and evaluate an expression: an optional leading minus, then terms
/// joined by `+ -`.
pub open spec fn sp_expr(ts: Seq<Tok>, i: int) -> Option<(int, int)>
    decreases ts.len() - i, 3int,
{
    if !(0 <= i <= ts.len()) {
        None
    } else if i < ts.len() && ts[i] == Tok::Minus {
        match sp_term(ts, i + 1) {
            None => None,
            Some((v, j)) => if !in_i64(-v) {
                None
            } else if j <= i + 1 || j > ts.len() {
                None
            } else {
                sp_tail(ts, j, -v)
            },
        }
    } else {
        match sp_term(ts, i) {
            None => None,
            Some((v, j)) => if j <= i || j > ts.len() {
                None
            } else {
                sp_tail(ts, j, v)
            },
        }
    }
}

/// Remaining `+ -` steps of an expression, applied left to right to `acc`.
pub open spec fn sp_tail(ts: Seq<Tok>, i: int, acc: int) -> Option<(int, int)>
    decreases ts.len() - i, 4int,
{
    if !(0 <= i <= ts.len()) {
        None
    } else if i < ts.len() && (ts[i] == Tok::Plus || ts[i] == Tok::Minus) {
        match sp_term(ts, i + 1) {
            None => None,
            Some((v2, j)) => {
                let a2 = if ts[i] == Tok::Plus {
                    acc + v2
                } else {
                    acc - v2
                };
                if !in_i64(a2) {
                    None
                } else if j <= i || j > ts.len() {
                    None
                } else {
                    sp_tail(ts, j, a2)
                }
            },
        }
    } else {
        Some((acc, i))
    }
}

pub open spec fn pair_view(r: Option<(i64, usize)>) -> Option<(int, int)> {
    match r {
        None => None,
        Some((v, j)) => Some((v as int, j as int)),
    }
}

fn x_factor(ts: &Vec<Tok>, i: usize) -> (r: Option<(i64, usize)>)
    requires
        i <= ts.len(),
    ensures
        pair_view(r) == sp_factor(ts@, i as int),
        r is Some ==> i < r.unwrap().1 <= ts.len(),
    decreases ts@.len() - i, 1int,
{
    if i >= ts.len() {
        return None;
    }
    match ts[i] {
        Tok::Num(n) => Some((n, i + 1)),
        Tok::LParen => {
            match x_expr(ts, i + 1) {
                None => None,
                Some((v, j)) => {
                    if j < ts.len() && ts[j] == Tok::RParen {
                        Some((v, j + 1))
                    } else {
                        None
                    }
                },
            }
        },
        _ => None,
    }
}

fn x_term(ts: &Vec<Tok>, i: usize) -> (r: Option<(i64, usize)>)
    requires
        i <= ts.len(),
    ensures
        pair_view(r) == sp_term(ts@, i as int),
        r is Some ==> i < r.unwrap().1 <= ts.len(),
    decreases ts@.len() - i, 2int,
{
    match x_factor(ts, i) {
        None => None,
        Some((v, j)) => x_ftail(ts, j, v),
    }
}

fn x_ftail(ts: &Vec<Tok>, i: usize, acc: i64) -> (r: Option<(i64, usize)>)
    requires
        i <= ts.len(),
    ensures
        pair_view(r) == sp_ftail(ts@, i as int, acc as int),
        r is Some ==> i <= r.unwrap().1 <= ts.len(),
    decreases ts@.len() - i, 4int,
{
    if i < ts.len() && (ts[i] == Tok::Star || ts[i] == Tok::Slash || ts[i] == Tok::Percent) {
        match x_factor(ts, i + 1) {
            None => None,
            Some((v2, j)) => {
                let a2: Option<i64> = if ts[i] == Tok::Star {
                    proof {
                        assert((acc as int) * (v2 as int) < 0x8000_0000_0000_0000_0000_0000_0000_0000int
                            && (acc as int) * (v2 as int)
                            > -0x8000_0000_0000_0000_0000_0000_0000_0000int) by (nonlinear_arith)
                            requires
                                -0x8000_0000_0000_0000int <= acc as int <= 0x7fff_ffff_ffff_ffffint,
                                -0x8000_0000_0000_0000int <= v2 as int <= 0x7fff_ffff_ffff_ffffint,
                        ;
                    }
                    let w: i128 = acc as i128 * v2 as i128;
                    if w < i64::MIN as i128 || w > i64::MAX as i128 {
                        None
                    } else {
                        Some(w as i64)
                    }
                } else if ts[i] == Tok::Slash {
                    if v2 == 0 {
                        None
                    } else {
                        exec_tdiv(acc, v2)
                    }
                } else {
                    if v2 == 0 {
                        None
                    } else {
                        Some(exec_tmod(acc, v2))
                    }
                };
                match a2 {
                    None => None,
                    Some(a2) => x_ftail(ts, j, a2),
                }
            },
        }
    } else {
        Some((acc, i))
    }
}

fn x_expr(ts: &Vec<Tok>, i: usize) -> (r: Option<(i64, usize)>)
    requires
        i <= ts.len(),
    ensures
        pair_view(r) == sp_expr(ts@, i as int),
        r is Some ==> i <= r.unwrap().1 <= ts.len(),
    decreases ts@.len() - i, 3int,
{
    if i < ts.len() && ts[i] == Tok::Minus {
        match x_term(ts, i + 1) {
            None => None,
            Some((v, j)) => {
                if v == i64::MIN {
                    None
                } else {
                    x_tail(ts, j, -v)
                }
            },
        }
    } else {
        match x_term(ts, i) {
            None => None,
            Some((v, j)) => x_tail(ts, j, v),
        }
    }
}

fn x_tail(ts: &Vec<Tok>, i: usize, acc: i64) -> (r: Option<(i64, usize)>)
    requires
        i <= ts.len(),
    ensures
        pair_view(r) == sp_tail(ts@, i as int, acc as int),
        r is Some ==> i <= r.unwrap().1 <= ts.len(),
    decreases ts@.len() - i, 4int,
{
    if i < ts.len() && (ts[i] == Tok::Plus || ts[i] == Tok::Minus) {
        match x_term(ts, i + 1) {
            None => None,
            Some((v2, j)) => {
                let w: i128 = if ts[i] == Tok::Plus {
                    acc as i128 + v2 as i128
                } else {
                    acc as i128 - v2 as i128
                };
                if w < i64::MIN as i128 || w > i64::MAX as i128 {
                    None
                } else {
                    x_tail(ts, j, w as i64)
                }
            },
        }
    } else {
        Some((acc, i))
    }
}

/// Value of an expression text, if it conforms to the grammar, evaluates
/// without failure and the whole text is consumed.
pub open spec fn spec_eval(s: Seq<char>) -> Option<int> {
    match spec_tokenize(s) {
        None => None,
        Some(ts) => if ts.len() == 0 {
            None
        } else {
            match sp_expr(ts, 0) {
                None => None,
                Some((v, j)) => if j == ts.len() {
                    Some(v)
                } else {
                    None
                },
            }
        },
    }
}

/// Evaluate an expression given as characters.
pub fn evaluate_chars(v: &Vec<char>) -> (r: Option<i64>)
    ensures
        match r {
            Some(k) => spec_eval(v@) == Some(k as int),
            None => spec_eval(v@) is None,
        },
{
    match tokenize(v) {
        None => None,
        Some(ts) => {
            if ts.len() == 0 {
                return None;
            }
            match x_expr(&ts, 0) {
                None => None,
                Some((k, j)) => {
                    if j == ts.len() {
                        Some(k)
                    } else {
                        None
                    }
                },
            }
        },
    }
}

/// Evaluate an arithmetic expression text.
///
/// Yields `None` on unbalanced parentheses, unknown tokens (including
/// identifiers left unresolved after substitution), division by zero,
/// empty input or a value outside the 64-bit signed range.
pub fn evaluate(text: &str) -> (r: Option<i64>)
    ensures
        match r {
            Some(k) => spec_eval(text@) == Some(k as int),
            None => spec_eval(text@) is None,
        },
{
    let chars = crate::text::str_to_chars(text);
    evaluate_chars(&chars)
}

} // verus!

