//! Character classes and plain-text scanning helpers shared by the scheme
//! anchors, the statement grammar and the variable scanner.
use vstd::prelude::*;

verus! {

/// The classes of characters that the scanning rules speak of.
#[derive(Clone, Copy, Debug, PartialEq, Eq, Structural)]
pub enum CharClass {
    /// ASCII letters, digits and underscore.
    Word,
    /// ASCII whitespace.
    Space,
    /// ASCII decimal digits.
    Digit,
    /// Characters allowed in the key expression of a link statement.
    Expr,
    /// Characters allowed in the encoded filename of a link statement.
    Name,
    /// Characters allowed in the right-hand side of a variable declaration.
    DeclExpr,
}

pub open spec fn is_word_char(c: char) -> bool {
    ('a' <= c && c <= 'z') || ('A' <= c && c <= 'Z') || ('0' <= c && c <= '9') || c == '_'
}

pub open spec fn is_space_char(c: char) -> bool {
    c == ' ' || c == '\t' || c == '\n' || c == '\r' || c == '\u{b}' || c == '\u{c}'
}

pub open spec fn is_digit_char(c: char) -> bool {
    '0' <= c && c <= '9'
}

/// Characters that may appear in a key expression: identifiers, whitespace,
/// the arithmetic operators and parentheses.
pub open spec fn is_expr_char(c: char) -> bool {
    is_word_char(c) || is_space_char(c) || c == '+' || c == '-' || c == '*' || c == '/'
        || c == '%' || c == '(' || c == ')'
}

/// Characters that may appear in a percent-encoded filename.
pub open spec fn is_name_char(c: char) -> bool {
    is_word_char(c) || c == '/' || c == '%' || c == '.' || c == '-'
}

/// Characters that may appear in the expression of a `var` declaration:
/// digits and the arithmetic operators, with no whitespace or parentheses.
pub open spec fn is_decl_expr_char(c: char) -> bool {
    is_digit_char(c) || c == '+' || c == '-' || c == '*' || c == '/' || c == '%'
}

pub open spec fn char_in_class(c: char, cls: CharClass) -> bool {
    match cls {
        CharClass::Word => is_word_char(c),
        CharClass::Space => is_space_char(c),
        CharClass::Digit => is_digit_char(c),
        CharClass::Expr => is_expr_char(c),
        CharClass::Name => is_name_char(c),
        CharClass::DeclExpr => is_decl_expr_char(c),
    }
}

pub fn char_in_class_x(c: char, cls: CharClass) -> (b: bool)
    ensures
        b == char_in_class(c, cls),
{
    match cls {
        CharClass::Word => ('a' <= c && c <= 'z') || ('A' <= c && c <= 'Z') || ('0' <= c && c
            <= '9') || c == '_',
        CharClass::Space => c == ' ' || c == '\t' || c == '\n' || c == '\r' || c == '\u{b}' || c
            == '\u{c}',
        CharClass::Digit => '0' <= c && c <= '9',
        CharClass::Expr => ('a' <= c && c <= 'z') || ('A' <= c && c <= 'Z') || ('0' <= c && c
            <= '9') || c == '_' || c == ' ' || c == '\t' || c == '\n' || c == '\r' || c == '\u{b}'
            || c == '\u{c}' || c == '+' || c == '-' || c == '*' || c == '/' || c == '%' || c == '('
            || c == ')',
        CharClass::Name => ('a' <= c && c <= 'z') || ('A' <= c && c <= 'Z') || ('0' <= c && c
            <= '9') || c == '_' || c == '/' || c == '%' || c == '.' || c == '-',
        CharClass::DeclExpr => ('0' <= c && c <= '9') || c == '+' || c == '-' || c == '*' || c
            == '/' || c == '%',
    }
}

/// Length of the longest run of characters of class `cls` starting at `i`.
pub open spec fn run_len(s: Seq<char>, i: int, cls: CharClass) -> nat
    decreases s.len() - i,
{
    if 0 <= i < s.len() && char_in_class(s[i], cls) {
        (1 + run_len(s, i + 1, cls)) as nat
    } else {
        0
    }
}

/// A run never extends past the end of the text.
pub proof fn lemma_run_len_bound(s: Seq<char>, i: int, cls: CharClass)
    requires
        0 <= i <= s.len(),
    ensures
        i + run_len(s, i, cls) <= s.len(),
    decreases s.len() - i,
{
    if i < s.len() && char_in_class(s[i], cls) {
        lemma_run_len_bound(s, i + 1, cls);
    }
}

pub fn run_len_x(v: &Vec<char>, i: usize, cls: CharClass) -> (n: usize)
    requires
        i <= v.len(),
    ensures
        n == run_len(v@, i as int, cls),
        i + n <= v.len(),
        forall|k: int| i <= k < i + n ==> char_in_class(v@[k], cls),
        i + n < v.len() ==> !char_in_class(v@[i + n], cls),
{
    let mut j: usize = i;
    while j < v.len() && char_in_class_x(v[j], cls)
        invariant
            i <= j <= v.len(),
            run_len(v@, i as int, cls) == (j - i) + run_len(v@, j as int, cls),
            forall|k: int| i <= k < j ==> char_in_class(v@[k], cls),
        decreases v.len() - j,
    {
        j = j + 1;
    }
    j - i
}

/// The literal `lit` occurs in `s` at position `i`.
pub open spec fn matches_at(s: Seq<char>, i: int, lit: Seq<char>) -> bool {
    0 <= i && i + lit.len() <= s.len() && s.subrange(i, i + lit.len() as int) == lit
}

pub fn matches_at_x(v: &Vec<char>, i: usize, lit: &Vec<char>) -> (b: bool)
    ensures
        b == matches_at(v@, i as int, lit@),
{
    if lit.len() > v.len() || i > v.len() - lit.len() {
        return false;
    }
    let mut k: usize = 0;
    while k < lit.len()
        invariant
            0 <= k <= lit.len(),
            i + lit.len() <= v.len(),
            forall|m: int| 0 <= m < k ==> v@[i + m] == lit@[m],
        decreases lit.len() - k,
    {
        if v[i + k] != lit[k] {
            proof {
                assert(v@.subrange(i as int, i + lit@.len()) != lit@) by {
                    if v@.subrange(i as int, i + lit@.len()) == lit@ {
                        assert(v@.subrange(i as int, i + lit@.len())[k as int] == v@[i + k]);
                    }
                }
            }
            return false;
        }
        k = k + 1;
    }
    proof {
        assert(v@.subrange(i as int, i + lit@.len()) =~= lit@);
    }
    true
}

/// Position of the first occurrence of `lit` in `s` at or after `i`.
pub open spec fn first_at(s: Seq<char>, i: int, lit: Seq<char>) -> Option<int>
    decreases s.len() + 1 - i,
{
    if i < 0 || i + lit.len() > s.len() {
        None
    } else if matches_at(s, i, lit) {
        Some(i)
    } else {
        first_at(s, i + 1, lit)
    }
}

pub fn find_lit(v: &Vec<char>, i: usize, lit: &Vec<char>) -> (r: Option<usize>)
    requires
        i <= v.len(),
    ensures
        match r {
            Some(p) => first_at(v@, i as int, lit@) == Some(p as int) && i <= p && p + lit@.len()
                <= v@.len() && matches_at(v@, p as int, lit@),
            None => first_at(v@, i as int, lit@) is None,
        },
{
    let mut j: usize = i;
    loop
        invariant
            i <= j <= v.len() + 1,
            first_at(v@, i as int, lit@) == first_at(v@, j as int, lit@),
        decreases v.len() + 1 - j,
    {
        if lit.len() > v.len() || j > v.len() - lit.len() {
            return None;
        }
        if matches_at_x(v, j, lit) {
            return Some(j);
        }
        proof {
            if lit@.len() == 0 {
                assert(v@.subrange(j as int, j as int) =~= lit@);
            }
        }
        j = j + 1;
    }
}

/// Copy of the characters of `s`, for index-based scanning.
pub fn str_to_chars(s: &str) -> (v: Vec<char>)
    ensures
        v@ == s@,
{
    let n = s.unicode_len();
    let mut v: Vec<char> = Vec::new();
    let mut i: usize = 0;
    while i < n
        invariant
            0 <= i <= n,
            n == s@.len(),
            v@ == s@.subrange(0, i as int),
        decreases n - i,
    {
        let c = s.get_char(i);
        v.push(c);
        proof {
            assert(v@ =~= s@.subrange(0, i + 1));
        }
        i = i + 1;
    }
    proof {
        assert(v@ =~= s@);
    }
    v
}

/// Copy of `v[a..b]`.
pub fn subvec(v: &Vec<char>, a: usize, b: usize) -> (r: Vec<char>)
    requires
        a <= b <= v.len(),
    ensures
        r@ == v@.subrange(a as int, b as int),
{
    let mut r: Vec<char> = Vec::new();
    let mut i: usize = a;
    while i < b
        invariant
            a <= i <= b <= v.len(),
            r@ == v@.subrange(a as int, i as int),
        decreases b - i,
    {
        r.push(v[i]);
        proof {
            assert(r@ =~= v@.subrange(a as int, i + 1));
        }
        i = i + 1;
    }
    r
}

} // verus!
