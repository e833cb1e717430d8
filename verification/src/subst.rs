//! Substitution of resolved variables into the key expression text.
//!
//! The key expression is captured as source text, so substitution is
//! textual. To keep one name from corrupting another that it is a prefix
//! of, a name is replaced only at identifier-token boundaries, and at each
//! position the longest matching name wins; among equal names the latest
//! declaration is the binding in force.
use vstd::prelude::*;

use crate::decimal::{dec_i64, spec_dec_int};
use crate::text::{char_in_class_x, is_word_char, str_to_chars, CharClass};
use crate::vars::{binding_view, table_view, VarBinding};

verus! {

/// `name` occurs in `s` at `i`, ending at an identifier-token boundary.
/// (Whether `i` itself starts at a boundary is the caller's to track.)
pub open spec fn boundary_match(s: Seq<char>, i: int, name: Seq<char>) -> bool {
    name.len() >= 1 && 0 <= i && i + name.len() <= s.len() && s.subrange(i, i + name.len() as int)
        == name && (i + name.len() == s.len() || !is_word_char(s[i + name.len()]))
}

pub fn boundary_match_x(v: &Vec<char>, i: usize, name: &str) -> (b: bool)
    ensures
        b == boundary_match(v@, i as int, name@),
{
    let nl = name.unicode_len();
    if nl < 1 || i > v.len() || nl > v.len() - i {
        return false;
    }
    let mut k: usize = 0;
    while k < nl
        invariant
            0 <= k <= nl,
            nl == name@.len(),
            i + nl <= v.len(),
            forall|m: int| 0 <= m < k ==> v@[i + m] == name@[m],
        decreases nl - k,
    {
        if v[i + k] != name.get_char(k) {
            proof {
                assert(v@.subrange(i as int, i + name@.len()) != name@) by {
                    if v@.subrange(i as int, i + name@.len()) == name@ {
                        assert(v@.subrange(i as int, i + name@.len())[k as int] == v@[i + k]);
                    }
                }
            }
            return false;
        }
        k = k + 1;
    }
    proof {
        assert(v@.subrange(i as int, i + name@.len()) =~= name@);
    }
    if i + nl < v.len() && char_in_class_x(v[i + nl], CharClass::Word) {
        return false;
    }
    true
}

/// The best binding for position `i` among the first `k` table entries:
/// a boundary match, preferring longer names, and among equal lengths the
/// later declaration.
pub open spec fn best_match(s: Seq<char>, i: int, t: Seq<(Seq<char>, int)>, k: int) -> Option<
    (Seq<char>, int),
>
    recommends
        k <= t.len(),
    decreases k,
{
    if k <= 0 {
        None
    } else {
        let prev = best_match(s, i, t, k - 1);
        let e = t[k - 1];
        if boundary_match(s, i, e.0) && (prev is None || e.0.len() >= prev.unwrap().0.len()) {
            Some(e)
        } else {
            prev
        }
    }
}

/// What `best_match` yields is itself a boundary match.
pub proof fn lemma_best_match_boundary(s: Seq<char>, i: int, t: Seq<(Seq<char>, int)>, k: int)
    ensures
        best_match(s, i, t, k) is Some ==> boundary_match(s, i, best_match(s, i, t, k).unwrap().0),
    decreases k,
{
    if k > 0 {
        lemma_best_match_boundary(s, i, t, k - 1);
    }
}

/// Substitution safety: at a given position the longest boundary-matching
/// name wins. In particular a name that is a prefix of another can never
/// clip the longer name's occurrence, because the longer match is chosen;
/// and since the next character inside the longer name is an identifier
/// character, the shorter name does not boundary-match there at all.
pub proof fn lemma_best_match_is_longest(s: Seq<char>, i: int, t: Seq<(Seq<char>, int)>, k: int)
    requires
        0 <= k <= t.len(),
    ensures
        forall|e: int|
            0 <= e < k && boundary_match(s, i, t[e].0) ==> best_match(s, i, t, k) is Some
                && t[e].0.len() <= best_match(s, i, t, k).unwrap().0.len(),
    decreases k,
{
    if k > 0 {
        lemma_best_match_is_longest(s, i, t, k - 1);
    }
}

/// Termination helper: a substituted name is nonempty and lies inside the
/// expression, so each step advances.
#[via_fn]
proof fn sp_subst_from_dec(s: Seq<char>, i: int, t: Seq<(Seq<char>, int)>, prev_word: bool) {
    lemma_best_match_boundary(s, i, t, t.len() as int);
}

/// The substituted text from position `i` on. `prev_word` records whether
/// the previous character was an identifier character, in which case no
/// replacement may start at `i`.
pub open spec fn sp_subst_from(s: Seq<char>, i: int, t: Seq<(Seq<char>, int)>, prev_word: bool) -> Seq<
    char,
>
    decreases s.len() - i,
        via sp_subst_from_dec
{
    if !(0 <= i < s.len()) {
        Seq::empty()
    } else if !prev_word && best_match(s, i, t, t.len() as int) is Some {
        let (nm, v) = best_match(s, i, t, t.len() as int).unwrap();
        spec_dec_int(v) + sp_subst_from(s, i + nm.len(), t, true)
    } else {
        seq![s[i]] + sp_subst_from(s, i + 1, t, is_word_char(s[i]))
    }
}

/// The key expression text with every known variable replaced by its
/// decimal value.
pub open spec fn spec_substitute(s: Seq<char>, t: Seq<(Seq<char>, int)>) -> Seq<char> {
    sp_subst_from(s, 0, t, false)
}

/// Replace every known variable name inside `key_expr` by its decimal
/// value, longest name first and only at identifier-token boundaries.
#[verifier::loop_isolation(false)]
pub fn substitute(key_expr: &str, table: &Vec<VarBinding>) -> (r: String)
    ensures
        r@ == spec_substitute(key_expr@, table_view(table@)),
{
    let chars = str_to_chars(key_expr);
    let ghost t = table_view(table@);
    let mut out = String::new();
    let mut i: usize = 0;
    let mut prev_word = false;
    while i < chars.len()
        invariant
            0 <= i <= chars.len(),
            out@ + sp_subst_from(chars@, i as int, t, prev_word) == spec_substitute(
                key_expr@,
                t,
            ),
        decreases chars.len() - i,
    {
        let mut best: Option<usize> = None;
        if !prev_word {
            let mut k: usize = 0;
            while k < table.len()
                invariant
                    0 <= k <= table.len(),
                    match best {
                        None => best_match(chars@, i as int, t, k as int) is None,
                        Some(bi) => bi < table.len() && best_match(chars@, i as int, t, k as int)
                            == Some(binding_view(table@[bi as int])),
                    },
                decreases table.len() - k,
            {
                let cand_ok = boundary_match_x(&chars, i, table[k].name.as_str());
                let take = cand_ok && match best {
                    None => true,
                    Some(bi) => table[k].name.unicode_len() >= table[bi].name.unicode_len(),
                };
                if take {
                    best = Some(k);
                }
                k = k + 1;
            }
        }
        match best {
            Some(bi) => {
                proof {
                    lemma_best_match_boundary(chars@, i as int, t, t.len() as int);
                }
                let val_text = dec_i64(table[bi].value);
                out.append(val_text.as_str());
                let nl = table[bi].name.unicode_len();
                proof {
                    assert(out@ + sp_subst_from(chars@, i + nl, t, true) =~= spec_substitute(
                        key_expr@,
                        t,
                    ));
                }
                i = i + nl;
                prev_word = true;
            },
            None => {
                let piece = key_expr.substring_char(i, i + 1);
                out.append(piece);
                let w = char_in_class_x(chars[i], CharClass::Word);
                proof {
                    assert(piece@ =~= seq![chars@[i as int]]);
                    assert(out@ + sp_subst_from(chars@, i + 1, t, is_word_char(chars@[i as int]))
                        =~= spec_substitute(key_expr@, t));
                }
                i = i + 1;
                prev_word = w;
            },
        }
    }
    proof {
        assert(out@ + sp_subst_from(chars@, i as int, t, prev_word) =~= out@);
    }
    out
}

} // verus!
