//! The variable table builder: scans a script fragment for declarations of
//! the shape `var name = expression;` and evaluates each right-hand side.
//!
//! Declarations are collected in order of appearance. A name may be
//! declared more than once; substitution treats the latest declaration as
//! the binding in force, so later declarations overwrite earlier ones.
use vstd::prelude::*;

use crate::error::Error;
use crate::eval::{evaluate_chars, spec_eval};
use crate::text::{
    lemma_run_len_bound, matches_at, matches_at_x, run_len, run_len_x, str_to_chars, subvec,
    CharClass,
};

verus! {

/// One declared variable and its evaluated value.
#[derive(Clone, Debug)]
pub struct VarBinding {
    pub name: String,
    pub value: i64,
}

pub open spec fn binding_view(b: VarBinding) -> (Seq<char>, int) {
    (b.name@, b.value as int)
}

pub open spec fn table_view(t: Seq<VarBinding>) -> Seq<(Seq<char>, int)> {
    t.map_values(|b: VarBinding| binding_view(b))
}

/// Termination helper for the scanner: every scanned run stays inside the
/// fragment, so consuming a declaration advances the position.
#[via_fn]
proof fn spec_variables_from_dec(s: Seq<char>, i: int, acc: Seq<(Seq<char>, int)>) {
    if 0 <= i && i + 3 <= s.len() {
        lemma_run_len_bound(s, i + 3, CharClass::Space);
        let j1 = i + 3 + run_len(s, i + 3, CharClass::Space);
        let nl = run_len(s, j1, CharClass::Word);
        if nl > 0 {
            lemma_run_len_bound(s, j1, CharClass::Word);
            let j2 = j1 + nl;
            lemma_run_len_bound(s, j2, CharClass::Space);
            let j3 = j2 + run_len(s, j2, CharClass::Space);
            if j3 < s.len() && s[j3] == '=' {
                lemma_run_len_bound(s, j3 + 1, CharClass::Space);
                let j4 = j3 + 1 + run_len(s, j3 + 1, CharClass::Space);
                lemma_run_len_bound(s, j4, CharClass::DeclExpr);
            }
        }
    }
}

/// Bindings declared in `s` from position `i` on, appended to `acc`.
///
/// An occurrence of `var` followed by a name and `=` but no expression
/// characters is a declaration that cannot be split and fails; one whose
/// expression does not evaluate fails; any other text is skipped.
pub open spec fn spec_variables_from(s: Seq<char>, i: int, acc: Seq<(Seq<char>, int)>) -> Result<
    Seq<(Seq<char>, int)>,
    Error,
>
    decreases s.len() - i,
        via spec_variables_from_dec
{
    if !(0 <= i) || i + 3 > s.len() {
        Ok(acc)
    } else if matches_at(s, i, "var"@) {
        let j1 = i + 3 + run_len(s, i + 3, CharClass::Space);
        let nl = run_len(s, j1, CharClass::Word);
        if nl == 0 {
            spec_variables_from(s, i + 1, acc)
        } else {
            let j2 = j1 + nl;
            let j3 = j2 + run_len(s, j2, CharClass::Space);
            if !(j3 < s.len() && s[j3] == '=') {
                spec_variables_from(s, i + 1, acc)
            } else {
                let j4 = j3 + 1 + run_len(s, j3 + 1, CharClass::Space);
                let el = run_len(s, j4, CharClass::DeclExpr);
                if el == 0 {
                    Err(Error::VariableExtractionFailure)
                } else {
                    match spec_eval(s.subrange(j4, j4 + el)) {
                        None => Err(Error::VariableComputationFailure),
                        Some(v) => spec_variables_from(
                            s,
                            j4 + el,
                            acc.push((s.subrange(j1, j2), v)),
                        ),
                    }
                }
            }
        }
    } else {
        spec_variables_from(s, i + 1, acc)
    }
}

/// The variable table of a script fragment.
pub open spec fn spec_variables(s: Seq<char>) -> Result<Seq<(Seq<char>, int)>, Error> {
    spec_variables_from(s, 0, Seq::empty())
}

/// Scan a script fragment for `var name = expression;` declarations and
/// evaluate each expression. Zero declarations is not an error.
#[verifier::loop_isolation(false)]
pub fn extract_variables(script_text: &str) -> (r: Result<Vec<VarBinding>, Error>)
    ensures
        match r {
            Ok(t) => spec_variables(script_text@) == Ok::<_, Error>(table_view(t@)),
            Err(e) => spec_variables(script_text@) == Err::<Seq<(Seq<char>, int)>, _>(e),
        },
{
    let chars = str_to_chars(script_text);
    let lit_var = str_to_chars("var");
    let mut out: Vec<VarBinding> = Vec::new();
    let mut i: usize = 0;
    proof {
        assert(table_view(out@) =~= Seq::<(Seq<char>, int)>::empty());
    }
    while chars.len() >= 3 && i <= chars.len() - 3
        invariant
            0 <= i,
            spec_variables(script_text@) == spec_variables_from(
                chars@,
                i as int,
                table_view(out@),
            ),
        decreases chars.len() + 3 - i,
    {
        if matches_at_x(&chars, i, &lit_var) {
            let ws1 = run_len_x(&chars, i + 3, CharClass::Space);
            let j1 = i + 3 + ws1;
            let nl = run_len_x(&chars, j1, CharClass::Word);
            if nl == 0 {
                i = i + 1;
                continue;
            }
            let j2 = j1 + nl;
            let ws2 = run_len_x(&chars, j2, CharClass::Space);
            let j3 = j2 + ws2;
            if !(j3 < chars.len() && chars[j3] == '=') {
                i = i + 1;
                continue;
            }
            let ws3 = run_len_x(&chars, j3 + 1, CharClass::Space);
            let j4 = j3 + 1 + ws3;
            let el = run_len_x(&chars, j4, CharClass::DeclExpr);
            if el == 0 {
                return Err(Error::VariableExtractionFailure);
            }
            let etext = subvec(&chars, j4, j4 + el);
            match evaluate_chars(&etext) {
                None => {
                    return Err(Error::VariableComputationFailure);
                },
                Some(v) => {
                    let name = script_text.substring_char(j1, j2).to_owned();
                    let b = VarBinding { name, value: v };
                    proof {
                        assert(table_view(out@.push(b)) =~= table_view(out@).push(
                            binding_view(b),
                        ));
                    }
                    out.push(b);
                    i = j4 + el;
                },
            }
        } else {
            i = i + 1;
        }
    }
    Ok(out)
}

} // verus!
