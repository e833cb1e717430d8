//! The grammar of the link-building statement inside a script fragment:
//!
//! `document.getElementById('dlbutton').href = "/d/<id>/" + <expr> + "/<name>";`
//!
//! A match captures the raw file id, the key expression source text and
//! the percent-encoded filename, all verbatim substrings of the fragment.
use vstd::prelude::*;

use crate::error::Error;
use crate::text::{matches_at, matches_at_x, run_len, run_len_x, str_to_chars, CharClass};

verus! {

/// The fixed text that opens a link-building statement.
pub open spec fn stmt_prefix() -> Seq<char> {
    "document.getElementById('dlbutton').href = \"/d/"@
}

/// The text between the id group and the plus that starts the expression.
pub open spec fn stmt_after_id() -> Seq<char> {
    "/\""@
}

/// Capture groups of a link statement at position `i` of `s`: the id, the
/// key expression text and the encoded filename (possibly empty).
///
/// The expression region is the longest run of expression characters after
/// the first plus; it must end with the plus that joins the filename part,
/// and that plus must be followed directly by `"/`.
pub open spec fn sp_match_stmt(s: Seq<char>, i: int) -> Option<(Seq<char>, Seq<char>, Seq<char>)> {
    if !matches_at(s, i, stmt_prefix()) {
        None
    } else {
        let j0 = i + stmt_prefix().len();
        let idl = run_len(s, j0, CharClass::Word);
        if idl == 0 {
            None
        } else {
            let j1 = j0 + idl;
            if !matches_at(s, j1, stmt_after_id()) {
                None
            } else {
                let j2 = j1 + 2;
                let j3 = j2 + run_len(s, j2, CharClass::Space);
                if !(j3 < s.len() && s[j3] == '+') {
                    None
                } else {
                    let j4 = j3 + 1 + run_len(s, j3 + 1, CharClass::Space);
                    let el = run_len(s, j4, CharClass::Expr);
                    let j5 = j4 + el;
                    if el < 2 || s[j5 - 1] != '+' {
                        None
                    } else if !(j5 + 1 < s.len() && s[j5] == '"' && s[j5 + 1] == '/') {
                        None
                    } else {
                        let j6 = j5 + 2;
                        let nl = run_len(s, j6, CharClass::Name);
                        let j7 = j6 + nl;
                        if !(j7 < s.len() && s[j7] == '"') {
                            None
                        } else {
                            Some(
                                (
                                    s.subrange(j0, j1),
                                    s.subrange(j4, j5 - 1),
                                    s.subrange(j6, j7),
                                ),
                            )
                        }
                    }
                }
            }
        }
    }
}

/// The first link statement at or after position `i`.
pub open spec fn sp_find_stmt(s: Seq<char>, i: int) -> Option<(Seq<char>, Seq<char>, Seq<char>)>
    decreases s.len() - i,
{
    if !(0 <= i < s.len()) {
        None
    } else {
        match sp_match_stmt(s, i) {
            Some(g) => Some(g),
            None => sp_find_stmt(s, i + 1),
        }
    }
}

/// The captured groups of a fragment: the first link statement's id,
/// expression text and encoded filename. A fragment without a matching
/// statement fails; one whose statement has an empty filename group fails.
pub open spec fn spec_extract(s: Seq<char>) -> Result<(Seq<char>, Seq<char>, Seq<char>), Error> {
    match sp_find_stmt(s, 0) {
        None => Err(Error::LinkGeneratorExtractionFailure),
        Some((id, ex, enc)) => if enc.len() == 0 {
            Err(Error::FilenameExtractionFailure)
        } else {
            Ok((id, ex, enc))
        },
    }
}

/// Character spans of the three capture groups inside the fragment.
struct StmtSpans {
    id_a: usize,
    id_b: usize,
    ex_a: usize,
    ex_b: usize,
    nm_a: usize,
    nm_b: usize,
}

fn match_stmt_x(v: &Vec<char>, i: usize, pfx: &Vec<char>, dq: &Vec<char>) -> (r: Option<StmtSpans>)
    requires
        i <= v.len(),
        pfx@ == stmt_prefix(),
        dq@ == stmt_after_id(),
    ensures
        match r {
            Some(g) => g.id_a <= g.id_b <= v.len() && g.ex_a <= g.ex_b <= v.len() && g.nm_a
                <= g.nm_b <= v.len() && sp_match_stmt(v@, i as int) == Some(
                (
                    v@.subrange(g.id_a as int, g.id_b as int),
                    v@.subrange(g.ex_a as int, g.ex_b as int),
                    v@.subrange(g.nm_a as int, g.nm_b as int),
                ),
            ),
            None => sp_match_stmt(v@, i as int) is None,
        },
{
    if !matches_at_x(v, i, pfx) {
        return None;
    }
    let j0 = i + pfx.len();
    let idl = run_len_x(v, j0, CharClass::Word);
    if idl == 0 {
        return None;
    }
    let j1 = j0 + idl;
    if !matches_at_x(v, j1, dq) {
        return None;
    }
    proof {
        reveal_strlit("/\"");
        assert(dq@.len() == 2);
    }
    let j2 = j1 + 2;
    let ws1 = run_len_x(v, j2, CharClass::Space);
    let j3 = j2 + ws1;
    if !(j3 < v.len() && v[j3] == '+') {
        return None;
    }
    let ws2 = run_len_x(v, j3 + 1, CharClass::Space);
    let j4 = j3 + 1 + ws2;
    let el = run_len_x(v, j4, CharClass::Expr);
    let j5 = j4 + el;
    if el < 2 || v[j5 - 1] != '+' {
        return None;
    }
    if j5 >= v.len() || v.len() - j5 < 2 || v[j5] != '"' || v[j5 + 1] != '/' {
        return None;
    }
    let j6 = j5 + 2;
    let nl = run_len_x(v, j6, CharClass::Name);
    let j7 = j6 + nl;
    if !(j7 < v.len() && v[j7] == '"') {
        return None;
    }
    Some(StmtSpans { id_a: j0, id_b: j1, ex_a: j4, ex_b: j5 - 1, nm_a: j6, nm_b: j7 })
}

/// Pull the raw file id, the key expression text and the percent-encoded
/// filename out of a script fragment, as verbatim substrings.
#[verifier::loop_isolation(false)]
pub fn extract(fragment: &str) -> (r: Result<(String, String, String), Error>)
    ensures
        match r {
            Ok((id, ex, enc)) => spec_extract(fragment@) == Ok::<_, Error>((id@, ex@, enc@)),
            Err(e) => spec_extract(fragment@) == Err::<(Seq<char>, Seq<char>, Seq<char>), _>(e),
        },
{
    let chars = str_to_chars(fragment);
    let pfx = str_to_chars("document.getElementById('dlbutton').href = \"/d/");
    let dq = str_to_chars("/\"");
    let mut i: usize = 0;
    while i < chars.len()
        invariant
            0 <= i <= chars.len(),
            sp_find_stmt(chars@, 0) == sp_find_stmt(chars@, i as int),
        decreases chars.len() - i,
    {
        match match_stmt_x(&chars, i, &pfx, &dq) {
            Some(g) => {
                if g.nm_a == g.nm_b {
                    return Err(Error::FilenameExtractionFailure);
                }
                let id = fragment.substring_char(g.id_a, g.id_b).to_owned();
                let ex = fragment.substring_char(g.ex_a, g.ex_b).to_owned();
                let enc = fragment.substring_char(g.nm_a, g.nm_b).to_owned();
                return Ok((id, ex, enc));
            },
            None => {
                i = i + 1;
            },
        }
    }
    Err(Error::LinkGeneratorExtractionFailure)
}

} // verus!
