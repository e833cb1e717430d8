//! The ordered list of known historical obfuscation schemes and the
//! scheme matcher.
//!
//! Each scheme is one anchor rule that locates the script fragment of a
//! document. The list runs from the most recent scheme to the oldest, and
//! the first scheme whose anchor rule succeeds wins; extraction then
//! proceeds under that scheme alone and never falls back to a later one.
//! A new site era is accommodated by appending a variant, never by
//! editing the matching logic in place.
use vstd::prelude::*;

use crate::error::Error;
use crate::outside::{container_script_of, find_container_script};
use crate::text::{first_at, find_lit, str_to_chars, subvec};

verus! {

/// One historical obfuscation scheme, identified by its anchor rule.
/// The known schemes differ only in how they locate the script fragment;
/// they share the link-statement grammar that extraction runs afterwards.
#[derive(Clone, Copy, Debug, PartialEq, Eq, Structural)]
pub enum Scheme {
    /// The document is scanned for plain `script` tags; the fragment is
    /// the first one whose body mentions the download-button lookup.
    ScriptTagMarker,
    /// The fragment is the first script under the `#lrbox .right`
    /// container of the parsed document.
    ContainerLookup,
}

/// The schemes in priority order, most recent first.
pub open spec fn scheme_list() -> Seq<Scheme> {
    seq![Scheme::ScriptTagMarker, Scheme::ContainerLookup]
}

pub open spec fn open_tag() -> Seq<char> {
    "<script type=\"text/javascript\">"@
}

pub open spec fn close_tag() -> Seq<char> {
    "</script>"@
}

pub open spec fn marker() -> Seq<char> {
    "document.getElementById('dlbutton')"@
}

/// The body of the first plain `script` tag at or after `i` that mentions
/// the download-button lookup. A tag without a closing counterpart ends
/// the scan.
pub open spec fn sp_script_anchor(html: Seq<char>, i: int) -> Option<Seq<char>>
    decreases html.len() - i,
{
    if !(0 <= i <= html.len()) {
        None
    } else {
        match first_at(html, i, open_tag()) {
            None => None,
            Some(p) => {
                let a = p + open_tag().len();
                match first_at(html, a, close_tag()) {
                    None => None,
                    Some(q) => {
                        if !(i <= p && a <= q && q + close_tag().len() <= html.len()) {
                            None
                        } else {
                            let inner = html.subrange(a, q);
                            if first_at(inner, 0, marker()) is Some {
                                Some(inner)
                            } else if q + close_tag().len() <= i {
                                None
                            } else {
                                sp_script_anchor(html, q + close_tag().len())
                            }
                        }
                    },
                }
            },
        }
    }
}

/// The fragment that a scheme's anchor rule selects, if any.
pub open spec fn anchor_of(s: Scheme, html: Seq<char>) -> Option<Seq<char>> {
    match s {
        Scheme::ScriptTagMarker => sp_script_anchor(html, 0),
        Scheme::ContainerLookup => container_script_of(html),
    }
}

/// The fragment and scheme selected by the first anchor rule that
/// succeeds, trying schemes from position `k` of the list on.
pub open spec fn sp_locate_from(html: Seq<char>, k: int) -> Option<(Seq<char>, Scheme)>
    decreases scheme_list().len() - k,
{
    if !(0 <= k < scheme_list().len()) {
        None
    } else {
        match anchor_of(scheme_list()[k], html) {
            Some(f) => Some((f, scheme_list()[k])),
            None => sp_locate_from(html, k + 1),
        }
    }
}

/// The fragment and scheme that resolution uses for a document.
pub open spec fn spec_locate(html: Seq<char>) -> Option<(Seq<char>, Scheme)> {
    sp_locate_from(html, 0)
}

/// The index of the first scheme at or after `k` whose anchor matches.
pub open spec fn spec_first_match(html: Seq<char>, k: int) -> Option<int>
    decreases scheme_list().len() - k,
{
    if !(0 <= k < scheme_list().len()) {
        None
    } else if anchor_of(scheme_list()[k], html) is Some {
        Some(k)
    } else {
        spec_first_match(html, k + 1)
    }
}

/// What the scheme matcher selects is the anchor of the first matching
/// scheme, and no earlier scheme's anchor matches.
pub proof fn lemma_locate_is_first_match(html: Seq<char>, k: int)
    requires
        0 <= k <= scheme_list().len(),
    ensures
        match spec_first_match(html, k) {
            Some(m) => k <= m < scheme_list().len() && anchor_of(scheme_list()[m], html) is Some
                && sp_locate_from(html, k) == Some(
                (anchor_of(scheme_list()[m], html).unwrap(), scheme_list()[m]),
            ) && (forall|j: int| k <= j < m ==> anchor_of(scheme_list()[j], html) is None),
            None => sp_locate_from(html, k) is None && (forall|j: int|
                k <= j < scheme_list().len() ==> anchor_of(scheme_list()[j], html) is None),
        },
    decreases scheme_list().len() - k,
{
    if 0 <= k < scheme_list().len() {
        if anchor_of(scheme_list()[k], html) is Some {
        } else {
            lemma_locate_is_first_match(html, k + 1);
        }
    }
}

/// Scan for the first plain `script` tag whose body mentions the
/// download-button lookup.
#[verifier::loop_isolation(false)]
fn script_tag_anchor_x(html_text: &str) -> (r: Option<String>)
    ensures
        match r {
            Some(f) => sp_script_anchor(html_text@, 0) == Some(f@),
            None => sp_script_anchor(html_text@, 0) is None,
        },
{
    let chars = str_to_chars(html_text);
    let open_v = str_to_chars("<script type=\"text/javascript\">");
    let close_v = str_to_chars("</script>");
    let marker_v = str_to_chars("document.getElementById('dlbutton')");
    proof {
        reveal_strlit("<script type=\"text/javascript\">");
        reveal_strlit("</script>");
    }
    let mut start: usize = 0;
    loop
        invariant
            0 <= start <= chars.len(),
            sp_script_anchor(chars@, 0) == sp_script_anchor(chars@, start as int),
        decreases chars.len() + 1 - start,
    {
        let p = match find_lit(&chars, start, &open_v) {
            None => {
                return None;
            },
            Some(p) => p,
        };
        let a = p + open_v.len();
        let q = match find_lit(&chars, a, &close_v) {
            None => {
                return None;
            },
            Some(q) => q,
        };
        let inner = subvec(&chars, a, q);
        if find_lit(&inner, 0, &marker_v).is_some() {
            let fragment = html_text.substring_char(a, q).to_owned();
            return Some(fragment);
        }
        start = q + close_v.len();
    }
}

/// Try each scheme's anchor rule in priority order and yield the matched
/// script fragment with the scheme that owns it.
pub fn locate(html_text: &str) -> (r: Result<(String, Scheme), Error>)
    ensures
        match r {
            Ok((f, s)) => spec_locate(html_text@) == Some((f@, s)),
            Err(e) => e == Error::ScriptNotFound && spec_locate(html_text@) is None,
        },
{
    proof {
        assert(scheme_list()[0] == Scheme::ScriptTagMarker);
        assert(scheme_list()[1] == Scheme::ContainerLookup);
    }
    match script_tag_anchor_x(html_text) {
        Some(f) => {
            proof {
                assert(anchor_of(scheme_list()[0], html_text@) == Some(f@));
                assert(spec_locate(html_text@) == Some((f@, Scheme::ScriptTagMarker)));
            }
            Ok((f, Scheme::ScriptTagMarker))
        },
        None => {
            proof {
                assert(anchor_of(scheme_list()[0], html_text@) is None);
                assert(spec_locate(html_text@) == sp_locate_from(html_text@, 1));
            }
            match find_container_script(html_text) {
                Some(f) => {
                    proof {
                        assert(anchor_of(scheme_list()[1], html_text@) == Some(f@));
                        assert(spec_locate(html_text@) == Some((f@, Scheme::ContainerLookup)));
                    }
                    Ok((f, Scheme::ContainerLookup))
                },
                None => {
                    proof {
                        assert(anchor_of(scheme_list()[1], html_text@) is None);
                        assert(sp_locate_from(html_text@, 1) == sp_locate_from(html_text@, 2));
                        assert(spec_locate(html_text@) is None);
                    }
                    Err(Error::ScriptNotFound)
                },
            }
        },
    }
}

} // verus!
