//! The resolution pipeline and the file descriptor it produces.
//!
//! Data flows one way: the scheme matcher selects a script fragment, the
//! grammar captures the id, key expression and encoded filename, the
//! variable table is built and substituted into the key expression, the
//! key is evaluated, and the descriptor is assembled. No component holds
//! state across invocations, so resolution is a pure function of its
//! inputs, as `spec_resolve` states.
use vstd::prelude::*;

use vstd::utf8::{decode_utf8, valid_utf8};

use crate::decimal::{dec_i64, spec_dec_int};
use crate::error::Error;
use crate::eval::{evaluate, spec_eval};
use crate::grammar::{extract, spec_extract};
use crate::outside::{host_of, host_of_url, utf8_to_string};
use crate::pdecode::{percent_decode, spec_percent_decode};
use crate::schemes::{
    anchor_of, lemma_locate_is_first_match, locate, scheme_list, spec_first_match, spec_locate,
    Scheme,
};
use crate::subst::{spec_substitute, substitute};
use crate::vars::{extract_variables, spec_variables};

verus! {

/// The mathematical value of a file descriptor.
pub ghost struct FileView {
    pub domain: Seq<char>,
    pub id: Seq<char>,
    pub key: int,
    pub name: Seq<char>,
    pub encoded_name: Seq<char>,
}

/// A resolved share-page link descriptor.
///
/// `id` and `encoded_name` are verbatim substrings of the matched script
/// fragment; `key` is the evaluated key expression after substitution;
/// `name` is the percent-decoded filename; `domain` is supplied by the
/// caller and never parsed out of the script. The descriptor is immutable
/// once built and may be formatted into links repeatedly.
#[derive(Clone, Debug)]
pub struct File {
    pub domain: String,
    pub id: String,
    pub key: i64,
    pub name: String,
    pub encoded_name: String,
}

impl View for File {
    type V = FileView;

    open spec fn view(&self) -> FileView {
        FileView {
            domain: self.domain@,
            id: self.id@,
            key: self.key as int,
            name: self.name@,
            encoded_name: self.encoded_name@,
        }
    }
}

/// Resolution of a fragment that a scheme's anchor rule selected: capture
/// the groups, build and substitute the variable table, evaluate the key
/// and decode the filename.
pub open spec fn spec_resolve_fragment(domain: Seq<char>, frag: Seq<char>) -> Result<
    FileView,
    Error,
> {
    match spec_extract(frag) {
        Err(e) => Err(e),
        Ok((id, key_expr, encoded_name)) => match spec_variables(frag) {
            Err(e) => Err(e),
            Ok(table) => match spec_eval(spec_substitute(key_expr, table)) {
                None => Err(Error::LinkComputationFailure),
                Some(key) => {
                    let bytes = spec_percent_decode(encoded_name);
                    if valid_utf8(bytes) {
                        Ok(
                            FileView {
                                domain,
                                id,
                                key,
                                name: decode_utf8(bytes),
                                encoded_name,
                            },
                        )
                    } else {
                        Err(Error::InvalidUtf8Filename)
                    }
                },
            },
        },
    }
}

/// The descriptor (or failure) that resolution yields for a document:
/// the fragment of the first matching scheme, resolved; `ScriptNotFound`
/// when no scheme's anchor rule matches.
pub open spec fn spec_resolve(domain: Seq<char>, html: Seq<char>) -> Result<FileView, Error> {
    match spec_locate(html) {
        None => Err(Error::ScriptNotFound),
        Some((frag, scheme)) => spec_resolve_fragment(domain, frag),
    }
}

/// Resolution under one fixed scheme, ignoring the rest of the list.
pub open spec fn spec_resolve_under(s: Scheme, domain: Seq<char>, html: Seq<char>) -> Result<
    FileView,
    Error,
> {
    match anchor_of(s, html) {
        None => Err(Error::ScriptNotFound),
        Some(frag) => spec_resolve_fragment(domain, frag),
    }
}

pub open spec fn result_view(r: Result<File, Error>) -> Result<FileView, Error> {
    match r {
        Ok(f) => Ok(f@),
        Err(e) => Err(e),
    }
}

/// Resolve the raw HTML of a share page into a link descriptor.
///
/// The domain is taken from the caller verbatim. The result is a pure
/// function of the two inputs, so repeated calls on the same input yield
/// identical descriptors.
pub fn resolve(domain: &str, html_text: &str) -> (r: Result<File, Error>)
    ensures
        result_view(r) == spec_resolve(domain@, html_text@),
{
    let (fragment, _scheme) = match locate(html_text) {
        Ok(p) => p,
        Err(e) => {
            return Err(e);
        },
    };
    let (id, key_expr, encoded_name) = match extract(fragment.as_str()) {
        Ok(g) => g,
        Err(e) => {
            return Err(e);
        },
    };
    let table = match extract_variables(fragment.as_str()) {
        Ok(t) => t,
        Err(e) => {
            return Err(e);
        },
    };
    let substituted = substitute(key_expr.as_str(), &table);
    let key = match evaluate(substituted.as_str()) {
        Some(k) => k,
        None => {
            return Err(Error::LinkComputationFailure);
        },
    };
    let bytes = percent_decode(encoded_name.as_str());
    let name = match utf8_to_string(bytes) {
        Some(n) => n,
        None => {
            return Err(Error::InvalidUtf8Filename);
        },
    };
    Ok(File { domain: domain.to_owned(), id, key, name, encoded_name })
}

/// Template of the short link: `https://{domain}/d/{id}/{key}/DOWNLOAD`.
pub open spec fn spec_short_link(domain: Seq<char>, id: Seq<char>, key: int) -> Seq<char> {
    "https://"@ + domain + "/d/"@ + id + "/"@ + spec_dec_int(key) + "/DOWNLOAD"@
}

/// Template of the full link: `https://{domain}/d/{id}/{key}/{encoded_name}`.
pub open spec fn spec_full_link(
    domain: Seq<char>,
    id: Seq<char>,
    key: int,
    encoded_name: Seq<char>,
) -> Seq<char> {
    "https://"@ + domain + "/d/"@ + id + "/"@ + spec_dec_int(key) + "/"@ + encoded_name
}

impl File {
    /// Resolve a share page given its source reference and its HTML.
    ///
    /// The domain is the host of the reference; a reference that does not
    /// parse as an absolute URL with a host is rejected.
    pub fn parse(url: &str, page_content: &str) -> (r: Result<File, Error>)
        ensures
            result_view(r) == match host_of(url@) {
                None => Err::<FileView, Error>(Error::DomainExtractionFailure),
                Some(domain) => spec_resolve(domain, page_content@),
            },
    {
        match host_of_url(url) {
            None => Err(Error::DomainExtractionFailure),
            Some(host) => resolve(host.as_str(), page_content),
        }
    }

    /// The direct download link with the generic trailing component.
    pub fn link(&self) -> (r: String)
        ensures
            r@ == spec_short_link(self.domain@, self.id@, self.key as int),
    {
        let mut s = String::new();
        s.append("https://");
        s.append(self.domain.as_str());
        s.append("/d/");
        s.append(self.id.as_str());
        s.append("/");
        let key_text = dec_i64(self.key);
        s.append(key_text.as_str());
        s.append("/DOWNLOAD");
        proof {
            assert(s@ =~= spec_short_link(self.domain@, self.id@, self.key as int));
        }
        s
    }

    /// The direct download link carrying the encoded filename, passed
    /// through verbatim with no re-encoding.
    pub fn link_with_encoded_name(&self) -> (r: String)
        ensures
            r@ == spec_full_link(self.domain@, self.id@, self.key as int, self.encoded_name@),
    {
        let mut s = String::new();
        s.append("https://");
        s.append(self.domain.as_str());
        s.append("/d/");
        s.append(self.id.as_str());
        s.append("/");
        let key_text = dec_i64(self.key);
        s.append(key_text.as_str());
        s.append("/");
        s.append(self.encoded_name.as_str());
        proof {
            assert(s@ =~= spec_full_link(
                self.domain@,
                self.id@,
                self.key as int,
                self.encoded_name@,
            ));
        }
        s
    }
}

/// Determinism: resolution is a function of the domain and the document
/// text alone, so any two outcomes of the same inputs are equal. Together
/// with the contract of `resolve`, repeated calls yield identical
/// descriptors.
pub proof fn lemma_resolve_deterministic(
    domain: Seq<char>,
    html: Seq<char>,
    r1: Result<FileView, Error>,
    r2: Result<FileView, Error>,
)
    requires
        r1 == spec_resolve(domain, html),
        r2 == spec_resolve(domain, html),
    ensures
        r1 == r2,
{
}

/// Scheme priority: when the anchor rules of two schemes both match a
/// document, resolution equals resolving under the earlier-listed scheme
/// alone (the first of the list that matches, which is no later than the
/// earlier of the two).
pub proof fn lemma_scheme_priority(domain: Seq<char>, html: Seq<char>, j: int, k: int)
    requires
        0 <= j < k < scheme_list().len(),
        anchor_of(scheme_list()[j], html) is Some,
        anchor_of(scheme_list()[k], html) is Some,
    ensures
        spec_first_match(html, 0) is Some,
        spec_first_match(html, 0).unwrap() <= j,
        spec_resolve(domain, html) == spec_resolve_under(
            scheme_list()[spec_first_match(html, 0).unwrap()],
            domain,
            html,
        ),
{
    lemma_locate_is_first_match(html, 0);
    match spec_first_match(html, 0) {
        None => {
            assert(anchor_of(scheme_list()[j], html) is None);
        },
        Some(m) => {
            if m > j {
                assert(anchor_of(scheme_list()[j], html) is None);
            }
        },
    }
}

} // verus!
