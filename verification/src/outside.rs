//! The library's trust boundary: the few calls whose behaviour Verus
//! takes on the word of the called crate's source and documentation.
use vstd::prelude::*;

use vstd::utf8::{decode_utf8, valid_utf8};

verus! {

/// The inner HTML of the first `script` element under the download box
/// container (`#lrbox .right script`) of an HTML document, if any. A
/// fixed function of the document text alone: the selector is constant
/// and HTML parsing is deterministic.
pub uninterp spec fn container_script_of(html: Seq<char>) -> Option<Seq<char>>;

/// Relies on scraper's `Html::parse_document`, `Selector::parse`,
/// `Html::select` and `ElementRef::inner_html`: parse the document, take
/// the first `script` element under the fixed container selector and hand
/// back its inner HTML. The intermediate values cannot cross this
/// boundary (`select` borrows the parsed document), so the lookup stands
/// as one trusted call whose result is named by `container_script_of`.
#[verifier::external_body]
pub(crate) fn find_container_script(html: &str) -> (r: Option<String>)
    ensures
        match r {
            Some(s) => container_script_of(html@) == Some(s@),
            None => container_script_of(html@) is None,
        },
{
    let document = scraper::Html::parse_document(html);
    let selector = match scraper::Selector::parse("#lrbox .right script") {
        Ok(s) => s,
        Err(_) => return None,
    };
    match document.select(&selector).next() {
        Some(element) => Some(element.inner_html()),
        None => None,
    }
}

/// The host part of a source reference, if the reference parses as an
/// absolute URL with a host. A fixed function of the reference text.
pub uninterp spec fn host_of(url: Seq<char>) -> Option<Seq<char>>;

/// Relies on url's `Url::parse` and `Url::host_str`: the host of an
/// absolute URL, `None` when the text does not parse or has no host.
#[verifier::external_body]
pub(crate) fn host_of_url(url: &str) -> (r: Option<String>)
    ensures
        match r {
            Some(h) => host_of(url@) == Some(h@),
            None => host_of(url@) is None,
        },
{
    match url::Url::parse(url) {
        Ok(u) => match u.host_str() {
            Some(h) => Some(h.to_owned()),
            None => None,
        },
        Err(_) => None,
    }
}

/// Relies on `String::from_utf8` of std: succeeds exactly on valid UTF-8
/// input and decodes it to the characters the encoding denotes, per the
/// UTF-8 model of vstd.
#[verifier::external_body]
pub(crate) fn utf8_to_string(bytes: Vec<u8>) -> (r: Option<String>)
    ensures
        match r {
            Some(s) => valid_utf8(bytes@) && s@ == decode_utf8(bytes@),
            None => !valid_utf8(bytes@),
        },
{
    match String::from_utf8(bytes) {
        Ok(s) => Some(s),
        Err(_) => None,
    }
}

} // verus!
