//! Making the stylesheet and icon links of a page's head absolute, so that
//! they still load when the page is shown from elsewhere.
use vstd::prelude::*;

use crate::rest_client::util::link_rewrite::is_absolute;

verus! {

/// `links::is_absolute` of html_cleaning: whether the trimmed text starts
/// with `http://`, `https://` or `//`, as its source reads.
#[verifier::external_body]
fn links_is_absolute(url: &str) -> (r: bool)
    ensures
        r == is_absolute(url@),
{
    html_cleaning::links::is_absolute(url)
}

/// What `links::resolve(relative, base)` of html_cleaning gives.
pub uninterp spec fn resolved_link_of(relative: Seq<char>, base: Seq<char>) -> Option<Seq<char>>;

/// `links::resolve` of html_cleaning: a relative link resolved against a base
/// URL, or `None` when it cannot be. The result is named, not stated.
#[verifier::external_body]
fn links_resolve(relative: &str, base: &str) -> (r: Option<String>)
    ensures
        (match r {
            Some(s) => Some(s@),
            None => None,
        }) == resolved_link_of(relative@, base@),
{
    html_cleaning::links::resolve(relative, base)
}

/// The new `href` of a head link: none for an absolute link; otherwise the
/// link resolved against the page's URL, where it can be.
pub fn absolute_head_link(href: &str, base_url: &str) -> (r: Option<String>)
    ensures
        is_absolute(href@) ==> r is None,
        !is_absolute(href@) ==> (match r {
            Some(s) => Some(s@),
            None => None,
        }) == resolved_link_of(href@, base_url@),
{
    if links_is_absolute(href) {
        None
    } else {
        links_resolve(href, base_url)
    }
}

} // verus!
