//! Reading one `name=value` cookie text, percent-decoded, with the cookie
//! crate.
use vstd::prelude::*;

verus! {

/// The name and value that `Cookie::parse_encoded` reads from a text, or
/// `None` when it refuses it.
pub uninterp spec fn cookie_parsed_of(text: Seq<char>) -> Option<(Seq<char>, Seq<char>)>;

/// `Cookie::parse_encoded`, `Cookie::name` and `Cookie::value` of the cookie
/// crate: the percent-decoded name and value of a cookie text, or `None` when
/// it does not parse. The result is named, not stated.
#[verifier::external_body]
pub(crate) fn parse_encoded_cookie(text: &str) -> (r: Option<(String, String)>)
    ensures
        (match r {
            Some((n, v)) => Some((n@, v@)),
            None => None,
        }) == cookie_parsed_of(text@),
{
    match cookie::Cookie::parse_encoded(text.to_owned()) {
        Ok(c) => Some((c.name().to_string(), c.value().to_string())),
        Err(_) => None,
    }
}

} // verus!
