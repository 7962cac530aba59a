//! The operations on URLs that the url crate carries out. A URL crosses into
//! and out of each operation as its text: parsing it is the operation's
//! first step, and its serialization its result.
use vstd::prelude::*;

verus! {

/// What `Url::parse` then `set_query(None)` gives, serialized; `None` when the
/// text does not parse.
pub uninterp spec fn url_without_query_of(url: Seq<char>) -> Option<Seq<char>>;

/// What `Url::parse(src)`, then `set_scheme(scheme)`, `set_host(Some(host))`
/// and `set_port(port)` give, serialized: `None` when `src` does not parse,
/// `Some(None)` when one of the setters refuses.
pub uninterp spec fn url_moved_of(src: Seq<char>, scheme: Seq<char>, host: Seq<char>, port: Option<u16>) -> Option<Option<Seq<char>>>;

/// `src` moved to another scheme, host and port, with its own text added as
/// the query parameter `param`: `None` when `src` does not parse,
/// `Some(None)` when the move or the addition is refused.
pub open spec fn url_redirected_of(
    src: Seq<char>,
    scheme: Seq<char>,
    host: Seq<char>,
    port: Option<u16>,
    param: Seq<char>,
) -> Option<Option<Seq<char>>> {
    match url_moved_of(src, scheme, host, port) {
        None => None,
        Some(None) => Some(None),
        Some(Some(u)) => Some(url_appended_pair_of(u, param, src)),
    }
}

/// The path and query of `Url::parse(base)` joined with `reference`
/// (`Url::join`), or `None` when either step fails.
pub uninterp spec fn url_joined_of(base: Seq<char>, reference: Seq<char>) -> Option<(Seq<char>, Option<Seq<char>>)>;

/// The decoded query pairs (`Url::query_pairs`) of a URL text, or `None` when
/// it does not parse.
pub uninterp spec fn url_query_pairs_of(url: Seq<char>) -> Option<Seq<(Seq<char>, Seq<char>)>>;

/// A URL text with its query pairs cleared (`query_pairs_mut().clear()`),
/// serialized; `None` when it does not parse.
pub uninterp spec fn url_cleared_query_of(url: Seq<char>) -> Option<Seq<char>>;

/// A URL text with its query pairs cleared and the given pairs appended in
/// order; `None` when it does not parse.
pub open spec fn url_with_query_pairs_of(url: Seq<char>, pairs: Seq<(Seq<char>, Seq<char>)>) -> Option<Seq<char>>
    decreases pairs.len(),
{
    if pairs.len() == 0 {
        url_cleared_query_of(url)
    } else {
        match url_with_query_pairs_of(url, pairs.drop_last()) {
            Some(u) => url_appended_pair_of(u, pairs.last().0, pairs.last().1),
            None => None,
        }
    }
}

/// `Url::parse`, `Url::set_query(None)` and `Url::to_string` of the url
/// crate: the URL without its query, or `None` when it does not parse. The
/// result is named, not stated.
#[verifier::external_body]
pub(crate) fn url_without_query(url: &str) -> (r: Option<String>)
    ensures
        (match r {
            Some(s) => Some(s@),
            None => None,
        }) == url_without_query_of(url@),
{
    match url::Url::parse(url) {
        Ok(mut u) => {
            u.set_query(None);
            Some(u.to_string())
        },
        Err(_) => None,
    }
}

/// `Url::parse`, `set_scheme`, `set_host`, `set_port` and `to_string` of
/// the url crate: the URL moved to another scheme, host and port; `None` when
/// it does not parse, `Some(None)` when a setter refuses. The result is named,
/// not stated.
#[verifier::external_body]
pub(crate) fn url_moved(src: &str, scheme: &str, host: &str, port: Option<u16>) -> (r: Option<Option<String>>)
    ensures
        (match r {
            Some(Some(s)) => Some(Some(s@)),
            Some(None) => Some(None),
            None => None,
        }) == url_moved_of(src@, scheme@, host@, port),
{
    let mut url = match url::Url::parse(src) {
        Ok(u) => u,
        Err(_) => return None,
    };
    if url.set_scheme(scheme).is_err() || url.set_host(Some(host)).is_err() || url.set_port(port).is_err() {
        return Some(None);
    }
    Some(Some(url.to_string()))
}

/// The URL moved to another scheme, host and port, with its own text added as
/// the query parameter `param`.
pub fn url_redirected(src: &str, scheme: &str, host: &str, port: Option<u16>, param: &str) -> (r: Option<Option<String>>)
    ensures
        (match r {
            Some(Some(s)) => Some(Some(s@)),
            Some(None) => Some(None),
            None => None,
        }) == url_redirected_of(src@, scheme@, host@, port, param@),
{
    match url_moved(src, scheme, host, port) {
        None => None,
        Some(None) => Some(None),
        Some(Some(u)) => Some(url_appended_pair(u.as_str(), param, src)),
    }
}

/// `Url::parse(base)`, `Url::join(reference)`, then `path()` and `query()`
/// of the url crate. The result is named, not stated.
#[verifier::external_body]
pub(crate) fn url_joined(base: &str, reference: &str) -> (r: Option<(String, Option<String>)>)
    ensures
        (match r {
            Some((p, q)) => Some(
                (
                    p@,
                    match q {
                        Some(q) => Some(q@),
                        None => None,
                    },
                ),
            ),
            None => None,
        }) == url_joined_of(base@, reference@),
{
    let base = url::Url::parse(base).ok()?;
    let joined = base.join(reference).ok()?;
    Some((joined.path().to_string(), joined.query().map(|q| q.to_string())))
}

/// `Url::parse` and `Url::query_pairs` of the url crate: the decoded query
/// pairs, in order. The result is named, not stated.
#[verifier::external_body]
pub(crate) fn url_query_pairs(url: &str) -> (r: Option<Vec<(String, String)>>)
    ensures
        (match r {
            Some(v) => Some(v@.map_values(|p: (String, String)| (p.0@, p.1@))),
            None => None,
        }) == url_query_pairs_of(url@),
{
    let u = url::Url::parse(url).ok()?;
    Some(u.query_pairs().map(|(k, v)| (k.to_string(), v.to_string())).collect())
}

/// `Url::parse`, `query_pairs_mut().clear()` and `to_string` of the url
/// crate: the URL without query pairs, or `None` when it does not parse. The
/// result is named, not stated.
#[verifier::external_body]
pub(crate) fn url_cleared_query(url: &str) -> (r: Option<String>)
    ensures
        (match r {
            Some(s) => Some(s@),
            None => None,
        }) == url_cleared_query_of(url@),
{
    let mut u = url::Url::parse(url).ok()?;
    u.query_pairs_mut().clear();
    Some(u.to_string())
}

/// The URL with its query pairs replaced by `pairs`, in order; `None` when it
/// does not parse.
pub fn url_with_query_pairs(url: &str, pairs: &Vec<(String, String)>) -> (r: Option<String>)
    ensures
        (match r {
            Some(s) => Some(s@),
            None => None,
        }) == url_with_query_pairs_of(url@, pairs@.map_values(|p: (String, String)| (p.0@, p.1@))),
{
    let ghost ps = pairs@.map_values(|p: (String, String)| (p.0@, p.1@));
    let mut current = match url_cleared_query(url) {
        Some(u) => u,
        None => {
            proof {
                lemma_url_with_pairs_none(url@, ps, 0);
            }
            return None;
        },
    };
    assert(ps.take(0) =~= Seq::<(Seq<char>, Seq<char>)>::empty());
    let mut i: usize = 0;
    while i < pairs.len()
        invariant
            ps == pairs@.map_values(|p: (String, String)| (p.0@, p.1@)),
            i <= pairs@.len(),
            url_with_query_pairs_of(url@, ps.take(i as int)) == Some(current@),
        decreases pairs@.len() - i,
    {
        assert(ps.take(i + 1).drop_last() =~= ps.take(i as int));
        assert(ps.take(i + 1).last() == ps[i as int]);
        match url_appended_pair(current.as_str(), pairs[i].0.as_str(), pairs[i].1.as_str()) {
            Some(u) => {
                current = u;
            },
            None => {
                proof {
                    lemma_url_with_pairs_none(url@, ps, i + 1);
                }
                return None;
            },
        }
        i = i + 1;
    }
    assert(ps.take(pairs@.len() as int) =~= ps);
    Some(current)
}

/// Once a step fails, appending the remaining pairs fails too.
proof fn lemma_url_with_pairs_none(url: Seq<char>, ps: Seq<(Seq<char>, Seq<char>)>, k: int)
    requires
        0 <= k <= ps.len(),
        url_with_query_pairs_of(url, ps.take(k)) is None,
    ensures
        url_with_query_pairs_of(url, ps) is None,
    decreases ps.len() - k,
{
    if k < ps.len() {
        assert(ps.take(k + 1).drop_last() =~= ps.take(k));
        lemma_url_with_pairs_none(url, ps, k + 1);
    } else {
        assert(ps.take(k) =~= ps);
    }
}

/// A URL text with the query pair `(name, value)` appended
/// (`query_pairs_mut().append_pair`), serialized; `None` when it does not
/// parse.
pub uninterp spec fn url_appended_pair_of(url: Seq<char>, name: Seq<char>, value: Seq<char>) -> Option<Seq<char>>;

/// `href` moved to the scheme and host of `base` (`set_scheme`,
/// `set_host`), serialized; `None` when either does not parse or a setter
/// refuses.
pub uninterp spec fn url_rehosted_of(href: Seq<char>, base: Seq<char>) -> Option<Seq<char>>;

/// `Url::parse`, `query_pairs_mut().append_pair(name, value)` and
/// `to_string` of the url crate: the URL with one more query pair, or `None`
/// when it does not parse. The result is named, not stated.
#[verifier::external_body]
pub(crate) fn url_appended_pair(url: &str, name: &str, value: &str) -> (r: Option<String>)
    ensures
        (match r {
            Some(s) => Some(s@),
            None => None,
        }) == url_appended_pair_of(url@, name@, value@),
{
    let mut u = url::Url::parse(url).ok()?;
    u.query_pairs_mut().append_pair(name, value);
    Some(u.to_string())
}

/// `Url::parse` of both texts, then `set_scheme(base.scheme())` and
/// `set_host(base.host_str())` on `href` and `to_string`, of the url crate.
/// The result is named, not stated.
#[verifier::external_body]
pub(crate) fn url_rehosted(href: &str, base: &str) -> (r: Option<String>)
    ensures
        (match r {
            Some(s) => Some(s@),
            None => None,
        }) == url_rehosted_of(href@, base@),
{
    let base = url::Url::parse(base).ok()?;
    let mut u = url::Url::parse(href).ok()?;
    u.set_scheme(base.scheme()).ok()?;
    u.set_host(base.host_str()).ok()?;
    Some(u.to_string())
}

} // verus!
