//! The query tab: the query parameters of the request's URL as an editable
//! list, and the URL written back from that list.
use vstd::prelude::*;

use crate::rest_client::model::request_header::{pairs_of, RequestHeader, RequestHeaders};
use crate::rest_client::ui::request_result_previewer::header_pairs;
use crate::rest_client::util::url_ops::{
    url_query_pairs, url_query_pairs_of, url_with_query_pairs, url_with_query_pairs_of,
};
use crate::text::{pair_views, same_text};

verus! {

/// The editable list of the query parameters of a URL, each with a fresh id;
/// none when the URL does not parse.
pub fn query_items_of(url: &str) -> (r: Option<RequestHeaders>)
    ensures
        url_query_pairs_of(url@) is None ==> r is None,
        url_query_pairs_of(url@) matches Some(ps) ==> (r matches Some(items) && pairs_of(items@) == ps),
{
    match url_query_pairs(url) {
        None => None,
        Some(pairs) => {
            let mut r = RequestHeaders::new();
            let mut i: usize = 0;
            assert(pairs_of(r@) =~= pair_views(pairs@).take(0));
            while i < pairs.len()
                invariant
                    i <= pairs@.len(),
                    pairs_of(r@) == pair_views(pairs@).take(i as int),
                decreases pairs@.len() - i,
            {
                let ghost before = r@;
                let h = RequestHeader::new(pairs[i].0.clone(), pairs[i].1.clone());
                r.push(h);
                assert(pairs_of(r@) =~= pairs_of(before).push((pairs@[i as int].0@, pairs@[i as int].1@)));
                assert(pair_views(pairs@).take(i + 1) =~= pair_views(pairs@).take(i as int).push(
                    pair_views(pairs@)[i as int],
                ));
                i = i + 1;
            }
            assert(pair_views(pairs@).take(pairs@.len() as int) =~= pair_views(pairs@));
            Some(r)
        },
    }
}

/// Whether the URL changed: it had no value before, or another one.
pub fn url_changed(prev: &Option<String>, value: &str) -> (r: bool)
    ensures
        r == (match prev {
            None => true,
            Some(p) => p@ != value@,
        }),
{
    match prev {
        None => true,
        Some(p) => !same_text(p.as_str(), value),
    }
}

/// The URL to write back after the list changed: the URL with its query
/// replaced by the listed parameters, when it parses and the result differs.
pub fn query_url_update(url: &str, items: &RequestHeaders) -> (r: Option<String>)
    ensures
        (match r {
            Some(s) => Some(s@),
            None => None,
        }) == (match url_with_query_pairs_of(url@, pairs_of(items@)) {
            Some(u) => if u == url@ {
                None
            } else {
                Some(u)
            },
            None => None,
        }),
{
    let pairs = header_pairs(items);
    match url_with_query_pairs(url, &pairs) {
        Some(u) => {
            if same_text(u.as_str(), url) {
                None
            } else {
                Some(u)
            }
        },
        None => None,
    }
}

} // verus!
