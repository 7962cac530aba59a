//! The cookies tab: the cookies of the request's `cookie` header as an
//! editable list, and the header value written back from that list.
use vstd::prelude::*;

use crate::rest_client::model::request_header::{pairs_of, RequestHeader, RequestHeaders};
use crate::split::{free_of, join, join_chars, lemma_split_join, split_chars, split_on, views};
use crate::text::{
    chars_of, extend_str, find_chars_from, find_from, has_at, is_ws, lemma_find_first, lemma_trim_end_take,
    lemma_trim_start_skip, lowercase_of, pair_views, same_text, string_of, sub_chars, to_lowercase, trim,
    trim_chars, trim_end, trim_start,
};

verus! {

/// The cookie that a piece of a `cookie` header stands for: the trimmed piece
/// split at its first `=`; none without `=`.
pub open spec fn cookie_of_piece(piece: Seq<char>) -> Option<(Seq<char>, Seq<char>)> {
    let t = trim(piece);
    match find_from(t, 0, seq!['=']) {
        Some(i) => Some((t.take(i), t.skip(i + 1))),
        None => None,
    }
}

/// The cookies that the pieces stand for, in order.
pub open spec fn cookies_of_pieces(pieces: Seq<Seq<char>>) -> Seq<(Seq<char>, Seq<char>)>
    decreases pieces.len(),
{
    if pieces.len() == 0 {
        Seq::empty()
    } else {
        let rest = cookies_of_pieces(pieces.drop_last());
        match cookie_of_piece(pieces.last()) {
            Some(c) => rest.push(c),
            None => rest,
        }
    }
}

/// The cookies of a `cookie` header value: its pieces between `;`.
pub open spec fn parsed_cookies_of(header: Seq<char>) -> Seq<(Seq<char>, Seq<char>)> {
    cookies_of_pieces(split_on(header, ';'))
}

/// The text of one cookie: `name=value`.
pub open spec fn cookie_text(c: (Seq<char>, Seq<char>)) -> Seq<char> {
    c.0 + seq!['='] + c.1
}

/// A `cookie` header value: the cookies' texts joined with `; `.
pub open spec fn cookie_header_text(cs: Seq<(Seq<char>, Seq<char>)>) -> Seq<char> {
    join(cs.map_values(|c: (Seq<char>, Seq<char>)| cookie_text(c)), "; "@)
}

/// The cookies of a `cookie` header value, in order.
pub fn parse_cookies(cookie_header: &str) -> (r: Vec<(String, String)>)
    ensures
        pair_views(r@) == parsed_cookies_of(cookie_header@),
{
    let cs = chars_of(cookie_header);
    let pieces = split_chars(cs.as_slice(), ';');
    let ghost ps = views(pieces@);
    let eq: Vec<char> = vec!['='];
    assert(eq@ =~= seq!['=']);
    let mut r: Vec<(String, String)> = Vec::new();
    let mut i: usize = 0;
    while i < pieces.len()
        invariant
            ps == views(pieces@),
            ps == split_on(cookie_header@, ';'),
            eq@ == seq!['='],
            i <= pieces@.len(),
            pair_views(r@) == cookies_of_pieces(ps.take(i as int)),
        decreases pieces@.len() - i,
    {
        assert(ps.take(i + 1).drop_last() =~= ps.take(i as int));
        assert(ps.take(i + 1).last() == ps[i as int]);
        let t = trim_chars(pieces[i].as_slice());
        match find_chars_from(t.as_slice(), 0, eq.as_slice()) {
            Some(k) => {
                assert(k + 1 <= t@.len());
                let n = t.len();
                assert(k < n);
                let name = string_of(sub_chars(t.as_slice(), 0, k).as_slice());
                let value = string_of(sub_chars(t.as_slice(), k + 1, t.len()).as_slice());
                let ghost before = pair_views(r@);
                r.push((name, value));
                assert(t@.subrange(0, k as int) =~= t@.take(k as int));
                assert(t@.subrange(k + 1, t@.len() as int) =~= t@.skip(k + 1));
                assert(pair_views(r@) =~= before.push((t@.take(k as int), t@.skip(k + 1))));
            },
            None => {},
        }
        i = i + 1;
    }
    assert(ps.take(pieces@.len() as int) =~= ps);
    r
}

/// The `cookie` header value for a list of cookies.
pub fn cookie_header_value(items: &RequestHeaders) -> (r: String)
    ensures
        r@ == cookie_header_text(pairs_of(items@)),
{
    let list = items.iter();
    let ghost cs = pairs_of(items@);
    let mut texts: Vec<Vec<char>> = Vec::new();
    let mut i: usize = 0;
    while i < list.len()
        invariant
            list@.map_values(|h: RequestHeader| h@) == items@,
            cs == pairs_of(items@),
            i <= list@.len(),
            views(texts@) == cs.take(i as int).map_values(|c: (Seq<char>, Seq<char>)| cookie_text(c)),
        decreases list@.len() - i,
    {
        let mut t: Vec<char> = Vec::new();
        extend_str(&mut t, list[i].name.as_str());
        t.push('=');
        extend_str(&mut t, list[i].value.as_str());
        assert(items@[i as int] == list@[i as int]@);
        assert(cs[i as int] == (list@[i as int].name@, list@[i as int].value@));
        assert(t@ =~= cookie_text(cs[i as int]));
        let ghost before = views(texts@);
        texts.push(t);
        assert(views(texts@) =~= before.push(cookie_text(cs[i as int])));
        assert(cs.take(i + 1).map_values(|c: (Seq<char>, Seq<char>)| cookie_text(c)) =~= cs.take(
            i as int,
        ).map_values(|c: (Seq<char>, Seq<char>)| cookie_text(c)).push(cookie_text(cs[i as int])));
        i = i + 1;
    }
    assert(cs.take(list@.len() as int) =~= cs);
    let sep: Vec<char> = vec![';', ' '];
    proof {
        reveal_strlit("; ");
    }
    assert(sep@ =~= "; "@);
    let out = join_chars(&texts, sep.as_slice());
    string_of(out.as_slice())
}

/// The editable list for a `cookie` header value: one entry per cookie, each
/// with a fresh id.
pub fn cookie_items(cookie_header: &str) -> (r: RequestHeaders)
    ensures
        pairs_of(r@) == parsed_cookies_of(cookie_header@),
{
    let cookies = parse_cookies(cookie_header);
    let mut r = RequestHeaders::new();
    let mut i: usize = 0;
    assert(pairs_of(r@) =~= pair_views(cookies@).take(0));
    while i < cookies.len()
        invariant
            i <= cookies@.len(),
            pairs_of(r@) == pair_views(cookies@).take(i as int),
        decreases cookies@.len() - i,
    {
        let ghost before = r@;
        let h = RequestHeader::new(cookies[i].0.clone(), cookies[i].1.clone());
        r.push(h);
        assert(pairs_of(r@) =~= pairs_of(before).push((cookies@[i as int].0@, cookies@[i as int].1@)));
        assert(pair_views(cookies@).take(i + 1) =~= pair_views(cookies@).take(i as int).push(pair_views(cookies@)[i as int]));
        i = i + 1;
    }
    assert(pair_views(cookies@).take(cookies@.len() as int) =~= pair_views(cookies@));
    r
}

/// The first header named `cookie` (in lower case), by position.
pub open spec fn first_cookie_header(hs: Seq<(Seq<char>, Seq<char>, Seq<char>)>) -> Option<int>
    decreases hs.len(),
{
    if hs.len() == 0 {
        None
    } else if lowercase_of(hs[0].1) == "cookie"@ {
        Some(0)
    } else {
        match first_cookie_header(hs.drop_first()) {
            Some(i) => Some(i + 1),
            None => None,
        }
    }
}

/// The id and value of the first `cookie` header.
pub fn find_cookie_header(headers: &RequestHeaders) -> (r: Option<(String, String)>)
    ensures
        first_cookie_header(headers@) is None ==> r is None,
        first_cookie_header(headers@) matches Some(i) ==> (r matches Some((id, v)) && 0 <= i < headers@.len()
            && id@ == headers@[i].0 && v@ == headers@[i].2),
{
    let list = headers.iter();
    let ghost hs = headers@;
    let mut i: usize = 0;
    assert(hs.skip(0) =~= hs);
    while i < list.len()
        invariant
            list@.map_values(|h: RequestHeader| h@) == hs,
            hs == headers@,
            i <= list@.len(),
            first_cookie_header(hs) == match first_cookie_header(hs.skip(i as int)) {
                Some(j) => Some(j + i),
                None => None,
            },
        decreases list@.len() - i,
    {
        assert(hs[i as int] == list@[i as int]@);
        assert(hs.skip(i as int)[0] == hs[i as int]);
        assert(hs.skip(i as int).drop_first() =~= hs.skip(i + 1));
        let lower = to_lowercase(list[i].name.as_str());
        if same_text(lower.as_str(), "cookie") {
            return Some((list[i].id.clone(), list[i].value.clone()));
        }
        i = i + 1;
    }
    None
}

/// Whether the cookie list is read again from the headers after they
/// changed: when there was no `cookie` header before, or both before and now
/// there is one and its value changed. The value to read it from.
pub fn cookies_to_reload(prev: &RequestHeaders, actual: &RequestHeaders) -> (r: Option<String>)
    requires
        first_cookie_header(prev@) is Some || first_cookie_header(actual@) is Some,
    ensures
        ({
            let p = first_cookie_header(prev@);
            let a = first_cookie_header(actual@);
            &&& p is None ==> (r matches Some(v) && v@ == actual@[a->0].2)
            &&& p is Some && a is Some && prev@[p->0].2 != actual@[a->0].2 ==> (r matches Some(v) && v@ == actual@[a->0].2)
            &&& p is Some && (a is None || prev@[p->0].2 == actual@[a->0].2) ==> r is None
        }),
{
    let p = find_cookie_header(prev);
    let a = find_cookie_header(actual);
    match (p, a) {
        (None, Some((_, v))) => Some(v),
        (Some((_, pv)), Some((_, av))) => {
            if same_text(pv.as_str(), av.as_str()) {
                None
            } else {
                Some(av)
            }
        },
        _ => None,
    }
}

/// The change the cookie list makes to the first `cookie` header: its id and
/// the new value, when the value differs; none without such a header.
pub fn cookie_header_update(headers: &RequestHeaders, items: &RequestHeaders) -> (r: Option<(String, String)>)
    ensures
        ({
            let a = first_cookie_header(headers@);
            let text = cookie_header_text(pairs_of(items@));
            &&& a is None ==> r is None
            &&& a is Some && headers@[a->0].2 == text ==> r is None
            &&& a is Some && headers@[a->0].2 != text ==> (r matches Some((id, v)) && id@ == headers@[a->0].0 && v@ == text)
        }),
{
    match find_cookie_header(headers) {
        None => None,
        Some((id, current)) => {
            let value = cookie_header_value(items);
            if same_text(current.as_str(), value.as_str()) {
                None
            } else {
                Some((id, value))
            }
        },
    }
}

/// The pieces that a `; `-joined text splits into at `;`: the first text,
/// then each following one after a space.
pub open spec fn spaced(ts: Seq<Seq<char>>) -> Seq<Seq<char>> {
    Seq::new(ts.len(), |i: int| if i == 0 { ts[0] } else { seq![' '] + ts[i] })
}

proof fn lemma_join_spaced(ts: Seq<Seq<char>>)
    ensures
        join(ts, "; "@) == join(spaced(ts), seq![';']),
    decreases ts.len(),
{
    reveal_strlit("; ");
    if ts.len() == 1 {
        assert(spaced(ts) =~= seq![ts[0]]);
    } else if ts.len() > 1 {
        lemma_join_spaced(ts.drop_last());
        assert(spaced(ts).drop_last() =~= spaced(ts.drop_last()));
        assert(spaced(ts).last() =~= seq![' '] + ts.last());
        assert(join(ts, "; "@) =~= join(spaced(ts), seq![';']));
    } else {
        assert(spaced(ts) =~= Seq::<Seq<char>>::empty());
    }
}

/// A cookie whose name holds neither `=` nor `;` and does not start with
/// white space, and whose value holds no `;` and does not end with white
/// space, reads back from its text, with or without a space before it.
proof fn lemma_cookie_piece(c: (Seq<char>, Seq<char>), lead: bool)
    requires
        free_of(c.0, '='),
        free_of(c.0, ';'),
        free_of(c.1, ';'),
        !(c.0.len() > 0 && is_ws(c.0[0])),
        !(c.1.len() > 0 && is_ws(c.1.last())),
    ensures
        cookie_of_piece(if lead { seq![' '] + cookie_text(c) } else { cookie_text(c) }) == Some(c),
        free_of(if lead { seq![' '] + cookie_text(c) } else { cookie_text(c) }, ';'),
{
    let t = cookie_text(c);
    let x = if lead { seq![' '] + t } else { t };
    let n = c.0.len() as int;
    assert(t[n] == '=');
    assert(!is_ws('='));
    assert(!is_ws(t[0])) by {
        if n > 0 {
            assert(t[0] == c.0[0]);
        }
    }
    assert(!is_ws(t[t.len() - 1])) by {
        if c.1.len() > 0 {
            assert(t[t.len() - 1] == c.1.last());
        }
    }
    if lead {
        assert(is_ws(' '));
        assert(x[1] == t[0]);
        lemma_trim_start_skip(x, 1);
        assert(x.skip(1) =~= t);
    } else {
        lemma_trim_start_skip(x, 0);
        assert(x.skip(0) =~= t);
    }
    lemma_trim_end_take(t, t.len() as int);
    assert(t.take(t.len() as int) =~= t);
    assert(trim(x) == t);
    assert(t.subrange(n, n + 1) =~= seq!['=']);
    assert forall|j: int| 0 <= j < n implies !has_at(t, j, seq!['=']) by {
        assert(t.subrange(j, j + 1)[0] == c.0[j]);
    }
    lemma_find_first(t, 0, n, seq!['=']);
    assert(t.take(n) =~= c.0);
    assert(t.skip(n + 1) =~= c.1);
    assert forall|k: int| 0 <= k < x.len() implies x[k] != ';' by {
        let k2 = if lead { k - 1 } else { k };
        if lead && k == 0 {
        } else if k2 < n {
            assert(x[k] == c.0[k2]);
        } else if k2 > n {
            assert(x[k] == c.1[k2 - n - 1]);
        }
    }
}

proof fn lemma_cookies_of_spaced(cs: Seq<(Seq<char>, Seq<char>)>)
    requires
        forall|k: int|
            0 <= k < cs.len() ==> free_of((#[trigger] cs[k]).0, '=') && free_of(cs[k].0, ';') && free_of(cs[k].1, ';')
                && !(cs[k].0.len() > 0 && is_ws(cs[k].0[0])) && !(cs[k].1.len() > 0 && is_ws(cs[k].1.last())),
    ensures
        cookies_of_pieces(spaced(cs.map_values(|c: (Seq<char>, Seq<char>)| cookie_text(c)))) == cs,
    decreases cs.len(),
{
    let ts = cs.map_values(|c: (Seq<char>, Seq<char>)| cookie_text(c));
    if cs.len() == 0 {
        assert(spaced(ts) =~= Seq::<Seq<char>>::empty());
        assert(cs =~= Seq::<(Seq<char>, Seq<char>)>::empty());
    } else {
        let init = cs.drop_last();
        assert forall|k: int|
            0 <= k < init.len() implies free_of((#[trigger] init[k]).0, '=') && free_of(init[k].0, ';') && free_of(
            init[k].1,
            ';',
        ) && !(init[k].0.len() > 0 && is_ws(init[k].0[0])) && !(init[k].1.len() > 0 && is_ws(init[k].1.last())) by {
            assert(init[k] == cs[k]);
        }
        lemma_cookies_of_spaced(init);
        let its = init.map_values(|c: (Seq<char>, Seq<char>)| cookie_text(c));
        assert(spaced(ts).drop_last() =~= spaced(its));
        let last = cs[cs.len() - 1];
        lemma_cookie_piece(last, cs.len() > 1);
        assert(spaced(ts).last() == (if cs.len() > 1 { seq![' '] + cookie_text(last) } else { cookie_text(last) }));
        assert(init.push(last) =~= cs);
    }
}

/// Reading the cookies back from the header value written for them gives the
/// same cookies, when no name holds `=` or `;` or starts with white space,
/// and no value holds `;` or ends with white space.
pub proof fn lemma_cookies_round_trip(cs: Seq<(Seq<char>, Seq<char>)>)
    requires
        forall|k: int|
            0 <= k < cs.len() ==> free_of((#[trigger] cs[k]).0, '=') && free_of(cs[k].0, ';') && free_of(cs[k].1, ';')
                && !(cs[k].0.len() > 0 && is_ws(cs[k].0[0])) && !(cs[k].1.len() > 0 && is_ws(cs[k].1.last())),
    ensures
        parsed_cookies_of(cookie_header_text(cs)) == cs,
{
    let ts = cs.map_values(|c: (Seq<char>, Seq<char>)| cookie_text(c));
    lemma_join_spaced(ts);
    lemma_cookies_of_spaced(cs);
    if cs.len() == 0 {
        assert(join(ts, "; "@) =~= Seq::<char>::empty());
        assert(split_on(Seq::<char>::empty(), ';') =~= seq![Seq::<char>::empty()]);
        reveal_with_fuel(cookies_of_pieces, 2);
        assert(trim(Seq::<char>::empty()) =~= Seq::<char>::empty());
        assert(cs =~= Seq::<(Seq<char>, Seq<char>)>::empty());
    } else {
        assert forall|i: int| 0 <= i < spaced(ts).len() implies free_of(#[trigger] spaced(ts)[i], ';') by {
            assert(ts[i] == cookie_text(cs[i]));
            lemma_cookie_piece(cs[i], i > 0);
        }
        lemma_split_join(spaced(ts), ';');
    }
}

} // verus!
