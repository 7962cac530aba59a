//! The custom headers of the request page: kept in the store as
//! `name:value` lines, numbered by their line when read back, and added
//! under a name no other custom header has.
use vstd::prelude::*;

use crate::local_store::{value_or, LocalStore};
use crate::rest_client::model::request_header::{
    header_line, header_of_line, headers_text, lemma_header_of_line, lemma_headers_round_trip,
};
use crate::rest_client::ui::rest_client_explorer_row::{compare_form, compared_name};
use crate::split::{free_of, join, join_chars, lemma_lines_join, lines_chars, lines_of, views};
use crate::text::{
    chars_of, extend_str, find_chars_from, find_from, lowercase_of, same_text, string_of, sub_chars, to_lowercase,
};

verus! {

/// A custom header: its number in the list, name and value.
#[derive(Debug)]
pub struct CustomHeader {
    pub id: usize,
    pub name: String,
    pub value: String,
}

impl View for CustomHeader {
    type V = (int, Seq<char>, Seq<char>);

    open spec fn view(&self) -> (int, Seq<char>, Seq<char>) {
        (self.id as int, self.name@, self.value@)
    }
}

/// The views of a list of custom headers.
pub open spec fn custom_views(hs: Seq<CustomHeader>) -> Seq<(int, Seq<char>, Seq<char>)> {
    hs.map_values(|h: CustomHeader| h@)
}

/// The name/value pairs of custom headers.
pub open spec fn custom_pairs(hs: Seq<(int, Seq<char>, Seq<char>)>) -> Seq<(Seq<char>, Seq<char>)> {
    hs.map_values(|h: (int, Seq<char>, Seq<char>)| (h.1, h.2))
}

/// The custom headers that stored lines stand for: each line with a `:`,
/// split at its first `:`, numbered by its place among all lines from 1.
pub open spec fn custom_of_lines(ls: Seq<Seq<char>>) -> Seq<(int, Seq<char>, Seq<char>)>
    decreases ls.len(),
{
    if ls.len() == 0 {
        Seq::empty()
    } else {
        let rest = custom_of_lines(ls.drop_last());
        match header_of_line(ls.last()) {
            Some(p) => rest.push((ls.len() as int, p.0, p.1)),
            None => rest,
        }
    }
}

/// The store key of the custom headers.
pub open spec fn custom_headers_key() -> Seq<char> {
    "rc_custom_headers"@
}

/// The custom headers kept in the store.
pub fn restore_custom_headers(store: &LocalStore) -> (r: Vec<CustomHeader>)
    requires
        store.wf(),
    ensures
        custom_views(r@) == custom_of_lines(lines_of(value_or(store@, custom_headers_key(), Seq::empty()))),
{
    proof {
        reveal_strlit("rc_custom_headers");
    }
    let stored = store.get_value("rc_custom_headers", String::new());
    let mut result: Vec<CustomHeader> = Vec::new();
    let cs = chars_of(stored.as_str());
    let lines = lines_chars(cs.as_slice());
    let ghost ls = views(lines@);
    let colon: Vec<char> = vec![':'];
    assert(colon@ =~= seq![':']);
    assert(custom_views(result@) =~= custom_of_lines(ls.take(0)));
    let mut i: usize = 0;
    while i < lines.len()
        invariant
            ls == views(lines@),
            ls == lines_of(stored@),
            colon@ == seq![':'],
            i <= lines@.len(),
            custom_views(result@) == custom_of_lines(ls.take(i as int)),
        decreases lines@.len() - i,
    {
        let line = &lines[i];
        assert(ls[i as int] == line@);
        assert(ls.take(i + 1).drop_last() =~= ls.take(i as int));
        assert(ls.take(i + 1).last() == line@);
        match find_chars_from(line.as_slice(), 0, colon.as_slice()) {
            Some(index) => {
                assert(find_from(line@, 0, seq![':']) == Some(index as int));
                assert(index + 1 <= line@.len());
                let n = line.len();
                assert(index < n);
                let name = string_of(sub_chars(line.as_slice(), 0, index).as_slice());
                let value = string_of(sub_chars(line.as_slice(), index + 1, line.len()).as_slice());
                let ghost before = custom_views(result@);
                result.push(CustomHeader { id: i + 1, name, value });
                assert(line@.subrange(0, index as int) =~= line@.take(index as int));
                assert(line@.subrange(index + 1, line@.len() as int) =~= line@.skip(index + 1));
                assert(custom_views(result@) =~= before.push(
                    ((i + 1) as int, line@.take(index as int), line@.skip(index + 1)),
                ));
            },
            None => {
                assert(header_of_line(line@) is None);
            },
        }
        i = i + 1;
    }
    assert(ls.take(lines@.len() as int) =~= ls);
    result
}

/// The text the custom headers are kept as: `name:value` lines joined with
/// line feeds.
pub fn custom_headers_text(headers: &Vec<CustomHeader>) -> (r: String)
    ensures
        r@ == headers_text(custom_pairs(custom_views(headers@))),
{
    let ghost ps = custom_pairs(custom_views(headers@));
    let mut lines: Vec<Vec<char>> = Vec::new();
    let mut i: usize = 0;
    while i < headers.len()
        invariant
            ps == custom_pairs(custom_views(headers@)),
            i <= headers@.len(),
            views(lines@) == ps.take(i as int).map_values(|p: (Seq<char>, Seq<char>)| header_line(p)),
        decreases headers@.len() - i,
    {
        let h = &headers[i];
        let mut line: Vec<char> = Vec::new();
        extend_str(&mut line, h.name.as_str());
        line.push(':');
        extend_str(&mut line, h.value.as_str());
        assert(line@ =~= header_line((h.name@, h.value@)));
        let ghost before = views(lines@);
        lines.push(line);
        assert(views(lines@) =~= before.push(header_line((h.name@, h.value@))));
        assert(ps[i as int] == (h.name@, h.value@));
        assert(ps.take(i + 1).map_values(|p: (Seq<char>, Seq<char>)| header_line(p)) =~= ps.take(
            i as int,
        ).map_values(|p: (Seq<char>, Seq<char>)| header_line(p)).push(header_line((h.name@, h.value@))));
        i = i + 1;
    }
    assert(ps.take(headers@.len() as int) =~= ps);
    let sep: Vec<char> = vec!['\n'];
    assert(sep@ =~= seq!['\n']);
    let out = join_chars(&lines, sep.as_slice());
    string_of(out.as_slice())
}

/// Keeps the custom headers in the store.
pub fn save_custom_headers(store: &mut LocalStore, headers: &Vec<CustomHeader>)
    requires
        old(store).wf(),
    ensures
        final(store).wf(),
        final(store)@ == old(store)@.insert(custom_headers_key(), headers_text(custom_pairs(custom_views(headers@)))),
{
    proof {
        reveal_strlit("rc_custom_headers");
    }
    let text = custom_headers_text(headers);
    store.set_value("rc_custom_headers", text);
}

/// Some custom header has the name `val` (compared trimmed and in lower
/// case).
pub open spec fn custom_name_taken(hs: Seq<(int, Seq<char>, Seq<char>)>, val: Seq<char>) -> bool {
    exists|j: int| 0 <= j < hs.len() && compared_name((#[trigger] hs[j]).1) == val
}

/// The largest number of a list of custom headers, or 0.
pub open spec fn max_custom_id(hs: Seq<(int, Seq<char>, Seq<char>)>) -> int
    decreases hs.len(),
{
    if hs.len() == 0 {
        0
    } else {
        let m = max_custom_id(hs.drop_last());
        if hs.last().0 > m {
            hs.last().0
        } else {
            m
        }
    }
}

/// Adds a custom header, numbered one past the largest number: only when its
/// name (trimmed, lower-cased) is not blank, is not one of the base headers,
/// the value is not empty, and no custom header has that name already.
/// Whether it was added.
pub fn add_custom_header(headers: &mut Vec<CustomHeader>, name: &str, value: &str, is_base_header: bool) -> (r: bool)
    requires
        forall|k: int| 0 <= k < old(headers)@.len() ==> (#[trigger] old(headers)@[k]).id < usize::MAX,
    ensures
        r == (crate::text::trim(name@).len() > 0 && !is_base_header && value@.len() > 0 && !custom_name_taken(
            custom_views(old(headers)@),
            compared_name(name@),
        )),
        r ==> custom_views(final(headers)@) == custom_views(old(headers)@).push(
            (max_custom_id(custom_views(old(headers)@)) + 1, name@, value@),
        ),
        !r ==> final(headers)@ == old(headers)@,
{
    let val = compare_form(name);
    if val.as_str().is_empty() || is_base_header || value.is_empty() {
        return false;
    }
    let ghost hs = custom_views(headers@);
    let mut max: usize = 0;
    let mut i: usize = 0;
    while i < headers.len()
        invariant
            hs == custom_views(headers@),
            val@ == compared_name(name@),
            i <= headers@.len(),
            max == max_custom_id(hs.take(i as int)),
            max < usize::MAX,
            forall|k: int| 0 <= k < headers@.len() ==> (#[trigger] headers@[k]).id < usize::MAX,
            forall|j: int| 0 <= j < i ==> compared_name((#[trigger] hs[j]).1) != val@,
        decreases headers@.len() - i,
    {
        let other = compare_form(headers[i].name.as_str());
        assert(hs[i as int].1 == headers@[i as int].name@);
        if same_text(other.as_str(), val.as_str()) {
            assert(compared_name(hs[i as int].1) == val@);
            return false;
        }
        assert(hs.take(i + 1).drop_last() =~= hs.take(i as int));
        assert(hs.take(i + 1).last() == hs[i as int]);
        if headers[i].id > max {
            max = headers[i].id;
        }
        i = i + 1;
    }
    assert(hs.take(headers@.len() as int) =~= hs);
    let h = CustomHeader { id: max + 1, name: string_of(chars_of(name).as_slice()), value: string_of(chars_of(value).as_slice()) };
    headers.push(h);
    assert(custom_views(headers@) =~= hs.push((max + 1, name@, value@)));
    true
}

/// Removes the custom header numbered `id`.
pub fn remove_custom_header(headers: &mut Vec<CustomHeader>, id: usize)
    ensures
        custom_views(final(headers)@) == custom_views(old(headers)@).filter(|h: (int, Seq<char>, Seq<char>)| h.0 != id),
{
    let ghost start = custom_views(headers@);
    let mut kept: Vec<CustomHeader> = Vec::new();
    assert(start.take(0).filter(|h: (int, Seq<char>, Seq<char>)| h.0 != id) =~= Seq::<(int, Seq<char>, Seq<char>)>::empty()) by {
        reveal(Seq::filter);
    }
    let mut i: usize = 0;
    while i < headers.len()
        invariant
            start == custom_views(headers@),
            i <= headers@.len(),
            custom_views(kept@) == start.take(i as int).filter(|h: (int, Seq<char>, Seq<char>)| h.0 != id),
        decreases headers@.len() - i,
    {
        assert(start.take(i + 1).drop_last() =~= start.take(i as int));
        assert(start.take(i + 1).last() == start[i as int]);
        let ghost before = custom_views(kept@);
        if headers[i].id != id {
            let h = CustomHeader { id: headers[i].id, name: headers[i].name.clone(), value: headers[i].value.clone() };
            kept.push(h);
            assert(custom_views(kept@) =~= before.push(start[i as int]));
        }
        reveal(Seq::filter);
        assert(start.take(i + 1).filter(|h: (int, Seq<char>, Seq<char>)| h.0 != id) == if start[i as int].0 != id {
            start.take(i as int).filter(|h: (int, Seq<char>, Seq<char>)| h.0 != id).push(start[i as int])
        } else {
            start.take(i as int).filter(|h: (int, Seq<char>, Seq<char>)| h.0 != id)
        });
        i = i + 1;
    }
    assert(start.take(start.len() as int) =~= start);
    *headers = kept;
}

/// Every line of a list read back is numbered by its place.
proof fn lemma_custom_of_header_lines(ps: Seq<(Seq<char>, Seq<char>)>)
    requires
        forall|k: int| 0 <= k < ps.len() ==> free_of(#[trigger] ps[k].0, ':'),
    ensures
        custom_of_lines(ps.map_values(|p: (Seq<char>, Seq<char>)| header_line(p))) == Seq::new(
            ps.len(),
            |i: int| (i + 1, ps[i].0, ps[i].1),
        ),
    decreases ps.len(),
{
    let ls = ps.map_values(|p: (Seq<char>, Seq<char>)| header_line(p));
    if ps.len() > 0 {
        let init = ps.drop_last();
        assert forall|k: int| 0 <= k < init.len() implies free_of(#[trigger] init[k].0, ':') by {
            assert(init[k] == ps[k]);
        }
        lemma_custom_of_header_lines(init);
        assert(ls.drop_last() =~= init.map_values(|p: (Seq<char>, Seq<char>)| header_line(p)));
        lemma_header_of_line(ps.last());
        assert(custom_of_lines(ls) =~= Seq::new(ps.len(), |i: int| (i + 1, ps[i].0, ps[i].1)));
    } else {
        assert(custom_of_lines(ls) =~= Seq::new(ps.len(), |i: int| (i + 1, ps[i].0, ps[i].1)));
    }
}

/// Saving custom headers and reading them back gives the same names and
/// values, numbered 1, 2, ... in order, when no name holds `:` or a line
/// break and no value holds a line break or ends with a carriage return.
pub proof fn lemma_custom_headers_round_trip(ps: Seq<(Seq<char>, Seq<char>)>)
    requires
        forall|k: int|
            0 <= k < ps.len() ==> free_of(#[trigger] ps[k].0, ':') && free_of(ps[k].0, '\n') && free_of(ps[k].1, '\n')
                && !(ps[k].1.len() > 0 && ps[k].1.last() == '\r'),
    ensures
        custom_of_lines(lines_of(headers_text(ps))) == Seq::new(ps.len(), |i: int| (i + 1, ps[i].0, ps[i].1)),
{
    let ls = ps.map_values(|p: (Seq<char>, Seq<char>)| header_line(p));
    if ps.len() == 0 {
        assert(headers_text(ps) =~= Seq::<char>::empty());
        assert(lines_of(Seq::<char>::empty()) =~= Seq::<Seq<char>>::empty());
        assert(custom_of_lines(Seq::<Seq<char>>::empty()) =~= Seq::new(ps.len(), |i: int| (i + 1, ps[i].0, ps[i].1)));
    } else {
        assert forall|i: int| 0 <= i < ls.len() implies free_of(#[trigger] ls[i], '\n') by {
            let l = ls[i];
            assert forall|k: int| 0 <= k < l.len() implies l[k] != '\n' by {
                if k < ps[i].0.len() {
                    assert(l[k] == ps[i].0[k]);
                } else if k > ps[i].0.len() {
                    assert(l[k] == ps[i].1[k - ps[i].0.len() - 1]);
                }
            }
        }
        assert forall|i: int| 0 <= i < ls.len() implies !(#[trigger] ls[i].len() > 0 && ls[i].last() == '\r') by {
            let l = ls[i];
            if ps[i].1.len() > 0 {
                assert(l.last() == ps[i].1.last());
            } else {
                assert(l.last() == ':');
            }
        }
        assert(ls.last().len() > 0);
        lemma_lines_join(ls);
        lemma_custom_of_header_lines(ps);
    }
}

} // verus!
