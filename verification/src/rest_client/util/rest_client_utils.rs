//! Encodings of form values: JSON (as they are stored) and
//! `application/x-www-form-urlencoded` (as they are sent).
use vstd::prelude::*;

pub use crate::text::pair_views;
use crate::rest_client::model::request_body_form::{
    pairs_of, RequestBodyFormValue, RequestBodyFormValues,
};

verus! {

/// Name/value pairs, in order.
pub type KeyValueVector = Vec<(String, String)>;


/// The text `serde_json::to_string` writes for a list of string pairs.
pub uninterp spec fn json_text_of(pairs: Seq<(Seq<char>, Seq<char>)>) -> Seq<char>;

/// The pairs `serde_json::from_str` reads from a text, if it reads any.
pub uninterp spec fn json_pairs_of(text: Seq<char>) -> Option<Seq<(Seq<char>, Seq<char>)>>;

/// The text `serde_urlencoded::to_string` writes for a list of string pairs,
/// or its error message.
pub uninterp spec fn urlencoded_of(pairs: Seq<(Seq<char>, Seq<char>)>) -> Result<Seq<char>, Seq<char>>;

/// `serde_json::to_string` for a list of string pairs (a JSON array of
/// two-element string arrays). Writing such a list cannot fail, so the result
/// is unwrapped; the text itself is only named.
#[verifier::external_body]
pub(crate) fn pairs_to_json(pairs: &KeyValueVector) -> (r: String)
    ensures
        r@ == json_text_of(pair_views(pairs@)),
{
    serde_json::to_string(pairs).unwrap()
}

/// `serde_json::from_str::<Vec<(String, String)>>`: the pairs read, or `None`
/// where it fails. The contract names the result, and states that a text that
/// `serde_json::to_string` wrote for pairs reads back as those pairs.
#[verifier::external_body]
pub(crate) fn pairs_from_json(text: &str) -> (r: Option<KeyValueVector>)
    ensures
        (match r {
            Some(v) => Some(pair_views(v@)),
            None => None,
        }) == json_pairs_of(text@),
        forall|ps: Seq<(Seq<char>, Seq<char>)>|
            text@ == #[trigger] json_text_of(ps) ==> r.is_some() && pair_views(r.unwrap()@) == ps,
{
    serde_json::from_str::<KeyValueVector>(text).ok()
}

/// `serde_urlencoded::to_string` for a list of string pairs, in order; an
/// error is handed back as its message.
#[verifier::external_body]
pub(crate) fn pairs_to_urlencoded(pairs: &KeyValueVector) -> (r: Result<String, String>)
    ensures
        (match r {
            Ok(s) => Ok(s@),
            Err(m) => Err(m@),
        }) == urlencoded_of(pair_views(pairs@)),
{
    match serde_urlencoded::to_string(pairs) {
        Ok(s) => Ok(s),
        Err(e) => Err(e.to_string()),
    }
}

/// The position of the first pair named `name`, if any.
pub open spec fn index_of_name(ps: Seq<(Seq<char>, Seq<char>)>, name: Seq<char>) -> Option<int>
    decreases ps.len(),
{
    if ps.len() == 0 {
        None
    } else if ps[0].0 == name {
        Some(0)
    } else {
        match index_of_name(ps.drop_first(), name) {
            Some(k) => Some(k + 1),
            None => None,
        }
    }
}

/// A position moved on by `k`.
pub open spec fn shifted(o: Option<int>, k: int) -> Option<int> {
    match o {
        Some(j) => Some(j + k),
        None => None,
    }
}

/// A map from name to value that `p` is inserted into: a name already there
/// gets the new value in its place, a new name goes last.
pub open spec fn upsert(acc: Seq<(Seq<char>, Seq<char>)>, p: (Seq<char>, Seq<char>)) -> Seq<(Seq<char>, Seq<char>)> {
    match index_of_name(acc, p.0) {
        Some(k) => acc.update(k, p),
        None => acc.push(p),
    }
}

/// The map from name to value that collecting the pairs in order builds: each
/// name once, with the value of its last pair, names in the order in which
/// they first come.
pub open spec fn collected(ps: Seq<(Seq<char>, Seq<char>)>) -> Seq<(Seq<char>, Seq<char>)>
    decreases ps.len(),
{
    if ps.len() == 0 {
        Seq::empty()
    } else {
        upsert(collected(ps.drop_last()), ps.last())
    }
}

/// Whether no name occurs twice.
pub open spec fn names_distinct(ps: Seq<(Seq<char>, Seq<char>)>) -> bool {
    forall|i: int, j: int| 0 <= i < j < ps.len() ==> ps[i].0 != ps[j].0
}

proof fn lemma_index_of_name(ps: Seq<(Seq<char>, Seq<char>)>, name: Seq<char>)
    ensures
        index_of_name(ps, name) matches Some(k) ==> 0 <= k < ps.len() && ps[k].0 == name
            && forall|j: int| 0 <= j < k ==> ps[j].0 != name,
        index_of_name(ps, name) is None ==> forall|j: int| 0 <= j < ps.len() ==> ps[j].0 != name,
    decreases ps.len(),
{
    if ps.len() > 0 {
        lemma_index_of_name(ps.drop_first(), name);
        assert forall|j: int| 1 <= j < ps.len() implies ps[j] == ps.drop_first()[j - 1] by {}
    }
}

/// Collecting pairs leaves no name twice.
pub proof fn lemma_collected_distinct(ps: Seq<(Seq<char>, Seq<char>)>)
    ensures
        names_distinct(collected(ps)),
    decreases ps.len(),
{
    if ps.len() > 0 {
        let acc = collected(ps.drop_last());
        lemma_collected_distinct(ps.drop_last());
        lemma_index_of_name(acc, ps.last().0);
    }
}

/// The position of the first pair named `name`, if any.
fn position_of_name(acc: &KeyValueVector, name: &str) -> (r: Option<usize>)
    ensures
        (match r {
            Some(k) => Some(k as int),
            None => None,
        }) == index_of_name(pair_views(acc@), name@),
{
    let ghost av = pair_views(acc@);
    let mut k: usize = 0;
    assert(av.skip(0) =~= av);
    while k < acc.len()
        invariant
            av == pair_views(acc@),
            k <= acc@.len(),
            index_of_name(av, name@) == shifted(index_of_name(av.skip(k as int), name@), k as int),
        decreases acc@.len() - k,
    {
        let ghost rest = av.skip(k as int);
        assert(rest[0] == av[k as int]);
        assert(rest.drop_first() =~= av.skip(k + 1));
        if crate::text::same_text(acc[k].0.as_str(), name) {
            return Some(k);
        }
        k = k + 1;
    }
    assert(av.skip(acc@.len() as int) =~= Seq::<(Seq<char>, Seq<char>)>::empty());
    None
}

/// The pairs collected into a map from name to value, in order of first
/// occurrence.
pub fn collect_pairs(ps: &KeyValueVector) -> (r: KeyValueVector)
    ensures
        pair_views(r@) == collected(pair_views(ps@)),
{
    let ghost pv = pair_views(ps@);
    let mut acc: KeyValueVector = Vec::new();
    let mut i: usize = 0;
    while i < ps.len()
        invariant
            pv == pair_views(ps@),
            i <= ps@.len(),
            pair_views(acc@) == collected(pv.take(i as int)),
        decreases ps@.len() - i,
    {
        let name = ps[i].0.clone();
        let value = ps[i].1.clone();
        assert(pv.take(i + 1).drop_last() =~= pv.take(i as int));
        assert(pv.take(i + 1).last() == (name@, value@));
        let ghost av = pair_views(acc@);
        let pos = position_of_name(&acc, name.as_str());
        proof {
            lemma_index_of_name(av, name@);
        }
        match pos {
            Some(k) => {
                acc.set(k, (name, value));
                assert(pair_views(acc@) =~= av.update(k as int, (name@, value@)));
            },
            None => {
                acc.push((name, value));
                assert(pair_views(acc@) =~= av.push((name@, value@)));
            },
        }
        i = i + 1;
    }
    assert(pv.take(ps@.len() as int) =~= pv);
    acc
}

/// The form values as `application/x-www-form-urlencoded` text: collected
/// into a map from name to value first (each name once, with its last value),
/// then encoded, the names in the order in which they first occur.
pub fn formencoded_to_str(form_values: Vec<RequestBodyFormValue>) -> (r: Result<String, String>)
    ensures
        (match r {
            Ok(s) => Ok(s@),
            Err(m) => Err(m@),
        }) == urlencoded_of(
            collected(form_values@.map_values(|v: RequestBodyFormValue| (v.name@, v.value@))),
        ),
{
    let ghost fv = form_values@;
    let values = RequestBodyFormValues::from_vec(form_values);
    assert(pairs_of(values@) =~= fv.map_values(|v: RequestBodyFormValue| (v.name@, v.value@)));
    values.to_urlencoded_string()
}

/// The form values as the JSON text they are stored as.
pub fn body_form_to_string(form_values: &[RequestBodyFormValue]) -> (r: String)
    ensures
        r@ == json_text_of(form_values@.map_values(|v: RequestBodyFormValue| (v.name@, v.value@))),
{
    let mut list: KeyValueVector = Vec::new();
    let mut i: usize = 0;
    while i < form_values.len()
        invariant
            i <= form_values@.len(),
            pair_views(list@) == form_values@.take(i as int).map_values(
                |v: RequestBodyFormValue| (v.name@, v.value@),
            ),
        decreases form_values@.len() - i,
    {
        let ghost before = pair_views(list@);
        let n = form_values[i].name.clone();
        let v = form_values[i].value.clone();
        list.push((n, v));
        assert(pair_views(list@) =~= before.push((n@, v@)));
        assert(form_values@.take(i + 1).map_values(|v: RequestBodyFormValue| (v.name@, v.value@))
            =~= form_values@.take(i as int).map_values(
            |v: RequestBodyFormValue| (v.name@, v.value@),
        ).push((n@, v@)));
        i = i + 1;
    }
    assert(form_values@.take(form_values@.len() as int) =~= form_values@);
    pairs_to_json(&list)
}

} // verus!
