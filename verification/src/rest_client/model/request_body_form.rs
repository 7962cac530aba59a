//! The name/value pairs of a form body, the JSON text they are stored as,
//! and the urlencoded text they are sent as.
use vstd::prelude::*;

use crate::rest_client::model::request_header::new_item_id;
use crate::rest_client::util::rest_client_utils::{
    collect_pairs, json_pairs_of, json_text_of, pair_views, pairs_from_json, pairs_to_json,
    pairs_to_urlencoded, collected, urlencoded_of, KeyValueVector,
};
use crate::local_store::{value_or, LocalStore};
use crate::rest_client::util::request_store::{field_key, field_name, request_stored_key, RequestFieldKind};
use crate::text::{chars_of, string_of};

verus! {

/// A name/value pair of a form body, with an id that tells it apart in the editor.
#[derive(Debug)]
pub struct RequestBodyFormValue {
    pub id: String,
    pub name: String,
    pub value: String,
}

impl View for RequestBodyFormValue {
    type V = (Seq<char>, Seq<char>, Seq<char>);

    open spec fn view(&self) -> (Seq<char>, Seq<char>, Seq<char>) {
        (self.id@, self.name@, self.value@)
    }
}

impl Clone for RequestBodyFormValue {
    fn clone(&self) -> (r: Self)
        ensures
            r@ == self@,
    {
        RequestBodyFormValue { id: self.id.clone(), name: self.name.clone(), value: self.value.clone() }
    }
}

impl RequestBodyFormValue {
    /// A form value with the given name and value and a fresh id.
    pub fn new(name: String, value: String) -> (r: Self)
        ensures
            r.name@ == name@,
            r.value@ == value@,
            r.id@.len() == 36,
    {
        Self { id: new_item_id(), name, value }
    }
}

/// The name/value pairs of a form body, in order.
#[derive(Debug)]
pub struct RequestBodyFormValues {
    inner: Vec<RequestBodyFormValue>,
}

/// The name/value pairs of a list of form values.
pub open spec fn pairs_of(hs: Seq<(Seq<char>, Seq<char>, Seq<char>)>) -> Seq<(Seq<char>, Seq<char>)> {
    hs.map_values(|h: (Seq<char>, Seq<char>, Seq<char>)| (h.1, h.2))
}

impl View for RequestBodyFormValues {
    type V = Seq<(Seq<char>, Seq<char>, Seq<char>)>;

    closed spec fn view(&self) -> Seq<(Seq<char>, Seq<char>, Seq<char>)> {
        self.inner@.map_values(|h: RequestBodyFormValue| h@)
    }
}

fn copy_values(v: &Vec<RequestBodyFormValue>) -> (r: Vec<RequestBodyFormValue>)
    ensures
        r@.map_values(|h: RequestBodyFormValue| h@) == v@.map_values(|h: RequestBodyFormValue| h@),
{
    let mut r: Vec<RequestBodyFormValue> = Vec::new();
    let mut i: usize = 0;
    while i < v.len()
        invariant
            i <= v@.len(),
            r@.map_values(|h: RequestBodyFormValue| h@) == v@.take(i as int).map_values(
                |h: RequestBodyFormValue| h@,
            ),
        decreases v@.len() - i,
    {
        r.push(v[i].clone());
        assert(v@.take(i + 1).map_values(|h: RequestBodyFormValue| h@) =~= v@.take(i as int).map_values(
            |h: RequestBodyFormValue| h@,
        ).push(v@[i as int]@));
        assert(r@.map_values(|h: RequestBodyFormValue| h@) =~= v@.take(i + 1).map_values(
            |h: RequestBodyFormValue| h@,
        ));
        i = i + 1;
    }
    assert(v@.take(v@.len() as int) =~= v@);
    r
}

impl Clone for RequestBodyFormValues {
    fn clone(&self) -> (r: Self)
        ensures
            r@ == self@,
    {
        RequestBodyFormValues { inner: copy_values(&self.inner) }
    }
}

impl RequestBodyFormValues {
    /// No form values.
    pub fn new() -> (r: Self)
        ensures
            r@ == Seq::<(Seq<char>, Seq<char>, Seq<char>)>::empty(),
    {
        let r = Self { inner: Vec::new() };
        assert(r@ =~= Seq::<(Seq<char>, Seq<char>, Seq<char>)>::empty());
        r
    }

    /// Appends a form value.
    pub fn push(&mut self, header: RequestBodyFormValue)
        ensures
            final(self)@ == old(self)@.push(header@),
    {
        self.inner.push(header);
        assert(self@ =~= old(self)@.push(header@));
    }

    /// The number of form values.
    pub fn len(&self) -> (r: usize)
        ensures
            r == self@.len(),
    {
        self.inner.len()
    }

    /// The form values, in order.
    pub fn iter(&self) -> (r: &[RequestBodyFormValue])
        ensures
            r@.map_values(|h: RequestBodyFormValue| h@) == self@,
    {
        self.inner.as_slice()
    }

    /// Removes every form value with the given id.
    pub fn remove_by_id(&mut self, id: String)
        ensures
            final(self)@ == old(self)@.filter(|h: (Seq<char>, Seq<char>, Seq<char>)| h.0 != id@),
    {
        let ghost pred = |h: (Seq<char>, Seq<char>, Seq<char>)| h.0 != id@;
        let ghost ov = self@;
        let mut kept: Vec<RequestBodyFormValue> = Vec::new();
        let mut i: usize = 0;
        while i < self.inner.len()
            invariant
                i <= self@.len(),
                ov == self@,
                pred == (|h: (Seq<char>, Seq<char>, Seq<char>)| h.0 != id@),
                kept@.map_values(|h: RequestBodyFormValue| h@) == ov.take(i as int).filter(pred),
            decreases self@.len() - i,
        {
            let h = &self.inner[i];
            assert(ov.take(i + 1).drop_last() =~= ov.take(i as int));
            assert(ov.take(i + 1).last() == h@);
            reveal_with_fuel(Seq::filter, 1);
            assert(ov.take(i + 1).filter(pred) == (if pred(h@) {
                ov.take(i as int).filter(pred).push(h@)
            } else {
                ov.take(i as int).filter(pred)
            }));
            if !crate::text::same_text(h.id.as_str(), id.as_str()) {
                let ghost before = kept@.map_values(|h: RequestBodyFormValue| h@);
                assert(pred(h@));
                kept.push(h.clone());
                assert(kept@.map_values(|h: RequestBodyFormValue| h@) =~= before.push(h@));
            } else {
                assert(!pred(h@));
            }
            assert(kept@.map_values(|h: RequestBodyFormValue| h@) == ov.take(i + 1).filter(pred));
            i = i + 1;
        }
        assert(ov.take(ov.len() as int) =~= ov);
        self.inner = kept;
    }

    /// A copy of the form values, in order.
    pub fn vec_owned(&self) -> (r: Vec<RequestBodyFormValue>)
        ensures
            r@.map_values(|h: RequestBodyFormValue| h@) == self@,
    {
        copy_values(&self.inner)
    }

    /// Sets the name of every form value with the given id.
    pub fn set_name(&mut self, id: &str, name: &str)
        ensures
            final(self)@.len() == old(self)@.len(),
            forall|k: int|
                0 <= k < old(self)@.len() ==> (#[trigger] final(self)@[k]) == (if old(self)@[k].0
                    == id@ {
                    (old(self)@[k].0, name@, old(self)@[k].2)
                } else {
                    old(self)@[k]
                }),
    {
        let mut i: usize = 0;
        while i < self.inner.len()
            invariant
                self@.len() == old(self)@.len(),
                i <= self@.len(),
                forall|k: int|
                    0 <= k < i ==> (#[trigger] self@[k]) == (if old(self)@[k].0 == id@ {
                        (old(self)@[k].0, name@, old(self)@[k].2)
                    } else {
                        old(self)@[k]
                    }),
                forall|k: int| i <= k < self@.len() ==> (#[trigger] self@[k]) == old(self)@[k],
            decreases self@.len() - i,
        {
            if crate::text::same_text(self.inner[i].id.as_str(), id) {
                let h = RequestBodyFormValue {
                    id: self.inner[i].id.clone(),
                    name: string_of(chars_of(name).as_slice()),
                    value: self.inner[i].value.clone(),
                };
                let ghost before = self@;
                assert(h@.0 == before[i as int].0);
                self.inner.set(i, h);
                assert(self@ =~= before.update(i as int, h@));
                assert(before[i as int] == old(self)@[i as int]);
            }
            i = i + 1;
        }
    }

    /// Sets the value of every form value with the given id.
    pub fn set_value(&mut self, id: &str, value: &str)
        ensures
            final(self)@.len() == old(self)@.len(),
            forall|k: int|
                0 <= k < old(self)@.len() ==> (#[trigger] final(self)@[k]) == (if old(self)@[k].0
                    == id@ {
                    (old(self)@[k].0, old(self)@[k].1, value@)
                } else {
                    old(self)@[k]
                }),
    {
        let mut i: usize = 0;
        while i < self.inner.len()
            invariant
                self@.len() == old(self)@.len(),
                i <= self@.len(),
                forall|k: int|
                    0 <= k < i ==> (#[trigger] self@[k]) == (if old(self)@[k].0 == id@ {
                        (old(self)@[k].0, old(self)@[k].1, value@)
                    } else {
                        old(self)@[k]
                    }),
                forall|k: int| i <= k < self@.len() ==> (#[trigger] self@[k]) == old(self)@[k],
            decreases self@.len() - i,
        {
            if crate::text::same_text(self.inner[i].id.as_str(), id) {
                let h = RequestBodyFormValue {
                    id: self.inner[i].id.clone(),
                    name: self.inner[i].name.clone(),
                    value: string_of(chars_of(value).as_slice()),
                };
                let ghost before = self@;
                assert(h@.0 == before[i as int].0);
                self.inner.set(i, h);
                assert(self@ =~= before.update(i as int, h@));
                assert(before[i as int] == old(self)@[i as int]);
            }
            i = i + 1;
        }
    }

    /// The form values of a list, in order.
    pub fn from_vec(values: Vec<RequestBodyFormValue>) -> (r: Self)
        ensures
            r@ == values@.map_values(|h: RequestBodyFormValue| h@),
    {
        RequestBodyFormValues { inner: values }
    }

    /// The name/value pairs, in order.
    pub fn key_values(&self) -> (r: KeyValueVector)
        ensures
            pair_views(r@) == pairs_of(self@),
    {
        let mut list: KeyValueVector = Vec::new();
        let mut i: usize = 0;
        while i < self.inner.len()
            invariant
                i <= self@.len(),
                pair_views(list@) == pairs_of(self@).take(i as int),
            decreases self@.len() - i,
        {
            let ghost before = pair_views(list@);
            let n = self.inner[i].name.clone();
            let v = self.inner[i].value.clone();
            list.push((n, v));
            assert(pair_views(list@) =~= before.push((n@, v@)));
            assert(pairs_of(self@)[i as int] == (n@, v@));
            assert(pairs_of(self@).take(i + 1) =~= pairs_of(self@).take(i as int).push((n@, v@)));
            i = i + 1;
        }
        assert(pairs_of(self@).take(self@.len() as int) =~= pairs_of(self@));
        list
    }

    /// The form values that a stored text stands for, each with a fresh id:
    /// none for empty text or text that does not read as JSON pairs.
    pub fn from_stored_value(stored_value: &str) -> (r: Self)
        ensures
            pairs_of(r@) == (if stored_value@.len() == 0 {
                Seq::empty()
            } else {
                match json_pairs_of(stored_value@) {
                    Some(ps) => ps,
                    None => Seq::empty(),
                }
            }),
            forall|ps: Seq<(Seq<char>, Seq<char>)>|
                stored_value@ == #[trigger] json_text_of(ps) && stored_value@.len() > 0 ==> pairs_of(
                    r@,
                ) == ps,
    {
        let mut result = RequestBodyFormValues::new();
        if stored_value.is_empty() {
            assert(pairs_of(result@) =~= Seq::<(Seq<char>, Seq<char>)>::empty());
            return result;
        }
        match pairs_from_json(stored_value) {
            Some(values) => {
                let ghost pv = pair_views(values@);
                let mut i: usize = 0;
                while i < values.len()
                    invariant
                        pv == pair_views(values@),
                        i <= values@.len(),
                        pairs_of(result@) == pv.take(i as int),
                    decreases values@.len() - i,
                {
                    let ghost before = result@;
                    let v = RequestBodyFormValue::new(values[i].0.clone(), values[i].1.clone());
                    result.push(v);
                    assert(pairs_of(result@) =~= pairs_of(before).push((v.name@, v.value@)));
                    assert(pv[i as int] == (v.name@, v.value@));
                    assert(pv.take(i + 1) =~= pv.take(i as int).push((v.name@, v.value@)));
                    i = i + 1;
                }
                assert(pv.take(values@.len() as int) =~= pv);
            },
            None => {
                assert(pairs_of(result@) =~= Seq::<(Seq<char>, Seq<char>)>::empty());
            },
        }
        result
    }

    /// The form values as `application/x-www-form-urlencoded` text: collected
    /// into a map from name to value first (each name once, with its last
    /// value), then encoded; names in order of first occurrence.
    pub fn to_urlencoded_string(&self) -> (r: Result<String, String>)
        ensures
            (match r {
                Ok(s) => Ok(s@),
                Err(m) => Err(m@),
            }) == urlencoded_of(collected(pairs_of(self@))),
    {
        let list = self.key_values();
        let map = collect_pairs(&list);
        pairs_to_urlencoded(&map)
    }

    /// The JSON text the form values are stored as.
    pub fn to_json(&self) -> (r: String)
        ensures
            r@ == json_text_of(pairs_of(self@)),
    {
        let list = self.key_values();
        pairs_to_json(&list)
    }

    /// The text the form values are stored as: their JSON text.
    pub fn to_string(&self) -> (r: String)
        ensures
            r@ == json_text_of(pairs_of(self@)),
    {
        self.to_json()
    }
}

/// The form values a stored text stands for: none for empty text or text
/// that does not read as JSON pairs.
pub open spec fn stored_form_pairs(value: Seq<char>) -> Seq<(Seq<char>, Seq<char>)> {
    if value.len() == 0 {
        Seq::empty()
    } else {
        match json_pairs_of(value) {
            Some(ps) => ps,
            None => Seq::empty(),
        }
    }
}

impl RequestBodyFormValues {
    /// The form values the store keeps for request `request_id` of
    /// `project_id`, each with a fresh id.
    pub fn read_from_store(store: &LocalStore, project_id: &str, request_id: i32) -> (r: Self)
        requires
            store.wf(),
        ensures
            pairs_of(r@) == stored_form_pairs(
                value_or(store@, request_stored_key(project_id@, request_id as int, field_name(RequestFieldKind::BodyFormencoded)), Seq::empty()),
            ),
    {
        let key = field_key(RequestFieldKind::BodyFormencoded, project_id, request_id);
        let stored = store.get_value(key.as_str(), String::new());
        RequestBodyFormValues::from_stored_value(stored.as_str())
    }
}

} // verus!
