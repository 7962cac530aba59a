//! The browser's local store as the pages see it: a map from string keys to
//! string values, read with a default, written and deleted key by key.
use vstd::prelude::*;

use crate::text::{chars_of, clone_pairs, pair_views, same_text, string_of};

verus! {

/// The value under `key`, or `default` when nothing is stored there.
pub open spec fn value_or(m: Map<Seq<char>, Seq<char>>, key: Seq<char>, default: Seq<char>) -> Seq<char> {
    if m.dom().contains(key) {
        m[key]
    } else {
        default
    }
}

/// The map that a list of key/value pairs describes, a later pair for a key
/// replacing an earlier one.
pub open spec fn map_of_pairs(ps: Seq<(Seq<char>, Seq<char>)>) -> Map<Seq<char>, Seq<char>>
    decreases ps.len(),
{
    if ps.len() == 0 {
        Map::empty()
    } else {
        map_of_pairs(ps.drop_last()).insert(ps.last().0, ps.last().1)
    }
}


/// No key occurs twice in the list.
pub open spec fn keys_distinct(ps: Seq<(Seq<char>, Seq<char>)>) -> bool {
    forall|a: int, b: int| 0 <= a < b < ps.len() ==> (#[trigger] ps[a]).0 != (#[trigger] ps[b]).0
}

proof fn lemma_map_of_pairs_dom(ps: Seq<(Seq<char>, Seq<char>)>, k: Seq<char>)
    ensures
        map_of_pairs(ps).dom().contains(k) <==> exists|i: int| 0 <= i < ps.len() && (#[trigger] ps[i]).0 == k,
    decreases ps.len(),
{
    if ps.len() > 0 {
        let init = ps.drop_last();
        lemma_map_of_pairs_dom(init, k);
        if map_of_pairs(init).dom().contains(k) {
            let i = choose|i: int| 0 <= i < init.len() && (#[trigger] init[i]).0 == k;
            assert(ps[i] == init[i]);
        }
        if exists|i: int| 0 <= i < ps.len() && (#[trigger] ps[i]).0 == k {
            let i = choose|i: int| 0 <= i < ps.len() && (#[trigger] ps[i]).0 == k;
            if i < ps.len() - 1 {
                assert(init[i] == ps[i]);
            }
        }
    }
}

proof fn lemma_map_of_pairs_at(ps: Seq<(Seq<char>, Seq<char>)>, i: int)
    requires
        keys_distinct(ps),
        0 <= i < ps.len(),
    ensures
        map_of_pairs(ps).dom().contains(ps[i].0),
        map_of_pairs(ps)[ps[i].0] == ps[i].1,
    decreases ps.len(),
{
    let init = ps.drop_last();
    if i < ps.len() - 1 {
        assert(init[i] == ps[i]);
        assert(keys_distinct(init)) by {
            assert forall|a: int, b: int| 0 <= a < b < init.len() implies (#[trigger] init[a]).0
                != (#[trigger] init[b]).0 by {
                assert(init[a] == ps[a] && init[b] == ps[b]);
            }
        }
        lemma_map_of_pairs_at(init, i);
        assert(ps[i].0 != ps[ps.len() - 1].0);
    }
}

proof fn lemma_distinct_init(ps: Seq<(Seq<char>, Seq<char>)>)
    requires
        keys_distinct(ps),
        ps.len() > 0,
    ensures
        keys_distinct(ps.drop_last()),
        !map_of_pairs(ps.drop_last()).dom().contains(ps.last().0),
{
    let init = ps.drop_last();
    assert forall|a: int, b: int| 0 <= a < b < init.len() implies (#[trigger] init[a]).0
        != (#[trigger] init[b]).0 by {
        assert(init[a] == ps[a] && init[b] == ps[b]);
    }
    lemma_map_of_pairs_dom(init, ps.last().0);
    if map_of_pairs(init).dom().contains(ps.last().0) {
        let i = choose|i: int| 0 <= i < init.len() && (#[trigger] init[i]).0 == ps.last().0;
        assert(init[i] == ps[i]);
        assert(ps[i].0 != ps[ps.len() - 1].0);
    }
}

proof fn lemma_map_of_pairs_update(ps: Seq<(Seq<char>, Seq<char>)>, i: int, v: Seq<char>)
    requires
        keys_distinct(ps),
        0 <= i < ps.len(),
    ensures
        keys_distinct(ps.update(i, (ps[i].0, v))),
        map_of_pairs(ps.update(i, (ps[i].0, v))) == map_of_pairs(ps).insert(ps[i].0, v),
    decreases ps.len(),
{
    let k = ps[i].0;
    let up = ps.update(i, (k, v));
    let init = ps.drop_last();
    assert forall|a: int, b: int| 0 <= a < b < up.len() implies (#[trigger] up[a]).0 != (#[trigger] up[b]).0 by {
        assert(up[a].0 == ps[a].0 && up[b].0 == ps[b].0);
    }
    lemma_distinct_init(ps);
    if i == ps.len() - 1 {
        assert(up.drop_last() =~= init);
        assert(map_of_pairs(up) =~= map_of_pairs(ps).insert(k, v));
    } else {
        assert(up.drop_last() =~= init.update(i, (k, v)));
        assert(init[i] == ps[i]);
        lemma_map_of_pairs_update(init, i, v);
        assert(ps.last().0 != k);
        assert(map_of_pairs(up) =~= map_of_pairs(ps).insert(k, v));
    }
}

proof fn lemma_map_of_pairs_remove(ps: Seq<(Seq<char>, Seq<char>)>, i: int)
    requires
        keys_distinct(ps),
        0 <= i < ps.len(),
    ensures
        keys_distinct(ps.remove(i)),
        map_of_pairs(ps.remove(i)) == map_of_pairs(ps).remove(ps[i].0),
    decreases ps.len(),
{
    let k = ps[i].0;
    let rm = ps.remove(i);
    let init = ps.drop_last();
    assert forall|a: int, b: int| 0 <= a < b < rm.len() implies (#[trigger] rm[a]).0 != (#[trigger] rm[b]).0 by {
        let a2 = if a < i { a } else { a + 1 };
        let b2 = if b < i { b } else { b + 1 };
        assert(rm[a] == ps[a2] && rm[b] == ps[b2]);
    }
    lemma_distinct_init(ps);
    if i == ps.len() - 1 {
        assert(rm =~= init);
        assert(map_of_pairs(rm) =~= map_of_pairs(ps).remove(k));
    } else {
        assert(rm.drop_last() =~= init.remove(i));
        assert(rm.last() == ps.last());
        assert(init[i] == ps[i]);
        lemma_map_of_pairs_remove(init, i);
        assert(ps.last().0 != k);
        assert(map_of_pairs(rm) =~= map_of_pairs(ps).remove(k));
    }
}

proof fn lemma_map_of_pairs_absent(ps: Seq<(Seq<char>, Seq<char>)>, k: Seq<char>)
    requires
        forall|i: int| 0 <= i < ps.len() ==> (#[trigger] ps[i]).0 != k,
    ensures
        !map_of_pairs(ps).dom().contains(k),
{
    lemma_map_of_pairs_dom(ps, k);
}

/// The keys named in a list of strings.
pub open spec fn key_set(keys: Seq<String>) -> Set<Seq<char>> {
    Set::new(|k: Seq<char>| exists|i: int| 0 <= i < keys.len() && (#[trigger] keys[i])@ == k)
}

/// The store after copying, pair by pair and in order, the value under the
/// first key of each pair (or the empty text when none is stored) to the
/// second key.
pub open spec fn copied(m: Map<Seq<char>, Seq<char>>, pairs: Seq<(Seq<char>, Seq<char>)>) -> Map<Seq<char>, Seq<char>>
    decreases pairs.len(),
{
    if pairs.len() == 0 {
        m
    } else {
        let before = copied(m, pairs.drop_last());
        before.insert(pairs.last().1, value_or(before, pairs.last().0, Seq::empty()))
    }
}

/// Copying pairs whose destinations are never read leaves each destination
/// with its source's value (the empty text when none was stored), and every
/// other key as it was.
pub proof fn lemma_copied_disjoint(m: Map<Seq<char>, Seq<char>>, pairs: Seq<(Seq<char>, Seq<char>)>)
    requires
        forall|a: int, b: int| 0 <= a < pairs.len() && 0 <= b < pairs.len() ==> (#[trigger] pairs[a]).0 != (#[trigger] pairs[b]).1,
    ensures
        forall|i: int|
            0 <= i < pairs.len() ==> copied(m, pairs).dom().contains((#[trigger] pairs[i]).1)
                && copied(m, pairs)[pairs[i].1] == value_or(m, pairs[i].0, Seq::empty())
                || exists|j: int| i < j < pairs.len() && pairs[j].1 == pairs[i].1,
        forall|k: Seq<char>|
            (forall|i: int| 0 <= i < pairs.len() ==> (#[trigger] pairs[i]).1 != k) ==> value_or(
                copied(m, pairs),
                k,
                Seq::empty(),
            ) == value_or(m, k, Seq::empty()) && (copied(m, pairs).dom().contains(k) <==> m.dom().contains(k)),
    decreases pairs.len(),
{
    if pairs.len() > 0 {
        let init = pairs.drop_last();
        assert forall|a: int, b: int| 0 <= a < init.len() && 0 <= b < init.len() implies (#[trigger] init[a]).0
            != (#[trigger] init[b]).1 by {
            assert(init[a] == pairs[a] && init[b] == pairs[b]);
        }
        lemma_copied_disjoint(m, init);
        let n = pairs.len() - 1;
        let last = pairs[n];
        assert(last == pairs.last());
        assert forall|k: Seq<char>| (forall|i: int| 0 <= i < pairs.len() ==> (#[trigger] pairs[i]).1 != k) implies value_or(
            copied(m, pairs),
            k,
            Seq::empty(),
        ) == value_or(m, k, Seq::empty()) && (copied(m, pairs).dom().contains(k) <==> m.dom().contains(k)) by {
            assert forall|i: int| 0 <= i < init.len() implies (#[trigger] init[i]).1 != k by {
                assert(init[i] == pairs[i]);
                assert(pairs[i].1 != k);
            }
            assert(pairs[n].1 != k);
        }
        // the source of the last pair is no destination, so it still holds its first value
        assert forall|i: int| 0 <= i < init.len() implies (#[trigger] init[i]).1 != last.0 by {
            assert(init[i] == pairs[i]);
            assert(pairs[n].0 != pairs[i].1);
        }
        assert(pairs[n].0 != pairs[n].1);
        assert forall|i: int|
            0 <= i < pairs.len() implies copied(m, pairs).dom().contains((#[trigger] pairs[i]).1)
                && copied(m, pairs)[pairs[i].1] == value_or(m, pairs[i].0, Seq::empty())
                || exists|j: int| i < j < pairs.len() && pairs[j].1 == pairs[i].1 by {
            if i < n {
                assert(init[i] == pairs[i]);
                if pairs[i].1 == last.1 {
                    assert(pairs[n].1 == pairs[i].1);
                } else {
                    if exists|j: int| i < j < init.len() && init[j].1 == init[i].1 {
                        let j = choose|j: int| i < j < init.len() && init[j].1 == init[i].1;
                        assert(pairs[j] == init[j]);
                    }
                }
            }
        }
    }
}

/// A snapshot of the browser's local store: string values under string keys.
pub struct LocalStore {
    entries: Vec<(String, String)>,
}

impl View for LocalStore {
    type V = Map<Seq<char>, Seq<char>>;

    closed spec fn view(&self) -> Map<Seq<char>, Seq<char>> {
        map_of_pairs(pair_views(self.entries@))
    }
}

impl LocalStore {
    /// Each key is held once.
    pub closed spec fn wf(&self) -> bool {
        keys_distinct(pair_views(self.entries@))
    }

    /// An empty store.
    pub fn new() -> (r: LocalStore)
        ensures
            r.wf(),
            r@ == Map::<Seq<char>, Seq<char>>::empty(),
    {
        let r = LocalStore { entries: Vec::new() };
        assert(pair_views(r.entries@) =~= Seq::<(Seq<char>, Seq<char>)>::empty());
        r
    }

    /// The store that holds the given pairs, a later pair for a key replacing
    /// an earlier one.
    pub fn from_entries(items: Vec<(String, String)>) -> (r: LocalStore)
        ensures
            r.wf(),
            r@ == map_of_pairs(pair_views(items@)),
    {
        let mut r = LocalStore::new();
        let mut i: usize = 0;
        while i < items.len()
            invariant
                i <= items@.len(),
                r.wf(),
                r@ == map_of_pairs(pair_views(items@.take(i as int))),
            decreases items@.len() - i,
        {
            let key = items[i].0.as_str();
            let value = items[i].1.clone();
            r.set_value(key, value);
            assert(pair_views(items@.take(i + 1)).drop_last() =~= pair_views(items@.take(i as int)));
            i = i + 1;
        }
        assert(items@.take(items@.len() as int) =~= items@);
        r
    }

    /// The stored pairs, each key once.
    pub fn entries(&self) -> (r: Vec<(String, String)>)
        requires
            self.wf(),
        ensures
            keys_distinct(pair_views(r@)),
            map_of_pairs(pair_views(r@)) == self@,
    {
        clone_pairs(&self.entries)
    }

    /// The position of `key` among the entries, if it is stored.
    fn find(&self, key: &str) -> (r: Option<usize>)
        requires
            self.wf(),
        ensures
            r matches Some(i) ==> i < self.entries@.len() && self.entries@[i as int].0@ == key@,
            r is None ==> !self@.dom().contains(key@),
    {
        let mut i: usize = 0;
        while i < self.entries.len()
            invariant
                i <= self.entries@.len(),
                forall|j: int| 0 <= j < i ==> (#[trigger] self.entries@[j]).0@ != key@,
            decreases self.entries@.len() - i,
        {
            if same_text(self.entries[i].0.as_str(), key) {
                return Some(i);
            }
            i = i + 1;
        }
        proof {
            let ps = pair_views(self.entries@);
            assert forall|j: int| 0 <= j < ps.len() implies (#[trigger] ps[j]).0 != key@ by {
                assert(ps[j].0 == self.entries@[j].0@);
            }
            lemma_map_of_pairs_absent(ps, key@);
        }
        None
    }

    /// The value stored under `key`, or `default`.
    pub fn get_value(&self, key: &str, default: String) -> (r: String)
        requires
            self.wf(),
        ensures
            r@ == value_or(self@, key@, default@),
    {
        match self.find(key) {
            Some(i) => {
                proof {
                    lemma_map_of_pairs_at(pair_views(self.entries@), i as int);
                }
                self.entries[i].1.clone()
            },
            None => default,
        }
    }

    /// Stores `value` under `key`, replacing what was there.
    pub fn set_value(&mut self, key: &str, value: String)
        requires
            old(self).wf(),
        ensures
            final(self).wf(),
            final(self)@ == old(self)@.insert(key@, value@),
    {
        let ghost ps = pair_views(self.entries@);
        match self.find(key) {
            Some(i) => {
                let k = self.entries[i].0.clone();
                self.entries.set(i, (k, value));
                proof {
                    lemma_map_of_pairs_update(ps, i as int, value@);
                    assert(pair_views(self.entries@) =~= ps.update(i as int, (ps[i as int].0, value@)));
                }
            },
            None => {
                let k = string_of(chars_of(key).as_slice());
                self.entries.push((k, value));
                proof {
                    assert(pair_views(self.entries@) =~= ps.push((key@, value@)));
                    assert(pair_views(self.entries@).drop_last() =~= ps);
                    assert forall|a: int, b: int|
                        0 <= a < b < pair_views(self.entries@).len() implies (#[trigger] pair_views(
                        self.entries@,
                    )[a]).0 != (#[trigger] pair_views(self.entries@)[b]).0 by {
                        if b == ps.len() {
                            lemma_map_of_pairs_dom(ps, key@);
                            assert(pair_views(self.entries@)[a] == ps[a]);
                        } else {
                            assert(pair_views(self.entries@)[a] == ps[a]);
                            assert(pair_views(self.entries@)[b] == ps[b]);
                        }
                    }
                }
            },
        }
    }

    /// Removes what is stored under each of `keys`.
    pub fn delete_values(&mut self, keys: &[String])
        requires
            old(self).wf(),
        ensures
            final(self).wf(),
            final(self)@ == old(self)@.remove_keys(key_set(keys@)),
    {
        let ghost start = self@;
        let mut i: usize = 0;
        while i < keys.len()
            invariant
                i <= keys@.len(),
                self.wf(),
                self@ == start.remove_keys(key_set(keys@.take(i as int))),
            decreases keys@.len() - i,
        {
            self.delete_value(keys[i].as_str());
            proof {
                let t = keys@.take(i + 1);
                assert(t[i as int] == keys@[i as int]);
                assert forall|k: Seq<char>| key_set(t).contains(k) <==> (key_set(keys@.take(i as int)).contains(k) || k == keys@[i as int]@) by {
                    if key_set(t).contains(k) {
                        let j = choose|j: int| 0 <= j < t.len() && (#[trigger] t[j])@ == k;
                        if j < i {
                            assert(keys@.take(i as int)[j] == t[j]);
                        }
                    }
                    if key_set(keys@.take(i as int)).contains(k) {
                        let j = choose|j: int| 0 <= j < i && (#[trigger] keys@.take(i as int)[j])@ == k;
                        assert(keys@.take(i as int)[j] == t[j]);
                    }
                }
                assert(self@ =~= start.remove_keys(key_set(t)));
            }
            i = i + 1;
        }
        assert(keys@.take(keys@.len() as int) =~= keys@);
    }

    /// For each pair in order, stores under the second key the value under the
    /// first key, or the empty text when none is stored there.
    pub fn copy_values(&mut self, pairs: &[(String, String)])
        requires
            old(self).wf(),
        ensures
            final(self).wf(),
            final(self)@ == copied(old(self)@, pair_views(pairs@)),
    {
        let ghost start = self@;
        let mut i: usize = 0;
        while i < pairs.len()
            invariant
                i <= pairs@.len(),
                self.wf(),
                self@ == copied(start, pair_views(pairs@.take(i as int))),
            decreases pairs@.len() - i,
        {
            let value = self.get_value(pairs[i].0.as_str(), String::new());
            self.set_value(pairs[i].1.as_str(), value);
            assert(pair_views(pairs@.take(i + 1)).drop_last() =~= pair_views(pairs@.take(i as int)));
            i = i + 1;
        }
        assert(pairs@.take(pairs@.len() as int) =~= pairs@);
    }

    /// Removes what is stored under `key`, if anything.
    pub fn delete_value(&mut self, key: &str)
        requires
            old(self).wf(),
        ensures
            final(self).wf(),
            final(self)@ == old(self)@.remove(key@),
    {
        let ghost ps = pair_views(self.entries@);
        match self.find(key) {
            Some(i) => {
                self.entries.remove(i);
                proof {
                    lemma_map_of_pairs_remove(ps, i as int);
                    assert(pair_views(self.entries@) =~= ps.remove(i as int));
                }
            },
            None => {
                assert(self@ =~= self@.remove(key@));
            },
        }
    }
}

} // verus!
