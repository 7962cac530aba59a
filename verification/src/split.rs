//! Splitting text at a separator character, joining parts with a separator,
//! and splitting into lines (as `str::split`, `slice::join` and `str::lines`
//! do), with the laws that splitting undoes joining.
use vstd::prelude::*;

verus! {

/// The parts joined with `sep` between each two neighbours.
pub open spec fn join(parts: Seq<Seq<char>>, sep: Seq<char>) -> Seq<char>
    decreases parts.len(),
{
    if parts.len() == 0 {
        Seq::empty()
    } else if parts.len() == 1 {
        parts[0]
    } else {
        join(parts.drop_last(), sep) + sep + parts.last()
    }
}

/// The pieces of `s` between occurrences of `c` (what `str::split(c)` yields):
/// always at least one piece, an empty one for empty `s`.
pub open spec fn split_on(s: Seq<char>, c: char) -> Seq<Seq<char>>
    decreases s.len(),
{
    if s.len() == 0 {
        seq![Seq::empty()]
    } else {
        let rest = split_on(s.drop_last(), c);
        if s.last() == c {
            rest.push(Seq::empty())
        } else {
            rest.update(rest.len() - 1, rest.last().push(s.last()))
        }
    }
}

/// `l` without one trailing carriage return.
pub open spec fn strip_cr(l: Seq<char>) -> Seq<char> {
    if l.len() > 0 && l.last() == '\r' {
        l.drop_last()
    } else {
        l
    }
}

/// The lines of `s` (what `str::lines` yields): split at `\n`, a `\r` right
/// before a `\n` dropped, and no line after a final `\n` nor for empty `s`.
pub open spec fn lines_of(s: Seq<char>) -> Seq<Seq<char>> {
    let parts = split_on(s, '\n');
    let ended = parts.take(parts.len() - 1).map_values(|l: Seq<char>| strip_cr(l));
    if parts.last().len() > 0 {
        ended.push(parts.last())
    } else {
        ended
    }
}

/// The character sequences that a list of character vectors holds.
pub open spec fn views(v: Seq<Vec<char>>) -> Seq<Seq<char>> {
    v.map_values(|x: Vec<char>| x@)
}

/// `c` does not occur in `s`.
pub open spec fn free_of(s: Seq<char>, c: char) -> bool {
    forall|k: int| 0 <= k < s.len() ==> s[k] != c
}

proof fn lemma_split_on_len(s: Seq<char>, c: char)
    ensures
        split_on(s, c).len() >= 1,
    decreases s.len(),
{
    if s.len() > 0 {
        lemma_split_on_len(s.drop_last(), c);
    }
}

/// Splitting `x`, then `c`, then a piece free of `c` gives the pieces of `x`
/// and then that piece.
proof fn lemma_split_on_append(x: Seq<char>, c: char, y: Seq<char>)
    requires
        free_of(y, c),
    ensures
        split_on(x + seq![c] + y, c) == split_on(x, c).push(y),
    decreases y.len(),
{
    if y.len() == 0 {
        let s = x + seq![c] + y;
        assert(s.drop_last() =~= x);
        assert(y =~= Seq::<char>::empty());
    } else {
        let y2 = y.drop_last();
        assert(free_of(y2, c));
        lemma_split_on_append(x, c, y2);
        let s = x + seq![c] + y;
        assert(s.drop_last() =~= x + seq![c] + y2);
        assert(s.last() == y.last());
        assert(y2.push(y.last()) =~= y);
        assert(split_on(x, c).push(y2).update(split_on(x, c).len() as int, y) =~= split_on(
            x,
            c,
        ).push(y));
    }
}

/// A piece free of `c` splits into itself alone.
proof fn lemma_split_on_free(y: Seq<char>, c: char)
    requires
        free_of(y, c),
    ensures
        split_on(y, c) == seq![y],
    decreases y.len(),
{
    if y.len() == 0 {
        assert(y =~= Seq::<char>::empty());
    } else {
        let y2 = y.drop_last();
        assert(free_of(y2, c));
        lemma_split_on_free(y2, c);
        assert(y2.push(y.last()) =~= y);
        assert(seq![y2].update(0, y) =~= seq![y]);
    }
}

/// Splitting at `c` undoes joining with `c`, when no part holds `c`.
pub proof fn lemma_split_join(parts: Seq<Seq<char>>, c: char)
    requires
        parts.len() >= 1,
        forall|i: int| 0 <= i < parts.len() ==> free_of(#[trigger] parts[i], c),
    ensures
        split_on(join(parts, seq![c]), c) == parts,
    decreases parts.len(),
{
    if parts.len() == 1 {
        lemma_split_on_free(parts[0], c);
        assert(seq![parts[0]] =~= parts);
    } else {
        let init = parts.drop_last();
        assert forall|i: int| 0 <= i < init.len() implies free_of(#[trigger] init[i], c) by {
            assert(init[i] == parts[i]);
        }
        lemma_split_join(init, c);
        assert(free_of(parts[parts.len() - 1], c));
        lemma_split_on_append(join(init, seq![c]), c, parts.last());
        assert(init.push(parts.last()) =~= parts);
    }
}

/// The lines of text joined with `\n` are those lines again, when none holds
/// `\n`, none ends with `\r`, and the last is not empty.
pub proof fn lemma_lines_join(parts: Seq<Seq<char>>)
    requires
        parts.len() >= 1,
        forall|i: int| 0 <= i < parts.len() ==> free_of(#[trigger] parts[i], '\n'),
        forall|i: int|
            0 <= i < parts.len() ==> !(#[trigger] parts[i].len() > 0 && parts[i].last() == '\r'),
        parts.last().len() > 0,
    ensures
        lines_of(join(parts, seq!['\n'])) == parts,
{
    lemma_split_join(parts, '\n');
    let ended = parts.take(parts.len() - 1).map_values(|l: Seq<char>| strip_cr(l));
    assert(ended =~= parts.take(parts.len() - 1)) by {
        assert forall|i: int| 0 <= i < ended.len() implies ended[i] == parts.take(
            parts.len() - 1,
        )[i] by {
            assert(parts.take(parts.len() - 1)[i] == parts[i]);
            assert(!(parts[i].len() > 0 && parts[i].last() == '\r'));
        }
    }
    assert(parts.take(parts.len() - 1).push(parts.last()) =~= parts);
}

/// The pieces of `s` between occurrences of `c`.
pub fn split_chars(s: &[char], c: char) -> (res: Vec<Vec<char>>)
    ensures
        views(res@) == split_on(s@, c),
{
    let mut done: Vec<Vec<char>> = Vec::new();
    let mut cur: Vec<char> = Vec::new();
    let mut i: usize = 0;
    while i < s.len()
        invariant
            i <= s@.len(),
            views(done@).push(cur@) == split_on(s@.take(i as int), c),
        decreases s@.len() - i,
    {
        let ghost before = views(done@).push(cur@);
        proof {
            assert(s@.take(i + 1).drop_last() =~= s@.take(i as int));
            assert(s@.take(i + 1).last() == s@[i as int]);
        }
        if s[i] == c {
            let old_cur = cur;
            done.push(old_cur);
            cur = Vec::new();
            assert(views(done@).push(cur@) =~= before.push(Seq::empty()));
        } else {
            cur.push(s[i]);
            assert(views(done@).push(cur@) =~= before.update(
                before.len() - 1,
                before.last().push(s@[i as int]),
            ));
        }
        i = i + 1;
    }
    assert(s@.take(s@.len() as int) =~= s@);
    done.push(cur);
    done
}

/// The lines of `s`.
pub fn lines_chars(s: &[char]) -> (res: Vec<Vec<char>>)
    ensures
        views(res@) == lines_of(s@),
{
    let parts = split_chars(s, '\n');
    proof {
        lemma_split_on_len(s@, '\n');
    }
    let ghost ps = views(parts@);
    let n = parts.len();
    let mut res: Vec<Vec<char>> = Vec::new();
    let mut i: usize = 0;
    while i + 1 < n
        invariant
            n == parts@.len(),
            n >= 1,
            ps == views(parts@),
            i < n,
            views(res@) == ps.take(i as int).map_values(|l: Seq<char>| strip_cr(l)),
        decreases n - i,
    {
        let l = &parts[i];
        let mut line: Vec<char> = Vec::new();
        let m = if l.len() > 0 && l[l.len() - 1] == '\r' {
            l.len() - 1
        } else {
            l.len()
        };
        let mut k: usize = 0;
        while k < m
            invariant
                m <= l@.len(),
                k <= m,
                line@ == l@.take(k as int),
            decreases m - k,
        {
            line.push(l[k]);
            assert(l@.take(k + 1) =~= l@.take(k as int).push(l@[k as int]));
            k = k + 1;
        }
        assert(ps[i as int] == l@);
        assert(line@ =~= strip_cr(l@));
        let ghost before = views(res@);
        res.push(line);
        assert(views(res@) =~= before.push(strip_cr(ps[i as int])));
        assert(ps.take(i + 1).map_values(|l: Seq<char>| strip_cr(l)) =~= ps.take(
            i as int,
        ).map_values(|l: Seq<char>| strip_cr(l)).push(strip_cr(ps[i as int])));
        i = i + 1;
    }
    let last = &parts[n - 1];
    assert(ps.last() == last@);
    if last.len() > 0 {
        let mut copy: Vec<char> = Vec::new();
        let mut k: usize = 0;
        while k < last.len()
            invariant
                k <= last@.len(),
                copy@ == last@.take(k as int),
            decreases last@.len() - k,
        {
            copy.push(last[k]);
            assert(last@.take(k + 1) =~= last@.take(k as int).push(last@[k as int]));
            k = k + 1;
        }
        assert(copy@ =~= last@);
        let ghost before = views(res@);
        res.push(copy);
        assert(views(res@) =~= before.push(last@));
    }
    res
}

/// The parts joined with `sep` between each two neighbours.
pub fn join_chars(parts: &Vec<Vec<char>>, sep: &[char]) -> (res: Vec<char>)
    ensures
        res@ == join(views(parts@), sep@),
{
    let mut res: Vec<char> = Vec::new();
    let mut i: usize = 0;
    while i < parts.len()
        invariant
            i <= parts@.len(),
            res@ == join(views(parts@).take(i as int), sep@),
        decreases parts@.len() - i,
    {
        let ghost pv = views(parts@);
        if i > 0 {
            crate::text::extend_chars(&mut res, sep);
        }
        crate::text::extend_chars(&mut res, parts[i].as_slice());
        proof {
            let t = pv.take(i + 1);
            assert(t.drop_last() =~= pv.take(i as int));
            assert(t.last() == parts@[i as int]@);
            if i == 0 {
                assert(join(pv.take(0), sep@) =~= Seq::<char>::empty());
                assert(res@ =~= t[0]);
            }
        }
        i = i + 1;
    }
    assert(views(parts@).take(parts@.len() as int) =~= views(parts@));
    res
}

} // verus!
