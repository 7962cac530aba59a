//! The headers of a request, as an ordered list of name/value pairs, and the
//! text they are stored as: one `name:value` per line.
use vstd::prelude::*;

use crate::split::{join, join_chars, lemma_lines_join, lines_chars, lines_of, free_of, views};
use crate::text::{lemma_find_first, 
    chars_of, extend_chars, extend_str, find_chars_from, find_from, lowercase_of, same_chars,
    string_of, sub_chars, to_lowercase,
};

verus! {

/// `Uuid::new_v4().to_string()` from the uuid crate: a fresh random id in
/// hyphenated form. Only its length is stated; which id comes out rests on
/// chance.
#[verifier::external_body]
pub(crate) fn new_item_id() -> (r: String)
    ensures
        r@.len() == 36,
{
    uuid::Uuid::new_v4().to_string()
}

/// A character of an HTTP token, as the http crate's table of header name
/// characters lists them: ASCII letters and digits and ``!#$%&'*+-.^_`|~``.
pub open spec fn is_token_char(c: char) -> bool {
    ||| ('a' <= c && c <= 'z')
    ||| ('A' <= c && c <= 'Z')
    ||| ('0' <= c && c <= '9')
    ||| c == '!' || c == '#' || c == '$' || c == '%' || c == '&' || c == '\''
    ||| c == '*' || c == '+' || c == '-' || c == '.' || c == '^' || c == '_'
    ||| c == '`' || c == '|' || c == '~'
}

/// Whether `HeaderName::from_str` of the http crate accepts a name: one to
/// 65535 characters, each a token character (its table maps every other
/// byte, non-ASCII ones included, to 0, which it refuses).
pub open spec fn header_name_accepted(name: Seq<char>) -> bool {
    &&& 1 <= name.len() <= 65535
    &&& forall|k: int| 0 <= k < name.len() ==> is_token_char(#[trigger] name[k])
}

/// `HeaderName::from_str` of the http crate: on refusal the error's text,
/// which its `Display` writes as a fixed sentence.
#[verifier::external_body]
pub(crate) fn header_name_error(name: &str) -> (r: Option<String>)
    ensures
        r is None <==> header_name_accepted(name@),
        r matches Some(m) ==> m@ == "invalid HTTP header name"@,
{
    match <http::HeaderName as std::str::FromStr>::from_str(name) {
        Ok(_) => None,
        Err(e) => Some(e.to_string()),
    }
}

/// A header value that `HeaderValue::from_str` accepts: every byte is a tab
/// or at least a space and not DEL, so every character other than a tab is at
/// least a space, and none is DEL.
pub open spec fn header_value_accepted(value: Seq<char>) -> bool {
    forall|k: int|
        0 <= k < value.len() ==> (#[trigger] value[k] == '\t' || (value[k] as u32 >= 32
            && value[k] as u32 != 127))
}

/// `HeaderValue::from_str` of the http crate: refuses exactly the values with
/// a control character other than tab, or DEL; on refusal the error's text.
#[verifier::external_body]
pub(crate) fn header_value_error(value: &str) -> (r: Option<String>)
    ensures
        r is None <==> header_value_accepted(value@),
        r matches Some(m) ==> m@ == "failed to parse header value"@,
{
    match <http::HeaderValue as std::str::FromStr>::from_str(value) {
        Ok(_) => None,
        Err(e) => Some(e.to_string()),
    }
}

/// A header of a request, with an id that tells it apart in the editor.
#[derive(Debug)]
pub struct RequestHeader {
    pub id: String,
    pub name: String,
    pub value: String,
}

impl View for RequestHeader {
    type V = (Seq<char>, Seq<char>, Seq<char>);

    open spec fn view(&self) -> (Seq<char>, Seq<char>, Seq<char>) {
        (self.id@, self.name@, self.value@)
    }
}

impl Clone for RequestHeader {
    fn clone(&self) -> (r: Self)
        ensures
            r@ == self@,
    {
        RequestHeader { id: self.id.clone(), name: self.name.clone(), value: self.value.clone() }
    }
}

impl RequestHeader {
    /// A header with the given name and value and a fresh id.
    pub fn new(name: String, value: String) -> (r: Self)
        ensures
            r.name@ == name@,
            r.value@ == value@,
            r.id@.len() == 36,
    {
        Self { id: new_item_id(), name, value }
    }
}

/// The headers of a request, in order.
#[derive(Debug)]
pub struct RequestHeaders {
    inner: Vec<RequestHeader>,
}

/// The name/value pairs of a list of headers.
pub open spec fn pairs_of(hs: Seq<(Seq<char>, Seq<char>, Seq<char>)>) -> Seq<(Seq<char>, Seq<char>)> {
    hs.map_values(|h: (Seq<char>, Seq<char>, Seq<char>)| (h.1, h.2))
}

/// The header that a stored line stands for: split at its first `:`; a line
/// without `:` stands for none.
pub open spec fn header_of_line(l: Seq<char>) -> Option<(Seq<char>, Seq<char>)> {
    match find_from(l, 0, seq![':']) {
        Some(i) => Some((l.take(i), l.skip(i + 1))),
        None => None,
    }
}

/// The headers that stored lines stand for, in order.
pub open spec fn headers_of_lines(ls: Seq<Seq<char>>) -> Seq<(Seq<char>, Seq<char>)>
    decreases ls.len(),
{
    if ls.len() == 0 {
        Seq::empty()
    } else {
        let rest = headers_of_lines(ls.drop_last());
        match header_of_line(ls.last()) {
            Some(p) => rest.push(p),
            None => rest,
        }
    }
}

/// The headers that a stored text stands for.
pub open spec fn stored_headers(value: Seq<char>) -> Seq<(Seq<char>, Seq<char>)> {
    headers_of_lines(lines_of(value))
}

/// The stored line of a header.
pub open spec fn header_line(p: (Seq<char>, Seq<char>)) -> Seq<char> {
    p.0 + seq![':'] + p.1
}

/// The stored text of headers: their lines joined with line feeds.
pub open spec fn headers_text(ps: Seq<(Seq<char>, Seq<char>)>) -> Seq<char> {
    join(ps.map_values(|p: (Seq<char>, Seq<char>)| header_line(p)), seq!['\n'])
}

/// The header whose lowercased name is `content-type` first, if any: its
/// value.
pub open spec fn content_type_value(ps: Seq<(Seq<char>, Seq<char>)>) -> Option<Seq<char>>
    decreases ps.len(),
{
    if ps.len() == 0 {
        None
    } else if lowercase_of(ps[0].0) == "content-type"@ {
        Some(ps[0].1)
    } else {
        content_type_value(ps.drop_first())
    }
}

/// Some header's lowercased name is `lowered`.
pub open spec fn has_lowercase_name(ps: Seq<(Seq<char>, Seq<char>)>, lowered: Seq<char>) -> bool {
    exists|k: int| 0 <= k < ps.len() && lowercase_of(#[trigger] ps[k].0) == lowered
}

/// What adding a header from the editor gives: `Ok(false)` when a header of
/// that name (compared lowercased) is already there, otherwise the refusal of
/// the name, as a name and (as the editor checks it) as a value, or `Ok(true)`.
pub open spec fn add_outcome(ps: Seq<(Seq<char>, Seq<char>)>, name: Seq<char>) -> Result<bool, Seq<char>> {
    if has_lowercase_name(ps, lowercase_of(name)) {
        Ok(false)
    } else if !header_name_accepted(name) {
        Err("invalid HTTP header name"@)
    } else if !header_value_accepted(name) {
        Err("failed to parse header value"@)
    } else {
        Ok(true)
    }
}

impl View for RequestHeaders {
    type V = Seq<(Seq<char>, Seq<char>, Seq<char>)>;

    closed spec fn view(&self) -> Seq<(Seq<char>, Seq<char>, Seq<char>)> {
        self.inner@.map_values(|h: RequestHeader| h@)
    }
}

fn copy_headers(v: &Vec<RequestHeader>) -> (r: Vec<RequestHeader>)
    ensures
        r@.map_values(|h: RequestHeader| h@) == v@.map_values(|h: RequestHeader| h@),
{
    let mut r: Vec<RequestHeader> = Vec::new();
    let mut i: usize = 0;
    while i < v.len()
        invariant
            i <= v@.len(),
            r@.map_values(|h: RequestHeader| h@) == v@.take(i as int).map_values(
                |h: RequestHeader| h@,
            ),
        decreases v@.len() - i,
    {
        r.push(v[i].clone());
        assert(v@.take(i + 1).map_values(|h: RequestHeader| h@) =~= v@.take(i as int).map_values(
            |h: RequestHeader| h@,
        ).push(v@[i as int]@));
        assert(r@.map_values(|h: RequestHeader| h@) =~= v@.take(i + 1).map_values(
            |h: RequestHeader| h@,
        ));
        i = i + 1;
    }
    assert(v@.take(v@.len() as int) =~= v@);
    r
}

impl Clone for RequestHeaders {
    fn clone(&self) -> (r: Self)
        ensures
            r@ == self@,
    {
        RequestHeaders { inner: copy_headers(&self.inner) }
    }
}

impl RequestHeaders {
    /// No headers.
    pub fn new() -> (r: Self)
        ensures
            r@ == Seq::<(Seq<char>, Seq<char>, Seq<char>)>::empty(),
    {
        let r = Self { inner: Vec::new() };
        assert(r@ =~= Seq::<(Seq<char>, Seq<char>, Seq<char>)>::empty());
        r
    }

    /// Appends a header.
    pub fn push(&mut self, header: RequestHeader)
        ensures
            final(self)@ == old(self)@.push(header@),
    {
        self.inner.push(header);
        assert(self@ =~= old(self)@.push(header@));
    }

    /// The number of headers.
    pub fn len(&self) -> (r: usize)
        ensures
            r == self@.len(),
    {
        self.inner.len()
    }

    /// The headers, in order.
    pub fn iter(&self) -> (r: &[RequestHeader])
        ensures
            r@.map_values(|h: RequestHeader| h@) == self@,
    {
        self.inner.as_slice()
    }

    /// Removes every header with the given id.
    pub fn remove_by_id(&mut self, id: String)
        ensures
            final(self)@ == old(self)@.filter(|h: (Seq<char>, Seq<char>, Seq<char>)| h.0 != id@),
    {
        let ghost pred = |h: (Seq<char>, Seq<char>, Seq<char>)| h.0 != id@;
        let ghost ov = self@;
        let mut kept: Vec<RequestHeader> = Vec::new();
        let mut i: usize = 0;
        while i < self.inner.len()
            invariant
                i <= self@.len(),
                ov == self@,
                pred == (|h: (Seq<char>, Seq<char>, Seq<char>)| h.0 != id@),
                kept@.map_values(|h: RequestHeader| h@) == ov.take(i as int).filter(pred),
            decreases self@.len() - i,
        {
            let h = &self.inner[i];
            assert(ov.take(i + 1).drop_last() =~= ov.take(i as int));
            assert(ov.take(i + 1).last() == h@);
            reveal_with_fuel(Seq::filter, 1);
            assert(ov.take(i + 1).filter(pred) == (if pred(h@) {
                ov.take(i as int).filter(pred).push(h@)
            } else {
                ov.take(i as int).filter(pred)
            }));
            if !crate::text::same_text(h.id.as_str(), id.as_str()) {
                let ghost before = kept@.map_values(|h: RequestHeader| h@);
                assert(pred(h@));
                kept.push(h.clone());
                assert(kept@.map_values(|h: RequestHeader| h@) =~= before.push(h@));
            } else {
                assert(!pred(h@));
            }
            assert(kept@.map_values(|h: RequestHeader| h@) == ov.take(i + 1).filter(pred));
            i = i + 1;
        }
        assert(ov.take(ov.len() as int) =~= ov);
        self.inner = kept;
    }

    /// A copy of the headers, in order.
    pub fn vec_owned(&self) -> (r: Vec<RequestHeader>)
        ensures
            r@.map_values(|h: RequestHeader| h@) == self@,
    {
        copy_headers(&self.inner)
    }

    /// Sets the name of every header with the given id.
    pub fn set_name(&mut self, id: &str, name: &str)
        ensures
            final(self)@.len() == old(self)@.len(),
            forall|k: int|
                0 <= k < old(self)@.len() ==> (#[trigger] final(self)@[k]) == (if old(self)@[k].0
                    == id@ {
                    (old(self)@[k].0, name@, old(self)@[k].2)
                } else {
                    old(self)@[k]
                }),
    {
        let mut i: usize = 0;
        while i < self.inner.len()
            invariant
                self@.len() == old(self)@.len(),
                i <= self@.len(),
                forall|k: int|
                    0 <= k < i ==> (#[trigger] self@[k]) == (if old(self)@[k].0 == id@ {
                        (old(self)@[k].0, name@, old(self)@[k].2)
                    } else {
                        old(self)@[k]
                    }),
                forall|k: int| i <= k < self@.len() ==> (#[trigger] self@[k]) == old(self)@[k],
            decreases self@.len() - i,
        {
            if crate::text::same_text(self.inner[i].id.as_str(), id) {
                let h = RequestHeader {
                    id: self.inner[i].id.clone(),
                    name: string_of(chars_of(name).as_slice()),
                    value: self.inner[i].value.clone(),
                };
                let ghost before = self@;
                assert(h@.0 == before[i as int].0);
                self.inner.set(i, h);
                assert(self@ =~= before.update(i as int, h@));
                assert(before[i as int] == old(self)@[i as int]);
            }
            i = i + 1;
        }
    }

    /// Sets the value of every header with the given id.
    pub fn set_value(&mut self, id: &str, value: &str)
        ensures
            final(self)@.len() == old(self)@.len(),
            forall|k: int|
                0 <= k < old(self)@.len() ==> (#[trigger] final(self)@[k]) == (if old(self)@[k].0
                    == id@ {
                    (old(self)@[k].0, old(self)@[k].1, value@)
                } else {
                    old(self)@[k]
                }),
    {
        let mut i: usize = 0;
        while i < self.inner.len()
            invariant
                self@.len() == old(self)@.len(),
                i <= self@.len(),
                forall|k: int|
                    0 <= k < i ==> (#[trigger] self@[k]) == (if old(self)@[k].0 == id@ {
                        (old(self)@[k].0, old(self)@[k].1, value@)
                    } else {
                        old(self)@[k]
                    }),
                forall|k: int| i <= k < self@.len() ==> (#[trigger] self@[k]) == old(self)@[k],
            decreases self@.len() - i,
        {
            if crate::text::same_text(self.inner[i].id.as_str(), id) {
                let h = RequestHeader {
                    id: self.inner[i].id.clone(),
                    name: self.inner[i].name.clone(),
                    value: string_of(chars_of(value).as_slice()),
                };
                let ghost before = self@;
                assert(h@.0 == before[i as int].0);
                self.inner.set(i, h);
                assert(self@ =~= before.update(i as int, h@));
                assert(before[i as int] == old(self)@[i as int]);
            }
            i = i + 1;
        }
    }

    /// The headers that a stored text stands for, each with a fresh id.
    pub fn from_stored_value(stored_value: &str) -> (r: Self)
        ensures
            pairs_of(r@) == stored_headers(stored_value@),
    {
        let mut result = RequestHeaders::new();
        if stored_value.is_empty() {
            assert(stored_headers(stored_value@) =~= Seq::<(Seq<char>, Seq<char>)>::empty()) by {
                assert(stored_value@ =~= Seq::<char>::empty());
                assert(lines_of(stored_value@) =~= Seq::<Seq<char>>::empty());
            }
            return result;
        }
        let cs = chars_of(stored_value);
        let lines = lines_chars(cs.as_slice());
        let ghost ls = views(lines@);
        let colon: Vec<char> = vec![':'];
        assert(colon@ =~= seq![':']);
        let mut i: usize = 0;
        while i < lines.len()
            invariant
                ls == views(lines@),
                ls == lines_of(stored_value@),
                colon@ == seq![':'],
                i <= lines@.len(),
                pairs_of(result@) == headers_of_lines(ls.take(i as int)),
            decreases lines@.len() - i,
        {
            let line = &lines[i];
            assert(ls[i as int] == line@);
            assert(ls.take(i + 1).drop_last() =~= ls.take(i as int));
            assert(ls.take(i + 1).last() == line@);
            let found = find_chars_from(line.as_slice(), 0, colon.as_slice());
            match found {
                Some(index) => {
                    assert(find_from(line@, 0, seq![':']) == Some(index as int));
                    assert(index + 1 <= line@.len());
                    let n = line.len();
                    assert(index < n);
                    let name = string_of(sub_chars(line.as_slice(), 0, index).as_slice());
                    let value = string_of(
                        sub_chars(line.as_slice(), index + 1, line.len()).as_slice(),
                    );
                    let ghost before = result@;
                    let h = RequestHeader::new(name, value);
                    result.push(h);
                    assert(line@.subrange(0, index as int) =~= line@.take(index as int));
                    assert(line@.subrange(index + 1, line@.len() as int) =~= line@.skip(
                        index + 1,
                    ));
                    assert(pairs_of(result@) =~= pairs_of(before).push(
                        (line@.take(index as int), line@.skip(index + 1)),
                    ));
                },
                None => {
                    assert(find_from(line@, 0, seq![':']) is None);
                    assert(header_of_line(line@) is None);
                },
            }
            i = i + 1;
        }
        assert(ls.take(lines@.len() as int) =~= ls);
        result
    }

    /// The text the headers are stored as: `name:value` lines joined with line
    /// feeds.
    pub fn to_string(&self) -> (r: String)
        ensures
            r@ == headers_text(pairs_of(self@)),
    {
        let mut lines: Vec<Vec<char>> = Vec::new();
        let mut i: usize = 0;
        while i < self.inner.len()
            invariant
                i <= self@.len(),
                views(lines@) == pairs_of(self@).take(i as int).map_values(
                    |p: (Seq<char>, Seq<char>)| header_line(p),
                ),
            decreases self@.len() - i,
        {
            let h = &self.inner[i];
            let mut line: Vec<char> = Vec::new();
            extend_str(&mut line, h.name.as_str());
            line.push(':');
            extend_str(&mut line, h.value.as_str());
            assert(line@ =~= header_line((h.name@, h.value@)));
            let ghost before = views(lines@);
            lines.push(line);
            assert(views(lines@) =~= before.push(header_line((h.name@, h.value@))));
            assert(pairs_of(self@)[i as int] == (h.name@, h.value@));
            assert(pairs_of(self@).take(i + 1).map_values(
                |p: (Seq<char>, Seq<char>)| header_line(p),
            ) =~= pairs_of(self@).take(i as int).map_values(
                |p: (Seq<char>, Seq<char>)| header_line(p),
            ).push(header_line((h.name@, h.value@))));
            i = i + 1;
        }
        assert(pairs_of(self@).take(self@.len() as int) =~= pairs_of(self@));
        let sep: Vec<char> = vec!['\n'];
        assert(sep@ =~= seq!['\n']);
        let out = join_chars(&lines, sep.as_slice());
        string_of(out.as_slice())
    }

    /// The value of the first header whose lowercased name is `content-type`.
    pub fn content_type(&self) -> (r: Option<String>)
        ensures
            (match r {
                Some(v) => Some(v@),
                None => None,
            }) == content_type_value(pairs_of(self@)),
    {
        let target = chars_of("content-type");
        assert(pairs_of(self@).skip(0) =~= pairs_of(self@));
        let mut i: usize = 0;
        while i < self.inner.len()
            invariant
                i <= self@.len(),
                target@ == "content-type"@,
                content_type_value(pairs_of(self@)) == content_type_value(
                    pairs_of(self@).skip(i as int),
                ),
            decreases self@.len() - i,
        {
            let ghost ps = pairs_of(self@).skip(i as int);
            assert(ps[0] == (self.inner@[i as int].name@, self.inner@[i as int].value@));
            assert(ps.drop_first() =~= pairs_of(self@).skip(i + 1));
            let lowered = to_lowercase(self.inner[i].name.as_str());
            let lc = chars_of(lowered.as_str());
            if same_chars(lc.as_slice(), target.as_slice()) {
                return Some(self.inner[i].value.clone());
            }
            i = i + 1;
        }
        None
    }

    /// Adds a header from the editor: nothing is added when a header of that
    /// name (compared lowercased) is there already (`Ok(false)`); a name that
    /// the http crate refuses is refused with its message; otherwise the
    /// header is appended (`Ok(true)`).
    pub fn try_add(&mut self, name: String, value: String) -> (r: Result<bool, String>)
        ensures
            (match r {
                Ok(b) => Ok(b),
                Err(m) => Err(m@),
            }) == add_outcome(pairs_of(old(self)@), name@),
            r == Ok::<bool, String>(true) ==> (final(self)@.len() == old(self)@.len() + 1
                && final(self)@.take(old(self)@.len() as int) == old(self)@ && final(self)@.last().1
                == name@ && final(self)@.last().2 == value@),
            r != Ok::<bool, String>(true) ==> final(self)@ == old(self)@,
    {
        let lowered = to_lowercase(name.as_str());
        let lc = chars_of(lowered.as_str());
        let mut i: usize = 0;
        while i < self.inner.len()
            invariant
                i <= self@.len(),
                lc@ == lowercase_of(name@),
                forall|k: int| 0 <= k < i ==> lowercase_of(#[trigger] pairs_of(self@)[k].0) != lc@,
            decreases self@.len() - i,
        {
            let other = to_lowercase(self.inner[i].name.as_str());
            let oc = chars_of(other.as_str());
            assert(pairs_of(self@)[i as int].0 == self.inner@[i as int].name@);
            if same_chars(oc.as_slice(), lc.as_slice()) {
                return Ok(false);
            }
            i = i + 1;
        }
        if let Some(err) = header_name_error(name.as_str()) {
            return Err(err);
        }
        if let Some(err) = header_value_error(name.as_str()) {
            return Err(err);
        }
        let ghost before = self@;
        self.push(RequestHeader::new(name, value));
        assert(self@.take(before.len() as int) =~= before);
        Ok(true)
    }
}

/// Reading back the stored text of headers gives the same names and values,
/// when no name holds `:` or a line break, no value holds a line break, and no
/// value ends with a carriage return.
pub proof fn lemma_headers_round_trip(ps: Seq<(Seq<char>, Seq<char>)>)
    requires
        forall|k: int|
            0 <= k < ps.len() ==> free_of(#[trigger] ps[k].0, ':') && free_of(ps[k].0, '\n')
                && free_of(ps[k].1, '\n') && !(ps[k].1.len() > 0 && ps[k].1.last() == '\r'),
    ensures
        stored_headers(headers_text(ps)) == ps,
{
    let ls = ps.map_values(|p: (Seq<char>, Seq<char>)| header_line(p));
    if ps.len() == 0 {
        assert(headers_text(ps) =~= Seq::<char>::empty());
        assert(lines_of(Seq::<char>::empty()) =~= Seq::<Seq<char>>::empty());
        assert(ps =~= Seq::<(Seq<char>, Seq<char>)>::empty());
    } else {
        assert forall|i: int| 0 <= i < ls.len() implies free_of(#[trigger] ls[i], '\n') by {
            let l = ls[i];
            assert forall|k: int| 0 <= k < l.len() implies l[k] != '\n' by {
                if k < ps[i].0.len() {
                    assert(l[k] == ps[i].0[k]);
                } else if k > ps[i].0.len() {
                    assert(l[k] == ps[i].1[k - ps[i].0.len() - 1]);
                }
            }
        }
        assert forall|i: int| 0 <= i < ls.len() implies !(#[trigger] ls[i].len() > 0 && ls[i].last()
            == '\r') by {
            let l = ls[i];
            if ps[i].1.len() > 0 {
                assert(l.last() == ps[i].1.last());
            } else {
                assert(l.last() == ':');
            }
        }
        assert(ls.last().len() > 0);
        lemma_lines_join(ls);
        lemma_headers_of_lines(ps);
    }
}

pub proof fn lemma_header_of_line(p: (Seq<char>, Seq<char>))
    requires
        free_of(p.0, ':'),
    ensures
        header_of_line(header_line(p)) == Some(p),
{
    let l = header_line(p);
    let n = p.0.len() as int;
    assert(l.subrange(n, n + 1) =~= seq![':']);
    assert forall|j: int| 0 <= j < n implies !crate::text::has_at(l, j, seq![':']) by {
        assert(l.subrange(j, j + 1)[0] == p.0[j]);
    }
    lemma_find_first(l, 0, n, seq![':']);
    assert(l.take(n) =~= p.0);
    assert(l.skip(n + 1) =~= p.1);
}

proof fn lemma_headers_of_lines(ps: Seq<(Seq<char>, Seq<char>)>)
    requires
        forall|k: int| 0 <= k < ps.len() ==> free_of(#[trigger] ps[k].0, ':'),
    ensures
        headers_of_lines(ps.map_values(|p: (Seq<char>, Seq<char>)| header_line(p))) == ps,
    decreases ps.len(),
{
    if ps.len() > 0 {
        let init = ps.drop_last();
        assert forall|k: int| 0 <= k < init.len() implies free_of(#[trigger] init[k].0, ':') by {
            assert(init[k] == ps[k]);
        }
        lemma_headers_of_lines(init);
        let ls = ps.map_values(|p: (Seq<char>, Seq<char>)| header_line(p));
        assert(ls.drop_last() =~= init.map_values(|p: (Seq<char>, Seq<char>)| header_line(p)));
        assert(free_of(ps[ps.len() - 1].0, ':'));
        lemma_header_of_line(ps.last());
        assert(init.push(ps.last()) =~= ps);
    } else {
        assert(ps.map_values(|p: (Seq<char>, Seq<char>)| header_line(p)) =~= Seq::<
            Seq<char>,
        >::empty());
    }
}

impl RequestHeaders {
    /// The headers the store keeps for request `request_id` of `project_id`,
    /// each with a fresh id.
    pub fn read_from_store(store: &crate::local_store::LocalStore, project_id: &str, request_id: i32) -> (r: Self)
        requires
            store.wf(),
        ensures
            pairs_of(r@) == stored_headers(
                crate::local_store::value_or(
                    store@,
                    crate::rest_client::util::request_store::request_stored_key(
                        project_id@,
                        request_id as int,
                        crate::rest_client::util::request_store::field_name(
                            crate::rest_client::util::request_store::RequestFieldKind::Headers,
                        ),
                    ),
                    Seq::empty(),
                ),
            ),
    {
        let key = crate::rest_client::util::request_store::field_key(
            crate::rest_client::util::request_store::RequestFieldKind::Headers,
            project_id,
            request_id,
        );
        let stored = store.get_value(key.as_str(), String::new());
        RequestHeaders::from_stored_value(stored.as_str())
    }
}

/// Adds an entry with a fresh id to a name/value list (a cookie or query
/// parameter list) when both its name and value are not blank. Whether it was
/// added.
pub fn add_nonblank(items: &mut RequestHeaders, name: String, value: String) -> (r: bool)
    ensures
        r == (crate::text::trim(name@).len() > 0 && crate::text::trim(value@).len() > 0),
        r ==> pairs_of(final(items)@) == pairs_of(old(items)@).push((name@, value@)),
        !r ==> final(items)@ == old(items)@,
{
    let tn = crate::text::trim_chars(crate::text::chars_of(name.as_str()).as_slice());
    let tv = crate::text::trim_chars(crate::text::chars_of(value.as_str()).as_slice());
    if tn.len() == 0 || tv.len() == 0 {
        return false;
    }
    let ghost before = items@;
    let h = RequestHeader::new(name, value);
    items.push(h);
    assert(pairs_of(items@) =~= pairs_of(before).push((h.name@, h.value@)));
    true
}

} // verus!
