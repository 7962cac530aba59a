//! The kind of a request body and its media type.
use vstd::prelude::*;

use crate::text::{chars_of, lowercase_of, same_chars, to_lowercase, trim, trim_chars};

verus! {

/// How the body of a request is entered and sent.
#[derive(Clone, Copy, Debug, PartialEq, Eq, Structural)]
pub enum RequestBodyKind {
    Text,
    Json,
    Xml,
    Formencoded,
}

/// The media type sent for a body kind.
pub open spec fn content_type_of(kind: RequestBodyKind) -> Seq<char> {
    match kind {
        RequestBodyKind::Text => "text/plain"@,
        RequestBodyKind::Json => "application/json"@,
        RequestBodyKind::Xml => "application/xml"@,
        RequestBodyKind::Formencoded => "application/x-www-form-urlencoded"@,
    }
}

/// The body kind for an already lowercased media type: it is compared after
/// trimming; anything unrecognised is taken for JSON.
pub open spec fn kind_for_lowercase(s: Seq<char>) -> RequestBodyKind {
    let t = trim(s);
    if t == "text/plain"@ {
        RequestBodyKind::Text
    } else if t == "application/xml"@ {
        RequestBodyKind::Xml
    } else if t == "application/x-www-form-urlencoded"@ {
        RequestBodyKind::Formencoded
    } else {
        RequestBodyKind::Json
    }
}

/// The short name under which a body kind is shown and stored.
pub open spec fn name_of(kind: RequestBodyKind) -> Seq<char> {
    match kind {
        RequestBodyKind::Text => "text"@,
        RequestBodyKind::Formencoded => "formencoded"@,
        RequestBodyKind::Json => "json"@,
        RequestBodyKind::Xml => "xml"@,
    }
}

/// The body kind a stored name stands for; anything unrecognised is text.
pub open spec fn kind_named(s: Seq<char>) -> RequestBodyKind {
    if s == "formencoded"@ {
        RequestBodyKind::Formencoded
    } else if s == "json"@ {
        RequestBodyKind::Json
    } else if s == "xml"@ {
        RequestBodyKind::Xml
    } else {
        RequestBodyKind::Text
    }
}

impl RequestBodyKind {
    /// The media type sent for this body kind.
    pub fn content_type(&self) -> (r: &'static str)
        ensures
            r@ == content_type_of(*self),
    {
        match self {
            RequestBodyKind::Text => "text/plain",
            RequestBodyKind::Json => "application/json",
            RequestBodyKind::Xml => "application/xml",
            RequestBodyKind::Formencoded => "application/x-www-form-urlencoded",
        }
    }

    /// The body kind for a media type, compared case-insensitively.
    pub fn from_content_type(content_type: &str) -> (r: Self)
        ensures
            r == kind_for_lowercase(lowercase_of(content_type@)),
    {
        let lowered = to_lowercase(content_type);
        Self::from_lowercase_content_type(lowered.as_str())
    }

    /// The body kind for a media type that is already in lowercase.
    pub fn from_lowercase_content_type(lowered: &str) -> (r: Self)
        ensures
            r == kind_for_lowercase(lowered@),
    {
        let cs = chars_of(lowered);
        let t = trim_chars(cs.as_slice());
        let text = chars_of("text/plain");
        let xml = chars_of("application/xml");
        let form = chars_of("application/x-www-form-urlencoded");
        if same_chars(t.as_slice(), text.as_slice()) {
            RequestBodyKind::Text
        } else if same_chars(t.as_slice(), xml.as_slice()) {
            RequestBodyKind::Xml
        } else if same_chars(t.as_slice(), form.as_slice()) {
            RequestBodyKind::Formencoded
        } else {
            RequestBodyKind::Json
        }
    }

    /// The short name under which this body kind is shown and stored.
    pub fn as_str(&self) -> (r: &'static str)
        ensures
            r@ == name_of(*self),
    {
        match self {
            RequestBodyKind::Text => "text",
            RequestBodyKind::Formencoded => "formencoded",
            RequestBodyKind::Json => "json",
            RequestBodyKind::Xml => "xml",
        }
    }

    /// The body kind a stored name stands for; anything unrecognised is text.
    pub fn from_name(s: &str) -> (r: Self)
        ensures
            r == kind_named(s@),
    {
        let cs = chars_of(s);
        let form = chars_of("formencoded");
        let json = chars_of("json");
        let xml = chars_of("xml");
        if same_chars(cs.as_slice(), form.as_slice()) {
            RequestBodyKind::Formencoded
        } else if same_chars(cs.as_slice(), json.as_slice()) {
            RequestBodyKind::Json
        } else if same_chars(cs.as_slice(), xml.as_slice()) {
            RequestBodyKind::Xml
        } else {
            RequestBodyKind::Text
        }
    }
}

impl Default for RequestBodyKind {
    fn default() -> (r: Self)
        ensures
            r == RequestBodyKind::Text,
    {
        RequestBodyKind::Text
    }
}

/// Reading back the stored name of a body kind gives that kind.
pub proof fn lemma_name_round_trip(kind: RequestBodyKind)
    ensures
        kind_named(name_of(kind)) == kind,
{
    reveal_strlit("text");
    reveal_strlit("formencoded");
    reveal_strlit("json");
    reveal_strlit("xml");
    assert("text"@[0] != "json"@[0]);
    assert("text"@.len() != "formencoded"@.len());
    assert("text"@.len() != "xml"@.len());
    assert("json"@.len() != "formencoded"@.len());
    assert("json"@.len() != "xml"@.len());
}

/// The media type of a body kind, once lowercased, maps back to that kind.
pub proof fn lemma_content_type_round_trip(kind: RequestBodyKind)
    ensures
        kind_for_lowercase(content_type_of(kind)) == kind,
{
    reveal_strlit("text/plain");
    reveal_strlit("application/json");
    reveal_strlit("application/xml");
    reveal_strlit("application/x-www-form-urlencoded");
    let s = content_type_of(kind);
    assert(s.len() > 0 && !crate::text::is_ws(s[0]));
    assert(!crate::text::is_ws(s.last()));
    assert(crate::text::trim_start(s) == s);
    assert(crate::text::trim_end(s) == s);
}

impl std::str::FromStr for RequestBodyKind {
    type Err = std::convert::Infallible;

    fn from_str(s: &str) -> (r: Result<Self, Self::Err>)
        ensures
            r == Ok::<RequestBodyKind, std::convert::Infallible>(kind_named(s@)),
    {
        Ok(RequestBodyKind::from_name(s))
    }
}

} // verus!
