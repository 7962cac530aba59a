//! cURL command lines for a request, for bash and for the Windows command
//! prompt.
use vstd::prelude::*;

use crate::rest_client::model::request_body_kind::RequestBodyKind;
use crate::rest_client::model::request_params::{sent_body, sent_headers, RequestParams};
use crate::text::{chars_of, extend_chars, extend_str, push_char, string_of};

verus! {

/// A character as it is written inside a quoted argument: `"` and `\` behind
/// a backslash, line feed, carriage return and tab as `\n`, `\r`, `\t`.
pub open spec fn escape_char(c: char) -> Seq<char> {
    if c == '"' || c == '\\' {
        seq!['\\', c]
    } else if c == '\n' {
        seq!['\\', 'n']
    } else if c == '\r' {
        seq!['\\', 'r']
    } else if c == '\t' {
        seq!['\\', 't']
    } else {
        seq![c]
    }
}

/// A text with each character escaped.
pub open spec fn escaped(s: Seq<char>) -> Seq<char>
    decreases s.len(),
{
    if s.len() == 0 {
        Seq::empty()
    } else {
        escaped(s.drop_last()) + escape_char(s.last())
    }
}

/// The characters that the Windows command prompt takes for operators.
pub open spec fn is_cmd_special(c: char) -> bool {
    c == '&' || c == '|' || c == '<' || c == '>' || c == '\\' || c == '"'
}

/// The caret that goes before the character at `k`: before an operator
/// character, and before a caret that is followed by something other than a
/// carriage return.
pub open spec fn caret_before(s: Seq<char>, k: int) -> Seq<char> {
    if is_cmd_special(s[k]) || (s[k] == '^' && k + 1 < s.len() && s[k + 1] != '\r') {
        seq!['^']
    } else {
        Seq::empty()
    }
}

/// The first `n` characters of `s`, each with its caret in front.
pub open spec fn caret_escaped(s: Seq<char>, n: int) -> Seq<char>
    decreases n,
{
    if n <= 0 {
        Seq::empty()
    } else {
        caret_escaped(s, n - 1) + caret_before(s, n - 1) + seq![s[n - 1]]
    }
}

/// `s` with every `c` replaced by `r` (what `str::replace` gives for a
/// one-character pattern).
pub open spec fn replace_char(s: Seq<char>, c: char, r: Seq<char>) -> Seq<char>
    decreases s.len(),
{
    if s.len() == 0 {
        Seq::empty()
    } else {
        replace_char(s.drop_last(), c, r) + (if s.last() == c {
            r
        } else {
            seq![s.last()]
        })
    }
}

/// A command line escaped for the Windows command prompt: carets before
/// operators and carets, then every `%` written as `^%^`.
pub open spec fn win_escaped(s: Seq<char>) -> Seq<char> {
    replace_char(caret_escaped(s, s.len() as int), '%', "^%^"@)
}

/// The `-H` argument for a header, on a new line.
pub open spec fn header_param(name: Seq<char>, value: Seq<char>, quote: Seq<char>, new_line: Seq<char>) -> Seq<char> {
    " "@ + new_line + "-H "@ + quote + name + ": "@ + escaped(value) + quote
}

/// The `-H` arguments for a list of headers, in order.
pub open spec fn header_params(hs: Seq<(Seq<char>, Seq<char>)>, quote: Seq<char>, new_line: Seq<char>) -> Seq<char>
    decreases hs.len(),
{
    if hs.len() == 0 {
        Seq::empty()
    } else {
        header_params(hs.drop_last(), quote, new_line) + header_param(
            hs.last().0,
            hs.last().1,
            quote,
            new_line,
        )
    }
}

/// The body as the command line sends it: the escaped body text, or the
/// urlencoded form values (nothing when they cannot be encoded).
pub open spec fn curl_body(p: RequestParams) -> Seq<char> {
    match p.body_type {
        RequestBodyKind::Formencoded => match sent_body(p) {
            Ok(u) => u,
            Err(_) => Seq::empty(),
        },
        _ => escaped(p.body@),
    }
}

/// The command line for a request: the program and the quoted url; `-X` with
/// the method unless it is `GET`; a `-H` for each header that is sent; and
/// `--data-raw` with the body unless it is empty; each argument after the url
/// on a line of its own.
pub open spec fn curl_command(p: RequestParams, process_name: Seq<char>, quote: Seq<char>, new_line: Seq<char>) -> Seq<char> {
    let head = process_name + " "@ + quote + p.url@ + quote;
    let method = if p.method@ != "GET"@ {
        " "@ + new_line + "-X "@ + p.method@
    } else {
        Seq::empty()
    };
    let body = curl_body(p);
    let data = if body.len() > 0 {
        " "@ + new_line + "--data-raw "@ + quote + body + quote
    } else {
        Seq::empty()
    };
    head + method + header_params(sent_headers(p), quote, new_line) + data
}

/// The command line for bash: single quotes, lines continued with `\`.
pub open spec fn bash_command(p: RequestParams) -> Seq<char> {
    curl_command(p, "curl"@, "'"@, "\\\r\n"@)
}

/// The command line for the Windows command prompt: double quotes, lines
/// continued with `^`, then escaped for the prompt.
pub open spec fn win_command(p: RequestParams) -> Seq<char> {
    win_escaped(curl_command(p, "curl.exe"@, "\""@, "^\r\n"@))
}

/// The characters of `s`, each escaped.
pub fn escape_chars(s: &[char]) -> (r: Vec<char>)
    ensures
        r@ == escaped(s@),
{
    let mut out: Vec<char> = Vec::new();
    let mut i: usize = 0;
    while i < s.len()
        invariant
            i <= s@.len(),
            out@ == escaped(s@.take(i as int)),
        decreases s@.len() - i,
    {
        let ch = s[i];
        let ghost before = out@;
        if ch == '"' || ch == '\\' {
            out.push('\\');
            out.push(ch);
        } else if ch == '\n' {
            out.push('\\');
            out.push('n');
        } else if ch == '\r' {
            out.push('\\');
            out.push('r');
        } else if ch == '\t' {
            out.push('\\');
            out.push('t');
        } else {
            out.push(ch);
        }
        assert(out@ =~= before + escape_char(ch));
        assert(s@.take(i + 1).drop_last() =~= s@.take(i as int));
        i = i + 1;
    }
    assert(s@.take(s@.len() as int) =~= s@);
    out
}

/// `s` with each character escaped for a quoted argument.
pub fn escape_string(s: &str) -> (r: String)
    ensures
        r@ == escaped(s@),
{
    let cs = chars_of(s);
    let e = escape_chars(cs.as_slice());
    string_of(e.as_slice())
}

/// A command line escaped for the Windows command prompt.
pub fn win_cmd_escape(s: &str) -> (r: String)
    ensures
        r@ == win_escaped(s@),
{
    let cs = chars_of(s);
    let n = cs.len();
    let mut first: Vec<char> = Vec::new();
    let mut i: usize = 0;
    while i < n
        invariant
            n == cs@.len(),
            cs@ == s@,
            i <= n,
            first@ == caret_escaped(cs@, i as int),
        decreases n - i,
    {
        let ch = cs[i];
        let ghost before = first@;
        if ch == '&' || ch == '|' || ch == '<' || ch == '>' || ch == '\\' || ch == '"' {
            first.push('^');
        } else if ch == '^' {
            if i + 1 < n && cs[i + 1] != '\r' {
                first.push('^');
            }
        }
        first.push(ch);
        assert(first@ =~= before + caret_before(cs@, i as int) + seq![ch]);
        i = i + 1;
    }
    let mut out: Vec<char> = Vec::new();
    let mut k: usize = 0;
    while k < first.len()
        invariant
            k <= first@.len(),
            out@ == replace_char(first@.take(k as int), '%', "^%^"@),
        decreases first@.len() - k,
    {
        let ch = first[k];
        let ghost before = out@;
        if ch == '%' {
            out.push('^');
            out.push('%');
            out.push('^');
            proof {
                reveal_strlit("^%^");
            }
            assert(out@ =~= before + "^%^"@);
        } else {
            out.push(ch);
            assert(out@ =~= before + seq![ch]);
        }
        assert(first@.take(k + 1).drop_last() =~= first@.take(k as int));
        k = k + 1;
    }
    assert(first@.take(first@.len() as int) =~= first@);
    string_of(out.as_slice())
}

/// Appends the `-H` argument for a header, on a new line.
pub fn add_header_param(result: &mut Vec<char>, name: &str, value: &str, quote: &str, new_line: &str)
    ensures
        final(result)@ == old(result)@ + header_param(name@, value@, quote@, new_line@),
{
    let ghost start = result@;
    extend_str(result, " ");
    extend_str(result, new_line);
    extend_str(result, "-H ");
    extend_str(result, quote);
    extend_str(result, name);
    extend_str(result, ": ");
    let v = chars_of(value);
    let e = escape_chars(v.as_slice());
    extend_chars(result, e.as_slice());
    extend_str(result, quote);
    assert(result@ =~= start + header_param(name@, value@, quote@, new_line@));
}

/// The command line for a request, with the given program name, quote and
/// line continuation.
pub fn build_curl_cmd(request_params: &RequestParams, process_name: &str, quote: &str, new_line: &str) -> (r: String)
    ensures
        r@ == curl_command(*request_params, process_name@, quote@, new_line@),
{
    let p = request_params;
    let mut result: Vec<char> = Vec::new();
    extend_str(&mut result, process_name);
    extend_str(&mut result, " ");
    extend_str(&mut result, quote);
    extend_str(&mut result, p.url.as_str());
    extend_str(&mut result, quote);
    let ghost head = result@;
    if !crate::text::same_text(p.method.as_str(), "GET") {
        extend_str(&mut result, " ");
        extend_str(&mut result, new_line);
        extend_str(&mut result, "-X ");
        extend_str(&mut result, p.method.as_str());
    }
    let ghost with_method = result@;
    let headers = p.request_headers();
    let ghost hv = headers@.map_values(|h: (String, String)| (h.0@, h.1@));
    let mut i: usize = 0;
    while i < headers.len()
        invariant
            hv == headers@.map_values(|h: (String, String)| (h.0@, h.1@)),
            i <= headers@.len(),
            result@ == with_method + header_params(hv.take(i as int), quote@, new_line@),
        decreases headers@.len() - i,
    {
        add_header_param(&mut result, headers[i].0.as_str(), headers[i].1.as_str(), quote, new_line);
        assert(hv.take(i + 1).drop_last() =~= hv.take(i as int));
        assert(hv.take(i + 1).last() == hv[i as int]);
        i = i + 1;
    }
    assert(hv.take(headers@.len() as int) =~= hv);
    let ghost with_headers = result@;
    let body: Vec<char> = match p.body_type {
        RequestBodyKind::Formencoded => match p.get_body() {
            Ok(url) => chars_of(url.as_str()),
            Err(_err) => Vec::new(),
        },
        _ => escape_chars(chars_of(p.body.as_str()).as_slice()),
    };
    assert(body@ =~= curl_body(*p));
    if body.len() > 0 {
        extend_str(&mut result, " ");
        extend_str(&mut result, new_line);
        extend_str(&mut result, "--data-raw ");
        extend_str(&mut result, quote);
        extend_chars(&mut result, body.as_slice());
        extend_str(&mut result, quote);
    }
    assert(result@ =~= curl_command(*p, process_name@, quote@, new_line@));
    string_of(result.as_slice())
}

/// The command line for a request, for bash.
pub fn build_curl_bash_cmd(request_params: &RequestParams) -> (r: String)
    ensures
        r@ == bash_command(*request_params),
{
    build_curl_cmd(request_params, "curl", "'", "\\\r\n")
}

/// The command line for a request, for the Windows command prompt.
pub fn build_curl_win_cmd(request_params: &RequestParams) -> (r: String)
    ensures
        r@ == win_command(*request_params),
{
    let cmd = build_curl_cmd(request_params, "curl.exe", "\"", "^\r\n");
    win_cmd_escape(cmd.as_str())
}

} // verus!
