//! The request a battle sends over and over: its target, headers and the
//! bytes on the wire.
use vstd::prelude::*;
use vstd::utf8::encode_utf8;
use crate::text::{
    chars_of, decimal, push_decimal, push_str, range_eq_ascii_nocase, seq_eq_ascii_nocase, string_from,
    trim, trim_bounds,
};

verus! {

#[verifier::external_type_specification]
#[verifier::external_body]
pub struct ExUrlParseError(url::ParseError);

/// Whether `url::Url::parse` accepts the text.
pub uninterp spec fn url_parses(s: Seq<char>) -> bool;

/// What `url::Url::scheme` gives for the parsed text.
pub uninterp spec fn url_scheme(s: Seq<char>) -> Seq<char>;

/// What `url::Url::host_str` gives for the parsed text.
pub uninterp spec fn url_host(s: Seq<char>) -> Option<Seq<char>>;

/// What `url::Url::port_or_known_default` gives for the parsed text.
pub uninterp spec fn url_port(s: Seq<char>) -> Option<u16>;

/// What `url::Url::path` gives for the parsed text.
pub uninterp spec fn url_path(s: Seq<char>) -> Seq<char>;

/// The parts of a parsed URL that a request needs.
pub struct UrlParts {
    pub scheme: String,
    pub host: Option<String>,
    pub port: Option<u16>,
    pub path: String,
}

/// Relies on `url::Url::parse`, and on `scheme`, `host_str`,
/// `port_or_known_default` and `path` of the URL it yields.
#[verifier::external_body]
fn parse_url(input: &str) -> (r: Result<UrlParts, url::ParseError>)
    ensures
        r is Ok <==> url_parses(input@),
        r matches Ok(p) ==> p.scheme@ == url_scheme(input@) && p.port == url_port(input@)
            && p.path@ == url_path(input@) && match p.host {
            Some(h) => url_host(input@) == Some(h@),
            None => url_host(input@) is None,
        },
{
    let u = url::Url::parse(input)?;
    Ok(UrlParts {
        scheme: u.scheme().to_string(),
        host: u.host_str().map(|h| h.to_string()),
        port: u.port_or_known_default(),
        path: u.path().to_string(),
    })
}

/// What std's `str::to_uppercase` gives.
pub uninterp spec fn upper_of(s: Seq<char>) -> Seq<char>;

/// Relies on std's `str::to_uppercase`.
#[verifier::external_body]
fn uppercase(s: &str) -> (r: String)
    ensures
        r@ == upper_of(s@),
{
    s.to_uppercase()
}

/// Why a target could not be turned into a request.
#[derive(Debug)]
pub enum RequestError {
    InvalidUrl(url::ParseError),
}

pub open spec fn name_host() -> Seq<char> {
    seq!['H', 'o', 's', 't']
}

pub open spec fn name_connection() -> Seq<char> {
    seq!['C', 'o', 'n', 'n', 'e', 'c', 't', 'i', 'o', 'n']
}

pub open spec fn value_keep_alive() -> Seq<char> {
    seq!['k', 'e', 'e', 'p', '-', 'a', 'l', 'i', 'v', 'e']
}

pub open spec fn name_user_agent() -> Seq<char> {
    seq!['U', 's', 'e', 'r', '-', 'A', 'g', 'e', 'n', 't']
}

/// The product name this library sends as its user agent.
pub open spec fn value_user_agent() -> Seq<char> {
    seq![
        'W', 'a', 's', 'p', 's', '-', 'W', 'i', 't', 'h', '-', 'B', 'a', 'z', 'o', 'o', 'k', 'a',
        's', '/', '2', '.', '0', '.', '0',
    ]
}

pub open spec fn loopback() -> Seq<char> {
    seq!['1', '2', '7', '.', '0', '.', '0', '.', '1']
}

pub open spec fn scheme_https() -> Seq<char> {
    seq!['h', 't', 't', 'p', 's']
}

/// Index of the first `:` at or after `i`, or the length.
pub open spec fn colon_from(s: Seq<char>, i: int) -> int
    decreases s.len() - i,
{
    if 0 <= i < s.len() && s[i] != ':' {
        colon_from(s, i + 1)
    } else {
        i
    }
}

/// A header written `name: value`: the name before the first colon and the
/// value after it, both trimmed. None without a colon.
pub open spec fn parse_header(line: Seq<char>) -> Option<(Seq<char>, Seq<char>)> {
    let c = colon_from(line, 0);
    if c < line.len() {
        Some((trim(line.take(c)), trim(line.skip(c + 1))))
    } else {
        None
    }
}

/// The headers of `lines` that parse, in order.
pub open spec fn parse_headers(lines: Seq<Seq<char>>) -> Seq<(Seq<char>, Seq<char>)>
    decreases lines.len(),
{
    if lines.len() == 0 {
        Seq::empty()
    } else {
        let rest = parse_headers(lines.drop_last());
        match parse_header(lines.last()) {
            Some(h) => rest.push(h),
            None => rest,
        }
    }
}

pub open spec fn has_header(hs: Seq<(Seq<char>, Seq<char>)>, name: Seq<char>) -> bool {
    exists|i: int| 0 <= i < hs.len() && seq_eq_ascii_nocase(#[trigger] hs[i].0, name)
}

/// `hs`, with `name: value` added when no header has that name (in any ASCII case).
pub open spec fn with_default(hs: Seq<(Seq<char>, Seq<char>)>, name: Seq<char>, value: Seq<char>) -> Seq<
    (Seq<char>, Seq<char>),
> {
    if has_header(hs, name) {
        hs
    } else {
        hs.push((name, value))
    }
}

/// The headers of a request to `host`: the parsed ones, then `Host`,
/// `Connection: keep-alive` and `User-Agent` where they are missing.
pub open spec fn request_headers(lines: Seq<Seq<char>>, host: Seq<char>) -> Seq<(Seq<char>, Seq<char>)> {
    with_default(
        with_default(
            with_default(parse_headers(lines), name_host(), host),
            name_connection(),
            value_keep_alive(),
        ),
        name_user_agent(),
        value_user_agent(),
    )
}

pub open spec fn pairs_view(v: Seq<(String, String)>) -> Seq<(Seq<char>, Seq<char>)> {
    Seq::new(v.len(), |i: int| (v[i].0@, v[i].1@))
}

pub open spec fn strings_view(v: Seq<String>) -> Seq<Seq<char>> {
    Seq::new(v.len(), |i: int| v[i]@)
}

pub open spec fn crlf() -> Seq<char> {
    seq!['\r', '\n']
}

pub open spec fn version_line_end() -> Seq<char> {
    seq![' ', 'H', 'T', 'T', 'P', '/', '1', '.', '1', '\r', '\n']
}

pub open spec fn content_length_label() -> Seq<char> {
    seq!['C', 'o', 'n', 't', 'e', 'n', 't', '-', 'L', 'e', 'n', 'g', 't', 'h', ':', ' ']
}

/// Header lines, each `name: value` and CRLF.
pub open spec fn header_lines(hs: Seq<(Seq<char>, Seq<char>)>) -> Seq<char>
    decreases hs.len(),
{
    if hs.len() == 0 {
        Seq::empty()
    } else {
        header_lines(hs.drop_last()) + hs.last().0 + seq![':', ' '] + hs.last().1 + crlf()
    }
}

/// The bytes of a request, as text: the request line, the headers, a
/// `Content-Length` with the body's UTF-8 length when there is a body, the
/// blank line and the body.
pub open spec fn request_text(
    method: Seq<char>,
    path: Seq<char>,
    headers: Seq<(Seq<char>, Seq<char>)>,
    body: Option<Seq<char>>,
) -> Seq<char> {
    let length_line = match body {
        Some(b) => content_length_label() + decimal(encode_utf8(b).len()) + crlf(),
        None => Seq::empty(),
    };
    let content = match body {
        Some(b) => b,
        None => Seq::empty(),
    };
    method + seq![' '] + path + version_line_end() + header_lines(headers) + length_line + crlf()
        + content
}

pub open spec fn opt_string_view(o: Option<String>) -> Option<Seq<char>> {
    match o {
        Some(s) => Some(s@),
        None => None,
    }
}

fn push_chars(out: &mut Vec<char>, s: &Vec<char>)
    ensures
        final(out)@ == old(out)@ + s@,
{
    let mut i: usize = 0;
    while i < s.len()
        invariant
            i <= s@.len(),
            out@ == old(out)@ + s@.take(i as int),
        decreases s@.len() - i,
    {
        out.push(s[i]);
        i = i + 1;
    }
    assert(s@.take(s@.len() as int) =~= s@);
}

/// Where and what a battle sends.
#[derive(Debug, Clone)]
pub struct RequestConfig {
    pub method: String,
    pub path: String,
    pub host: String,
    pub port: u16,
    pub headers: Vec<(String, String)>,
    pub body: Option<String>,
    pub is_https: bool,
}

fn find_colon(v: &Vec<char>) -> (r: usize)
    ensures
        r as int == colon_from(v@, 0),
        r <= v.len(),
{
    let mut k: usize = 0;
    while k < v.len() && v[k] != ':'
        invariant
            k <= v.len(),
            colon_from(v@, k as int) == colon_from(v@, 0),
        decreases v.len() - k,
    {
        k = k + 1;
    }
    k
}

fn copy_range(v: &Vec<char>, lo: usize, hi: usize) -> (r: String)
    requires
        lo <= hi <= v.len(),
    ensures
        r@ == v@.subrange(lo as int, hi as int),
{
    let mut out: Vec<char> = Vec::new();
    let mut k = lo;
    while k < hi
        invariant
            lo <= k <= hi <= v.len(),
            out@ == v@.subrange(lo as int, k as int),
        decreases hi - k,
    {
        out.push(v[k]);
        k = k + 1;
    }
    string_from(&out)
}

fn header_of(line: &str) -> (r: Option<(String, String)>)
    ensures
        match parse_header(line@) {
            Some(h) => r matches Some(p) && p.0@ == h.0 && p.1@ == h.1,
            None => r is None,
        },
{
    let v = chars_of(line);
    let c = find_colon(&v);
    if c >= v.len() {
        return None;
    }
    let (a, b) = trim_bounds(&v, 0, c);
    let (x, y) = trim_bounds(&v, c + 1, v.len());
    assert(v@.subrange(0, c as int) =~= v@.take(c as int));
    assert(v@.subrange(c + 1, v@.len() as int) =~= v@.skip(c + 1));
    Some((copy_range(&v, a, b), copy_range(&v, x, y)))
}

fn find_header(hs: &Vec<(String, String)>, name: &Vec<char>) -> (r: bool)
    ensures
        r == has_header(pairs_view(hs@), name@),
{
    let mut i: usize = 0;
    while i < hs.len()
        invariant
            i <= hs@.len(),
            forall|k: int| 0 <= k < i ==> !seq_eq_ascii_nocase(#[trigger] pairs_view(hs@)[k].0, name@),
        decreases hs@.len() - i,
    {
        let key = chars_of(hs[i].0.as_str());
        if range_eq_ascii_nocase(&key, 0, key.len(), name) {
            assert(key@.subrange(0, key@.len() as int) =~= key@);
            assert(seq_eq_ascii_nocase(pairs_view(hs@)[i as int].0, name@));
            return true;
        }
        assert(key@.subrange(0, key@.len() as int) =~= key@);
        i = i + 1;
    }
    false
}

fn add_default(hs: &mut Vec<(String, String)>, name: Vec<char>, value: String)
    ensures
        pairs_view(final(hs)@) == with_default(pairs_view(old(hs)@), name@, value@),
{
    if !find_header(hs, &name) {
        let n = string_from(&name);
        hs.push((n, value));
        assert(pairs_view(hs@) =~= pairs_view(old(hs)@).push((name@, value@)));
    }
}

impl RequestConfig {
    /// The request for target `url`, sent with `method` (upper-cased), the
    /// headers written `name: value` in `headers` (lines without a colon are
    /// dropped), and `body`. The host defaults to `127.0.0.1`, the port to
    /// 80, an empty path to `/`; TLS is used for the `https` scheme.
    pub fn from_url(url: &str, method: &str, headers: &[String], body: Option<&str>) -> (r: Result<
        RequestConfig,
        RequestError,
    >)
        ensures
            r is Ok <==> url_parses(url@),
            r matches Ok(c) ==> {
                &&& c.method@ == upper_of(method@)
                &&& c.host@ == (match url_host(url@) {
                    Some(h) => h,
                    None => loopback(),
                })
                &&& c.port == (match url_port(url@) {
                    Some(p) => p,
                    None => 80u16,
                })
                &&& c.path@ == (if url_path(url@).len() == 0 {
                    seq!['/']
                } else {
                    url_path(url@)
                })
                &&& c.is_https == (url_scheme(url@) == scheme_https())
                &&& pairs_view(c.headers@) == request_headers(strings_view(headers@), c.host@)
                &&& (match body {
                    Some(b) => c.body matches Some(cb) && cb@ == b@,
                    None => c.body is None,
                })
            },
    {
        let parts = match parse_url(url) {
            Ok(p) => p,
            Err(e) => {
                return Err(RequestError::InvalidUrl(e));
            },
        };
        let host = match parts.host {
            Some(h) => h,
            None => {
                let l: Vec<char> = vec!['1', '2', '7', '.', '0', '.', '0', '.', '1'];
                assert(l@ =~= loopback());
                string_from(&l)
            },
        };
        let port = match parts.port {
            Some(p) => p,
            None => 80,
        };
        let path = if parts.path.as_str().is_empty() {
            let s: Vec<char> = vec!['/'];
            string_from(&s)
        } else {
            parts.path
        };
        let scheme = chars_of(parts.scheme.as_str());
        let https: Vec<char> = vec!['h', 't', 't', 'p', 's'];
        let is_https = range_eq_exact(&scheme, &https);
        assert(https@ =~= scheme_https());
        let mut parsed: Vec<(String, String)> = Vec::new();
        let mut i: usize = 0;
        while i < headers.len()
            invariant
                i <= headers@.len(),
                pairs_view(parsed@) == parse_headers(strings_view(headers@).take(i as int)),
            decreases headers@.len() - i,
        {
            let ghost t = strings_view(headers@).take(i + 1);
            assert(t.drop_last() =~= strings_view(headers@).take(i as int));
            assert(t.last() == headers@[i as int]@);
            match header_of(headers[i].as_str()) {
                Some(h) => {
                    parsed.push(h);
                    assert(pairs_view(parsed@) =~= pairs_view(parsed@).drop_last().push(
                        pairs_view(parsed@).last(),
                    ));
                    assert(pairs_view(parsed@).drop_last() =~= parse_headers(t.drop_last()));
                },
                None => {},
            }
            i = i + 1;
        }
        assert(strings_view(headers@).take(headers@.len() as int) =~= strings_view(headers@));
        add_default(&mut parsed, vec!['H', 'o', 's', 't'], host.clone());
        let ka: Vec<char> = vec!['k', 'e', 'e', 'p', '-', 'a', 'l', 'i', 'v', 'e'];
        add_default(
            &mut parsed,
            vec!['C', 'o', 'n', 'n', 'e', 'c', 't', 'i', 'o', 'n'],
            string_from(&ka),
        );
        let ua: Vec<char> = vec![
            'W', 'a', 's', 'p', 's', '-', 'W', 'i', 't', 'h', '-', 'B', 'a', 'z', 'o', 'o', 'k',
            'a', 's', '/', '2', '.', '0', '.', '0',
        ];
        add_default(
            &mut parsed,
            vec!['U', 's', 'e', 'r', '-', 'A', 'g', 'e', 'n', 't'],
            string_from(&ua),
        );
        assert(ka@ =~= value_keep_alive());
        assert(ua@ =~= value_user_agent());
        assert(seq!['H', 'o', 's', 't'] =~= name_host());
        Ok(
            RequestConfig {
                method: uppercase(method),
                path,
                host,
                port,
                headers: parsed,
                body: match body {
                    Some(b) => Some(b.to_owned()),
                    None => None,
                },
                is_https,
            },
        )
    }
    /// The wire text of the request, built once and sent for every request
    /// of a connection.
    pub fn build_request(&self) -> (r: String)
        ensures
            r@ == request_text(
                self.method@,
                self.path@,
                pairs_view(self.headers@),
                opt_string_view(self.body),
            ),
    {
        let mut out: Vec<char> = Vec::new();
        push_str(&mut out, self.method.as_str());
        out.push(' ');
        push_str(&mut out, self.path.as_str());
        let version: Vec<char> = vec![' ', 'H', 'T', 'T', 'P', '/', '1', '.', '1', '\r', '\n'];
        push_chars(&mut out, &version);
        let ghost start = out@;
        let mut i: usize = 0;
        while i < self.headers.len()
            invariant
                i <= self.headers@.len(),
                out@ == start + header_lines(pairs_view(self.headers@).take(i as int)),
            decreases self.headers@.len() - i,
        {
            let ghost t = pairs_view(self.headers@).take(i + 1);
            assert(t.drop_last() =~= pairs_view(self.headers@).take(i as int));
            push_str(&mut out, self.headers[i].0.as_str());
            out.push(':');
            out.push(' ');
            push_str(&mut out, self.headers[i].1.as_str());
            out.push('\r');
            out.push('\n');
            assert(out@ =~= start + header_lines(t));
            i = i + 1;
        }
        assert(pairs_view(self.headers@).take(self.headers@.len() as int) =~= pairs_view(
            self.headers@,
        ));
        let ghost before_length = out@;
        match &self.body {
            Some(b) => {
                let label: Vec<char> = vec![
                    'C', 'o', 'n', 't', 'e', 'n', 't', '-', 'L', 'e', 'n', 'g', 't', 'h', ':', ' ',
                ];
                push_chars(&mut out, &label);
                assert(label@ =~= content_length_label());
                let n = b.as_str().as_bytes().len();
                assert(n == encode_utf8(b@).len());
                push_decimal(&mut out, n as u64);
                out.push('\r');
                out.push('\n');
                assert(out@ =~= before_length + (content_length_label() + decimal(
                    encode_utf8(b@).len(),
                ) + crlf()));
            },
            None => {
                assert(out@ =~= before_length + Seq::<char>::empty());
            },
        }
        out.push('\r');
        out.push('\n');
        let ghost before_body = out@;
        match &self.body {
            Some(b) => {
                push_str(&mut out, b.as_str());
            },
            None => {},
        }
        assert(out@ =~= request_text(
            self.method@,
            self.path@,
            pairs_view(self.headers@),
            opt_string_view(self.body),
        ));
        string_from(&out)
    }
}

fn range_eq_exact(a: &Vec<char>, b: &Vec<char>) -> (r: bool)
    ensures
        r == (a@ == b@),
{
    if a.len() != b.len() {
        return false;
    }
    let mut i: usize = 0;
    while i < a.len()
        invariant
            a.len() == b.len(),
            i <= a.len(),
            forall|k: int| 0 <= k < i ==> a@[k] == b@[k],
        decreases a.len() - i,
    {
        if a[i] != b[i] {
            return false;
        }
        i = i + 1;
    }
    assert(a@ =~= b@);
    true
}

} // verus!
