//! HTTP requests, their builder, and parsing of URIs and query strings.

use vstd::prelude::*;
use crate::text::{chars_of, hex_value, is_ascii_hexdigit, spec_hex_value, spec_is_ascii_hexdigit, str_eq, string_from_chars, subrange_vec};
use super::body::Body;
use super::types::{HeaderName, HeaderValue, Headers, Method};
use crate::text::{lowercase_of, lower_ascii_text};
use crate::text::{
    char_is_whitespace, find_char_from, trim_chars, trim_start_index, trimmed, unicode_white_space, uppercase_of,
    word_start_in,
};
use super::types::method_named;
use vstd::string::StringExecFns;

verus! {

/// HTTP version.
#[derive(Debug, Clone, Copy, PartialEq, Eq, Structural)]
pub enum HttpVersion {
    Http10,
    Http11,
    Http2,
}

impl Default for HttpVersion {
    fn default() -> (r: Self)
        ensures
            r == HttpVersion::Http11,
    {
        HttpVersion::Http11
    }
}

// ============================================================================
//                    URI AND QUERY PARSING
// ============================================================================

/// The index of the first `c` in `s`, if any.
pub open spec fn first_index_of(s: Seq<char>, c: char) -> Option<int> {
    if exists|i: int| 0 <= i < s.len() && s[i] == c {
        Some(choose|i: int| 0 <= i < s.len() && s[i] == c && forall|j: int| 0 <= j < i ==> s[j] != c)
    } else {
        None
    }
}

/// A URI split at its first `?` into path and query string.
pub open spec fn split_uri(uri: Seq<char>) -> (Seq<char>, Option<Seq<char>>) {
    match first_index_of(uri, '?') {
        Some(i) => (uri.subrange(0, i), Some(uri.subrange(i + 1, uri.len() as int))),
        None => (uri, None),
    }
}

/// Index of the first `c` at or after `from`, with its specification.
fn find_char(v: &Vec<char>, c: char, from: usize) -> (r: Option<usize>)
    requires
        from <= v.len(),
    ensures
        match r {
            Some(i) => from <= i < v.len() && v@[i as int] == c && forall|j: int| from <= j < i ==> v@[j] != c,
            None => forall|j: int| from <= j < v.len() ==> v@[j] != c,
        },
{
    let mut i = from;
    while i < v.len()
        invariant
            from <= i <= v.len(),
            forall|j: int| from <= j < i ==> v@[j] != c,
        decreases v.len() - i,
    {
        if v[i] == c {
            return Some(i);
        }
        i = i + 1;
    }
    None
}

proof fn lemma_first_index(s: Seq<char>, c: char, i: int)
    requires
        0 <= i < s.len(),
        s[i] == c,
        forall|j: int| 0 <= j < i ==> s[j] != c,
    ensures
        first_index_of(s, c) == Some(i),
{
    let k = choose|k: int| 0 <= k < s.len() && s[k] == c && forall|j: int| 0 <= j < k ==> s[j] != c;
    assert(exists|k: int| 0 <= k < s.len() && s[k] == c && forall|j: int| 0 <= j < k ==> s[j] != c) by {
        assert(0 <= i < s.len() && s[i] == c && forall|j: int| 0 <= j < i ==> s[j] != c);
    }
    if k < i {
        assert(s[k] != c);
    } else if k > i {
        assert(s[i] != c);
    }
}

/// Splits a URI into its path and, after the first `?`, its query string.
pub fn parse_uri(uri: &str) -> (r: (String, Option<String>))
    ensures
        r.0@ == split_uri(uri@).0,
        match split_uri(uri@).1 {
            Some(q) => r.1 matches Some(x) && x@ == q,
            None => r.1 is None,
        },
{
    let v = chars_of(uri);
    match find_char(&v, '?', 0) {
        Some(pos) => {
            proof {
                lemma_first_index(v@, '?', pos as int);
            }
            let path = string_from_chars(subrange_vec(&v, 0, pos).as_slice());
            let query = string_from_chars(subrange_vec(&v, pos + 1, v.len()).as_slice());
            (path, Some(query))
        },
        None => {
            (uri.to_owned(), None)
        },
    }
}

/// What `u8::from_str_radix(_, 16)` gives for at most two characters: an
/// optional `+`, then one or more hexadecimal digits.
pub open spec fn hex_byte(h: Seq<char>) -> Option<u8> {
    let d = if h.len() > 0 && h[0] == '+' { h.subrange(1, h.len() as int) } else { h };
    if d.len() == 1 && spec_is_ascii_hexdigit(d[0]) {
        Some(spec_hex_value(d[0]) as u8)
    } else if d.len() == 2 && spec_is_ascii_hexdigit(d[0]) && spec_is_ascii_hexdigit(d[1]) {
        Some((spec_hex_value(d[0]) * 16 + spec_hex_value(d[1])) as u8)
    } else {
        None
    }
}

/// Percent-decoding of query text from index `k`: `%` and the (up to) two
/// characters after it become the byte they name, taken as a character
/// (nothing when they name none); `+` becomes a space.
pub open spec fn url_decoded(s: Seq<char>, k: int) -> Seq<char>
    decreases s.len() - k,
{
    if k < 0 || k >= s.len() {
        Seq::empty()
    } else if s[k] == '%' {
        let n = if k + 2 < s.len() { 2int } else { s.len() - k - 1 };
        let h = s.subrange(k + 1, k + 1 + n);
        let rest = url_decoded(s, k + 1 + n);
        match hex_byte(h) {
            Some(b) => seq![b as char] + rest,
            None => rest,
        }
    } else if s[k] == '+' {
        seq![' '] + url_decoded(s, k + 1)
    } else {
        seq![s[k]] + url_decoded(s, k + 1)
    }
}

/// `hex_byte` on a short run of characters.
pub(crate) fn parse_hex_byte(h: &Vec<char>) -> (r: Option<u8>)
    requires
        h.len() <= 2,
    ensures
        r == hex_byte(h@),
{
    let start: usize = if h.len() > 0 && h[0] == '+' { 1 } else { 0 };
    let n = h.len() - start;
    if n == 1 && is_ascii_hexdigit(h[start]) {
        proof {
            assert(h@.subrange(start as int, h.len() as int)[0] == h@[start as int]);
        }
        Some(hex_value(h[start]) as u8)
    } else if n == 2 && is_ascii_hexdigit(h[start]) && is_ascii_hexdigit(h[start + 1]) {
        proof {
            assert(start == 0);
            assert(h@.subrange(0, h.len() as int) =~= h@);
        }
        Some((hex_value(h[start]) * 16 + hex_value(h[start + 1])) as u8)
    } else {
        proof {
            if start == 1 {
                let d = h@.subrange(1, h.len() as int);
                assert(n == 1 ==> d[0] == h@[1]);
            } else {
                assert(h@.subrange(0, h.len() as int) =~= h@);
            }
        }
        None
    }
}

/// Decodes percent-encoded query text.
pub fn url_decode(s: &str) -> (r: String)
    ensures
        r@ == url_decoded(s@, 0),
{
    let v = chars_of(s);
    let mut out: Vec<char> = Vec::new();
    let mut k: usize = 0;
    while k < v.len()
        invariant
            k <= v.len(),
            v@ == s@,
            out@ + url_decoded(v@, k as int) == url_decoded(v@, 0),
        decreases v.len() - k,
    {
        let c = v[k];
        if c == '%' {
            let n: usize = if 2 < v.len() - k { 2 } else { v.len() - k - 1 };
            let h = subrange_vec(&v, k + 1, k + 1 + n);
            let ghost rest = url_decoded(v@, k + 1 + n);
            match parse_hex_byte(&h) {
                Some(b) => {
                    out.push(b as char);
                    proof {
                        assert(out@ + rest =~= out@.drop_last() + (seq![b as char] + rest));
                    }
                },
                None => {},
            }
            k = k + 1 + n;
        } else if c == '+' {
            out.push(' ');
            proof {
                assert(out@ + url_decoded(v@, k + 1) =~= out@.drop_last() + (seq![' '] + url_decoded(v@, k + 1)));
            }
            k = k + 1;
        } else {
            out.push(c);
            proof {
                assert(out@ + url_decoded(v@, k + 1) =~= out@.drop_last() + (seq![c] + url_decoded(v@, k + 1)));
            }
            k = k + 1;
        }
    }
    proof {
        assert(out@ + Seq::<char>::empty() =~= out@);
    }
    string_from_chars(out.as_slice())
}

/// The first index at or after `k` holding `c`, or the length.
pub open spec fn next_char(s: Seq<char>, k: int, c: char) -> int
    decreases s.len() - k,
{
    if k < 0 || k >= s.len() {
        s.len() as int
    } else if s[k] == c {
        k
    } else {
        next_char(s, k + 1, c)
    }
}

pub proof fn lemma_next_char_bounds(s: Seq<char>, k: int, c: char)
    requires
        0 <= k <= s.len(),
    ensures
        k <= next_char(s, k, c) <= s.len(),
    decreases s.len() - k,
{
    if k < s.len() && s[k] != c {
        lemma_next_char_bounds(s, k + 1, c);
    }
}

/// `next_char`, computed.
fn scan_to(v: &Vec<char>, from: usize, c: char) -> (r: usize)
    requires
        from <= v.len(),
    ensures
        r == next_char(v@, from as int, c),
        from <= r <= v.len(),
{
    let mut i = from;
    proof {
        lemma_next_char_bounds(v@, from as int, c);
    }
    while i < v.len() && v[i] != c
        invariant
            from <= i <= v.len(),
            next_char(v@, i as int, c) == next_char(v@, from as int, c),
        decreases v.len() - i,
    {
        i = i + 1;
    }
    i
}

/// The position of the entry for key `k` at or after `i`, or -1.
pub open spec fn key_index(s: Seq<(Seq<char>, Seq<char>)>, k: Seq<char>, i: int) -> int
    decreases s.len() - i,
{
    if i < 0 || i >= s.len() {
        -1
    } else if s[i].0 == k {
        i
    } else {
        key_index(s, k, i + 1)
    }
}

/// Sets key `k` to `v`: the entry for `k` changes if there is one, else a
/// new entry is added at the end.
pub open spec fn put(s: Seq<(Seq<char>, Seq<char>)>, k: Seq<char>, v: Seq<char>) -> Seq<(Seq<char>, Seq<char>)> {
    let j = key_index(s, k, 0);
    if j >= 0 {
        s.update(j, (k, v))
    } else {
        s.push((k, v))
    }
}

/// The parameters of a query string from index `k` on, added to `acc`:
/// pieces between `&`s; an empty piece is skipped; a piece is `key=value`
/// split at its first `=` (value empty when there is none); both are
/// percent-decoded; a later key replaces an earlier one.
pub open spec fn query_from(s: Seq<char>, k: int, acc: Seq<(Seq<char>, Seq<char>)>) -> Seq<(Seq<char>, Seq<char>)>
    decreases s.len() - k,
{
    if k < 0 || k > s.len() {
        acc
    } else {
        let e = next_char(s, k, '&');
        let piece = s.subrange(k, e);
        let eq = next_char(piece, 0, '=');
        let key = piece.subrange(0, eq);
        let value = if eq < piece.len() { piece.subrange(eq + 1, piece.len() as int) } else { Seq::empty() };
        let acc2 = if piece.len() > 0 { put(acc, url_decoded(key, 0), url_decoded(value, 0)) } else { acc };
        if e >= s.len() {
            acc2
        } else {
            proof {
                lemma_next_char_bounds(s, k, '&');
            }
            query_from(s, e + 1, acc2)
        }
    }
}

/// Parameters parsed from a query string: each key once, in the order keys
/// first appeared.
#[derive(Debug, Clone)]
pub struct QueryParams {
    entries: Vec<(String, String)>,
}

impl View for QueryParams {
    type V = Seq<(Seq<char>, Seq<char>)>;

    closed spec fn view(&self) -> Seq<(Seq<char>, Seq<char>)> {
        self.entries@.map_values(|e: (String, String)| (e.0@, e.1@))
    }
}

impl QueryParams {
    /// The value of a key, if present.
    pub fn get(&self, key: &str) -> (r: Option<&String>)
        ensures
            key_index(self@, key@, 0) >= 0 ==> (r matches Some(v) && v@ == self@[key_index(self@, key@, 0)].1),
            key_index(self@, key@, 0) < 0 ==> r is None,
    {
        let i = self.position(key);
        if i < self.entries.len() {
            proof {
                assert(self@[i as int] == (self.entries@[i as int].0@, self.entries@[i as int].1@));
            }
            Some(&self.entries[i].1)
        } else {
            None
        }
    }

    /// Number of parameters.
    pub fn len(&self) -> (r: usize)
        ensures
            r == self@.len(),
    {
        self.entries.len()
    }

    /// Index of `key`'s entry, or the length.
    fn position(&self, key: &str) -> (r: usize)
        ensures
            r <= self@.len(),
            r < self@.len() ==> key_index(self@, key@, 0) == r,
            r == self@.len() ==> key_index(self@, key@, 0) == -1,
    {
        let mut i: usize = 0;
        while i < self.entries.len()
            invariant
                i <= self.entries.len(),
                self@.len() == self.entries.len(),
                key_index(self@, key@, i as int) == key_index(self@, key@, 0),
            decreases self.entries.len() - i,
        {
            proof {
                assert(self@[i as int] == (self.entries@[i as int].0@, self.entries@[i as int].1@));
            }
            if str_eq(self.entries[i].0.as_str(), key) {
                return i;
            }
            i = i + 1;
        }
        i
    }

    /// Sets a key's value (see [`put`]).
    fn put(&mut self, key: String, value: String)
        ensures
            final(self)@ == put(old(self)@, key@, value@),
    {
        let i = self.position(key.as_str());
        let ghost kv = (key@, value@);
        if i < self.entries.len() {
            self.entries.set(i, (key, value));
            proof {
                assert(final(self)@ =~= old(self)@.update(i as int, kv));
            }
        } else {
            self.entries.push((key, value));
            proof {
                assert(final(self)@ =~= old(self)@.push(kv));
            }
        }
    }
}

/// Parses a query string into its parameters.
pub fn parse_query_string(query: &str) -> (r: QueryParams)
    ensures
        r@ == query_from(query@, 0, Seq::empty()),
{
    let v = chars_of(query);
    let mut params = QueryParams { entries: Vec::new() };
    proof {
        assert(params@ =~= Seq::<(Seq<char>, Seq<char>)>::empty());
    }
    let mut k: usize = 0;
    loop
        invariant
            k <= v.len(),
            v@ == query@,
            query_from(v@, k as int, params@) == query_from(v@, 0, Seq::empty()),
        decreases v.len() - k,
    {
        let e = scan_to(&v, k, '&');
        let piece = subrange_vec(&v, k, e);
        if piece.len() > 0 {
            let eq = scan_to(&piece, 0, '=');
            let key_chars = subrange_vec(&piece, 0, eq);
            let value_chars = if eq < piece.len() { subrange_vec(&piece, eq + 1, piece.len()) } else { Vec::new() };
            proof {
                if eq >= piece.len() {
                    assert(value_chars@ =~= Seq::<char>::empty());
                }
            }
            let key = url_decode(string_from_chars(key_chars.as_slice()).as_str());
            let value = url_decode(string_from_chars(value_chars.as_slice()).as_str());
            params.put(key, value);
        }
        if e >= v.len() {
            return params;
        }
        k = e + 1;
    }
}

// ============================================================================
//                    REQUEST
// ============================================================================

/// HTTP request (what the library models of it: the address of the client
/// is kept by the server that received it).
#[derive(Debug)]
pub struct Request {
    method: Method,
    uri: String,
    path: String,
    query_string: Option<String>,
    version: HttpVersion,
    headers: Headers,
    body: Body,
}

impl Request {
    /// The method.
    pub closed spec fn method_view(&self) -> Method {
        self.method
    }

    /// The URI.
    pub closed spec fn uri_view(&self) -> Seq<char> {
        self.uri@
    }

    /// The path (the URI before its first `?`).
    pub closed spec fn path_view(&self) -> Seq<char> {
        self.path@
    }

    /// The query string (the URI after its first `?`), if any.
    pub closed spec fn query_view(&self) -> Option<Seq<char>> {
        match self.query_string {
            Some(q) => Some(q@),
            None => None,
        }
    }

    /// The version.
    pub closed spec fn version_view(&self) -> HttpVersion {
        self.version
    }

    /// The headers.
    pub closed spec fn headers_view(&self) -> Headers {
        self.headers
    }

    /// The body's bytes.
    pub closed spec fn body_view(&self) -> Seq<u8> {
        self.body@
    }

    /// The request's invariant: the path and query string are those of the
    /// URI, and the headers are well formed.
    pub open spec fn wf(&self) -> bool {
        &&& self.headers_view().wf()
        &&& self.path_view() == split_uri(self.uri_view()).0
        &&& self.query_view() == split_uri(self.uri_view()).1
    }

    /// A request with the given method and URI, HTTP/1.1, no headers and an
    /// empty body.
    pub fn new(method: Method, uri: &str) -> (r: Self)
        ensures
            r.wf(),
            r.method_view() == method,
            r.uri_view() == uri@,
            r.version_view() == HttpVersion::Http11,
            r.headers_view()@.len() == 0,
            r.body_view().len() == 0,
    {
        let (path, query_string) = parse_uri(uri);
        Request {
            method,
            uri: uri.to_owned(),
            path,
            query_string,
            version: HttpVersion::Http11,
            headers: Headers::new(),
            body: Body::empty(),
        }
    }

    /// A builder.
    pub fn builder() -> (r: RequestBuilder)
        ensures
            r.wf(),
            r.method_view() == Method::GET,
            r.uri_view() == "/"@,
            r.version_view() == HttpVersion::Http11,
            r.headers_view()@.len() == 0,
            r.body_view().len() == 0,
    {
        RequestBuilder::new()
    }

    /// The method.
    pub fn method(&self) -> (r: Method)
        ensures
            r == self.method_view(),
    {
        self.method
    }

    /// The URI.
    pub fn uri(&self) -> (r: &str)
        ensures
            r@ == self.uri_view(),
    {
        self.uri.as_str()
    }

    /// The path.
    pub fn path(&self) -> (r: &str)
        ensures
            r@ == self.path_view(),
    {
        self.path.as_str()
    }

    /// The query string.
    pub fn query_string(&self) -> (r: Option<&str>)
        ensures
            match self.query_view() {
                Some(q) => r matches Some(x) && x@ == q,
                None => r is None,
            },
    {
        match &self.query_string {
            Some(q) => Some(q.as_str()),
            None => None,
        }
    }

    /// The version.
    pub fn version(&self) -> (r: HttpVersion)
        ensures
            r == self.version_view(),
    {
        self.version
    }

    /// The headers.
    pub fn headers(&self) -> (r: &Headers)
        ensures
            *r == self.headers_view(),
    {
        &self.headers
    }

    /// The body.
    pub fn body(&self) -> (r: &Body)
        ensures
            r@ == self.body_view(),
    {
        &self.body
    }

    /// The query parameters.
    pub fn query_params(&self) -> (r: QueryParams)
        ensures
            r@ == query_from(match self.query_view() { Some(q) => q, None => Seq::empty() }, 0, Seq::empty()),
    {
        match &self.query_string {
            Some(q) => parse_query_string(q.as_str()),
            None => {
                proof {
                    reveal_strlit("");
                }
                parse_query_string("")
            },
        }
    }

    /// The value of a query parameter.
    pub fn query(&self, name: &str) -> (r: Option<String>)
        ensures
            ({
                let ps = query_from(match self.query_view() { Some(q) => q, None => Seq::empty() }, 0, Seq::empty());
                &&& key_index(ps, name@, 0) >= 0 ==> (r matches Some(v) && v@ == ps[key_index(ps, name@, 0)].1)
                &&& key_index(ps, name@, 0) < 0 ==> r is None
            }),
    {
        let params = self.query_params();
        match params.get(name) {
            Some(v) => Some(v.as_str().to_owned()),
            None => None,
        }
    }

    /// Replaces the body.
    pub fn set_body(&mut self, body: Body)
        ensures
            final(self).body_view() == body@,
            final(self).method_view() == old(self).method_view(),
            final(self).uri_view() == old(self).uri_view(),
            final(self).path_view() == old(self).path_view(),
            final(self).query_view() == old(self).query_view(),
            final(self).headers_view() == old(self).headers_view(),
            final(self).version_view() == old(self).version_view(),
    {
        self.body = body;
    }
}

// ============================================================================
//                    REQUEST BUILDER
// ============================================================================

/// Builder for [`Request`].
pub struct RequestBuilder {
    method: Method,
    uri: String,
    version: HttpVersion,
    headers: Headers,
    body: Body,
}

impl RequestBuilder {
    /// The method set so far.
    pub closed spec fn method_view(&self) -> Method {
        self.method
    }

    /// The URI set so far.
    pub closed spec fn uri_view(&self) -> Seq<char> {
        self.uri@
    }

    /// The version set so far.
    pub closed spec fn version_view(&self) -> HttpVersion {
        self.version
    }

    /// The headers set so far.
    pub closed spec fn headers_view(&self) -> Headers {
        self.headers
    }

    /// The body set so far.
    pub closed spec fn body_view(&self) -> Seq<u8> {
        self.body@
    }

    /// The builder's invariant: its headers are well formed.
    pub open spec fn wf(&self) -> bool {
        self.headers_view().wf()
    }

    /// `GET /`, HTTP/1.1, no headers, empty body.
    pub fn new() -> (r: Self)
        ensures
            r.wf(),
            r.method_view() == Method::GET,
            r.uri_view() == "/"@,
            r.version_view() == HttpVersion::Http11,
            r.headers_view()@.len() == 0,
            r.body_view().len() == 0,
    {
        RequestBuilder {
            method: Method::GET,
            uri: "/".to_owned(),
            version: HttpVersion::Http11,
            headers: Headers::new(),
            body: Body::empty(),
        }
    }

    /// Sets the method.
    pub fn method(self, method: Method) -> (r: Self)
        ensures
            r.method_view() == method,
            r.uri_view() == self.uri_view(),
            r.version_view() == self.version_view(),
            r.headers_view() == self.headers_view(),
            r.body_view() == self.body_view(),
    {
        let mut s = self;
        s.method = method;
        s
    }

    /// Sets the method and the URI.
    fn method_uri(self, method: Method, uri: &str) -> (r: Self)
        ensures
            r.method_view() == method,
            r.uri_view() == uri@,
            r.version_view() == self.version_view(),
            r.headers_view() == self.headers_view(),
            r.body_view() == self.body_view(),
    {
        let mut s = self;
        s.method = method;
        s.uri = uri.to_owned();
        s
    }

    /// `GET` to `uri`.
    pub fn get(self, uri: &str) -> (r: Self)
        ensures
            r.method_view() == Method::GET,
            r.uri_view() == uri@,
            r.version_view() == self.version_view(),
            r.headers_view() == self.headers_view(),
            r.body_view() == self.body_view(),
    {
        self.method_uri(Method::GET, uri)
    }

    /// `POST` to `uri`.
    pub fn post(self, uri: &str) -> (r: Self)
        ensures
            r.method_view() == Method::POST,
            r.uri_view() == uri@,
            r.version_view() == self.version_view(),
            r.headers_view() == self.headers_view(),
            r.body_view() == self.body_view(),
    {
        self.method_uri(Method::POST, uri)
    }

    /// `PUT` to `uri`.
    pub fn put(self, uri: &str) -> (r: Self)
        ensures
            r.method_view() == Method::PUT,
            r.uri_view() == uri@,
            r.version_view() == self.version_view(),
            r.headers_view() == self.headers_view(),
            r.body_view() == self.body_view(),
    {
        self.method_uri(Method::PUT, uri)
    }

    /// `DELETE` to `uri`.
    pub fn delete(self, uri: &str) -> (r: Self)
        ensures
            r.method_view() == Method::DELETE,
            r.uri_view() == uri@,
            r.version_view() == self.version_view(),
            r.headers_view() == self.headers_view(),
            r.body_view() == self.body_view(),
    {
        self.method_uri(Method::DELETE, uri)
    }

    /// Sets the URI.
    pub fn uri(self, uri: &str) -> (r: Self)
        ensures
            r.method_view() == self.method_view(),
            r.uri_view() == uri@,
            r.version_view() == self.version_view(),
            r.headers_view() == self.headers_view(),
            r.body_view() == self.body_view(),
    {
        let mut s = self;
        s.uri = uri.to_owned();
        s
    }

    /// Sets the version.
    pub fn version(self, version: HttpVersion) -> (r: Self)
        ensures
            r.method_view() == self.method_view(),
            r.uri_view() == self.uri_view(),
            r.version_view() == version,
            r.headers_view() == self.headers_view(),
            r.body_view() == self.body_view(),
    {
        let mut s = self;
        s.version = version;
        s
    }

    /// Sets a header, replacing its values.
    pub fn header(self, name: &str, value: &str) -> (r: Self)
        requires
            self.wf(),
        ensures
            r.wf(),
            r.headers_view().values_of(lowercase_of(name@)) == Some(seq![value@]),
            forall|n: Seq<char>| n != lowercase_of(name@) ==> r.headers_view().values_of(n) == self.headers_view().values_of(n),
            r.method_view() == self.method_view(),
            r.uri_view() == self.uri_view(),
            r.version_view() == self.version_view(),
            r.body_view() == self.body_view(),
    {
        let mut s = self;
        s.headers.insert(name, value);
        s
    }

    /// Replaces all headers.
    pub fn headers(self, headers: Headers) -> (r: Self)
        ensures
            r.headers_view() == headers,
            r.method_view() == self.method_view(),
            r.uri_view() == self.uri_view(),
            r.version_view() == self.version_view(),
            r.body_view() == self.body_view(),
    {
        let mut s = self;
        s.headers = headers;
        s
    }

    /// Sets the body.
    pub fn body(self, body: Body) -> (r: Self)
        ensures
            r.body_view() == body@,
            r.method_view() == self.method_view(),
            r.uri_view() == self.uri_view(),
            r.version_view() == self.version_view(),
            r.headers_view() == self.headers_view(),
    {
        let mut s = self;
        s.body = body;
        s
    }

    /// The request; its path and query string are split off the URI.
    pub fn build(self) -> (r: Request)
        requires
            self.wf(),
        ensures
            r.wf(),
            r.method_view() == self.method_view(),
            r.uri_view() == self.uri_view(),
            r.version_view() == self.version_view(),
            r.headers_view() == self.headers_view(),
            r.body_view() == self.body_view(),
    {
        let (path, query_string) = parse_uri(self.uri.as_str());
        Request {
            method: self.method,
            uri: self.uri,
            path,
            query_string,
            version: self.version,
            headers: self.headers,
            body: self.body,
        }
    }
}

impl Default for RequestBuilder {
    fn default() -> (r: Self)
        ensures
            r.wf(),
            r.method_view() == Method::GET,
            r.uri_view() == "/"@,
            r.version_view() == HttpVersion::Http11,
            r.headers_view()@.len() == 0,
            r.body_view().len() == 0,
    {
        Self::new()
    }
}

// ============================================================================
//                    PARSING RAW REQUESTS
// ============================================================================

/// An error of the network library.
#[derive(Debug)]
pub enum NetError {
    /// Malformed input, with a message.
    Parse(String),
}

/// What the `Display` of `std::str::Utf8Error` writes for the first
/// invalid sequence in `bs`.
pub uninterp spec fn utf8_error_text(bs: Seq<u8>) -> Seq<char>;

/// `std::str::from_utf8`: the text of the bytes when they are valid UTF-8,
/// else the error's message; as its documentation states, it fails exactly
/// on invalid UTF-8.
#[verifier::external_body]
pub(crate) fn str_from_utf8(bs: &[u8]) -> (r: Result<&str, String>)
    ensures
        match r {
            Ok(s) => vstd::utf8::valid_utf8(bs@) && s@ == vstd::utf8::decode_utf8(bs@),
            Err(e) => !vstd::utf8::valid_utf8(bs@) && e@ == utf8_error_text(bs@),
        },
{
    match std::str::from_utf8(bs) {
        Ok(s) => Ok(s),
        Err(e) => Err(e.to_string()),
    }
}

/// The first index at or after `i` holding white space, or the end.
pub open spec fn word_end(s: Seq<char>, i: int) -> int
    decreases s.len() - i,
{
    if i < 0 || i >= s.len() || unicode_white_space(s[i]) {
        i
    } else {
        word_end(s, i + 1)
    }
}

/// The line of `s` that starts at `i`: up to the next `\n` (a `\r`
/// before it dropped), or to the end; and where the next line starts.
pub open spec fn line_at(s: Seq<char>, i: int) -> (Seq<char>, int) {
    match find_char_from(s, '\n', i) {
        Some(e) => {
            let raw = s.subrange(i, e);
            (if raw.len() > 0 && raw.last() == '\r' { raw.drop_last() } else { raw }, e + 1)
        },
        None => (s.subrange(i, s.len() as int), s.len() + 1int),
    }
}

/// The header lines of a request from index `i` on, up to the first empty
/// line: `Name: value` pairs, trimmed; lines without a colon give none.
pub open spec fn request_header_lines(s: Seq<char>, i: int) -> Seq<(Seq<char>, Seq<char>)>
    decreases s.len() + 1 - i,
{
    if i < 0 || i >= s.len() {
        Seq::empty()
    } else {
        let (line, next) = line_at(s, i);
        if line.len() == 0 {
            Seq::empty()
        } else {
            proof {
                crate::text::lemma_find_char_bounds(s, '\n', i);
            }
            let entry = match find_char_from(line, ':', 0) {
                Some(c) => seq![(trimmed(line.take(c)), trimmed(line.skip(c + 1)))],
                None => Seq::empty(),
            };
            entry + request_header_lines(s, next)
        }
    }
}

/// The values that header lines give a name, in order (the names compared
/// in lower case), or `None` when no line names it.
pub open spec fn values_from(entries: Seq<(Seq<char>, Seq<char>)>, n: Seq<char>) -> Option<Seq<Seq<char>>>
    decreases entries.len(),
{
    if entries.len() == 0 {
        None
    } else {
        let prev = values_from(entries.drop_last(), n);
        if lowercase_of(entries.last().0) == n {
            Some(match prev {
                Some(vs) => vs.push(entries.last().1),
                None => seq![entries.last().1],
            })
        } else {
            prev
        }
    }
}

/// The version named by the third word of a request line, if it is one.
pub open spec fn version_named(w: Seq<char>) -> Option<HttpVersion> {
    if w == "HTTP/1.0"@ {
        Some(HttpVersion::Http10)
    } else if w == "HTTP/1.1"@ {
        Some(HttpVersion::Http11)
    } else if w == "HTTP/2"@ || w == "HTTP/2.0"@ {
        Some(HttpVersion::Http2)
    } else {
        None
    }
}

/// A parsed request as plain values: method, URI, version, header lines.
pub type RequestParts = (Method, Seq<char>, HttpVersion, Seq<(Seq<char>, Seq<char>)>);

/// What the text of a request reads as: a request line of a method (any
/// letter case), a URI and an optional version (HTTP/1.1 when absent),
/// separated by white space, then header lines up to an empty line.
pub open spec fn request_outcome(s: Seq<char>) -> Result<RequestParts, Seq<char>> {
    if s.len() == 0 {
        Err("Empty request"@)
    } else {
        let (line, next) = line_at(s, 0);
        let a1 = trim_start_index(line, 0);
        let b1 = word_end(line, a1);
        let a2 = trim_start_index(line, b1);
        let b2 = word_end(line, a2);
        let a3 = trim_start_index(line, b2);
        let b3 = word_end(line, a3);
        if a1 >= line.len() {
            Err("Missing method"@)
        } else if method_named(uppercase_of(line.subrange(a1, b1))) is None {
            Err("Invalid method"@)
        } else if a2 >= line.len() {
            Err("Missing URI"@)
        } else if a3 < line.len() && version_named(line.subrange(a3, b3)) is None {
            Err("Unsupported HTTP version: "@ + line.subrange(a3, b3))
        } else {
            let version = if a3 < line.len() { version_named(line.subrange(a3, b3))->0 } else { HttpVersion::Http11 };
            Ok((
                method_named(uppercase_of(line.subrange(a1, b1)))->0,
                line.subrange(a2, b2),
                version,
                request_header_lines(s, next),
            ))
        }
    }
}

/// The index of the first white space at or after `from` in `v`, or its end.
fn word_end_in(v: &Vec<char>, from: usize) -> (r: usize)
    requires
        from <= v.len(),
    ensures
        r == word_end(v@, from as int),
        from <= r <= v.len(),
{
    let mut i = from;
    while i < v.len() && !char_is_whitespace(v[i])
        invariant
            from <= i <= v.len(),
            word_end(v@, from as int) == word_end(v@, i as int),
        decreases v.len() - i,
    {
        i = i + 1;
    }
    i
}

/// The line of `v` that starts at `i` and where the next one starts (see [`line_at`]).
fn line_in(v: &Vec<char>, i: usize) -> (r: (Vec<char>, usize))
    requires
        i <= v.len(),
    ensures
        r.0@ == line_at(v@, i as int).0,
        r.1 == line_at(v@, i as int).1 || (r.1 == v.len() && line_at(v@, i as int).1 == v.len() + 1),
        i < r.1 <= v.len() || r.1 == v.len(),
{
    match crate::text::find_char_in(v, '\n', i) {
        Some(e) => {
            let raw = subrange_vec(v, i, e);
            if raw.len() > 0 && raw[raw.len() - 1] == '\r' {
                let l = subrange_vec(&raw, 0, raw.len() - 1);
                proof {
                    assert(raw@.drop_last() =~= l@);
                }
                (l, e + 1)
            } else {
                (raw, e + 1)
            }
        },
        None => (subrange_vec(v, i, v.len()), v.len()),
    }
}

/// Parses an HTTP request from its raw bytes: they must be UTF-8, and read
/// as in [`request_outcome`]. The request's path and query string come from
/// its URI, its headers from the header lines, and its body is empty.
pub fn parse_request(data: &[u8]) -> (r: Result<Request, NetError>)
    ensures
        !vstd::utf8::valid_utf8(data@) ==> (r matches Err(NetError::Parse(m)) && m@ == "Invalid UTF-8: "@ + utf8_error_text(data@)),
        vstd::utf8::valid_utf8(data@) ==> match request_outcome(vstd::utf8::decode_utf8(data@)) {
            Err(msg) => r matches Err(NetError::Parse(m)) && m@ == msg,
            Ok(parts) => r matches Ok(req) && req.wf() && req.method_view() == parts.0
                && req.uri_view() == parts.1 && req.version_view() == parts.2
                && req.body_view().len() == 0
                && forall|n: Seq<char>| #[trigger] req.headers_view().values_of(n) == values_from(parts.3, n),
        },
{
    let text = match str_from_utf8(data) {
        Ok(t) => t,
        Err(e) => {
            return Err(NetError::Parse(String::from_str("Invalid UTF-8: ").concat(e.as_str())));
        },
    };
    let s = chars_of(text);
    if s.len() == 0 {
        return Err(NetError::Parse(String::from_str("Empty request")));
    }
    let (line, next) = line_in(&s, 0);
    let a1 = word_start_in(&line, 0);
    let b1 = word_end_in(&line, a1);
    let a2 = word_start_in(&line, b1);
    let b2 = word_end_in(&line, a2);
    let a3 = word_start_in(&line, b2);
    let b3 = word_end_in(&line, a3);
    if a1 >= line.len() {
        return Err(NetError::Parse(String::from_str("Missing method")));
    }
    let method_text = string_from_chars(subrange_vec(&line, a1, b1).as_slice());
    let method = match Method::parse(method_text.as_str()) {
        Some(m) => m,
        None => return Err(NetError::Parse(String::from_str("Invalid method"))),
    };
    if a2 >= line.len() {
        return Err(NetError::Parse(String::from_str("Missing URI")));
    }
    let uri = string_from_chars(subrange_vec(&line, a2, b2).as_slice());
    let version = if a3 < line.len() {
        let word = string_from_chars(subrange_vec(&line, a3, b3).as_slice());
        let w = word.as_str();
        if str_eq(w, "HTTP/1.0") {
            HttpVersion::Http10
        } else if str_eq(w, "HTTP/1.1") {
            HttpVersion::Http11
        } else if str_eq(w, "HTTP/2") || str_eq(w, "HTTP/2.0") {
            HttpVersion::Http2
        } else {
            return Err(NetError::Parse(String::from_str("Unsupported HTTP version: ").concat(w)));
        }
    } else {
        HttpVersion::Http11
    };
    let mut headers = Headers::new();
    let ghost total = request_header_lines(s@, line_at(s@, 0).1);
    let mut i = next;
    let ghost mut seen: Seq<(Seq<char>, Seq<char>)> = Seq::empty();
    let mut done = false;
    proof {
        if next == s.len() {
            assert(request_header_lines(s@, next as int) =~= Seq::<(Seq<char>, Seq<char>)>::empty());
            assert(request_header_lines(s@, s.len() + 1) =~= Seq::<(Seq<char>, Seq<char>)>::empty());
        }
        assert(seen + request_header_lines(s@, next as int) =~= total);
    }
    while !done && i < s.len()
        invariant
            i <= s.len(),
            s@ == text@,
            headers.wf(),
            forall|n: Seq<char>| #[trigger] headers.values_of(n) == values_from(seen, n),
            !done ==> seen + request_header_lines(s@, i as int) == total,
            done ==> seen == total,
        decreases (if done { 0 } else { s.len() + 1 - i }),
    {
        let (l, after) = line_in(&s, i);
        if l.len() == 0 {
            done = true;
            proof {
                assert(seen =~= seen + Seq::<(Seq<char>, Seq<char>)>::empty());
            }
        } else {
            let ghost prev = seen;
            match crate::text::find_char_in(&l, ':', 0) {
                Some(c) => {
                    let name = trim_chars(&subrange_vec(&l, 0, c));
                    let value = trim_chars(&subrange_vec(&l, c + 1, l.len()));
                    proof {
                        assert(l@.take(c as int) =~= l@.subrange(0, c as int));
                        assert(l@.skip(c + 1) =~= l@.subrange(c + 1, l.len() as int));
                    }
                    let ns = string_from_chars(name.as_slice());
                    let vs = string_from_chars(value.as_slice());
                    headers.append(ns.as_str(), vs.as_str());
                    proof {
                        seen = seen.push((name@, value@));
                        assert(seen.drop_last() =~= prev);
                    }
                },
                None => {},
            }
            if after >= s.len() {
                done = true;
                proof {
                    assert(request_header_lines(s@, line_at(s@, i as int).1) =~= Seq::<(Seq<char>, Seq<char>)>::empty());
                }
            } else {
                i = after;
            }
        }
    }
    proof {
        if !done {
            assert(request_header_lines(s@, i as int) =~= Seq::<(Seq<char>, Seq<char>)>::empty());
        }
    }
    let (path, query_string) = parse_uri(uri.as_str());
    Ok(Request { method, uri, path, query_string, version, headers, body: Body::empty() })
}

impl Request {
    /// The `Content-Type` header's first value, if any.
    pub fn content_type(&self) -> (r: Option<&str>)
        requires
            self.wf(),
        ensures
            r matches Some(s) ==> self.headers_view().values_of("content-type"@) matches Some(vs) && vs.len() > 0 && s@ == vs[0],
            self.headers_view().values_of("content-type"@) matches Some(vs) && vs.len() > 0 ==> r is Some,
    {
        self.headers.content_type()
    }

    /// The `Content-Length` header's first value as a number.
    pub fn content_length(&self) -> (r: Option<usize>)
        requires
            self.wf(),
        ensures
            r == (match self.headers_view().values_of("content-length"@) {
                Some(vs) => if vs.len() > 0 {
                    match crate::text::parsed_i64(vs[0]) {
                        Some(n) => Some(n as usize),
                        None => None,
                    }
                } else {
                    None
                },
                None => None,
            }),
    {
        self.headers.content_length()
    }

    /// The first value of the header named `key` (lower case).
    fn first_value(&self, key: &str) -> (r: Option<&str>)
        requires
            self.wf(),
            lower_ascii_text(key@),
        ensures
            r matches Some(s) ==> self.headers_view().values_of(key@) matches Some(vs) && vs.len() > 0 && s@ == vs[0],
            self.headers_view().values_of(key@) matches Some(vs) && vs.len() > 0 ==> r is Some,
    {
        let name = HeaderName::new(key);
        match self.headers.get_by_key(&name) {
            Some(v) => Some(v.as_str()),
            None => None,
        }
    }

    /// The `Host` header's first value, if any.
    pub fn host(&self) -> (r: Option<&str>)
        requires
            self.wf(),
        ensures
            r matches Some(s) ==> self.headers_view().values_of("host"@) matches Some(vs) && vs.len() > 0 && s@ == vs[0],
            self.headers_view().values_of("host"@) matches Some(vs) && vs.len() > 0 ==> r is Some,
    {
        proof {
            reveal_strlit("host");
        }
        self.first_value("host")
    }

    /// The `User-Agent` header's first value, if any.
    pub fn user_agent(&self) -> (r: Option<&str>)
        requires
            self.wf(),
        ensures
            r matches Some(s) ==> self.headers_view().values_of("user-agent"@) matches Some(vs) && vs.len() > 0 && s@ == vs[0],
            self.headers_view().values_of("user-agent"@) matches Some(vs) && vs.len() > 0 ==> r is Some,
    {
        proof {
            reveal_strlit("user-agent");
        }
        self.first_value("user-agent")
    }

    /// Whether the request asks to switch to WebSocket: its first `Upgrade`
    /// value is `websocket` in any ASCII case.
    pub fn is_websocket_upgrade(&self) -> (r: bool)
        requires
            self.wf(),
        ensures
            r == (self.headers_view().values_of("upgrade"@) matches Some(vs) && vs.len() > 0
                && crate::text::ascii_lower_seq(vs[0]) == crate::text::ascii_lower_seq("websocket"@)),
    {
        proof {
            reveal_strlit("upgrade");
        }
        match self.first_value("upgrade") {
            Some(v) => crate::text::eq_ignore_ascii_case(v, "websocket"),
            None => false,
        }
    }

    /// Takes the body out, leaving an empty one.
    pub fn take_body(&mut self) -> (r: Body)
        ensures
            r@ == old(self).body_view(),
            final(self).body_view().len() == 0,
            final(self).method_view() == old(self).method_view(),
            final(self).uri_view() == old(self).uri_view(),
            final(self).path_view() == old(self).path_view(),
            final(self).query_view() == old(self).query_view(),
            final(self).version_view() == old(self).version_view(),
            final(self).headers_view() == old(self).headers_view(),
    {
        let mut b = Body::empty();
        std::mem::swap(&mut b, &mut self.body);
        b
    }
}

/// `next_char` finds the first occurrence: from `k` on, the first index
/// holding `c`, or the length when none does.
pub proof fn lemma_next_char_first(s: Seq<char>, k: int, c: char, e: int)
    requires
        0 <= k <= e <= s.len(),
        forall|i: int| k <= i < e ==> s[i] != c,
        e == s.len() || s[e] == c,
    ensures
        next_char(s, k, c) == e,
    decreases e - k,
{
    if k < e {
        lemma_next_char_first(s, k + 1, c, e);
    }
}

/// A query made of one `key=value` piece (no `&`), split at its first `=`,
/// gives one parameter: the percent-decoded text before that `=` as the
/// key, and the percent-decoded text after it, to the end (further `=`
/// included), as the value.
pub proof fn lemma_query_single_pair(q: Seq<char>, e: int)
    requires
        0 <= e < q.len(),
        q[e] == '=',
        forall|i: int| 0 <= i < e ==> q[i] != '=',
        forall|i: int| 0 <= i < q.len() ==> q[i] != '&',
    ensures
        query_from(q, 0, Seq::empty())
            == seq![(url_decoded(q.subrange(0, e), 0), url_decoded(q.subrange(e + 1, q.len() as int), 0))],
{
    lemma_next_char_first(q, 0, '&', q.len() as int);
    let piece = q.subrange(0, q.len() as int);
    assert(piece =~= q);
    lemma_next_char_first(piece, 0, '=', e);
    let empty = Seq::<(Seq<char>, Seq<char>)>::empty();
    assert(key_index(empty, url_decoded(q.subrange(0, e), 0), 0) == -1);
}

} // verus!
