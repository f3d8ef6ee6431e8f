//! HTTP methods, status codes and headers.

use vstd::prelude::*;
use vstd::string::StringSliceAdditionalSpecFns;
use crate::text::{
    lowercase_of, lower_ascii_text, parse_i64, parsed_i64, str_eq, to_lowercase, to_uppercase, u64_to_decimal,
    uppercase_of, decimal_digits,
};

verus! {

// ============================================================================
//                    HTTP METHOD
// ============================================================================

/// HTTP method.
#[derive(Debug, Clone, Copy, PartialEq, Eq, Hash, Structural)]
pub enum Method {
    GET,
    POST,
    PUT,
    DELETE,
    PATCH,
    HEAD,
    OPTIONS,
    CONNECT,
    TRACE,
}

/// The name of a method, as it stands in a request line.
pub open spec fn method_name(m: Method) -> Seq<char> {
    match m {
        Method::GET => "GET"@,
        Method::POST => "POST"@,
        Method::PUT => "PUT"@,
        Method::DELETE => "DELETE"@,
        Method::PATCH => "PATCH"@,
        Method::HEAD => "HEAD"@,
        Method::OPTIONS => "OPTIONS"@,
        Method::CONNECT => "CONNECT"@,
        Method::TRACE => "TRACE"@,
    }
}

/// The method with the given (upper-case) name.
pub open spec fn method_named(s: Seq<char>) -> Option<Method> {
    if s == "GET"@ {
        Some(Method::GET)
    } else if s == "POST"@ {
        Some(Method::POST)
    } else if s == "PUT"@ {
        Some(Method::PUT)
    } else if s == "DELETE"@ {
        Some(Method::DELETE)
    } else if s == "PATCH"@ {
        Some(Method::PATCH)
    } else if s == "HEAD"@ {
        Some(Method::HEAD)
    } else if s == "OPTIONS"@ {
        Some(Method::OPTIONS)
    } else if s == "CONNECT"@ {
        Some(Method::CONNECT)
    } else if s == "TRACE"@ {
        Some(Method::TRACE)
    } else {
        None
    }
}

impl Method {
    /// Whether a request with this method may carry a body.
    pub fn has_body(&self) -> (r: bool)
        ensures
            r == (*self == Method::POST || *self == Method::PUT || *self == Method::PATCH),
    {
        matches!(self, Method::POST | Method::PUT | Method::PATCH)
    }

    /// Whether repeating the request has the effect of doing it once.
    pub fn is_idempotent(&self) -> (r: bool)
        ensures
            r == !(*self == Method::POST || *self == Method::PATCH),
    {
        !matches!(self, Method::POST | Method::PATCH)
    }

    /// Whether the method leaves resources unchanged.
    pub fn is_safe(&self) -> (r: bool)
        ensures
            r == (*self == Method::GET || *self == Method::HEAD || *self == Method::OPTIONS
                || *self == Method::TRACE),
    {
        matches!(self, Method::GET | Method::HEAD | Method::OPTIONS | Method::TRACE)
    }

    /// The method's name.
    pub fn as_str(&self) -> (r: &'static str)
        ensures
            r@ == method_name(*self),
    {
        match self {
            Method::GET => "GET",
            Method::POST => "POST",
            Method::PUT => "PUT",
            Method::DELETE => "DELETE",
            Method::PATCH => "PATCH",
            Method::HEAD => "HEAD",
            Method::OPTIONS => "OPTIONS",
            Method::CONNECT => "CONNECT",
            Method::TRACE => "TRACE",
        }
    }

    /// The method named by `s`, in any letter case.
    pub fn parse(s: &str) -> (r: Option<Method>)
        ensures
            r == method_named(uppercase_of(s@)),
    {
        let u = to_uppercase(s);
        let u = u.as_str();
        if str_eq(u, "GET") {
            Some(Method::GET)
        } else if str_eq(u, "POST") {
            Some(Method::POST)
        } else if str_eq(u, "PUT") {
            Some(Method::PUT)
        } else if str_eq(u, "DELETE") {
            Some(Method::DELETE)
        } else if str_eq(u, "PATCH") {
            Some(Method::PATCH)
        } else if str_eq(u, "HEAD") {
            Some(Method::HEAD)
        } else if str_eq(u, "OPTIONS") {
            Some(Method::OPTIONS)
        } else if str_eq(u, "CONNECT") {
            Some(Method::CONNECT)
        } else if str_eq(u, "TRACE") {
            Some(Method::TRACE)
        } else {
            None
        }
    }
}

impl core::str::FromStr for Method {
    type Err = ();

    /// The method named by `s`, in any letter case; `Err(())` for any
    /// other text.
    fn from_str(s: &str) -> (r: Result<Self, Self::Err>)
        ensures
            r == match method_named(uppercase_of(s@)) {
                Some(m) => Ok::<Method, ()>(m),
                None => Err::<Method, ()>(()),
            },
    {
        match Method::parse(s) {
            Some(m) => Ok(m),
            None => Err(()),
        }
    }
}

// ============================================================================
//                    HTTP STATUS CODE
// ============================================================================

/// HTTP status code.
#[derive(Debug, Clone, Copy, PartialEq, Eq, Hash, Structural)]
pub struct StatusCode(pub u16);

/// The reason phrase of a status code (`"Unknown"` for codes without one).
pub open spec fn reason_phrase(code: u16) -> Seq<char> {
    if code == 100 { "Continue"@ }
    else if code == 101 { "Switching Protocols"@ }
    else if code == 102 { "Processing"@ }
    else if code == 200 { "OK"@ }
    else if code == 201 { "Created"@ }
    else if code == 202 { "Accepted"@ }
    else if code == 204 { "No Content"@ }
    else if code == 206 { "Partial Content"@ }
    else if code == 301 { "Moved Permanently"@ }
    else if code == 302 { "Found"@ }
    else if code == 303 { "See Other"@ }
    else if code == 304 { "Not Modified"@ }
    else if code == 307 { "Temporary Redirect"@ }
    else if code == 308 { "Permanent Redirect"@ }
    else if code == 400 { "Bad Request"@ }
    else if code == 401 { "Unauthorized"@ }
    else if code == 403 { "Forbidden"@ }
    else if code == 404 { "Not Found"@ }
    else if code == 405 { "Method Not Allowed"@ }
    else if code == 409 { "Conflict"@ }
    else if code == 410 { "Gone"@ }
    else if code == 422 { "Unprocessable Entity"@ }
    else if code == 429 { "Too Many Requests"@ }
    else if code == 500 { "Internal Server Error"@ }
    else if code == 501 { "Not Implemented"@ }
    else if code == 502 { "Bad Gateway"@ }
    else if code == 503 { "Service Unavailable"@ }
    else if code == 504 { "Gateway Timeout"@ }
    else { "Unknown"@ }
}

impl StatusCode {
    /// The numeric code.
    pub fn code(&self) -> (r: u16)
        ensures
            r == self.0,
    {
        self.0
    }

    /// The reason phrase.
    pub fn reason(&self) -> (r: &'static str)
        ensures
            r@ == reason_phrase(self.0),
    {
        match self.0 {
            100 => "Continue",
            101 => "Switching Protocols",
            102 => "Processing",
            200 => "OK",
            201 => "Created",
            202 => "Accepted",
            204 => "No Content",
            206 => "Partial Content",
            301 => "Moved Permanently",
            302 => "Found",
            303 => "See Other",
            304 => "Not Modified",
            307 => "Temporary Redirect",
            308 => "Permanent Redirect",
            400 => "Bad Request",
            401 => "Unauthorized",
            403 => "Forbidden",
            404 => "Not Found",
            405 => "Method Not Allowed",
            409 => "Conflict",
            410 => "Gone",
            422 => "Unprocessable Entity",
            429 => "Too Many Requests",
            500 => "Internal Server Error",
            501 => "Not Implemented",
            502 => "Bad Gateway",
            503 => "Service Unavailable",
            504 => "Gateway Timeout",
            _ => "Unknown",
        }
    }

    /// Whether the code is in `200..300`.
    pub fn is_success(&self) -> (r: bool)
        ensures
            r == (200 <= self.0 < 300),
    {
        200 <= self.0 && self.0 < 300
    }

    /// Whether the code is in `300..400`.
    pub fn is_redirect(&self) -> (r: bool)
        ensures
            r == (300 <= self.0 < 400),
    {
        300 <= self.0 && self.0 < 400
    }

    /// Whether the code is in `400..500`.
    pub fn is_client_error(&self) -> (r: bool)
        ensures
            r == (400 <= self.0 < 500),
    {
        400 <= self.0 && self.0 < 500
    }

    /// Whether the code is in `500..600`.
    pub fn is_server_error(&self) -> (r: bool)
        ensures
            r == (500 <= self.0 < 600),
    {
        500 <= self.0 && self.0 < 600
    }
}

impl From<u16> for StatusCode {
    fn from(code: u16) -> (r: Self) {
        StatusCode(code)
    }
}

impl vstd::std_specs::convert::FromSpecImpl<u16> for StatusCode {
    open spec fn obeys_from_spec() -> bool {
        true
    }

    open spec fn from_spec(code: u16) -> Self {
        StatusCode(code)
    }
}

// ============================================================================
//                    HEADERS
// ============================================================================

/// Header name; stored in lower case, so names compare case-insensitively.
#[derive(Debug, Clone, PartialEq, Eq, Hash)]
pub struct HeaderName(String);

impl View for HeaderName {
    type V = Seq<char>;

    closed spec fn view(&self) -> Seq<char> {
        self.0@
    }
}

impl HeaderName {
    /// The name, lowered.
    pub fn new(name: &str) -> (r: Self)
        ensures
            r@ == lowercase_of(name@),
            lower_ascii_text(name@) ==> r@ == name@,
    {
        HeaderName(to_lowercase(name))
    }

    /// The stored (lower-case) name.
    pub fn as_str(&self) -> (r: &str)
        ensures
            r@ == self@,
    {
        self.0.as_str()
    }
}

/// Header value.
#[derive(Debug, Clone, PartialEq, Eq)]
pub struct HeaderValue(String);

impl View for HeaderValue {
    type V = Seq<char>;

    closed spec fn view(&self) -> Seq<char> {
        self.0@
    }
}

impl HeaderValue {
    /// A value holding `value` as it is.
    pub fn new(value: &str) -> (r: Self)
        ensures
            r@ == value@,
    {
        HeaderValue(value.to_owned())
    }

    /// A value holding `value`.
    pub fn from_string(value: String) -> (r: Self)
        ensures
            r@ == value@,
    {
        HeaderValue(value)
    }

    /// The value's text.
    pub fn as_str(&self) -> (r: &str)
        ensures
            r@ == self@,
    {
        self.0.as_str()
    }

    /// The value's UTF-8 bytes.
    pub fn as_bytes(&self) -> (r: &[u8])
        ensures
            r@ == vstd::utf8::encode_utf8(self@),
    {
        self.0.as_str().as_bytes()
    }

    /// The value as an integer, when it is one.
    pub fn to_int(&self) -> (r: Option<i64>)
        ensures
            r == parsed_i64(self@),
    {
        parse_i64(self.0.as_str())
    }
}

/// One header: its name and its values in the order they were added.
pub type HeaderEntry = (HeaderName, Vec<HeaderValue>);

/// The view of a header entry.
pub open spec fn entry_view(e: HeaderEntry) -> (Seq<char>, Seq<Seq<char>>) {
    (e.0@, e.1@.map_values(|v: HeaderValue| v@))
}

/// The index of the entry named `name`, if any.
pub open spec fn find_entry(entries: Seq<(Seq<char>, Seq<Seq<char>>)>, name: Seq<char>) -> Option<int> {
    if exists|i: int| 0 <= i < entries.len() && entries[i].0 == name {
        Some(choose|i: int| 0 <= i < entries.len() && entries[i].0 == name)
    } else {
        None
    }
}

/// The values of the entry named `name`, if any.
pub open spec fn lookup(entries: Seq<(Seq<char>, Seq<Seq<char>>)>, name: Seq<char>) -> Option<Seq<Seq<char>>> {
    match find_entry(entries, name) {
        Some(i) => Some(entries[i].1),
        None => None,
    }
}

/// The entries with `name` set to the single value `v`: its entry
/// replaced in place, or a new entry at the end.
pub open spec fn put_entry(entries: Seq<(Seq<char>, Seq<Seq<char>>)>, name: Seq<char>, v: Seq<char>) -> Seq<(Seq<char>, Seq<Seq<char>>)> {
    match find_entry(entries, name) {
        Some(i) => entries.update(i, (name, seq![v])),
        None => entries.push((name, seq![v])),
    }
}

/// Whether no two entries share a name.
pub open spec fn distinct_names(entries: Seq<(Seq<char>, Seq<Seq<char>>)>) -> bool {
    forall|i: int, j: int| 0 <= i < j < entries.len() ==> entries[i].0 != entries[j].0
}

/// Collection of HTTP headers: each (lower-case) name once, with its values.
#[derive(Debug, Clone)]
pub struct Headers {
    inner: Vec<HeaderEntry>,
}

impl View for Headers {
    type V = Seq<(Seq<char>, Seq<Seq<char>>)>;

    closed spec fn view(&self) -> Seq<(Seq<char>, Seq<Seq<char>>)> {
        self.inner@.map_values(|e: HeaderEntry| entry_view(e))
    }
}

impl Headers {
    /// The headers' invariant: no name occurs twice.
    pub open spec fn wf(&self) -> bool {
        distinct_names(self@)
    }

    /// The values stored for `name` (lower-case), if any.
    pub open spec fn values_of(&self, name: Seq<char>) -> Option<Seq<Seq<char>>> {
        lookup(self@, name)
    }

    /// An empty collection.
    pub fn new() -> (r: Self)
        ensures
            r.wf(),
            r@ == Seq::<(Seq<char>, Seq<Seq<char>>)>::empty(),
    {
        let r = Headers { inner: Vec::new() };
        proof {
            assert(r@ =~= Seq::<(Seq<char>, Seq<Seq<char>>)>::empty());
        }
        r
    }

    /// Index of the entry with the given (already lowered) name.
    fn position(&self, name: &HeaderName) -> (r: Option<usize>)
        ensures
            match r {
                Some(i) => i < self@.len() && self@[i as int].0 == name@,
                None => forall|j: int| 0 <= j < self@.len() ==> self@[j].0 != name@,
            },
    {
        let mut i: usize = 0;
        while i < self.inner.len()
            invariant
                i <= self.inner.len(),
                self@.len() == self.inner.len(),
                forall|j: int| 0 <= j < i ==> self@[j].0 != name@,
            decreases self.inner.len() - i,
        {
            proof {
                assert(self@[i as int] == entry_view(self.inner@[i as int]));
            }
            if str_eq(self.inner[i].0.as_str(), name.as_str()) {
                return Some(i);
            }
            i = i + 1;
        }
        None
    }

    /// Adds a value; a name may carry several.
    pub fn append(&mut self, name: &str, value: &str)
        requires
            old(self).wf(),
        ensures
            final(self).wf(),
            final(self).values_of(lowercase_of(name@)) == Some(
                match old(self).values_of(lowercase_of(name@)) {
                    Some(vs) => vs.push(value@),
                    None => seq![value@],
                }),
            forall|n: Seq<char>| n != lowercase_of(name@) ==> final(self).values_of(n) == old(self).values_of(n),
    {
        let key = HeaderName::new(name);
        let v = HeaderValue::new(value);
        self.append_value(key, v);
    }

    pub fn append_value(&mut self, key: HeaderName, v: HeaderValue)
        requires
            old(self).wf(),
        ensures
            final(self).wf(),
            final(self).values_of(key@) == Some(
                match old(self).values_of(key@) {
                    Some(vs) => vs.push(v@),
                    None => seq![v@],
                }),
            forall|n: Seq<char>| n != key@ ==> final(self).values_of(n) == old(self).values_of(n),
    {
        let ghost old_view = self@;
        match self.position(&key) {
            Some(i) => {
                let mut entry = self.inner.remove(i);
                let ghost old_values = entry.1@;
                entry.1.push(v);
                self.inner.insert(i, entry);
                proof {
                    assert(entry.1@.map_values(|x: HeaderValue| x@) =~= old_values.map_values(|x: HeaderValue| x@).push(v@));
                    assert(self@ =~= old_view.update(i as int, (key@, old_view[i as int].1.push(v@))));
                    lemma_find_unique(old_view, key@, i as int);
                    lemma_update_keeps_names(old_view, i as int, old_view[i as int].1.push(v@));
                    lemma_find_unique(self@, key@, i as int);
                    assert forall|n: Seq<char>| n != key@ implies #[trigger] lookup(self@, n) == lookup(old_view, n) by {
                        lemma_find_other_update(old_view, i as int, old_view[i as int].1.push(v@), n);
                    }
                }
            },
            None => {
                let ghost vv = v@;
                let mut values: Vec<HeaderValue> = Vec::new();
                values.push(v);
                let ghost kv = key@;
                self.inner.push((key, values));
                proof {
                    assert(values@.map_values(|x: HeaderValue| x@) =~= seq![vv]);
                    assert(self@ =~= old_view.push((kv, seq![vv])));
                    lemma_push_new(old_view, kv, seq![vv]);
                }
            },
        }
    }

    /// Sets a header, replacing all values it had.
    pub fn insert(&mut self, name: &str, value: &str)
        requires
            old(self).wf(),
        ensures
            final(self).wf(),
            final(self).values_of(lowercase_of(name@)) == Some(seq![value@]),
            forall|n: Seq<char>| n != lowercase_of(name@) ==> final(self).values_of(n) == old(self).values_of(n),
            final(self)@.len() == old(self)@.len() + (if old(self).values_of(lowercase_of(name@)) is Some { 0int } else { 1int }),
            final(self)@ == put_entry(old(self)@, lowercase_of(name@), value@),
            lower_ascii_text(name@) ==> final(self)@ == put_entry(old(self)@, name@, value@),
    {
        let key = HeaderName::new(name);
        let v = HeaderValue::new(value);
        self.insert_value(key, v);
    }

    pub fn insert_value(&mut self, key: HeaderName, v: HeaderValue)
        requires
            old(self).wf(),
        ensures
            final(self).wf(),
            final(self).values_of(key@) == Some(seq![v@]),
            forall|n: Seq<char>| n != key@ ==> final(self).values_of(n) == old(self).values_of(n),
            final(self)@.len() == old(self)@.len() + (if old(self).values_of(key@) is Some { 0int } else { 1int }),
            final(self)@ == put_entry(old(self)@, key@, v@),
    {
        let ghost old_view = self@;
        let ghost vv = v@;
        let ghost kv = key@;
        let mut values: Vec<HeaderValue> = Vec::new();
        values.push(v);
        proof {
            assert(values@.map_values(|x: HeaderValue| x@) =~= seq![vv]);
        }
        match self.position(&key) {
            Some(i) => {
                self.inner.set(i, (key, values));
                proof {
                    assert(self@ =~= old_view.update(i as int, (kv, seq![vv])));
                    lemma_update_keeps_names(old_view, i as int, seq![vv]);
                    lemma_find_unique(self@, kv, i as int);
                    assert forall|n: Seq<char>| n != kv implies #[trigger] lookup(self@, n) == lookup(old_view, n) by {
                        lemma_find_other_update(old_view, i as int, seq![vv], n);
                    }
                }
            },
            None => {
                self.inner.push((key, values));
                proof {
                    assert(self@ =~= old_view.push((kv, seq![vv])));
                    lemma_push_new(old_view, kv, seq![vv]);
                }
            },
        }
    }

    /// The first value of a header.
    pub fn get(&self, name: &str) -> (r: Option<&HeaderValue>)
        requires
            self.wf(),
        ensures
            match self.values_of(lowercase_of(name@)) {
                Some(vs) => vs.len() > 0 ==> (r matches Some(v) && v@ == vs[0]),
                None => r is None,
            },
            r matches Some(v) ==> self.values_of(lowercase_of(name@)) matches Some(vs) && vs.len() > 0 && v@ == vs[0],
    {
        let key = HeaderName::new(name);
        self.get_by_key(&key)
    }

    /// The first value stored under a (lowered) name.
    pub fn get_by_key(&self, key: &HeaderName) -> (r: Option<&HeaderValue>)
        requires
            self.wf(),
        ensures
            match self.values_of(key@) {
                Some(vs) => vs.len() > 0 ==> (r matches Some(v) && v@ == vs[0]),
                None => r is None,
            },
            r matches Some(v) ==> self.values_of(key@) matches Some(vs) && vs.len() > 0 && v@ == vs[0],
    {
        match self.position(key) {
            Some(i) => {
                proof {
                    lemma_find_unique(self@, key@, i as int);
                    assert(self@[i as int] == entry_view(self.inner@[i as int]));
                }
                if self.inner[i].1.len() > 0 {
                    Some(&self.inner[i].1[0])
                } else {
                    None
                }
            },
            None => None,
        }
    }

    /// All values of a header.
    pub fn get_all(&self, name: &str) -> (r: Option<&Vec<HeaderValue>>)
        requires
            self.wf(),
        ensures
            match self.values_of(lowercase_of(name@)) {
                Some(vs) => r matches Some(v) && v@.map_values(|x: HeaderValue| x@) == vs,
                None => r is None,
            },
    {
        let key = HeaderName::new(name);
        match self.position(&key) {
            Some(i) => {
                proof {
                    lemma_find_unique(self@, key@, i as int);
                    assert(self@[i as int] == entry_view(self.inner@[i as int]));
                }
                Some(&self.inner[i].1)
            },
            None => None,
        }
    }

    /// Whether a header is present.
    pub fn contains(&self, name: &str) -> (r: bool)
        requires
            self.wf(),
        ensures
            r == (self.values_of(lowercase_of(name@)) is Some),
            lower_ascii_text(name@) ==> r == (self.values_of(name@) is Some),
    {
        let key = HeaderName::new(name);
        match self.position(&key) {
            Some(i) => {
                proof {
                    lemma_find_unique(self@, key@, i as int);
                }
                true
            },
            None => false,
        }
    }

    /// Removes a header, returning its values.
    pub fn remove(&mut self, name: &str) -> (r: Option<Vec<HeaderValue>>)
        requires
            old(self).wf(),
        ensures
            final(self).wf(),
            final(self).values_of(lowercase_of(name@)) is None,
            forall|n: Seq<char>| n != lowercase_of(name@) ==> final(self).values_of(n) == old(self).values_of(n),
            match old(self).values_of(lowercase_of(name@)) {
                Some(vs) => r matches Some(v) && v@.map_values(|x: HeaderValue| x@) == vs,
                None => r is None,
            },
    {
        let key = HeaderName::new(name);
        let ghost old_view = self@;
        match self.position(&key) {
            Some(i) => {
                proof {
                    lemma_find_unique(old_view, key@, i as int);
                    assert(old_view[i as int] == entry_view(self.inner@[i as int]));
                }
                let entry = self.inner.remove(i);
                proof {
                    assert(self@ =~= old_view.remove(i as int));
                    lemma_remove_entry(old_view, i as int);
                }
                Some(entry.1)
            },
            None => None,
        }
    }

    /// Number of distinct header names.
    pub fn len(&self) -> (r: usize)
        ensures
            r == self@.len(),
    {
        self.inner.len()
    }

    /// Whether there are no headers.
    pub fn is_empty(&self) -> (r: bool)
        ensures
            r == (self@.len() == 0),
    {
        self.inner.len() == 0
    }

    /// The headers with their values.
    pub fn iter(&self) -> (r: &[HeaderEntry])
        ensures
            r@.map_values(|e: HeaderEntry| entry_view(e)) == self@,
    {
        self.inner.as_slice()
    }

    /// The `Content-Type` header's first value.
    pub fn content_type(&self) -> (r: Option<&str>)
        requires
            self.wf(),
        ensures
            r matches Some(s) ==> self.values_of("content-type"@) matches Some(vs) && vs.len() > 0 && s@ == vs[0],
            self.values_of("content-type"@) matches Some(vs) && vs.len() > 0 ==> r is Some,
    {
        let key = HeaderName::new("content-type");
        proof {
            reveal_strlit("content-type");
        }
        match self.get_by_key(&key) {
            Some(v) => Some(v.as_str()),
            None => None,
        }
    }

    /// The `Content-Length` header's first value as a number (as `i64`
    /// converted to `usize` the way `as` does).
    pub fn content_length(&self) -> (r: Option<usize>)
        requires
            self.wf(),
        ensures
            r == (match self.values_of("content-length"@) {
                Some(vs) => if vs.len() > 0 {
                    match parsed_i64(vs[0]) {
                        Some(n) => Some(n as usize),
                        None => None,
                    }
                } else {
                    None
                },
                None => None,
            }),
    {
        let key = HeaderName::new("content-length");
        proof {
            reveal_strlit("content-length");
        }
        match self.get_by_key(&key) {
            Some(v) => match v.to_int() {
                Some(n) => Some(n as usize),
                None => None,
            },
            None => None,
        }
    }

    /// Sets `Content-Type`.
    pub fn set_content_type(&mut self, mime: &str)
        requires
            old(self).wf(),
        ensures
            final(self).wf(),
            final(self).values_of("content-type"@) == Some(seq![mime@]),
            forall|n: Seq<char>| n != "content-type"@ ==> final(self).values_of(n) == old(self).values_of(n),
            final(self)@.len() == old(self)@.len() + (if old(self).values_of("content-type"@) is Some { 0int } else { 1int }),
    {
        let key = HeaderName::new("content-type");
        proof {
            reveal_strlit("content-type");
        }
        self.insert_value(key, HeaderValue::new(mime));
    }

    /// Sets `Content-Length` to the decimal text of `len`.
    pub fn set_content_length(&mut self, len: usize)
        requires
            old(self).wf(),
        ensures
            final(self).wf(),
            final(self).values_of("content-length"@) == Some(seq![decimal_digits(len as nat)]),
            forall|n: Seq<char>| n != "content-length"@ ==> final(self).values_of(n) == old(self).values_of(n),
            final(self)@ == put_entry(old(self)@, "content-length"@, decimal_digits(len as nat)),
    {
        let key = HeaderName::new("content-length");
        proof {
            reveal_strlit("content-length");
        }
        let text = u64_to_decimal(len as u64);
        self.insert_value(key, HeaderValue::from_string(text));
    }
}

/// The entry found for a name is the one that has it.
pub proof fn lemma_find_unique(s: Seq<(Seq<char>, Seq<Seq<char>>)>, k: Seq<char>, i: int)
    requires
        distinct_names(s),
        0 <= i < s.len(),
        s[i].0 == k,
    ensures
        find_entry(s, k) == Some(i),
        lookup(s, k) == Some(s[i].1),
{
    let j = choose|j: int| 0 <= j < s.len() && s[j].0 == k;
    if j != i {
        if j < i {
            assert(s[j].0 != s[i].0);
        } else {
            assert(s[i].0 != s[j].0);
        }
    }
}

/// Changing the values of one entry keeps the names distinct.
pub proof fn lemma_update_keeps_names(s: Seq<(Seq<char>, Seq<Seq<char>>)>, i: int, vs: Seq<Seq<char>>)
    requires
        distinct_names(s),
        0 <= i < s.len(),
    ensures
        distinct_names(s.update(i, (s[i].0, vs))),
{
    let t = s.update(i, (s[i].0, vs));
    assert forall|a: int, b: int| 0 <= a < b < t.len() implies t[a].0 != t[b].0 by {
        assert(t[a].0 == s[a].0);
        assert(t[b].0 == s[b].0);
    }
}

/// Changing the values of one entry leaves the lookup of other names alone.
pub proof fn lemma_find_other_update(s: Seq<(Seq<char>, Seq<Seq<char>>)>, i: int, vs: Seq<Seq<char>>, n: Seq<char>)
    requires
        distinct_names(s),
        0 <= i < s.len(),
        n != s[i].0,
    ensures
        lookup(s.update(i, (s[i].0, vs)), n) == lookup(s, n),
{
    let t = s.update(i, (s[i].0, vs));
    lemma_update_keeps_names(s, i, vs);
    if exists|j: int| 0 <= j < s.len() && s[j].0 == n {
        let j = choose|j: int| 0 <= j < s.len() && s[j].0 == n;
        assert(t[j].0 == n);
        lemma_find_unique(s, n, j);
        lemma_find_unique(t, n, j);
    } else {
        assert forall|j: int| 0 <= j < t.len() implies t[j].0 != n by {
            assert(t[j].0 == s[j].0);
        }
    }
}

/// Adding an entry under a new name keeps the names distinct and the
/// lookup of every other name.
pub proof fn lemma_push_new(s: Seq<(Seq<char>, Seq<Seq<char>>)>, k: Seq<char>, vs: Seq<Seq<char>>)
    requires
        distinct_names(s),
        forall|j: int| 0 <= j < s.len() ==> s[j].0 != k,
    ensures
        distinct_names(s.push((k, vs))),
        lookup(s.push((k, vs)), k) == Some(vs),
        forall|n: Seq<char>| n != k ==> #[trigger] lookup(s.push((k, vs)), n) == lookup(s, n),
{
    let t = s.push((k, vs));
    assert forall|a: int, b: int| 0 <= a < b < t.len() implies t[a].0 != t[b].0 by {
        if b < s.len() {
            assert(t[a].0 == s[a].0 && t[b].0 == s[b].0);
        } else {
            assert(t[a].0 == s[a].0);
        }
    }
    lemma_find_unique(t, k, s.len() as int);
    assert forall|n: Seq<char>| n != k implies #[trigger] lookup(t, n) == lookup(s, n) by {
        if exists|j: int| 0 <= j < s.len() && s[j].0 == n {
            let j = choose|j: int| 0 <= j < s.len() && s[j].0 == n;
            lemma_find_unique(s, n, j);
            assert(t[j] == s[j]);
            lemma_find_unique(t, n, j);
        } else {
            assert forall|j: int| 0 <= j < t.len() implies t[j].0 != n by {
                if j < s.len() {
                    assert(t[j] == s[j]);
                }
            }
        }
    }
}

/// Removing an entry keeps the names distinct, drops its name, and keeps the
/// lookup of every other name.
pub proof fn lemma_remove_entry(s: Seq<(Seq<char>, Seq<Seq<char>>)>, i: int)
    requires
        distinct_names(s),
        0 <= i < s.len(),
    ensures
        distinct_names(s.remove(i)),
        lookup(s.remove(i), s[i].0) is None,
        forall|n: Seq<char>| n != s[i].0 ==> #[trigger] lookup(s.remove(i), n) == lookup(s, n),
{
    let t = s.remove(i);
    assert forall|j: int| 0 <= j < t.len() implies #[trigger] t[j] == (if j < i { s[j] } else { s[j + 1] }) by {}
    assert forall|a: int, b: int| 0 <= a < b < t.len() implies t[a].0 != t[b].0 by {
        let a2 = if a < i { a } else { a + 1 };
        let b2 = if b < i { b } else { b + 1 };
        assert(t[a] == s[a2] && t[b] == s[b2]);
        assert(a2 < b2);
    }
    assert forall|j: int| 0 <= j < t.len() implies t[j].0 != s[i].0 by {
        let j2 = if j < i { j } else { j + 1 };
        assert(t[j] == s[j2]);
        if j2 < i {
            assert(s[j2].0 != s[i].0);
        } else {
            assert(s[i].0 != s[j2].0);
        }
    }
    assert forall|n: Seq<char>| n != s[i].0 implies #[trigger] lookup(t, n) == lookup(s, n) by {
        if exists|j: int| 0 <= j < s.len() && s[j].0 == n {
            let j = choose|j: int| 0 <= j < s.len() && s[j].0 == n;
            lemma_find_unique(s, n, j);
            let j2 = if j < i { j } else { j - 1 };
            assert(t[j2] == s[j]);
            lemma_find_unique(t, n, j2);
        } else {
            assert forall|j: int| 0 <= j < t.len() implies t[j].0 != n by {
                let j2 = if j < i { j } else { j + 1 };
                assert(t[j] == s[j2]);
            }
        }
    }
}

} // verus!
