//! HTTP responses, their builder, and cookie options.

use vstd::prelude::*;
use vstd::string::StringExecFns;
use vstd::string::StringSliceAdditionalSpecFns;
use crate::text::{decimal_digits, i64_to_decimal, lowercase_of, lower_ascii_text, signed_decimal, u64_to_decimal};
use super::body::Body;
use super::types::{HeaderName, HeaderValue, Headers, StatusCode};

verus! {

/// `text/plain; charset=utf-8`
pub open spec fn mime_text_plain() -> Seq<char> {
    "text/plain; charset=utf-8"@
}

/// `text/html; charset=utf-8`
pub open spec fn mime_text_html() -> Seq<char> {
    "text/html; charset=utf-8"@
}

/// `application/json; charset=utf-8`
pub open spec fn mime_application_json() -> Seq<char> {
    "application/json; charset=utf-8"@
}

/// A lower-case hexadecimal digit of `d < 16`.
pub open spec fn hex_lower(d: u32) -> char {
    if d < 10 {
        (('0' as u32) + d) as char
    } else {
        (('a' as u32) + (d - 10)) as char
    }
}

/// How `serde_json` writes one character inside a string (its table of
/// escapes): `\"` and `\\` for the quote and the backslash, `\b`, `\t`,
/// `\n`, `\f`, `\r` for those controls, `\u00xx` (lower-case hex) for
/// the other characters below U+0020, and every other character as it is.
pub open spec fn json_char_escape(c: char) -> Seq<char> {
    let u = c as u32;
    if c == '"' {
        seq!['\\', '"']
    } else if c == '\\' {
        seq!['\\', '\\']
    } else if u == 0x08 {
        seq!['\\', 'b']
    } else if u == 0x09 {
        seq!['\\', 't']
    } else if u == 0x0A {
        seq!['\\', 'n']
    } else if u == 0x0C {
        seq!['\\', 'f']
    } else if u == 0x0D {
        seq!['\\', 'r']
    } else if u < 0x20 {
        seq!['\\', 'u', '0', '0', hex_lower(u / 16), hex_lower(u % 16)]
    } else {
        seq![c]
    }
}

/// The characters of a string, each escaped as [`json_char_escape`] says.
pub open spec fn json_escaped(s: Seq<char>) -> Seq<char>
    decreases s.len(),
{
    if s.len() == 0 {
        Seq::empty()
    } else {
        json_escaped(s.drop_last()) + json_char_escape(s.last())
    }
}

/// What `serde_json` writes for a string: the escaped characters in quotes.
pub open spec fn json_quoted(s: Seq<char>) -> Seq<char> {
    seq!['"'] + json_escaped(s) + seq!['"']
}

/// `serde_json::to_string` on a string slice: its JSON literal (see
/// [`json_quoted`]). Writing a string into memory cannot fail in
/// `serde_json`, so the error arm is never taken.
#[verifier::external_body]
fn json_string_literal(s: &str) -> (r: String)
    ensures
        r@ == json_quoted(s@),
{
    match serde_json::to_string(s) {
        Ok(t) => t,
        Err(_) => String::new(),
    }
}

/// The JSON body of an error response:
/// `{"error":{"code":<code>,"message":<message>}}`.
pub open spec fn error_json(code: u16, message: Seq<char>) -> Seq<char> {
    "{\"error\":{\"code\":"@ + decimal_digits(code as nat) + ",\"message\":"@ + json_quoted(message) + "}}"@
}

/// HTTP response.
#[derive(Debug)]
pub struct Response {
    status: StatusCode,
    headers: Headers,
    body: Body,
}

impl Response {
    /// The status.
    pub closed spec fn status_view(&self) -> StatusCode {
        self.status
    }

    /// The headers.
    pub closed spec fn headers_view(&self) -> Headers {
        self.headers
    }

    /// The body's bytes.
    pub closed spec fn body_view(&self) -> Seq<u8> {
        self.body@
    }

    /// The response's invariant: its headers are well formed.
    pub open spec fn wf(&self) -> bool {
        self.headers_view().wf()
    }

    /// A response with the given status, no headers and an empty body.
    pub fn new(status: StatusCode) -> (r: Self)
        ensures
            r.wf(),
            r.status_view() == status,
            r.headers_view()@.len() == 0,
            r.body_view().len() == 0,
    {
        Response { status, headers: Headers::new(), body: Body::empty() }
    }

    /// A builder (status 200, no headers, empty body).
    pub fn builder() -> (r: ResponseBuilder)
        ensures
            r.wf(),
            r.status_view() == StatusCode(200),
            r.headers_view()@.len() == 0,
            r.body_view().len() == 0,
    {
        ResponseBuilder::new()
    }

    /// 200 OK, empty.
    pub fn ok() -> (r: Self)
        ensures
            r.wf(),
            r.status_view() == StatusCode(200),
            r.headers_view()@.len() == 0,
            r.body_view().len() == 0,
    {
        Self::new(StatusCode(200))
    }

    /// A response with a status, a content type and a text body.
    fn with_text(status: StatusCode, mime: &str, text: &str) -> (r: Self)
        ensures
            r.wf(),
            r.status_view() == status,
            r.headers_view().values_of("content-type"@) == Some(seq![mime@]),
            r.headers_view()@.len() == 1,
            r.body_view() == text.spec_bytes(),
    {
        Self::builder().status(status).content_type(mime).body(Body::from_text(text)).build()
    }

    /// 200 OK with a plain-text body.
    pub fn text(text: &str) -> (r: Self)
        ensures
            r.wf(),
            r.status_view() == StatusCode(200),
            r.headers_view().values_of("content-type"@) == Some(seq![mime_text_plain()]),
            r.headers_view()@.len() == 1,
            r.body_view() == text.spec_bytes(),
    {
        Self::with_text(StatusCode(200), "text/plain; charset=utf-8", text)
    }

    /// 200 OK with an HTML body.
    pub fn html(html: &str) -> (r: Self)
        ensures
            r.wf(),
            r.status_view() == StatusCode(200),
            r.headers_view().values_of("content-type"@) == Some(seq![mime_text_html()]),
            r.headers_view()@.len() == 1,
            r.body_view() == html.spec_bytes(),
    {
        Self::with_text(StatusCode(200), "text/html; charset=utf-8", html)
    }

    /// 201 Created, empty.
    pub fn created() -> (r: Self)
        ensures
            r.wf(),
            r.status_view() == StatusCode(201),
            r.headers_view()@.len() == 0,
            r.body_view().len() == 0,
    {
        Self::new(StatusCode(201))
    }

    /// 204 No Content.
    pub fn no_content() -> (r: Self)
        ensures
            r.wf(),
            r.status_view() == StatusCode(204),
            r.headers_view()@.len() == 0,
            r.body_view().len() == 0,
    {
        Self::new(StatusCode(204))
    }

    /// A redirect with the given status to `location`.
    fn redirect_with(status: StatusCode, location: &str) -> (r: Self)
        ensures
            r.wf(),
            r.status_view() == status,
            r.headers_view().values_of("location"@) == Some(seq![location@]),
            r.headers_view()@.len() == 1,
            r.body_view().len() == 0,
    {
        let b = Self::builder().status(status);
        proof {
            reveal_strlit("location");
        }
        b.header("location", location).build()
    }

    /// 301 Moved Permanently to `location`.
    pub fn redirect_permanent(location: &str) -> (r: Self)
        ensures
            r.wf(),
            r.status_view() == StatusCode(301),
            r.headers_view().values_of("location"@) == Some(seq![location@]),
            r.headers_view()@.len() == 1,
            r.body_view().len() == 0,
    {
        Self::redirect_with(StatusCode(301), location)
    }

    /// 302 Found (temporary redirect) to `location`.
    pub fn redirect(location: &str) -> (r: Self)
        ensures
            r.wf(),
            r.status_view() == StatusCode(302),
            r.headers_view().values_of("location"@) == Some(seq![location@]),
            r.headers_view()@.len() == 1,
            r.body_view().len() == 0,
    {
        Self::redirect_with(StatusCode(302), location)
    }

    /// 400 Bad Request with a JSON error body.
    pub fn bad_request(message: &str) -> (r: Self)
        ensures
            r.is_error_response(StatusCode(400), message@),
    {
        Self::error(StatusCode(400), message)
    }

    /// 401 Unauthorized with a JSON error body.
    pub fn unauthorized() -> (r: Self)
        ensures
            r.is_error_response(StatusCode(401), "Unauthorized"@),
    {
        Self::error(StatusCode(401), "Unauthorized")
    }

    /// 403 Forbidden with a JSON error body.
    pub fn forbidden() -> (r: Self)
        ensures
            r.is_error_response(StatusCode(403), "Forbidden"@),
    {
        Self::error(StatusCode(403), "Forbidden")
    }

    /// 404 Not Found with a JSON error body.
    pub fn not_found() -> (r: Self)
        ensures
            r.is_error_response(StatusCode(404), "Not Found"@),
    {
        Self::error(StatusCode(404), "Not Found")
    }

    /// 405 Method Not Allowed with a JSON error body.
    pub fn method_not_allowed() -> (r: Self)
        ensures
            r.is_error_response(StatusCode(405), "Method Not Allowed"@),
    {
        Self::error(StatusCode(405), "Method Not Allowed")
    }

    /// 422 Unprocessable Entity with a JSON error body.
    pub fn unprocessable_entity(message: &str) -> (r: Self)
        ensures
            r.is_error_response(StatusCode(422), message@),
    {
        Self::error(StatusCode(422), message)
    }

    /// 500 Internal Server Error with a JSON error body.
    pub fn internal_error(message: &str) -> (r: Self)
        ensures
            r.is_error_response(StatusCode(500), message@),
    {
        Self::error(StatusCode(500), message)
    }

    /// Whether this is the error response for `status` and `message`: that
    /// status, JSON content type, and the JSON error object as body.
    pub open spec fn is_error_response(&self, status: StatusCode, message: Seq<char>) -> bool {
        &&& self.wf()
        &&& self.status_view() == status
        &&& self.headers_view().values_of("content-type"@) == Some(seq![mime_application_json()])
        &&& self.headers_view()@.len() == 1
        &&& self.body_view() == vstd::utf8::encode_utf8(error_json(status.0, message))
    }

    /// An error response: the status, JSON content type, and the body
    /// `{"error":{"code":...,"message":...}}`.
    pub fn error(status: StatusCode, message: &str) -> (r: Self)
        ensures
            r.is_error_response(status, message@),
    {
        let mut text = String::new();
        text.append("{\"error\":{\"code\":");
        let code = u64_to_decimal(status.0 as u64);
        text.append(code.as_str());
        text.append(",\"message\":");
        let quoted = json_string_literal(message);
        text.append(quoted.as_str());
        text.append("}}");
        proof {
            reveal_strlit("{\"error\":{\"code\":");
            reveal_strlit(",\"message\":");
            reveal_strlit("}}");
            assert(text@ =~= error_json(status.0, message@));
        }
        Self::with_text(status, "application/json; charset=utf-8", text.as_str())
    }

    /// The status.
    pub fn status(&self) -> (r: StatusCode)
        ensures
            r == self.status_view(),
    {
        self.status
    }

    /// The headers.
    pub fn headers(&self) -> (r: &Headers)
        ensures
            *r == self.headers_view(),
    {
        &self.headers
    }

    /// The headers, for changing them.
    pub fn headers_mut(&mut self) -> (r: &mut Headers)
        ensures
            *r == old(self).headers_view(),
            final(self).headers_view() == *final(r),
            final(self).status_view() == old(self).status_view(),
            final(self).body_view() == old(self).body_view(),
    {
        &mut self.headers
    }

    /// The body.
    pub fn body(&self) -> (r: &Body)
        ensures
            r@ == self.body_view(),
    {
        &self.body
    }

    /// The body, for changing it.
    pub fn body_mut(&mut self) -> (r: &mut Body)
        ensures
            r@ == old(self).body_view(),
            final(self).body_view() == final(r)@,
            final(self).status_view() == old(self).status_view(),
            final(self).headers_view() == old(self).headers_view(),
    {
        &mut self.body
    }

    /// Sets the status.
    pub fn set_status(&mut self, status: StatusCode)
        ensures
            final(self).status_view() == status,
            final(self).headers_view() == old(self).headers_view(),
            final(self).body_view() == old(self).body_view(),
    {
        self.status = status;
    }

    /// Replaces the body.
    pub fn set_body(&mut self, body: Body)
        ensures
            final(self).body_view() == body@,
            final(self).status_view() == old(self).status_view(),
            final(self).headers_view() == old(self).headers_view(),
    {
        self.body = body;
    }

    /// Takes the body out, leaving an empty one.
    pub fn take_body(&mut self) -> (r: Body)
        ensures
            r@ == old(self).body_view(),
            final(self).body_view().len() == 0,
            final(self).status_view() == old(self).status_view(),
            final(self).headers_view() == old(self).headers_view(),
    {
        let mut b = Body::empty();
        core::mem::swap(&mut b, &mut self.body);
        b
    }

    /// Sets `Content-Type`.
    pub fn content_type(self, mime: &str) -> (r: Self)
        requires
            self.wf(),
        ensures
            r.wf(),
            r.headers_view().values_of("content-type"@) == Some(seq![mime@]),
            forall|n: Seq<char>| n != "content-type"@ ==> r.headers_view().values_of(n) == self.headers_view().values_of(n),
            r.status_view() == self.status_view(),
            r.body_view() == self.body_view(),
    {
        let mut s = self;
        s.headers.set_content_type(mime);
        s
    }

    /// Sets a header, replacing its values.
    pub fn header(self, name: &str, value: &str) -> (r: Self)
        requires
            self.wf(),
        ensures
            r.wf(),
            r.headers_view().values_of(lowercase_of(name@)) == Some(seq![value@]),
            forall|n: Seq<char>| n != lowercase_of(name@) ==> r.headers_view().values_of(n) == self.headers_view().values_of(n),
            r.status_view() == self.status_view(),
            r.body_view() == self.body_view(),
    {
        let mut s = self;
        s.headers.insert(name, value);
        s
    }

    /// Adds a `Set-Cookie` header `name=value`.
    pub fn cookie(self, name: &str, value: &str) -> (r: Self)
        requires
            self.wf(),
        ensures
            r.wf(),
            r.headers_view().values_of("set-cookie"@) == Some(
                match self.headers_view().values_of("set-cookie"@) {
                    Some(vs) => vs.push(cookie_text(name@, value@, CookieOptions::spec_default())),
                    None => seq![cookie_text(name@, value@, CookieOptions::spec_default())],
                }),
            forall|n: Seq<char>| n != "set-cookie"@ ==> r.headers_view().values_of(n) == self.headers_view().values_of(n),
            r.status_view() == self.status_view(),
            r.body_view() == self.body_view(),
    {
        self.cookie_with_options(name, value, CookieOptions::new())
    }

    /// Adds a `Set-Cookie` header `name=value` followed by the options'
    /// attributes.
    pub fn cookie_with_options(self, name: &str, value: &str, options: CookieOptions) -> (r: Self)
        requires
            self.wf(),
        ensures
            r.wf(),
            r.headers_view().values_of("set-cookie"@) == Some(
                match self.headers_view().values_of("set-cookie"@) {
                    Some(vs) => vs.push(cookie_text(name@, value@, options)),
                    None => seq![cookie_text(name@, value@, options)],
                }),
            forall|n: Seq<char>| n != "set-cookie"@ ==> r.headers_view().values_of(n) == self.headers_view().values_of(n),
            r.status_view() == self.status_view(),
            r.body_view() == self.body_view(),
    {
        let text = options.render(name, value);
        let key = HeaderName::new("set-cookie");
        proof {
            reveal_strlit("set-cookie");
        }
        let mut s = self;
        s.headers.append_value(key, HeaderValue::from_string(text));
        s
    }
}

impl Default for Response {
    fn default() -> (r: Self)
        ensures
            r.wf(),
            r.status_view() == StatusCode(200),
            r.headers_view()@.len() == 0,
            r.body_view().len() == 0,
    {
        Self::ok()
    }
}

// ============================================================================
//                    RESPONSE BUILDER
// ============================================================================

/// Builder for [`Response`].
pub struct ResponseBuilder {
    status: StatusCode,
    headers: Headers,
    body: Body,
}

impl ResponseBuilder {
    /// The status set so far.
    pub closed spec fn status_view(&self) -> StatusCode {
        self.status
    }

    /// The headers set so far.
    pub closed spec fn headers_view(&self) -> Headers {
        self.headers
    }

    /// The body set so far.
    pub closed spec fn body_view(&self) -> Seq<u8> {
        self.body@
    }

    /// The builder's invariant: its headers are well formed.
    pub open spec fn wf(&self) -> bool {
        self.headers_view().wf()
    }

    /// Status 200, no headers, empty body.
    pub fn new() -> (r: Self)
        ensures
            r.wf(),
            r.status_view() == StatusCode(200),
            r.headers_view()@.len() == 0,
            r.body_view().len() == 0,
    {
        ResponseBuilder { status: StatusCode(200), headers: Headers::new(), body: Body::empty() }
    }

    /// Sets the status.
    pub fn status(self, status: StatusCode) -> (r: Self)
        ensures
            r.status_view() == status,
            r.headers_view() == self.headers_view(),
            r.body_view() == self.body_view(),
    {
        let mut s = self;
        s.status = status;
        s
    }

    /// Sets a header, replacing its values.
    pub fn header(self, name: &str, value: &str) -> (r: Self)
        requires
            self.wf(),
        ensures
            r.wf(),
            r.headers_view().values_of(lowercase_of(name@)) == Some(seq![value@]),
            forall|n: Seq<char>| n != lowercase_of(name@) ==> r.headers_view().values_of(n) == self.headers_view().values_of(n),
            r.headers_view()@.len() == self.headers_view()@.len() + (if self.headers_view().values_of(lowercase_of(name@)) is Some { 0int } else { 1int }),
            lower_ascii_text(name@) ==> lowercase_of(name@) == name@,
            r.status_view() == self.status_view(),
            r.body_view() == self.body_view(),
    {
        let mut s = self;
        let key = HeaderName::new(name);
        s.headers.insert_value(key, HeaderValue::new(value));
        s
    }

    /// Sets `Content-Type`.
    pub fn content_type(self, mime: &str) -> (r: Self)
        requires
            self.wf(),
        ensures
            r.wf(),
            r.headers_view().values_of("content-type"@) == Some(seq![mime@]),
            forall|n: Seq<char>| n != "content-type"@ ==> r.headers_view().values_of(n) == self.headers_view().values_of(n),
            r.headers_view()@.len() == self.headers_view()@.len() + (if self.headers_view().values_of("content-type"@) is Some { 0int } else { 1int }),
            r.status_view() == self.status_view(),
            r.body_view() == self.body_view(),
    {
        let mut s = self;
        s.headers.set_content_type(mime);
        s
    }

    /// Sets the body.
    pub fn body(self, body: Body) -> (r: Self)
        ensures
            r.status_view() == self.status_view(),
            r.headers_view() == self.headers_view(),
            r.body_view() == body@,
    {
        let mut s = self;
        s.body = body;
        s
    }

    /// The response.
    pub fn build(self) -> (r: Response)
        ensures
            r.status_view() == self.status_view(),
            r.headers_view() == self.headers_view(),
            r.body_view() == self.body_view(),
    {
        Response { status: self.status, headers: self.headers, body: self.body }
    }
}

impl Default for ResponseBuilder {
    fn default() -> (r: Self)
        ensures
            r.wf(),
            r.status_view() == StatusCode(200),
            r.headers_view()@.len() == 0,
            r.body_view().len() == 0,
    {
        Self::new()
    }
}

// ============================================================================
//                    COOKIE OPTIONS
// ============================================================================

/// Options of a cookie.
#[derive(Debug, Clone)]
pub struct CookieOptions {
    /// Max-Age in seconds
    pub max_age: Option<i64>,
    /// Domain
    pub domain: Option<String>,
    /// Path
    pub path: Option<String>,
    /// Secure flag
    pub secure: bool,
    /// HttpOnly flag
    pub http_only: bool,
    /// SameSite
    pub same_site: Option<String>,
}

/// `"; <label>=<value>"` when the value is set, else nothing.
pub open spec fn cookie_attr(label: Seq<char>, value: Option<Seq<char>>) -> Seq<char> {
    match value {
        Some(v) => "; "@ + label + "="@ + v,
        None => Seq::empty(),
    }
}

/// The text of a `Set-Cookie` value: `name=value` and the options'
/// attributes in a fixed order.
pub open spec fn cookie_text(name: Seq<char>, value: Seq<char>, o: CookieOptions) -> Seq<char> {
    name + "="@ + value
        + cookie_attr("Max-Age"@, match o.max_age { Some(n) => Some(signed_decimal(n as int)), None => None })
        + cookie_attr("Domain"@, match o.domain { Some(d) => Some(d@), None => None })
        + cookie_attr("Path"@, match o.path { Some(p) => Some(p@), None => None })
        + (if o.secure { "; Secure"@ } else { Seq::empty() })
        + (if o.http_only { "; HttpOnly"@ } else { Seq::empty() })
        + cookie_attr("SameSite"@, match o.same_site { Some(s) => Some(s@), None => None })
}

impl CookieOptions {
    /// No attributes.
    pub open spec fn spec_default() -> CookieOptions {
        CookieOptions { max_age: None, domain: None, path: None, secure: false, http_only: false, same_site: None }
    }

    /// No attributes.
    pub fn new() -> (r: Self)
        ensures
            r == Self::spec_default(),
    {
        CookieOptions { max_age: None, domain: None, path: None, secure: false, http_only: false, same_site: None }
    }

    /// Sets Max-Age.
    pub fn max_age(self, seconds: i64) -> (r: Self)
        ensures
            r == (CookieOptions { max_age: Some(seconds), ..self }),
    {
        let mut s = self;
        s.max_age = Some(seconds);
        s
    }

    /// Sets Domain.
    pub fn domain(self, domain: &str) -> (r: Self)
        ensures
            r.domain matches Some(d) && d@ == domain@,
            r.max_age == self.max_age && r.path == self.path && r.secure == self.secure
                && r.http_only == self.http_only && r.same_site == self.same_site,
    {
        let mut s = self;
        s.domain = Some(domain.to_owned());
        s
    }

    /// Sets Path.
    pub fn path(self, path: &str) -> (r: Self)
        ensures
            r.path matches Some(p) && p@ == path@,
            r.max_age == self.max_age && r.domain == self.domain && r.secure == self.secure
                && r.http_only == self.http_only && r.same_site == self.same_site,
    {
        let mut s = self;
        s.path = Some(path.to_owned());
        s
    }

    /// Sets the Secure flag.
    pub fn secure(self) -> (r: Self)
        ensures
            r == (CookieOptions { secure: true, ..self }),
    {
        let mut s = self;
        s.secure = true;
        s
    }

    /// Sets the HttpOnly flag.
    pub fn http_only(self) -> (r: Self)
        ensures
            r == (CookieOptions { http_only: true, ..self }),
    {
        let mut s = self;
        s.http_only = true;
        s
    }

    /// A copy of `self` with SameSite set to `v`.
    fn with_same_site(self, v: &str) -> (r: Self)
        ensures
            r.same_site matches Some(x) && x@ == v@,
            r.max_age == self.max_age && r.domain == self.domain && r.path == self.path
                && r.secure == self.secure && r.http_only == self.http_only,
    {
        let mut s = self;
        s.same_site = Some(v.to_owned());
        s
    }

    /// SameSite=Strict.
    pub fn same_site_strict(self) -> (r: Self)
        ensures
            r.same_site matches Some(x) && x@ == "Strict"@,
            r.max_age == self.max_age && r.domain == self.domain && r.path == self.path
                && r.secure == self.secure && r.http_only == self.http_only,
    {
        self.with_same_site("Strict")
    }

    /// SameSite=Lax.
    pub fn same_site_lax(self) -> (r: Self)
        ensures
            r.same_site matches Some(x) && x@ == "Lax"@,
            r.max_age == self.max_age && r.domain == self.domain && r.path == self.path
                && r.secure == self.secure && r.http_only == self.http_only,
    {
        self.with_same_site("Lax")
    }

    /// SameSite=None.
    pub fn same_site_none(self) -> (r: Self)
        ensures
            r.same_site matches Some(x) && x@ == "None"@,
            r.max_age == self.max_age && r.domain == self.domain && r.path == self.path
                && r.secure == self.secure && r.http_only == self.http_only,
    {
        self.with_same_site("None")
    }

    /// The `Set-Cookie` text for `name=value` with these options.
    #[verifier::rlimit(40)]
    #[verifier::spinoff_prover]
    pub fn render(&self, name: &str, value: &str) -> (r: String)
        ensures
            r@ == cookie_text(name@, value@, *self),
    {
        let mut c = String::new();
        c.append(name);
        c.append("=");
        c.append(value);
        proof {
            reveal_strlit("=");
            reveal_strlit("; ");
            reveal_strlit("Max-Age");
            reveal_strlit("Domain");
            reveal_strlit("Path");
            reveal_strlit("SameSite");
            reveal_strlit("; Secure");
            reveal_strlit("; HttpOnly");
        }
        let ghost c0 = c@;
        match self.max_age {
            Some(n) => {
                let t = i64_to_decimal(n);
                c.append("; Max-Age=");
                c.append(t.as_str());
                proof { reveal_strlit("; Max-Age="); }
            },
            None => {},
        }
        let ghost c1 = c@;
        proof {
            assert(c1 =~= c0 + cookie_attr("Max-Age"@, match self.max_age { Some(n) => Some(signed_decimal(n as int)), None => None }));
        }
        match &self.domain {
            Some(d) => {
                c.append("; Domain=");
                c.append(d.as_str());
                proof { reveal_strlit("; Domain="); }
            },
            None => {},
        }
        let ghost c2 = c@;
        proof {
            assert(c2 =~= c1 + cookie_attr("Domain"@, match self.domain { Some(d) => Some(d@), None => None }));
        }
        match &self.path {
            Some(p) => {
                c.append("; Path=");
                c.append(p.as_str());
                proof { reveal_strlit("; Path="); }
            },
            None => {},
        }
        let ghost c3 = c@;
        proof {
            assert(c3 =~= c2 + cookie_attr("Path"@, match self.path { Some(p) => Some(p@), None => None }));
        }
        if self.secure {
            c.append("; Secure");
        }
        let ghost c4 = c@;
        proof {
            assert(c4 =~= c3 + (if self.secure { "; Secure"@ } else { Seq::empty() }));
        }
        if self.http_only {
            c.append("; HttpOnly");
        }
        let ghost c5 = c@;
        proof {
            assert(c5 =~= c4 + (if self.http_only { "; HttpOnly"@ } else { Seq::empty() }));
        }
        match &self.same_site {
            Some(s) => {
                c.append("; SameSite=");
                c.append(s.as_str());
                proof { reveal_strlit("; SameSite="); }
            },
            None => {},
        }
        proof {
            assert(c@ =~= c5 + cookie_attr("SameSite"@, match self.same_site { Some(s) => Some(s@), None => None }));
            assert(c0 =~= name@ + "="@ + value@);
        }
        c
    }
}

impl Default for CookieOptions {
    fn default() -> (r: Self)
        ensures
            r == CookieOptions::spec_default(),
    {
        Self::new()
    }
}

// ============================================================================
//                    INTO RESPONSE
// ============================================================================

/// Values that can be turned into a response.
pub trait IntoResponse {
    /// The response for this value.
    fn into_response(self) -> Response;
}

impl IntoResponse for Response {
    /// The response itself.
    fn into_response(self) -> (r: Response)
        ensures
            r == self,
    {
        self
    }
}

impl IntoResponse for () {
    /// 204 No Content, with no headers and an empty body.
    fn into_response(self) -> (r: Response)
        ensures
            r.wf(),
            r.status_view() == StatusCode(204),
            r.headers_view()@.len() == 0,
            r.body_view().len() == 0,
    {
        Response::no_content()
    }
}

impl IntoResponse for &str {
    /// 200 with the text as a plain-text body.
    fn into_response(self) -> (r: Response)
        ensures
            r.wf(),
            r.status_view() == StatusCode(200),
            r.headers_view().values_of("content-type"@) == Some(seq![mime_text_plain()]),
            r.headers_view()@.len() == 1,
            r.body_view() == self.spec_bytes(),
    {
        Response::text(self)
    }
}

impl IntoResponse for String {
    /// 200 with the text as a plain-text body.
    fn into_response(self) -> (r: Response)
        ensures
            r.wf(),
            r.status_view() == StatusCode(200),
            r.headers_view().values_of("content-type"@) == Some(seq![mime_text_plain()]),
            r.headers_view()@.len() == 1,
            r.body_view() == vstd::utf8::encode_utf8(self@),
    {
        Response::text(self.as_str())
    }
}

impl IntoResponse for Vec<u8> {
    /// 200 with the bytes as the body and no headers.
    fn into_response(self) -> (r: Response)
        ensures
            r.wf(),
            r.status_view() == StatusCode(200),
            r.headers_view()@.len() == 0,
            r.body_view() == self@,
    {
        Response::builder().body(Body::from_bytes(self)).build()
    }
}

// ============================================================================
//                    WIRE FORMAT
// ============================================================================

/// The header lines of one entry: `name: value` and a line break for each
/// of its values, in order.
pub open spec fn value_lines(name: Seq<char>, vs: Seq<Seq<char>>) -> Seq<char>
    decreases vs.len(),
{
    if vs.len() == 0 {
        Seq::empty()
    } else {
        value_lines(name, vs.drop_last()) + name + ": "@ + vs.last() + "\r\n"@
    }
}

/// The header lines of all entries, in order.
pub open spec fn entry_lines(entries: Seq<(Seq<char>, Seq<Seq<char>>)>) -> Seq<char>
    decreases entries.len(),
{
    if entries.len() == 0 {
        Seq::empty()
    } else {
        entry_lines(entries.drop_last()) + value_lines(entries.last().0, entries.last().1)
    }
}

/// The headers that go on the wire: `content-length` added for a
/// non-empty body that has none, and `server` added when absent.
pub open spec fn wire_headers(h: Seq<(Seq<char>, Seq<Seq<char>>)>, body_len: nat) -> Seq<(Seq<char>, Seq<Seq<char>>)> {
    let h1 = if super::types::lookup(h, "content-length"@) is None && body_len > 0 {
        super::types::put_entry(h, "content-length"@, decimal_digits(body_len))
    } else {
        h
    };
    if super::types::lookup(h1, "server"@) is None {
        super::types::put_entry(h1, "server"@, "Kumir3-Net/1.0"@)
    } else {
        h1
    }
}

/// The text before the body: the status line, the header lines and a blank line.
pub open spec fn wire_head(status: StatusCode, entries: Seq<(Seq<char>, Seq<Seq<char>>)>) -> Seq<char> {
    "HTTP/1.1 "@ + decimal_digits(status.0 as nat) + " "@ + super::types::reason_phrase(status.0) + "\r\n"@
        + entry_lines(entries) + "\r\n"@
}

impl Response {
    /// Writes the response as HTTP/1.1 bytes: the status line, the headers
    /// (after adding `content-length` and `server` where missing, see
    /// [`wire_headers`]), a blank line, and the body.
    pub fn to_bytes(&mut self) -> (r: Vec<u8>)
        requires
            old(self).wf(),
        ensures
            final(self).wf(),
            final(self).status_view() == old(self).status_view(),
            final(self).body_view() == old(self).body_view(),
            final(self).headers_view()@ == wire_headers(old(self).headers_view()@, old(self).body_view().len()),
            r@ == vstd::utf8::encode_utf8(wire_head(old(self).status_view(), final(self).headers_view()@))
                + old(self).body_view(),
    {
        let body_len = self.body.len();
        proof {
            reveal_strlit("content-length");
            reveal_strlit("server");
            assert(lower_ascii_text("content-length"@));
            assert(lower_ascii_text("server"@));
        }
        if !self.headers.contains("content-length") && body_len > 0 {
            self.headers.set_content_length(body_len);
        }
        if !self.headers.contains("server") {
            self.headers.insert("server", "Kumir3-Net/1.0");
        }
        let mut text = String::from_str("HTTP/1.1 ");
        let code = u64_to_decimal(self.status.0 as u64);
        text.append(code.as_str());
        text.append(" ");
        text.append(self.status.reason());
        text.append("\r\n");
        let ghost start = text@;
        let entries = self.headers.iter();
        let ghost ev = self.headers@;
        let mut i: usize = 0;
        proof {
            assert(ev.take(0) =~= Seq::<(Seq<char>, Seq<Seq<char>>)>::empty());
        }
        while i < entries.len()
            invariant
                i <= entries.len(),
                entries@.map_values(|e: super::types::HeaderEntry| super::types::entry_view(e)) == ev,
                text@ == start + entry_lines(ev.take(i as int)),
            decreases entries.len() - i,
        {
            let name = entries[i].0.as_str();
            let values = &entries[i].1;
            let ghost before = text@;
            let ghost vv = values@.map_values(|v: HeaderValue| v@);
            assert(ev[i as int] == super::types::entry_view(entries@[i as int]));
            let mut j: usize = 0;
            proof {
                assert(vv.take(0) =~= Seq::<Seq<char>>::empty());
            }
            while j < values.len()
                invariant
                    j <= values.len(),
                    vv == values@.map_values(|v: HeaderValue| v@),
                    text@ == before + value_lines(name@, vv.take(j as int)),
                decreases values.len() - j,
            {
                text.append(name);
                text.append(": ");
                text.append(values[j].as_str());
                text.append("\r\n");
                proof {
                    assert(vv.take(j + 1).drop_last() =~= vv.take(j as int));
                    assert(text@ =~= before + value_lines(name@, vv.take(j + 1)));
                }
                j = j + 1;
            }
            proof {
                assert(vv.take(j as int) =~= vv);
                assert(ev.take(i + 1).drop_last() =~= ev.take(i as int));
                assert(text@ =~= start + entry_lines(ev.take(i + 1)));
            }
            i = i + 1;
        }
        text.append("\r\n");
        proof {
            assert(ev.take(i as int) =~= ev);
            assert(text@ =~= wire_head(self.status, ev));
        }
        let mut out = crate::text::bytes_to_vec(text.as_str().as_bytes());
        let body = self.body.as_bytes();
        let ghost head = out@;
        let mut k: usize = 0;
        while k < body.len()
            invariant
                k <= body.len(),
                out@ == head + body@.take(k as int),
            decreases body.len() - k,
        {
            out.push(body[k]);
            k = k + 1;
            proof {
                assert(out@ =~= head + body@.take(k as int));
            }
        }
        proof {
            assert(body@.take(k as int) =~= body@);
        }
        out
    }
}

} // verus!
