//! Configuration of the built-in HTTP middleware, and the CORS headers they
//! put on responses.

use vstd::prelude::*;
use vstd::string::StringExecFns;
use crate::text::{decimal_digits, lowercase_of, u64_to_decimal};
use super::response::Response;
use super::types::{HeaderName, HeaderValue, Headers};

verus! {

// -----------------------------------------------------------------------------
// Logging
// -----------------------------------------------------------------------------

/// Middleware that logs requests.
#[derive(Debug, Clone, Copy, PartialEq, Eq, Structural)]
pub struct LoggingMiddleware {
    /// Log request bodies
    pub log_body: bool,
    /// Log request headers
    pub log_headers: bool,
}

impl LoggingMiddleware {
    /// Logs neither bodies nor headers.
    pub fn new() -> (r: Self)
        ensures
            !r.log_body && !r.log_headers,
    {
        LoggingMiddleware { log_body: false, log_headers: false }
    }

    /// Also logs bodies.
    pub fn with_body(self) -> (r: Self)
        ensures
            r.log_body && r.log_headers == self.log_headers,
    {
        LoggingMiddleware { log_body: true, log_headers: self.log_headers }
    }

    /// Also logs headers.
    pub fn with_headers(self) -> (r: Self)
        ensures
            r.log_headers && r.log_body == self.log_body,
    {
        LoggingMiddleware { log_body: self.log_body, log_headers: true }
    }
}

impl Default for LoggingMiddleware {
    fn default() -> (r: Self)
        ensures
            !r.log_body && !r.log_headers,
    {
        Self::new()
    }
}

// -----------------------------------------------------------------------------
// CORS
// -----------------------------------------------------------------------------

/// CORS configuration.
#[derive(Debug, Clone)]
pub struct CorsConfig {
    /// Allowed origins (`*` for all)
    pub allow_origins: Vec<String>,
    /// Allowed methods
    pub allow_methods: Vec<String>,
    /// Allowed headers
    pub allow_headers: Vec<String>,
    /// Exposed headers
    pub expose_headers: Vec<String>,
    /// Whether credentials are allowed
    pub allow_credentials: bool,
    /// Max age of a preflight answer, in seconds
    pub max_age: Option<u64>,
}

/// The texts of a list of strings.
pub open spec fn texts(v: Seq<String>) -> Seq<Seq<char>> {
    v.map_values(|s: String| s@)
}

/// The parts joined with `sep` between them.
pub open spec fn join(parts: Seq<Seq<char>>, sep: Seq<char>) -> Seq<char>
    decreases parts.len(),
{
    if parts.len() == 0 {
        Seq::empty()
    } else if parts.len() == 1 {
        parts[0]
    } else {
        join(parts.drop_last(), sep) + sep + parts.last()
    }
}

/// The methods allowed by default.
pub open spec fn default_methods() -> Seq<Seq<char>> {
    seq!["GET"@, "POST"@, "PUT"@, "DELETE"@, "PATCH"@, "OPTIONS"@]
}

/// Owned copies of string slices.
fn owned_strings(v: &Vec<&str>) -> (r: Vec<String>)
    ensures
        texts(r@) == v@.map_values(|s: &str| s@),
{
    let mut r: Vec<String> = Vec::new();
    let mut k: usize = 0;
    while k < v.len()
        invariant
            k <= v.len(),
            r@.len() == k,
            texts(r@) == v@.take(k as int).map_values(|s: &str| s@),
        decreases v.len() - k,
    {
        let s = v[k].to_owned();
        let ghost before = r@;
        r.push(s);
        k = k + 1;
        proof {
            assert forall|i: int| 0 <= i < k implies #[trigger] texts(r@)[i] == v@.take(k as int).map_values(|s: &str| s@)[i] by {
                if i < k - 1 {
                    assert(r@[i] == before[i]);
                    assert(texts(before)[i] == v@.take(k - 1).map_values(|s: &str| s@)[i]);
                } else {
                    assert(r@[i] == s);
                }
            }
            assert(texts(r@) =~= v@.take(k as int).map_values(|s: &str| s@));
        }
    }
    proof {
        assert(v@.take(k as int) =~= v@);
    }
    r
}

impl CorsConfig {
    /// The permissive default: any origin, the usual methods, any header,
    /// no credentials, a day of max age.
    pub fn new() -> (r: Self)
        ensures
            texts(r.allow_origins@) == seq!["*"@],
            texts(r.allow_methods@) == default_methods(),
            texts(r.allow_headers@) == seq!["*"@],
            r.expose_headers@.len() == 0,
            !r.allow_credentials,
            r.max_age == Some(86400u64),
    {
        let mut origins: Vec<String> = Vec::new();
        origins.push("*".to_owned());
        let mut methods: Vec<String> = Vec::new();
        methods.push("GET".to_owned());
        methods.push("POST".to_owned());
        methods.push("PUT".to_owned());
        methods.push("DELETE".to_owned());
        methods.push("PATCH".to_owned());
        methods.push("OPTIONS".to_owned());
        let mut headers: Vec<String> = Vec::new();
        headers.push("*".to_owned());
        let r = CorsConfig {
            allow_origins: origins,
            allow_methods: methods,
            allow_headers: headers,
            expose_headers: Vec::new(),
            allow_credentials: false,
            max_age: Some(86400),
        };
        proof {
            assert(texts(r.allow_origins@) =~= seq!["*"@]);
            assert(texts(r.allow_methods@) =~= default_methods());
            assert(texts(r.allow_headers@) =~= seq!["*"@]);
        }
        r
    }

    /// Adds an allowed origin.
    pub fn allow_origin(self, origin: &str) -> (r: Self)
        ensures
            texts(r.allow_origins@) == texts(self.allow_origins@).push(origin@),
            r.allow_methods@ == self.allow_methods@,
            r.allow_headers@ == self.allow_headers@,
            r.expose_headers@ == self.expose_headers@,
            r.allow_credentials == self.allow_credentials,
            r.max_age == self.max_age,
    {
        let mut s = self;
        s.allow_origins.push(origin.to_owned());
        proof {
            assert(texts(s.allow_origins@) =~= texts(self.allow_origins@).push(origin@));
        }
        s
    }

    /// Allows any origin (and only the wildcard).
    pub fn allow_any_origin(self) -> (r: Self)
        ensures
            texts(r.allow_origins@) == seq!["*"@],
            r.allow_methods@ == self.allow_methods@,
            r.allow_headers@ == self.allow_headers@,
            r.expose_headers@ == self.expose_headers@,
            r.allow_credentials == self.allow_credentials,
            r.max_age == self.max_age,
    {
        let mut s = self;
        let mut origins: Vec<String> = Vec::new();
        origins.push("*".to_owned());
        s.allow_origins = origins;
        proof {
            assert(texts(s.allow_origins@) =~= seq!["*"@]);
        }
        s
    }

    /// Replaces the allowed methods.
    pub fn allow_methods(self, methods: Vec<&str>) -> (r: Self)
        ensures
            texts(r.allow_methods@) == methods@.map_values(|s: &str| s@),
            r.allow_origins@ == self.allow_origins@,
            r.allow_headers@ == self.allow_headers@,
            r.expose_headers@ == self.expose_headers@,
            r.allow_credentials == self.allow_credentials,
            r.max_age == self.max_age,
    {
        let mut s = self;
        s.allow_methods = owned_strings(&methods);
        s
    }

    /// Replaces the allowed headers.
    pub fn allow_headers(self, headers: Vec<&str>) -> (r: Self)
        ensures
            texts(r.allow_headers@) == headers@.map_values(|s: &str| s@),
            r.allow_origins@ == self.allow_origins@,
            r.allow_methods@ == self.allow_methods@,
            r.expose_headers@ == self.expose_headers@,
            r.allow_credentials == self.allow_credentials,
            r.max_age == self.max_age,
    {
        let mut s = self;
        s.allow_headers = owned_strings(&headers);
        s
    }

    /// Allows credentials.
    pub fn allow_credentials(self) -> (r: Self)
        ensures
            r.allow_credentials,
            r.allow_origins@ == self.allow_origins@,
            r.allow_methods@ == self.allow_methods@,
            r.allow_headers@ == self.allow_headers@,
            r.expose_headers@ == self.expose_headers@,
            r.max_age == self.max_age,
    {
        let mut s = self;
        s.allow_credentials = true;
        s
    }

    /// Sets the max age.
    pub fn max_age(self, seconds: u64) -> (r: Self)
        ensures
            r.max_age == Some(seconds),
            r.allow_origins@ == self.allow_origins@,
            r.allow_methods@ == self.allow_methods@,
            r.allow_headers@ == self.allow_headers@,
            r.expose_headers@ == self.expose_headers@,
            r.allow_credentials == self.allow_credentials,
    {
        let mut s = self;
        s.max_age = Some(seconds);
        s
    }
}

impl Default for CorsConfig {
    fn default() -> (r: Self)
        ensures
            texts(r.allow_origins@) == seq!["*"@],
            texts(r.allow_methods@) == default_methods(),
            texts(r.allow_headers@) == seq!["*"@],
            r.expose_headers@.len() == 0,
            !r.allow_credentials,
            r.max_age == Some(86400u64),
    {
        Self::new()
    }
}

/// The strings joined with `", "` between them.
pub fn join_comma(parts: &Vec<String>) -> (r: String)
    ensures
        r@ == join(texts(parts@), ", "@),
{
    let mut r = String::new();
    let mut k: usize = 0;
    proof {
        reveal_strlit(", ");
        assert(r@ =~= join(texts(parts@.take(0)), ", "@));
    }
    while k < parts.len()
        invariant
            k <= parts.len(),
            r@ == join(texts(parts@.take(k as int)), ", "@),
        decreases parts.len() - k,
    {
        if k > 0 {
            r.append(", ");
        }
        r.append(parts[k].as_str());
        k = k + 1;
        proof {
            let t = texts(parts@.take(k as int));
            assert(t.drop_last() =~= texts(parts@.take(k - 1)));
            assert(t.last() == parts@[k - 1]@);
            if k == 1 {
                assert(t.len() == 1);
            }
        }
    }
    proof {
        assert(parts@.take(k as int) =~= parts@);
    }
    r
}

/// CORS middleware.
#[derive(Debug, Clone)]
pub struct CorsMiddleware {
    /// The configuration it applies
    pub config: CorsConfig,
}

impl CorsMiddleware {
    /// CORS with the given configuration.
    pub fn new(config: CorsConfig) -> (r: Self)
        ensures
            r.config == config,
    {
        CorsMiddleware { config }
    }

    /// CORS with the permissive default configuration.
    pub fn permissive() -> (r: Self)
        ensures
            texts(r.config.allow_origins@) == seq!["*"@],
            texts(r.config.allow_methods@) == default_methods(),
            !r.config.allow_credentials,
            r.config.max_age == Some(86400u64),
    {
        Self::new(CorsConfig::new())
    }
}

/// The CORS headers that a configuration puts on a response.
pub open spec fn cors_headers(c: CorsConfig) -> Seq<(Seq<char>, Seq<char>)> {
    seq![
        ("access-control-allow-origin"@, join(texts(c.allow_origins@), ", "@)),
        ("access-control-allow-methods"@, join(texts(c.allow_methods@), ", "@)),
        ("access-control-allow-headers"@, join(texts(c.allow_headers@), ", "@)),
    ] + (if c.allow_credentials { seq![("access-control-allow-credentials"@, "true"@)] } else { Seq::empty() })
      + (match c.max_age { Some(m) => seq![("access-control-max-age"@, decimal_digits(m as nat))], None => Seq::empty() })
      + (if c.expose_headers@.len() > 0 { seq![("access-control-expose-headers"@, join(texts(c.expose_headers@), ", "@))] } else { Seq::empty() })
}

/// Whether `h` holds exactly the value `v` for each of the pairs, and what
/// `old` holds for every name the pairs do not set.
pub open spec fn headers_set(h: Headers, old: Headers, pairs: Seq<(Seq<char>, Seq<char>)>) -> bool {
    &&& forall|i: int| 0 <= i < pairs.len() ==> h.values_of((#[trigger] pairs[i]).0) == Some(seq![pairs[i].1])
    &&& forall|n: Seq<char>| (forall|i: int| 0 <= i < pairs.len() ==> (#[trigger] pairs[i]).0 != n)
        ==> h.values_of(n) == old.values_of(n)
}

/// Sets one header from a pair of (lower-case) name and value.
fn set_pair(h: &mut Headers, name: &str, value: String, Ghost(pairs): Ghost<Seq<(Seq<char>, Seq<char>)>>, Ghost(start): Ghost<Headers>)
    requires
        old(h).wf(),
        crate::text::lower_ascii_text(name@),
        headers_set(*old(h), start, pairs),
        forall|i: int| 0 <= i < pairs.len() ==> (#[trigger] pairs[i]).0 != name@,
    ensures
        final(h).wf(),
        headers_set(*final(h), start, pairs.push((name@, value@))),
{
    let key = HeaderName::new(name);
    let ghost vv = value@;
    h.insert_value(key, HeaderValue::from_string(value));
    proof {
        let p2 = pairs.push((name@, vv));
        assert forall|i: int| 0 <= i < p2.len() implies final(h).values_of((#[trigger] p2[i]).0) == Some(seq![p2[i].1]) by {
            if i < pairs.len() {
                assert(p2[i] == pairs[i]);
            }
        }
        assert forall|n: Seq<char>| (forall|i: int| 0 <= i < p2.len() ==> (#[trigger] p2[i]).0 != n)
            implies final(h).values_of(n) == start.values_of(n) by {
            assert(p2[p2.len() - 1].0 != n);
            assert forall|i: int| 0 <= i < pairs.len() implies (#[trigger] pairs[i]).0 != n by {
                assert(p2[i] == pairs[i]);
            }
        }
    }
}

/// Puts the CORS headers of a configuration on a response (see
/// [`cors_headers`]); other headers, the status and the body stay.
pub fn apply_cors_headers(response: &mut Response, config: &CorsConfig)
    requires
        old(response).wf(),
    ensures
        final(response).wf(),
        headers_set(final(response).headers_view(), old(response).headers_view(), cors_headers(*config)),
        final(response).status_view() == old(response).status_view(),
        final(response).body_view() == old(response).body_view(),
{
    let ghost start = response.headers_view();
    let headers = response.headers_mut();
    let ghost mut pairs: Seq<(Seq<char>, Seq<char>)> = Seq::empty();
    proof {
        reveal_strlit("access-control-allow-origin");
        reveal_strlit("access-control-allow-methods");
        reveal_strlit("access-control-allow-headers");
        reveal_strlit("access-control-allow-credentials");
        reveal_strlit("access-control-max-age");
        reveal_strlit("access-control-expose-headers");
        reveal_strlit("true");
        assert("access-control-allow-methods"@[21] != "access-control-allow-headers"@[21]);
        assert("access-control-allow-origin"@.len() != "access-control-allow-methods"@.len());
        assert("access-control-allow-origin"@.len() != "access-control-allow-headers"@.len());
        assert("access-control-allow-credentials"@.len() != "access-control-allow-origin"@.len());
        assert("access-control-allow-credentials"@.len() != "access-control-allow-methods"@.len());
        assert("access-control-allow-credentials"@.len() != "access-control-allow-headers"@.len());
        assert("access-control-max-age"@.len() != "access-control-allow-origin"@.len());
        assert("access-control-max-age"@.len() != "access-control-allow-methods"@.len());
        assert("access-control-max-age"@.len() != "access-control-allow-headers"@.len());
        assert("access-control-max-age"@.len() != "access-control-allow-credentials"@.len());
        assert("access-control-expose-headers"@.len() != "access-control-allow-origin"@.len());
        assert("access-control-expose-headers"@.len() != "access-control-allow-methods"@.len());
        assert("access-control-expose-headers"@.len() != "access-control-allow-headers"@.len());
        assert("access-control-expose-headers"@.len() != "access-control-allow-credentials"@.len());
        assert("access-control-expose-headers"@.len() != "access-control-max-age"@.len());
    }
    set_pair(headers, "access-control-allow-origin", join_comma(&config.allow_origins), Ghost(pairs), Ghost(start));
    proof { pairs = pairs.push(("access-control-allow-origin"@, join(texts(config.allow_origins@), ", "@))); }
    set_pair(headers, "access-control-allow-methods", join_comma(&config.allow_methods), Ghost(pairs), Ghost(start));
    proof { pairs = pairs.push(("access-control-allow-methods"@, join(texts(config.allow_methods@), ", "@))); }
    set_pair(headers, "access-control-allow-headers", join_comma(&config.allow_headers), Ghost(pairs), Ghost(start));
    proof { pairs = pairs.push(("access-control-allow-headers"@, join(texts(config.allow_headers@), ", "@))); }
    if config.allow_credentials {
        set_pair(headers, "access-control-allow-credentials", "true".to_owned(), Ghost(pairs), Ghost(start));
        proof { pairs = pairs.push(("access-control-allow-credentials"@, "true"@)); }
    }
    match config.max_age {
        Some(m) => {
            set_pair(headers, "access-control-max-age", u64_to_decimal(m), Ghost(pairs), Ghost(start));
            proof { pairs = pairs.push(("access-control-max-age"@, decimal_digits(m as nat))); }
        },
        None => {},
    }
    if config.expose_headers.len() > 0 {
        set_pair(headers, "access-control-expose-headers", join_comma(&config.expose_headers), Ghost(pairs), Ghost(start));
        proof { pairs = pairs.push(("access-control-expose-headers"@, join(texts(config.expose_headers@), ", "@))); }
    }
    proof {
        assert(pairs =~= cors_headers(*config));
    }
}

// -----------------------------------------------------------------------------
// Timeout
// -----------------------------------------------------------------------------

/// The duration that `Duration::from_secs` gives for a number of seconds.
pub uninterp spec fn secs_duration(secs: u64) -> core::time::Duration;

/// `Duration::from_secs`: the duration of `secs` whole seconds. The
/// contract names the result.
#[verifier::external_body]
fn duration_from_secs(secs: u64) -> (d: core::time::Duration)
    ensures
        d == secs_duration(secs),
{
    core::time::Duration::from_secs(secs)
}

/// Middleware that answers 504 when the handler takes too long.
#[derive(Debug, Clone, Copy)]
pub struct TimeoutMiddleware {
    /// The time allowed
    pub timeout: core::time::Duration,
}

impl TimeoutMiddleware {
    /// With the given time limit.
    pub fn new(timeout: core::time::Duration) -> (r: Self)
        ensures
            r.timeout == timeout,
    {
        TimeoutMiddleware { timeout }
    }

    /// With a limit of `secs` seconds.
    pub fn seconds(secs: u64) -> (r: Self)
        ensures
            r.timeout == secs_duration(secs),
    {
        Self::new(duration_from_secs(secs))
    }
}

// -----------------------------------------------------------------------------
// Request ID
// -----------------------------------------------------------------------------

/// Middleware that gives each request an `X-Request-ID`.
#[derive(Debug, Clone, Copy, PartialEq, Eq, Structural)]
pub struct RequestIdMiddleware;

impl RequestIdMiddleware {
    /// The middleware.
    pub fn new() -> (r: Self)
        ensures
            r == RequestIdMiddleware,
    {
        RequestIdMiddleware
    }
}

impl Default for RequestIdMiddleware {
    fn default() -> (r: Self)
        ensures
            r == RequestIdMiddleware,
    {
        Self::new()
    }
}

/// The request ID, for handlers to read.
#[derive(Debug, Clone)]
pub struct RequestId(pub String);

// -----------------------------------------------------------------------------
// Compression
// -----------------------------------------------------------------------------

/// Middleware that would compress large responses (it passes them on).
#[derive(Debug, Clone, Copy, PartialEq, Eq, Structural)]
pub struct CompressionMiddleware {
    /// Smallest body size worth compressing
    pub min_size: usize,
}

impl CompressionMiddleware {
    /// Compresses from 1024 bytes on.
    pub fn new() -> (r: Self)
        ensures
            r.min_size == 1024,
    {
        CompressionMiddleware { min_size: 1024 }
    }

    /// Sets the smallest size.
    pub fn min_size(self, size: usize) -> (r: Self)
        ensures
            r.min_size == size,
    {
        CompressionMiddleware { min_size: size }
    }
}

impl Default for CompressionMiddleware {
    fn default() -> (r: Self)
        ensures
            r.min_size == 1024,
    {
        Self::new()
    }
}

// -----------------------------------------------------------------------------
// Rate limiting
// -----------------------------------------------------------------------------

/// A client's count of requests in the current window, and when the window
/// began (in nanoseconds on the server's clock).
#[derive(Debug, Clone, Copy, PartialEq, Eq, Structural)]
pub struct RateEntry {
    pub count: u32,
    pub window_start: u128,
}

/// What the rate limiter decides for a request.
#[derive(Debug, Clone, Copy, PartialEq, Eq, Structural)]
pub enum RateDecision {
    /// Let the request through.
    Allow,
    /// Refuse it; the client may retry after this many seconds.
    Reject(u64),
}

/// Nanoseconds in a second.
pub open spec fn nanos_per_sec() -> int {
    1_000_000_000
}

/// The entry after a request at `now`: a window at least `window_secs` old
/// starts anew at `now` with no requests; a window below `max_requests`
/// counts the request.
pub open spec fn rate_entry_after(e: RateEntry, now: u128, window_secs: u64, max_requests: u32) -> RateEntry {
    let elapsed: int = if now >= e.window_start { now - e.window_start } else { 0 };
    let fresh = elapsed >= window_secs * nanos_per_sec();
    let count = if fresh { 0 } else { e.count };
    let start = if fresh { now } else { e.window_start };
    if count >= max_requests {
        RateEntry { count: count, window_start: start }
    } else {
        RateEntry { count: (count + 1) as u32, window_start: start }
    }
}

/// The decision for a request at `now`: refused when the (possibly fresh)
/// window already holds `max_requests` requests, with the whole seconds
/// left in the window; allowed otherwise.
pub open spec fn rate_decision(e: RateEntry, now: u128, window_secs: u64, max_requests: u32) -> RateDecision {
    let elapsed: int = if now >= e.window_start { now - e.window_start } else { 0 };
    let fresh = elapsed >= window_secs * nanos_per_sec();
    let count = if fresh { 0 } else { e.count };
    let since = if fresh { 0 } else { elapsed };
    if count >= max_requests {
        RateDecision::Reject((window_secs - since / nanos_per_sec()) as u64)
    } else {
        RateDecision::Allow
    }
}

/// Counts a request at `now` against a client's window (see
/// [`rate_entry_after`] and [`rate_decision`]).
pub fn rate_limit(entry: &mut RateEntry, now: u128, window_secs: u64, max_requests: u32) -> (r: RateDecision)
    ensures
        *final(entry) == rate_entry_after(*old(entry), now, window_secs, max_requests),
        r == rate_decision(*old(entry), now, window_secs, max_requests),
{
    let window: u128 = window_secs as u128 * 1_000_000_000;
    let mut elapsed: u128 = if now >= entry.window_start { now - entry.window_start } else { 0 };
    if elapsed >= window {
        entry.count = 0;
        entry.window_start = now;
        elapsed = 0;
    }
    if entry.count >= max_requests {
        let retry_after = window_secs - (elapsed / 1_000_000_000) as u64;
        return RateDecision::Reject(retry_after);
    }
    entry.count = entry.count + 1;
    RateDecision::Allow
}

/// The answer to a request over the limit: `429 Too Many Requests` as an
/// error response, with `Retry-After` set to the seconds left.
pub fn rate_limited_response(retry_after: u64) -> (r: Response)
    ensures
        r.headers_view().values_of(lowercase_of("Retry-After"@)) == Some(seq![decimal_digits(retry_after as nat)]),
        r.status_view() == super::types::StatusCode(429),
        r.wf(),
{
    let digits = u64_to_decimal(retry_after);
    Response::error(super::types::StatusCode(429), "Rate limit exceeded").header("Retry-After", digits.as_str())
}

} // verus!
