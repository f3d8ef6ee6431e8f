//! The HTTP client's transport logic: addresses, redirects, the request
//! text, and reading the server's answer (status line, headers, chunked
//! bodies). Opening sockets and TLS sessions is left to the caller.

use vstd::prelude::*;
use vstd::string::StringExecFns;
use crate::text::{
    all_ascii_digits, all_digits_in, ascii_lower_seq, chars_of, decimal_capped, decimal_digits,
    decimal_value, find_char_from, find_char_in, has_prefix, rfind_char, rfind_char_in,
    starts_with_chars, string_from_chars, subrange_vec, trim_chars, trimmed, u64_to_decimal,
    spec_hex_value, spec_is_ascii_hexdigit, char_utf8_len, utf8_len, find_crlf, contains_seq,
    find_seq_from,
};
use super::codec::{from_utf8_lossy, utf8_lossy
};

verus! {

// ---------------------------------------------------------------------------
//                                 ADDRESSES
// ---------------------------------------------------------------------------

/// A parsed address.
#[derive(Debug, Clone, PartialEq, Eq)]
pub struct Url {
    pub host: String,
    pub port: u16,
    pub path: String,
    pub https: bool,
}

/// An address as plain values: host, port, path, and whether it is `https`.
pub type UrlParts = (Seq<char>, u16, Seq<char>, bool);

/// The parts of an address.
pub open spec fn url_parts(u: Url) -> UrlParts {
    (u.host@, u.port, u.path@, u.https)
}

/// A parse result as plain values.
pub open spec fn url_result(r: Result<Url, String>) -> Result<UrlParts, Seq<char>> {
    match r {
        Ok(u) => Ok(url_parts(u)),
        Err(e) => Err(e@),
    }
}

/// What an address reads as: `http://` or `https://` (or no scheme, read
/// as `http`), a host, an optional `:port` of digits after the last colon
/// of the authority (443 or 80 when absent), and a path from the first `/`
/// on (`/` when absent). White space around the address is ignored.
pub open spec fn url_outcome(u: Seq<char>) -> Result<UrlParts, Seq<char>> {
    let t = trimmed(u);
    let https = has_prefix(t, "https://"@);
    let rest = if https {
        t.skip("https://"@.len() as int)
    } else if has_prefix(t, "http://"@) {
        t.skip("http://"@.len() as int)
    } else {
        t
    };
    if rest.len() == 0 {
        Err("Адрес пуст"@)
    } else {
        let slash = find_char_from(rest, '/', 0);
        let authority = match slash {
            Some(i) => rest.take(i),
            None => rest,
        };
        let path = match slash {
            Some(i) => rest.skip(i),
            None => "/"@,
        };
        let colon = rfind_char(authority, ':', authority.len() as int);
        let port_text = match colon {
            Some(c) => authority.skip(c + 1),
            None => Seq::<char>::empty(),
        };
        let numeric = colon is Some && port_text.len() > 0 && all_ascii_digits(port_text);
        if numeric && decimal_value(port_text) > 65535 {
            Err("Неверный порт в адресе: "@ + u)
        } else {
            let host = if numeric { authority.take(colon->0) } else { authority };
            let port: u16 = if numeric {
                decimal_value(port_text) as u16
            } else if https {
                443
            } else {
                80
            };
            if host.len() == 0 {
                Err("В адресе не указан узел: "@ + u)
            } else {
                Ok((host, port, path, https))
            }
        }
    }
}

/// Parses an address of the form `https://host:port/path` (see [`url_outcome`]).
pub fn parse_url(url: &str) -> (r: Result<Url, String>)
    ensures
        url_result(r) == url_outcome(url@),
{
    let all = chars_of(url);
    let t = trim_chars(&all);
    let https_prefix = chars_of("https://");
    let http_prefix = chars_of("http://");
    let https = starts_with_chars(&t, &https_prefix);
    let skip = if https {
        https_prefix.len()
    } else if starts_with_chars(&t, &http_prefix) {
        http_prefix.len()
    } else {
        0
    };
    let rest = subrange_vec(&t, skip, t.len());
    proof {
        assert(t@.skip(skip as int) =~= rest@);
        assert(t@.subrange(0, t.len() as int) =~= t@);
    }
    if rest.len() == 0 {
        return Err(String::from_str("Адрес пуст"));
    }
    let slash = find_char_in(&rest, '/', 0);
    let (authority, path) = match slash {
        Some(i) => {
            let a = subrange_vec(&rest, 0, i);
            let p = subrange_vec(&rest, i, rest.len());
            proof {
                assert(rest@.take(i as int) =~= a@);
                assert(rest@.skip(i as int) =~= p@);
            }
            (a, p)
        },
        None => (subrange_vec(&rest, 0, rest.len()), chars_of("/")),
    };
    proof {
        assert(rest@.subrange(0, rest.len() as int) =~= rest@);
    }
    let colon = rfind_char_in(&authority, ':', authority.len());
    let mut numeric = false;
    let mut port: u16 = if https { 443 } else { 80 };
    let mut host_end = authority.len();
    if let Some(c) = colon {
        if c + 1 < authority.len() && all_digits_in(&authority, c + 1, authority.len()) {
            proof {
                assert(authority@.skip(c + 1) =~= authority@.subrange(c + 1, authority.len() as int));
            }
            let v = decimal_capped(&authority, c + 1, authority.len(), 65536);
            if v > 65535 {
                return Err(String::from_str("Неверный порт в адресе: ").concat(url));
            }
            numeric = true;
            port = v as u16;
            host_end = c;
        } else {
            proof {
                assert(authority@.skip(c + 1) =~= authority@.subrange(c + 1, authority.len() as int));
            }
        }
    }
    if host_end == 0 {
        proof {
            if !numeric {
                assert(authority@.len() == 0);
            }
        }
        return Err(String::from_str("В адресе не указан узел: ").concat(url));
    }
    let host = subrange_vec(&authority, 0, host_end);
    proof {
        assert(authority@.take(host_end as int) =~= host@);
        assert(authority@.subrange(0, authority.len() as int) =~= authority@);
    }
    Ok(Url {
        host: string_from_chars(host.as_slice()),
        port,
        path: string_from_chars(path.as_slice()),
        https,
    })
}

/// The scheme, host and (when it is not the scheme's default) port of an
/// address, as text.
pub open spec fn origin_text(https: bool, host: Seq<char>, port: u16) -> Seq<char> {
    let scheme = if https { "https"@ } else { "http"@ };
    let default_port: u16 = if https { 443 } else { 80 };
    if port == default_port {
        scheme + "://"@ + host
    } else {
        scheme + "://"@ + host + ":"@ + decimal_digits(port as nat)
    }
}

impl Url {
    /// Writes the address's origin back as text (see [`origin_text`]).
    pub fn origin(&self) -> (r: String)
        ensures
            r@ == origin_text(self.https, self.host@, self.port),
    {
        let scheme = if self.https { String::from_str("https") } else { String::from_str("http") };
        let default_port: u16 = if self.https { 443 } else { 80 };
        let base = scheme.concat("://").concat(self.host.as_str());
        if self.port == default_port {
            base
        } else {
            let digits = u64_to_decimal(self.port as u64);
            base.concat(":").concat(digits.as_str())
        }
    }
}

// ---------------------------------------------------------------------------
//                                REDIRECTS
// ---------------------------------------------------------------------------

/// The address text that a redirect to `location` leads to from `current`:
/// an absolute address as it stands; a path from the root after the
/// current origin; any other path after the current path's directory.
pub open spec fn redirect_text(current: UrlParts, location: Seq<char>) -> Seq<char> {
    let l = trimmed(location);
    let origin = origin_text(current.3, current.0, current.1);
    if has_prefix(l, "http://"@) || has_prefix(l, "https://"@) {
        l
    } else if l.len() > 0 && l[0] == '/' {
        origin + "/"@ + l.skip(1)
    } else {
        let path = current.2;
        let base = match rfind_char(path, '/', path.len() as int) {
            Some(i) => path.take(i),
            None => Seq::<char>::empty(),
        };
        origin + base + "/"@ + l
    }
}

/// Resolves a redirect's `location` against the current address (see
/// [`redirect_text`]); the result is that text parsed as an address.
pub fn resolve_redirect(current: &Url, location: &str) -> (r: Result<Url, String>)
    ensures
        url_result(r) == url_outcome(redirect_text(url_parts(*current), location@)),
{
    let l = trim_chars(&chars_of(location));
    let http_prefix = chars_of("http://");
    let https_prefix = chars_of("https://");
    if starts_with_chars(&l, &http_prefix) || starts_with_chars(&l, &https_prefix) {
        let text = string_from_chars(l.as_slice());
        return parse_url(text.as_str());
    }
    let origin = current.origin();
    if l.len() > 0 && l[0] == '/' {
        let tail = string_from_chars(subrange_vec(&l, 1, l.len()).as_slice());
        proof {
            assert(l@.skip(1) =~= l@.subrange(1, l.len() as int));
        }
        let text = origin.concat("/").concat(tail.as_str());
        return parse_url(text.as_str());
    }
    let path = chars_of(current.path.as_str());
    let base = match rfind_char_in(&path, '/', path.len()) {
        Some(i) => {
            let b = subrange_vec(&path, 0, i);
            proof {
                assert(path@.take(i as int) =~= b@);
            }
            b
        },
        None => Vec::new(),
    };
    proof {
        assert(base@ == match rfind_char(path@, '/', path@.len() as int) {
            Some(i) => path@.take(i),
            None => Seq::<char>::empty(),
        });
    }
    let base_text = string_from_chars(base.as_slice());
    let lt = string_from_chars(l.as_slice());
    let text = origin.concat(base_text.as_str()).concat("/").concat(lt.as_str());
    parse_url(text.as_str())
}

// ---------------------------------------------------------------------------
//                                RESPONSES
// ---------------------------------------------------------------------------

/// A server's answer.
#[derive(Debug, Clone)]
pub struct Response {
    pub status: u16,
    pub reason: String,
    pub headers: Vec<(String, String)>,
    pub body: String,
}

/// Name-value pairs of strings as plain values.
pub open spec fn pairs_view(v: Seq<(String, String)>) -> Seq<(Seq<char>, Seq<char>)> {
    v.map_values(|p: (String, String)| (p.0@, p.1@))
}

/// The index of the first pair whose name equals `name` ignoring ASCII
/// case, at or after `i`.
pub open spec fn header_index(hs: Seq<(Seq<char>, Seq<char>)>, name: Seq<char>, i: int) -> Option<int>
    decreases hs.len() - i,
{
    if i < 0 || i >= hs.len() {
        None
    } else if ascii_lower_seq(hs[i].0) == ascii_lower_seq(name) {
        Some(i)
    } else {
        header_index(hs, name, i + 1)
    }
}

/// Whether a status code asks to go elsewhere (301, 302, 303, 307, 308).
pub open spec fn is_redirect_status(status: u16) -> bool {
    status == 301 || status == 302 || status == 303 || status == 307 || status == 308
}

impl Response {
    /// The value of the first header named `name`, ignoring the name's
    /// ASCII case.
    pub fn header(&self, name: &str) -> (r: Option<&str>)
        ensures
            match header_index(pairs_view(self.headers@), name@, 0) {
                Some(i) => r matches Some(v) && v@ == pairs_view(self.headers@)[i].1,
                None => r is None,
            },
    {
        let mut i: usize = 0;
        while i < self.headers.len()
            invariant
                i <= self.headers.len(),
                header_index(pairs_view(self.headers@), name@, 0)
                    == header_index(pairs_view(self.headers@), name@, i as int),
            decreases self.headers.len() - i,
        {
            if crate::text::eq_ignore_ascii_case(self.headers[i].0.as_str(), name) {
                return Some(self.headers[i].1.as_str());
            }
            i = i + 1;
        }
        None
    }

    /// Whether the answer is a redirect (see [`is_redirect_status`]).
    pub fn is_redirect(&self) -> (r: bool)
        ensures
            r == is_redirect_status(self.status),
    {
        let s = self.status;
        s == 301 || s == 302 || s == 303 || s == 307 || s == 308
    }
}

// ---------------------------------------------------------------------------
//                             READING ANSWERS
// ---------------------------------------------------------------------------

/// The value of hexadecimal digits, most significant first.
pub open spec fn hex_digits_value(s: Seq<char>) -> int
    decreases s.len(),
{
    if s.len() == 0 {
        0
    } else {
        hex_digits_value(s.drop_last()) * 16 + spec_hex_value(s.last()) as int
    }
}

/// Whether every character is a hexadecimal digit.
pub open spec fn all_hex_digits(s: Seq<char>) -> bool {
    forall|k: int| 0 <= k < s.len() ==> spec_is_ascii_hexdigit(#[trigger] s[k])
}

/// What `usize::from_str_radix(_, 16)` accepts: an optional `+` and one or
/// more hexadecimal digits whose value fits in `usize`.
pub open spec fn parsed_hex_usize(s: Seq<char>) -> Option<nat> {
    let digits = if s.len() > 0 && s[0] == '+' { s.skip(1) } else { s };
    if digits.len() > 0 && all_hex_digits(digits) && hex_digits_value(digits) <= usize::MAX {
        Some(hex_digits_value(digits) as nat)
    } else {
        None
    }
}

/// What `str::parse::<u16>` accepts: an optional `+` and one or more ASCII
/// digits whose value fits in `u16`.
pub open spec fn parsed_u16(s: Seq<char>) -> Option<u16> {
    let digits = if s.len() > 0 && s[0] == '+' { s.skip(1) } else { s };
    if digits.len() > 0 && all_ascii_digits(digits) && decimal_value(digits) <= 65535 {
        Some(decimal_value(digits) as u16)
    } else {
        None
    }
}

/// `s` up to its first `;` (all of it when there is none).
pub open spec fn before_semicolon(s: Seq<char>) -> Seq<char> {
    match find_char_from(s, ';', 0) {
        Some(i) => s.take(i),
        None => s,
    }
}

/// Walks the characters from index `j`, taking each one's UTF-8 length away
/// from `size`, until `size` is used up or the text ends: the index reached
/// and the bytes left (negative when a character runs past `size`).
pub open spec fn take_bytes(c: Seq<char>, j: int, size: int) -> (int, int)
    decreases c.len() - j,
{
    if size <= 0 || j < 0 || j >= c.len() {
        (j, size)
    } else {
        take_bytes(c, j + 1, size - char_utf8_len(c[j]))
    }
}

/// Where reading resumes after a chunk that ends before index `e`: two
/// bytes further when that lands on a character boundary, else at the end.
pub open spec fn resume_after(c: Seq<char>, e: int) -> int {
    if 0 <= e < c.len() && char_utf8_len(c[e]) == 2 {
        e + 1
    } else if 0 <= e && e + 1 < c.len() && char_utf8_len(c[e]) == 1 && char_utf8_len(c[e + 1]) == 1 {
        e + 2
    } else {
        c.len() as int
    }
}

/// Joins a body sent in chunks, from index `pos` on, after `out`.
///
/// Each chunk is a line holding its length in bytes in hexadecimal
/// (anything from a `;` on is ignored), then that many bytes and a line
/// break; a zero length ends the body, and so does a missing line break.
/// A chunk longer than what is left takes what is left. `None` where the
/// length does not fit beside the line, or the chunk ends inside a
/// character.
pub open spec fn chunks_outcome(c: Seq<char>, pos: int, out: Seq<char>) -> Option<Result<Seq<char>, Seq<char>>>
    decreases c.len() - pos,
{
    if pos < 0 || pos > c.len() {
        Some(Ok(out))
    } else {
        match find_crlf(c, pos) {
            None => Some(Ok(out)),
            Some(k) => {
                let size_text = trimmed(before_semicolon(c.subrange(pos, k)));
                match parsed_hex_usize(size_text) {
                    None => Some(Err("Неверная длина куска ответа: «"@ + size_text + "»"@)),
                    Some(size) => if size == 0 {
                        Some(Ok(out))
                    } else if utf8_len(c.subrange(pos, k)) + 2 + size > usize::MAX {
                        None
                    } else {
                        let (e, left) = take_bytes(c, k + 2, size as int);
                        if left > 0 {
                            Some(Ok(out + c.subrange(k + 2, c.len() as int)))
                        } else if left < 0 {
                            None
                        } else if resume_after(c, e) > pos {
                            chunks_outcome(c, resume_after(c, e), out + c.subrange(k + 2, e))
                        } else {
                            Some(Ok(out + c.subrange(k + 2, e)))
                        }
                    },
                }
            },
        }
    }
}

/// A decoded body as plain values.
pub open spec fn text_result(r: Option<Result<String, String>>) -> Option<Result<Seq<char>, Seq<char>>> {
    match r {
        None => None,
        Some(Ok(s)) => Some(Ok(s@)),
        Some(Err(e)) => Some(Err(e@)),
    }
}

/// Reads the length of the chunk whose line is `c[pos..k]`.
fn chunk_size(c: &Vec<char>, pos: usize, k: usize) -> (r: (Option<usize>, Vec<char>))
    requires
        pos <= k <= c.len(),
    ensures
        r.1@ == trimmed(before_semicolon(c@.subrange(pos as int, k as int))),
        match parsed_hex_usize(r.1@) {
            Some(v) => r.0 == Some(v as usize) && v <= usize::MAX,
            None => r.0 is None,
        },
{
    let line = subrange_vec(c, pos, k);
    let cut = match find_char_in(&line, ';', 0) {
        Some(i) => {
            let v = subrange_vec(&line, 0, i);
            proof {
                assert(line@.take(i as int) =~= v@);
            }
            v
        },
        None => line,
    };
    let t = trim_chars(&cut);
    let ghost expected = trimmed(before_semicolon(c@.subrange(pos as int, k as int)));
    proof {
        assert(line@ =~= c@.subrange(pos as int, k as int));
    }
    assert(t@ == expected);
    let start: usize = if t.len() > 0 && t[0] == '+' { 1 } else { 0 };
    let ghost digits = if t@.len() > 0 && t@[0] == '+' { t@.skip(1) } else { t@ };
    assert(digits =~= t@.subrange(start as int, t.len() as int));
    if start == t.len() {
        return (None, t);
    }
    let cap: u128 = usize::MAX as u128 + 1;
    let mut acc: u128 = 0;
    let mut i = start;
    proof {
        assert(t@.subrange(start as int, start as int) =~= Seq::<char>::empty());
    }
    while i < t.len()
        invariant
            start <= i <= t.len(),
            t@ == expected,
            expected == trimmed(before_semicolon(c@.subrange(pos as int, k as int))),
            digits == (if t@.len() > 0 && t@[0] == '+' { t@.skip(1) } else { t@ }),
            digits == t@.subrange(start as int, t.len() as int),
            cap == usize::MAX as u128 + 1,
            all_hex_digits(t@.subrange(start as int, i as int)),
            hex_digits_value(t@.subrange(start as int, i as int)) >= 0,
            acc == (if hex_digits_value(t@.subrange(start as int, i as int)) < cap {
                hex_digits_value(t@.subrange(start as int, i as int))
            } else {
                cap as int
            }),
        decreases t.len() - i,
    {
        let ch = t[i];
        if !crate::text::is_ascii_hexdigit(ch) {
            assert(!all_hex_digits(digits)) by {
                assert(digits[i - start] == ch);
            }
            return (None, t);
        }
        let d = crate::text::hex_value(ch) as u128;
        proof {
            assert(t@.subrange(start as int, i + 1).drop_last() =~= t@.subrange(start as int, i as int));
        }
        if acc < cap {
            acc = acc * 16 + d;
            if acc > cap {
                acc = cap;
            }
        }
        i = i + 1;
    }
    if acc >= cap {
        (None, t)
    } else {
        (Some(acc as usize), t)
    }
}

/// The UTF-8 length of `c[a..b]`.
fn utf8_len_of(c: &Vec<char>, a: usize, b: usize) -> (r: u128)
    requires
        a <= b <= c.len(),
    ensures
        r == utf8_len(c@.subrange(a as int, b as int)),
        r <= 4 * (b - a),
{
    let mut i = a;
    let mut n: u128 = 0;
    proof {
        assert(c@.subrange(a as int, a as int) =~= Seq::<char>::empty());
    }
    while i < b
        invariant
            a <= i <= b <= c.len(),
            n == utf8_len(c@.subrange(a as int, i as int)),
            n <= 4 * (i - a),
        decreases b - i,
    {
        proof {
            assert(c@.subrange(a as int, i + 1).drop_last() =~= c@.subrange(a as int, i as int));
        }
        n = n + crate::text::len_utf8(c[i]) as u128;
        i = i + 1;
    }
    n
}

/// Joins a body sent in chunks (see [`chunks_outcome`]); `None` where the
/// chunk lengths leave the text (a length that overflows, or a chunk that
/// ends inside a character).
pub fn decode_chunked_checked(body: &str) -> (r: Option<Result<String, String>>)
    ensures
        text_result(r) == chunks_outcome(body@, 0, Seq::<char>::empty()),
{
    let c = chars_of(body);
    let mut out: Vec<char> = Vec::new();
    let mut pos: usize = 0;
    let mut done = false;
    while !done
        invariant
            c@ == body@,
            pos <= c.len(),
            !done ==> chunks_outcome(c@, pos as int, out@) == chunks_outcome(body@, 0, Seq::<char>::empty()),
            done ==> chunks_outcome(body@, 0, Seq::<char>::empty()) == Some(Ok::<Seq<char>, Seq<char>>(out@)),
        decreases (if done { 0 } else { c.len() + 1 - pos }),
    {
        let k = match crate::text::find_crlf_in(&c, pos) {
            Some(k) => k,
            None => {
                done = true;
                continue;
            },
        };
        let (size, size_text) = chunk_size(&c, pos, k);
        let size = match size {
            Some(v) => v,
            None => {
                let msg = String::from_str("Неверная длина куска ответа: «").concat(
                    string_from_chars(size_text.as_slice()).as_str(),
                ).concat("»");
                return Some(Err(msg));
            },
        };
        if size == 0 {
            assert(find_crlf(c@, pos as int) == Some(k as int));
            assert(size_text@ == trimmed(before_semicolon(c@.subrange(pos as int, k as int))));
            assert(parsed_hex_usize(size_text@) == Some(0nat));
            assert(chunks_outcome(c@, pos as int, out@) == Some(Ok::<Seq<char>, Seq<char>>(out@)));
            done = true;
            continue;
        }
        let line_bytes = utf8_len_of(&c, pos, k);
        if line_bytes + 2 + size as u128 > usize::MAX as u128 {
            return None;
        }
        let start = k + 2;
        let mut j = start;
        let mut left: i128 = size as i128;
        while left > 0 && j < c.len()
            invariant
                start <= j <= c.len(),
                take_bytes(c@, j as int, left as int) == take_bytes(c@, start as int, size as int),
                left <= size,
            decreases c.len() - j,
        {
            left = left - crate::text::len_utf8(c[j]) as i128;
            j = j + 1;
        }
        proof {
            assert(take_bytes(c@, j as int, left as int) == (j as int, left as int));
        }
        let ghost out0 = out@;
        let stop = if left > 0 { c.len() } else { j };
        let mut m = start;
        proof {
            assert(c@.subrange(start as int, start as int) =~= Seq::<char>::empty());
            assert(out0 + Seq::<char>::empty() =~= out0);
        }
        if left < 0 {
            return None;
        }
        while m < stop
            invariant
                start <= m <= stop <= c.len(),
                out@ == out0 + c@.subrange(start as int, m as int),
            decreases stop - m,
        {
            out.push(c[m]);
            m = m + 1;
            proof {
                assert(out@ =~= out0 + c@.subrange(start as int, m as int));
            }
        }
        proof {
            assert(find_crlf(c@, pos as int) == Some(k as int));
            assert(size_text@ == trimmed(before_semicolon(c@.subrange(pos as int, k as int))));
            assert(parsed_hex_usize(size_text@) == Some(size as nat));
        }
        if left > 0 {
            assert(chunks_outcome(c@, pos as int, out0) == Some(Ok::<Seq<char>, Seq<char>>(out@)));
            done = true;
        } else {
            let next = if j < c.len() && crate::text::len_utf8(c[j]) == 2 {
                j + 1
            } else if j < c.len() && j + 1 < c.len() && crate::text::len_utf8(c[j]) == 1 && crate::text::len_utf8(c[j + 1]) == 1 {
                j + 2
            } else {
                c.len()
            };
            assert(next == resume_after(c@, j as int));
            pos = next;
        }
    }
    Some(Ok(string_from_chars(out.as_slice())))
}

/// Joins a body sent in chunks (see [`chunks_outcome`]); the chunk lengths
/// must stay within the text.
pub fn decode_chunked(body: &str) -> (r: Result<String, String>)
    requires
        chunks_outcome(body@, 0, Seq::<char>::empty()) is Some,
    ensures
        text_result(Some(r)) == chunks_outcome(body@, 0, Seq::<char>::empty()),
{
    match decode_chunked_checked(body) {
        Some(r) => r,
        None => Err(String::new()),
    }
}

/// An answer as plain values: status, reason, headers and body.
pub type ResponseParts = (u16, Seq<char>, Seq<(Seq<char>, Seq<char>)>, Seq<char>);

/// The parts of an answer.
pub open spec fn response_parts(r: Response) -> ResponseParts {
    (r.status, r.reason@, pairs_view(r.headers@), r.body@)
}

/// A parse of an answer as plain values.
pub open spec fn response_result(r: Option<Result<Response, String>>) -> Option<Result<ResponseParts, Seq<char>>> {
    match r {
        None => None,
        Some(Ok(x)) => Some(Ok(response_parts(x))),
        Some(Err(e)) => Some(Err(e@)),
    }
}

/// The first index at or after `i` where `"\r\n\r\n"` starts, if any.
pub open spec fn find_blank_line(s: Seq<char>, i: int) -> Option<int>
    decreases s.len() - i,
{
    if i < 0 || i + 3 >= s.len() {
        None
    } else if s[i] == '\r' && s[i + 1] == '\n' && s[i + 2] == '\r' && s[i + 3] == '\n' {
        Some(i)
    } else {
        find_blank_line(s, i + 1)
    }
}

/// The name and value of a header line split at its first `:`, both
/// trimmed; nothing for a line without a colon.
pub open spec fn header_entry(line: Seq<char>) -> Seq<(Seq<char>, Seq<char>)> {
    match find_char_from(line, ':', 0) {
        Some(c) => seq![(trimmed(line.take(c)), trimmed(line.skip(c + 1)))],
        None => Seq::empty(),
    }
}

/// The headers of the lines of `h` from index `i` on, lines being
/// separated by `"\r\n"`.
pub open spec fn header_lines(h: Seq<char>, i: int) -> Seq<(Seq<char>, Seq<char>)>
    decreases h.len() + 1 - i,
{
    if i < 0 || i > h.len() {
        Seq::empty()
    } else {
        match find_crlf(h, i) {
            Some(e) => {
                proof {
                    crate::text::lemma_find_crlf_bounds(h, i);
                }
                header_entry(h.subrange(i, e)) + header_lines(h, e + 2)
            },
            None => header_entry(h.subrange(i, h.len() as int)),
        }
    }
}

/// Whether a `Transfer-Encoding` header (any ASCII case) mentions `chunked`.
pub open spec fn is_chunked(hs: Seq<(Seq<char>, Seq<char>)>) -> bool {
    exists|i: int|
        0 <= i < hs.len() && ascii_lower_seq(#[trigger] hs[i].0) == ascii_lower_seq("Transfer-Encoding"@)
            && contains_seq(hs[i].1, "chunked"@)
}

/// What an answer's text reads as: a status line (version, code, reason
/// separated by the first two spaces), header lines, a blank line, then the
/// body, joined when a header says it comes in chunks. `None` where joining
/// the chunks leaves the text (see [`chunks_outcome`]).
pub open spec fn response_outcome(t: Seq<char>) -> Option<Result<ResponseParts, Seq<char>>> {
    match find_blank_line(t, 0) {
        None => Some(Err("Ответ сервера оборван: нет заголовков"@)),
        Some(idx) => {
            let head = t.take(idx);
            let body = t.skip(idx + 4);
            let sl_end = match find_crlf(head, 0) {
                Some(k) => k,
                None => head.len() as int,
            };
            let line = head.take(sl_end);
            let sp1 = find_char_from(line, ' ', 0);
            let sp2 = match sp1 {
                Some(a) => find_char_from(line, ' ', a + 1),
                None => None,
            };
            let status = match sp1 {
                Some(a) => parsed_u16(line.subrange(a + 1, match sp2 {
                    Some(b) => b,
                    None => line.len() as int,
                })),
                None => None,
            };
            match status {
                None => Some(Err("Не разобрать строку состояния: «"@ + line + "»"@)),
                Some(code) => {
                    let reason = match sp2 {
                        Some(b) => trimmed(line.skip(b + 1)),
                        None => Seq::empty(),
                    };
                    let hs = if sl_end < head.len() { header_lines(head, sl_end + 2) } else { Seq::empty() };
                    if is_chunked(hs) {
                        match chunks_outcome(body, 0, Seq::empty()) {
                            None => None,
                            Some(Err(e)) => Some(Err(e)),
                            Some(Ok(b)) => Some(Ok((code, reason, hs, b))),
                        }
                    } else {
                        Some(Ok((code, reason, hs, body)))
                    }
                },
            }
        },
    }
}

/// Index of the first `"\r\n\r\n"` in `v` (see [`find_blank_line`]).
fn find_blank_line_in(v: &Vec<char>) -> (r: Option<usize>)
    ensures
        match r {
            Some(k) => find_blank_line(v@, 0) == Some(k as int) && k + 3 < v.len(),
            None => find_blank_line(v@, 0) is None,
        },
{
    let mut i: usize = 0;
    while v.len() >= 4 && i <= v.len() - 4
        invariant
            find_blank_line(v@, 0) == find_blank_line(v@, i as int),
        decreases v.len() - i,
    {
        if v[i] == '\r' && v[i + 1] == '\n' && v[i + 2] == '\r' && v[i + 3] == '\n' {
            return Some(i);
        }
        i = i + 1;
    }
    None
}

/// The status code written in `v[a..b]` (see [`parsed_u16`]).
fn parse_u16_in(v: &Vec<char>, a: usize, b: usize) -> (r: Option<u16>)
    requires
        a <= b <= v.len(),
    ensures
        r == parsed_u16(v@.subrange(a as int, b as int)),
{
    let ghost s = v@.subrange(a as int, b as int);
    let start = if a < b && v[a] == '+' { a + 1 } else { a };
    proof {
        let digits = if s.len() > 0 && s[0] == '+' { s.skip(1) } else { s };
        assert(digits =~= v@.subrange(start as int, b as int));
    }
    if start == b || !all_digits_in(v, start, b) {
        return None;
    }
    let value = decimal_capped(v, start, b, 65536);
    if value > 65535 {
        None
    } else {
        Some(value as u16)
    }
}

/// Reads the headers of the lines of `h` after the status line, which ends
/// at `from - 2` (see [`header_lines`]).
fn read_header_lines(h: &Vec<char>, from: usize) -> (r: Vec<(String, String)>)
    requires
        from <= h.len(),
    ensures
        pairs_view(r@) == header_lines(h@, from as int),
{
    let mut hs: Vec<(String, String)> = Vec::new();
    let mut i = from;
    let mut done = false;
    proof {
        assert(pairs_view(hs@) =~= Seq::<(Seq<char>, Seq<char>)>::empty());
    }
    while !done
        invariant
            from <= i <= h.len(),
            !done ==> pairs_view(hs@) + header_lines(h@, i as int) == header_lines(h@, from as int),
            done ==> pairs_view(hs@) == header_lines(h@, from as int),
        decreases (if done { 0 } else { h.len() + 1 - i }),
    {
        let ghost before = pairs_view(hs@);
        let found = crate::text::find_crlf_in(h, i);
        let e = match found {
            Some(k) => k,
            None => h.len(),
        };
        let line = subrange_vec(h, i, e);
        match find_char_in(&line, ':', 0) {
            Some(c) => {
                let name = trim_chars(&subrange_vec(&line, 0, c));
                let value = trim_chars(&subrange_vec(&line, c + 1, line.len()));
                proof {
                    assert(line@.take(c as int) =~= line@.subrange(0, c as int));
                    assert(line@.skip(c + 1) =~= line@.subrange(c + 1, line.len() as int));
                }
                hs.push((string_from_chars(name.as_slice()), string_from_chars(value.as_slice())));
            },
            None => {},
        }
        proof {
            assert(pairs_view(hs@) =~= before + header_entry(h@.subrange(i as int, e as int)));
        }
        match found {
            Some(k) => {
                i = k + 2;
            },
            None => {
                done = true;
            },
        }
    }
    hs
}

/// Whether one of the headers is a `Transfer-Encoding` that mentions
/// `chunked` (see [`is_chunked`]).
fn has_chunked_encoding(hs: &Vec<(String, String)>) -> (r: bool)
    ensures
        r == is_chunked(pairs_view(hs@)),
{
    let mut i: usize = 0;
    while i < hs.len()
        invariant
            i <= hs.len(),
            forall|k: int| 0 <= k < i ==> !(ascii_lower_seq(#[trigger] pairs_view(hs@)[k].0) == ascii_lower_seq("Transfer-Encoding"@)
                && contains_seq(pairs_view(hs@)[k].1, "chunked"@)),
        decreases hs.len() - i,
    {
        if crate::text::eq_ignore_ascii_case(hs[i].0.as_str(), "Transfer-Encoding")
            && crate::text::contains_chars(hs[i].1.as_str(), "chunked") {
            assert(pairs_view(hs@)[i as int] == (hs@[i as int].0@, hs@[i as int].1@));
            assert(ascii_lower_seq(pairs_view(hs@)[i as int].0) == ascii_lower_seq("Transfer-Encoding"@)
                && contains_seq(pairs_view(hs@)[i as int].1, "chunked"@));
            return true;
        }
        assert(pairs_view(hs@)[i as int] == (hs@[i as int].0@, hs@[i as int].1@));
        i = i + 1;
    }
    false
}

/// Reads an answer from its text (see [`response_outcome`]); `None` where
/// joining a chunked body leaves the text.
pub fn parse_response_text(text: &str) -> (r: Option<Result<Response, String>>)
    ensures
        response_result(r) == response_outcome(text@),
{
    let c = chars_of(text);
    let idx = match find_blank_line_in(&c) {
        Some(i) => i,
        None => return Some(Err(String::from_str("Ответ сервера оборван: нет заголовков"))),
    };
    let head = subrange_vec(&c, 0, idx);
    let body = subrange_vec(&c, idx + 4, c.len());
    proof {
        assert(c@.take(idx as int) =~= head@);
        assert(c@.skip(idx + 4) =~= body@);
    }
    let crlf = crate::text::find_crlf_in(&head, 0);
    let sl_end = match crlf {
        Some(k) => k,
        None => head.len(),
    };
    let line = subrange_vec(&head, 0, sl_end);
    proof {
        assert(head@.take(sl_end as int) =~= line@);
    }
    let sp1 = find_char_in(&line, ' ', 0);
    let (status, sp2) = match sp1 {
        Some(a) => {
            let sp2 = find_char_in(&line, ' ', a + 1);
            let e = match sp2 {
                Some(b) => b,
                None => line.len(),
            };
            (parse_u16_in(&line, a + 1, e), sp2)
        },
        None => (None, None),
    };
    let code = match status {
        Some(code) => code,
        None => {
            let line_text = string_from_chars(line.as_slice());
            let msg = String::from_str("Не разобрать строку состояния: «").concat(line_text.as_str()).concat("»");
            return Some(Err(msg));
        },
    };
    let reason = match sp2 {
        Some(b) => {
            let rest = subrange_vec(&line, b + 1, line.len());
            proof {
                assert(line@.skip(b + 1) =~= rest@);
            }
            string_from_chars(trim_chars(&rest).as_slice())
        },
        None => String::new(),
    };
    let headers = if sl_end < head.len() {
        read_header_lines(&head, sl_end + 2)
    } else {
        let v: Vec<(String, String)> = Vec::new();
        proof {
            assert(pairs_view(v@) =~= Seq::<(Seq<char>, Seq<char>)>::empty());
        }
        v
    };
    let body_text = string_from_chars(body.as_slice());
    if has_chunked_encoding(&headers) {
        match decode_chunked_checked(body_text.as_str()) {
            None => None,
            Some(Err(e)) => Some(Err(e)),
            Some(Ok(b)) => Some(Ok(Response { status: code, reason, headers, body: b })),
        }
    } else {
        Some(Ok(Response { status: code, reason, headers, body: body_text }))
    }
}

/// Reads an answer from the bytes a server sent: they are decoded as UTF-8
/// (invalid sequences replaced) and read as in [`response_outcome`]; the
/// chunk lengths of a chunked body must stay within the text.
pub fn parse_response(raw: &[u8]) -> (r: Result<Response, String>)
    requires
        response_outcome(utf8_lossy(raw@)) is Some,
    ensures
        response_result(Some(r)) == response_outcome(utf8_lossy(raw@)),
{
    let text = from_utf8_lossy(raw);
    match parse_response_text(text.as_str()) {
        Some(r) => r,
        None => Err(String::new()),
    }
}

/// Reads an answer from the bytes a server sent, as [`parse_response`]
/// does; `None` where the chunk lengths of a chunked body leave the text.
pub fn try_parse_response(raw: &[u8]) -> (r: Option<Result<Response, String>>)
    ensures
        response_result(r) == response_outcome(utf8_lossy(raw@)),
{
    let text = from_utf8_lossy(raw);
    match parse_response_text(text.as_str()) {
        None => None,
        Some(_) => Some(parse_response(raw)),
    }
}

// ---------------------------------------------------------------------------
//                                 REQUESTS
// ---------------------------------------------------------------------------

/// How many redirects a request follows at most.
pub const MAX_REDIRECTS: usize = 5;

/// Whether a header named `name` (any ASCII case) is among `hs`.
pub open spec fn has_header(hs: Seq<(Seq<char>, Seq<char>)>, name: Seq<char>) -> bool {
    header_index(hs, name, 0) is Some
}

/// The header lines `name: value` of `hs` from index `i` on.
pub open spec fn header_block(hs: Seq<(Seq<char>, Seq<char>)>, i: int) -> Seq<char>
    decreases hs.len() - i,
{
    if i < 0 || i >= hs.len() {
        Seq::empty()
    } else {
        hs[i].0 + ": "@ + hs[i].1 + "\r\n"@ + header_block(hs, i + 1)
    }
}

/// The text of an HTTP/1.1 request: the request line, `Host`, `Connection:
/// close`, a `User-Agent` unless one is given, the given headers, and for
/// a body its `Content-Length` in bytes and a form `Content-Type` unless
/// one is given; then a blank line and the body.
pub open spec fn request_text(
    method: Seq<char>,
    path: Seq<char>,
    host: Seq<char>,
    body: Option<Seq<char>>,
    hs: Seq<(Seq<char>, Seq<char>)>,
) -> Seq<char> {
    let agent = if has_header(hs, "User-Agent"@) { Seq::empty() } else { "User-Agent: Kumir3\r\n"@ };
    let length = match body {
        Some(p) => "Content-Length: "@ + decimal_digits(vstd::utf8::encode_utf8(p).len()) + "\r\n"@
            + if has_header(hs, "Content-Type"@) {
                Seq::empty()
            } else {
                "Content-Type: application/x-www-form-urlencoded\r\n"@
            },
        None => Seq::empty(),
    };
    method + " "@ + path + " HTTP/1.1\r\nHost: "@ + host + "\r\nConnection: close\r\n"@ + agent
        + header_block(hs, 0) + length + "\r\n"@ + match body {
        Some(p) => p,
        None => Seq::empty(),
    }
}

/// Whether a header named `name` is among the pairs.
fn find_header(headers: &[(String, String)], name: &str) -> (r: bool)
    ensures
        r == has_header(pairs_view(headers@), name@),
{
    let mut i: usize = 0;
    while i < headers.len()
        invariant
            i <= headers.len(),
            header_index(pairs_view(headers@), name@, 0) == header_index(pairs_view(headers@), name@, i as int),
        decreases headers.len() - i,
    {
        if crate::text::eq_ignore_ascii_case(headers[i].0.as_str(), name) {
            return true;
        }
        i = i + 1;
    }
    false
}

/// Writes the text of a request to `url` (see [`request_text`]).
pub fn request_head(method: &str, url: &Url, body: Option<&str>, headers: &[(String, String)]) -> (r: String)
    ensures
        r@ == request_text(method@, url.path@, url.host@, match body {
            Some(p) => Some(p@),
            None => None,
        }, pairs_view(headers@)),
{
    let mut out = String::from_str(method).concat(" ").concat(url.path.as_str()).concat(
        " HTTP/1.1\r\nHost: ",
    ).concat(url.host.as_str()).concat("\r\nConnection: close\r\n");
    let ghost line = out@;
    let has_agent = find_header(headers, "User-Agent");
    if !has_agent {
        out.append("User-Agent: Kumir3\r\n");
    }
    let ghost start = out@;
    let ghost hs = pairs_view(headers@);
    assert(start == line + if has_header(hs, "User-Agent"@) { Seq::empty() } else { "User-Agent: Kumir3\r\n"@ });
    let mut i: usize = 0;
    while i < headers.len()
        invariant
            i <= headers.len(),
            hs == pairs_view(headers@),
            out@ + header_block(hs, i as int) == start + header_block(hs, 0),
        decreases headers.len() - i,
    {
        let ghost before = out@;
        out.append(headers[i].0.as_str());
        out.append(": ");
        out.append(headers[i].1.as_str());
        out.append("\r\n");
        proof {
            assert(hs[i as int] == (headers@[i as int].0@, headers@[i as int].1@));
            assert(out@ + header_block(hs, i + 1) =~= before + header_block(hs, i as int));
        }
        i = i + 1;
    }
    proof {
        assert(header_block(hs, i as int) =~= Seq::<char>::empty());
        assert(out@ =~= start + header_block(hs, 0));
    }
    let ghost mid = out@;
    if let Some(payload) = body {
        let size = payload.as_bytes().len();
        assert(size == vstd::utf8::encode_utf8(payload@).len());
        let n = u64_to_decimal(size as u64);
        assert(n@ == decimal_digits(vstd::utf8::encode_utf8(payload@).len()));
        out.append("Content-Length: ");
        out.append(n.as_str());
        out.append("\r\n");
        let has_type = find_header(headers, "Content-Type");
        if !has_type {
            out.append("Content-Type: application/x-www-form-urlencoded\r\n");
        }
        proof {
            let length = "Content-Length: "@ + decimal_digits(vstd::utf8::encode_utf8(payload@).len()) + "\r\n"@
                + if has_header(hs, "Content-Type"@) {
                    Seq::empty()
                } else {
                    "Content-Type: application/x-www-form-urlencoded\r\n"@
                };
            assert(out@ =~= mid + length);
        }
    }
    let ghost tail = out@;
    out.append("\r\n");
    if let Some(payload) = body {
        out.append(payload);
    }
    proof {
        let b = match body {
            Some(p) => Some(p@),
            None => None,
        };
        assert(out@ =~= request_text(method@, url.path@, url.host@, b, hs));
    }
    out
}

/// What to do after an answer arrives.
pub enum RedirectStep {
    /// The answer is final.
    Done,
    /// Ask again: at `target`, with `method` and `body`.
    Follow { target: Url, method: String, body: Option<String> },
    /// The redirect's address does not parse.
    Failed(String),
}

/// Whether a redirect turns the request into a `GET` without a body: after
/// 303, and after 302 for methods other than `GET`.
pub open spec fn becomes_get(status: u16, method: Seq<char>) -> bool {
    status == 303 || (status == 302 && method != "GET"@)
}

/// Decides what follows an answer to `method` at `target`: a final answer
/// unless it is a redirect with a `Location` header; else the location
/// resolved against the target (see [`resolve_redirect`]), with the method
/// and body kept or turned into a bodiless `GET` (see [`becomes_get`]).
pub fn after_response(method: &str, target: &Url, body: Option<&str>, response: &Response) -> (r: RedirectStep)
    ensures
        match header_index(pairs_view(response.headers@), "Location"@, 0) {
            Some(i) if is_redirect_status(response.status) => {
                let loc = pairs_view(response.headers@)[i].1;
                match url_outcome(redirect_text(url_parts(*target), loc)) {
                    Err(e) => r matches RedirectStep::Failed(m) && m@ == e,
                    Ok(u) => r matches RedirectStep::Follow { target: t, method: m, body: b } && url_parts(t) == u
                        && if becomes_get(response.status, method@) {
                            m@ == "GET"@ && b is None
                        } else {
                            m@ == method@ && match body {
                                Some(p) => b matches Some(x) && x@ == p@,
                                None => b is None,
                            }
                        },
                }
            },
            _ => r is Done,
        },
        r matches RedirectStep::Follow { method: m, body: b, .. } ==> {
            &&& response.status == 303 ==> m@ == "GET"@ && b is None
            &&& (response.status == 307 || response.status == 308) ==> m@ == method@ && match body {
                Some(p) => b matches Some(x) && x@ == p@,
                None => b is None,
            }
        },
{
    if !response.is_redirect() {
        return RedirectStep::Done;
    }
    let location = match response.header("Location") {
        Some(l) => l,
        None => return RedirectStep::Done,
    };
    match resolve_redirect(target, location) {
        Err(e) => RedirectStep::Failed(e),
        Ok(next) => {
            if response.status == 303 || (response.status == 302 && !crate::text::str_eq(method, "GET")) {
                RedirectStep::Follow { target: next, method: String::from_str("GET"), body: None }
            } else {
                let b = match body {
                    Some(p) => Some(String::from_str(p)),
                    None => None,
                };
                RedirectStep::Follow { target: next, method: String::from_str(method), body: b }
            }
        },
    }
}

/// The error for a request that was redirected more than [`MAX_REDIRECTS`] times.
pub fn too_many_redirects(url: &str) -> (r: String)
    ensures
        r@ == "Слишком много перенаправлений (больше 5) при запросе "@ + url@,
{
    String::from_str("Слишком много перенаправлений (больше 5) при запросе ").concat(url)
}

// ---------------------------------------------------------------------------
//                            ADDRESS COMPONENTS
// ---------------------------------------------------------------------------

/// The parts of an address as a program sees them, all as text.
#[derive(Debug, Clone, PartialEq, Eq)]
pub struct UrlComponents {
    pub scheme: String,
    pub host: String,
    pub port: String,
    pub path: String,
    pub query: String,
    pub fragment: String,
}

/// Address components as plain values: scheme, host, port, path, query, fragment.
pub type ComponentParts = (Seq<char>, Seq<char>, Seq<char>, Seq<char>, Seq<char>, Seq<char>);

/// The components as plain values.
pub open spec fn component_parts(c: UrlComponents) -> ComponentParts {
    (c.scheme@, c.host@, c.port@, c.path@, c.query@, c.fragment@)
}

/// How an address splits into components: the scheme before the first
/// `://` (`http` when there is none); then the fragment after the first
/// `#`, the query after the first `?`, the path from the first `/` (`/`
/// when there is none); and the host and port around the last `:` of what
/// is left (the port `443` for `https`, else `80`, when there is no colon).
pub open spec fn url_components_spec(u: Seq<char>) -> ComponentParts {
    let (scheme, r1) = match find_seq_from(u, "://"@, 0) {
        Some(i) => (u.take(i), u.skip(i + "://"@.len())),
        None => ("http"@, u),
    };
    let (r2, fragment) = match find_char_from(r1, '#', 0) {
        Some(i) => (r1.take(i), r1.skip(i + 1)),
        None => (r1, Seq::<char>::empty()),
    };
    let (r3, query) = match find_char_from(r2, '?', 0) {
        Some(i) => (r2.take(i), r2.skip(i + 1)),
        None => (r2, Seq::<char>::empty()),
    };
    let (host_port, path) = match find_char_from(r3, '/', 0) {
        Some(i) => (r3.take(i), r3.skip(i)),
        None => (r3, "/"@),
    };
    let (host, port) = match rfind_char(host_port, ':', host_port.len() as int) {
        Some(i) => (host_port.take(i), host_port.skip(i + 1)),
        None => (host_port, if scheme == "https"@ { "443"@ } else { "80"@ }),
    };
    (scheme, host, port, path, query, fragment)
}

/// Splits `v` at its first `c`: what comes before, and what comes after
/// (the `c` itself left out, or kept at the front of the second part).
fn split_at_char(v: &Vec<char>, c: char, keep: bool) -> (r: Option<(Vec<char>, Vec<char>)>)
    ensures
        match find_char_from(v@, c, 0) {
            Some(i) => r matches Some(p) && p.0@ == v@.take(i) && p.1@ == v@.skip(if keep { i } else { i + 1 }),
            None => r is None,
        },
{
    match find_char_in(v, c, 0) {
        Some(i) => {
            let a = subrange_vec(v, 0, i);
            let from = if keep { i } else { i + 1 };
            let b = subrange_vec(v, from, v.len());
            proof {
                assert(v@.take(i as int) =~= a@);
                assert(v@.skip(from as int) =~= b@);
            }
            Some((a, b))
        },
        None => None,
    }
}

/// Splits an address into its components (see [`url_components_spec`]).
pub fn url_components(url: &str) -> (r: UrlComponents)
    ensures
        component_parts(r) == url_components_spec(url@),
{
    let u = chars_of(url);
    let sep = chars_of("://");
    let (scheme, r1) = match crate::text::find_chars_in(&u, &sep) {
        Some(i) => {
            let a = subrange_vec(&u, 0, i);
            let b = subrange_vec(&u, i + sep.len(), u.len());
            proof {
                assert(u@.take(i as int) =~= a@);
                assert(u@.skip(i + sep@.len()) =~= b@);
            }
            (a, b)
        },
        None => (chars_of("http"), u),
    };
    let (r2, fragment) = match split_at_char(&r1, '#', false) {
        Some(p) => p,
        None => (r1, Vec::new()),
    };
    let (r3, query) = match split_at_char(&r2, '?', false) {
        Some(p) => p,
        None => (r2, Vec::new()),
    };
    let (host_port, path) = match split_at_char(&r3, '/', true) {
        Some(p) => p,
        None => (r3, chars_of("/")),
    };
    let scheme_text = string_from_chars(scheme.as_slice());
    let (host, port) = match rfind_char_in(&host_port, ':', host_port.len()) {
        Some(i) => {
            let a = subrange_vec(&host_port, 0, i);
            let b = subrange_vec(&host_port, i + 1, host_port.len());
            proof {
                assert(host_port@.take(i as int) =~= a@);
                assert(host_port@.skip(i + 1) =~= b@);
            }
            (a, b)
        },
        None => {
            let default_port = if crate::text::str_eq(scheme_text.as_str(), "https") { chars_of("443") } else { chars_of("80") };
            (host_port, default_port)
        },
    };
    UrlComponents {
        scheme: scheme_text,
        host: string_from_chars(host.as_slice()),
        port: string_from_chars(port.as_slice()),
        path: string_from_chars(path.as_slice()),
        query: string_from_chars(query.as_slice()),
        fragment: string_from_chars(fragment.as_slice()),
    }
}

} // verus!
