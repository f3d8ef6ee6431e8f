//! What the transport's address handling promises across calls: a redirect
//! to a path from the root stays with the current origin.

use vstd::prelude::*;
use crate::text::{
    all_ascii_digits, decimal_digits, decimal_value, find_char_from, has_prefix,
    lemma_decimal_digits_facts, rfind_char, spec_is_ascii_digit, trim_end_index,
    trim_start_index, trimmed, unicode_white_space,
};
use super::transport::{becomes_get, is_redirect_status, origin_text, redirect_text, url_outcome, UrlParts};

verus! {

proof fn lemma_find_char_at(s: Seq<char>, c: char, i: int, k: int)
    requires
        0 <= i <= k < s.len(),
        s[k] == c,
        forall|m: int| i <= m < k ==> s[m] != c,
    ensures
        find_char_from(s, c, i) == Some(k),
    decreases k - i,
{
    if i < k {
        lemma_find_char_at(s, c, i + 1, k);
    }
}

proof fn lemma_find_char_gives_first(s: Seq<char>, c: char, i: int)
    requires
        0 <= i,
    ensures
        match find_char_from(s, c, i) {
            Some(k) => forall|m: int| i <= m < k ==> s[m] != c,
            None => forall|m: int| i <= m < s.len() ==> s[m] != c,
        },
    decreases s.len() - i,
{
    if i < s.len() && s[i] != c {
        lemma_find_char_gives_first(s, c, i + 1);
    }
}

proof fn lemma_rfind_char_at(s: Seq<char>, c: char, j: int, k: int)
    requires
        0 <= k < j <= s.len(),
        s[k] == c,
        forall|m: int| k < m < j ==> s[m] != c,
    ensures
        rfind_char(s, c, j) == Some(k),
    decreases j - k,
{
    if k < j - 1 {
        lemma_rfind_char_at(s, c, j - 1, k);
    }
}

proof fn lemma_trim_start_stops(s: Seq<char>, i: int)
    requires
        0 <= i <= s.len(),
    ensures
        trim_start_index(s, i) < s.len() ==> !unicode_white_space(s[trim_start_index(s, i)]),
    decreases s.len() - i,
{
    if i < s.len() && unicode_white_space(s[i]) {
        lemma_trim_start_stops(s, i + 1);
    }
}

proof fn lemma_trim_end_stops(s: Seq<char>, lo: int, j: int)
    requires
        0 <= lo <= j <= s.len(),
    ensures
        lo <= trim_end_index(s, lo, j) <= j,
        trim_end_index(s, lo, j) > lo ==> !unicode_white_space(s[trim_end_index(s, lo, j) - 1]),
    decreases j - lo,
{
    if j > lo && unicode_white_space(s[j - 1]) {
        lemma_trim_end_stops(s, lo, j - 1);
    }
}

/// A trimmed text neither starts nor ends with white space.
proof fn lemma_trimmed_ends(s: Seq<char>)
    ensures
        trimmed(s).len() > 0 ==> !unicode_white_space(trimmed(s)[0]) && !unicode_white_space(
            trimmed(s).last(),
        ),
{
    crate::text::lemma_trim_start_bounds(s, 0);
    let a = trim_start_index(s, 0);
    lemma_trim_start_stops(s, 0);
    lemma_trim_end_stops(s, a, s.len() as int);
}

/// Text that neither starts nor ends with white space is its own trim.
proof fn lemma_trimmed_self(s: Seq<char>)
    requires
        s.len() > 0,
        !unicode_white_space(s[0]),
        !unicode_white_space(s.last()),
    ensures
        trimmed(s) == s,
{
    assert(trim_start_index(s, 0) == 0);
    assert(trim_end_index(s, 0, s.len() as int) == s.len());
    assert(s.subrange(0, s.len() as int) =~= s);
}


proof fn lemma_rfind_char_bounds(s: Seq<char>, c: char, j: int)
    ensures
        rfind_char(s, c, j) matches Some(k) ==> 0 <= k < j <= s.len(),
    decreases j,
{
    if 0 < j <= s.len() && s[j - 1] != c {
        lemma_rfind_char_bounds(s, c, j - 1);
    }
}

/// A parsed address has a host, and no `/` in it.
proof fn lemma_parsed_host(u: Seq<char>)
    requires
        url_outcome(u) is Ok,
    ensures
        url_outcome(u)->Ok_0.0.len() > 0,
        forall|m: int| 0 <= m < url_outcome(u)->Ok_0.0.len() ==> url_outcome(u)->Ok_0.0[m] != '/',
{
    let t = trimmed(u);
    let https = has_prefix(t, "https://"@);
    let rest = if https {
        t.skip("https://"@.len() as int)
    } else if has_prefix(t, "http://"@) {
        t.skip("http://"@.len() as int)
    } else {
        t
    };
    lemma_find_char_gives_first(rest, '/', 0);
    crate::text::lemma_find_char_bounds(rest, '/', 0);
    let slash = find_char_from(rest, '/', 0);
    let authority = match slash {
        Some(i) => rest.take(i),
        None => rest,
    };
    assert forall|m: int| 0 <= m < authority.len() implies authority[m] != '/' by {
        assert(authority[m] == rest[m]);
    }
    let colon = rfind_char(authority, ':', authority.len() as int);
    lemma_rfind_char_bounds(authority, ':', authority.len() as int);
    let port_text = match colon {
        Some(c) => authority.skip(c + 1),
        None => Seq::<char>::empty(),
    };
    let numeric = colon is Some && port_text.len() > 0 && all_ascii_digits(port_text);
    let host = if numeric { authority.take(colon->0) } else { authority };
    assert(url_outcome(u)->Ok_0.0 == host);
    assert forall|m: int| 0 <= m < host.len() implies host[m] != '/' by {
        assert(host[m] == authority[m]);
    }
}

/// The characters that open an address (`h`) and a path (`/`) are not
/// white space.
spec fn url_marks_are_not_white_space() -> bool {
    !unicode_white_space('h') && !unicode_white_space('/')
}

/// The authority `host:port` followed by a path splits back into its parts.
proof fn lemma_authority_splits(host: Seq<char>, d: Seq<char>, tail: Seq<char>)
    requires
        forall|m: int| 0 <= m < host.len() ==> host[m] != '/',
        all_ascii_digits(d),
    ensures
        ({
            let rest = host + seq![':'] + d + seq!['/'] + tail;
            let idx = host.len() as int + 1 + d.len() as int;
            &&& find_char_from(rest, '/', 0) == Some(idx)
            &&& rest.take(idx) == host + seq![':'] + d
            &&& rest.skip(idx) == seq!['/'] + tail
            &&& rfind_char(host + seq![':'] + d, ':', (host.len() + 1 + d.len()) as int) == Some(
                host.len() as int,
            )
        }),
{
    let rest = host + seq![':'] + d + seq!['/'] + tail;
    let idx: int = host.len() as int + 1 + d.len() as int;
    assert forall|m: int| 0 <= m < idx implies rest[m] != '/' by {
        if m < host.len() {
            assert(rest[m] == host[m]);
        } else if m == host.len() {
            assert(rest[m] == ':');
        } else {
            assert(rest[m] == d[m - host.len() - 1]);
            assert(spec_is_ascii_digit(d[m - host.len() - 1]));
        }
    }
    assert(rest[idx] == '/');
    lemma_find_char_at(rest, '/', 0, idx);
    let authority = host + seq![':'] + d;
    assert(rest.take(idx) =~= authority);
    assert(rest.skip(idx) =~= seq!['/'] + tail);
    assert forall|m: int| host.len() < m < authority.len() implies authority[m] != ':' by {
        assert(authority[m] == d[m - host.len() - 1]);
        assert(spec_is_ascii_digit(d[m - host.len() - 1]));
    }
    lemma_rfind_char_at(authority, ':', authority.len() as int, host.len() as int);
}

/// An origin with its port written out, followed by a path, reads back as
/// that scheme, host, port and path.
#[verifier::rlimit(30)]
proof fn lemma_origin_path_reads(https: bool, host: Seq<char>, port: u16, tail: Seq<char>)
    requires
        url_marks_are_not_white_space(),
        host.len() > 0,
        forall|m: int| 0 <= m < host.len() ==> host[m] != '/',
        port != (if https { 443u16 } else { 80u16 }),
        tail.len() == 0 || !unicode_white_space(tail.last()),
    ensures
        url_outcome(origin_text(https, host, port) + "/"@ + tail) == Ok::<UrlParts, Seq<char>>(
            (host, port, seq!['/'] + tail, https),
        ),
{
    reveal_strlit("https");
    reveal_strlit("http");
    reveal_strlit("://");
    reveal_strlit(":");
    reveal_strlit("/");
    reveal_strlit("https://");
    reveal_strlit("http://");
    let d = decimal_digits(port as nat);
    lemma_decimal_digits_facts(port as nat);
    let text = origin_text(https, host, port) + "/"@ + tail;
    let pre = if https { "https://"@ } else { "http://"@ };
    let rest = host + seq![':'] + d + seq!['/'] + tail;
    assert(text =~= pre + rest);
    assert(text[0] == 'h');
    if tail.len() > 0 {
        assert(text.last() == tail.last());
    } else {
        assert(text.last() == '/');
    }
    lemma_trimmed_self(text);
    if https {
        assert(text.take(8) =~= "https://"@);
        assert(text.skip(8) =~= rest);
    } else {
        assert(text.take(8)[4] != "https://"@[4]);
        assert(!has_prefix(text, "https://"@));
        assert(text.take(7) =~= "http://"@);
        assert(text.skip(7) =~= rest);
    }
    lemma_authority_splits(host, d, tail);
    let authority = host + seq![':'] + d;
    assert(authority.skip(host.len() as int + 1) =~= d);
    assert(authority.take(host.len() as int) =~= host);
}

/// A redirect to a path from the root (a location that starts with `/`)
/// from an address with a port other than its scheme's own keeps the
/// scheme, the host and the port, and takes the location as the path.
pub proof fn lemma_redirect_keeps_origin(current: Seq<char>, parts: UrlParts, location: Seq<char>)
    requires
        url_outcome(current) == Ok::<UrlParts, Seq<char>>(parts),
        parts.1 != (if parts.3 { 443u16 } else { 80u16 }),
        trimmed(location).len() > 0,
        trimmed(location)[0] == '/',
    ensures
        url_outcome(redirect_text(parts, location)) == Ok::<UrlParts, Seq<char>>(
            (parts.0, parts.1, seq!['/'] + trimmed(location).skip(1), parts.3),
        ),
{
    assert(url_marks_are_not_white_space());
    lemma_parsed_host(current);
    let l = trimmed(location);
    lemma_trimmed_ends(location);
    reveal_strlit("http://");
    reveal_strlit("https://");
    assert(!has_prefix(l, "http://"@)) by {
        if l.len() >= 7 {
            assert(l.take(7)[0] == l[0]);
        }
    }
    assert(!has_prefix(l, "https://"@)) by {
        if l.len() >= 8 {
            assert(l.take(8)[0] == l[0]);
        }
    }
    let tail = l.skip(1);
    if tail.len() > 0 {
        assert(tail.last() == l.last());
    }
    lemma_origin_path_reads(parts.3, parts.0, parts.1, tail);
}

/// How a redirect treats the request: after 303 (See Other) the next
/// request is a bodiless `GET` whatever the method was; after 307 and 308
/// the method and body are kept; after 302 only a `GET` stays as it is,
/// any other method becomes a `GET`; 301 keeps them.
pub proof fn lemma_redirect_method_rules(status: u16, method: Seq<char>)
    requires
        is_redirect_status(status),
    ensures
        status == 303 ==> becomes_get(status, method),
        (status == 307 || status == 308 || status == 301) ==> !becomes_get(status, method),
        status == 302 ==> (becomes_get(status, method) <==> method != "GET"@),
{
}

} // verus!
