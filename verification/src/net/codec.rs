//! Text codecs used on the wire: percent-encoding and Base64.

use vstd::prelude::*;
use vstd::string::{StringExecFns, StringSliceAdditionalSpecFns};
use crate::net::http::request::hex_byte;
use crate::text::string_from_chars;
use super::transport::{url_components, url_components_spec, ComponentParts};
use super::value::{insert_entry, object_insert, Value, ValueModel};

verus! {

// ============================================================================
//                    PERCENT-ENCODING
// ============================================================================

/// Whether a byte stands for itself in percent-encoding
/// (`A-Z a-z 0-9 - _ . ~`).
pub open spec fn unreserved(b: u8) -> bool {
    (0x41 <= b <= 0x5A) || (0x61 <= b <= 0x7A) || (0x30 <= b <= 0x39) || b == 0x2D || b == 0x5F
        || b == 0x2E || b == 0x7E
}

/// The upper-case hexadecimal digit of `v < 16`.
pub open spec fn hex_digit_upper(v: u8) -> char {
    if v < 10 {
        ((0x30 + v) as u32) as char
    } else {
        ((0x41 + v - 10) as u32) as char
    }
}

/// The percent-encoding of the bytes from index `i`.
pub open spec fn url_encoded(bs: Seq<u8>, i: int) -> Seq<char>
    decreases bs.len() - i,
{
    if i < 0 || i >= bs.len() {
        Seq::empty()
    } else {
        let b = bs[i];
        let here = if unreserved(b) {
            seq![(b as u32) as char]
        } else {
            seq!['%', hex_digit_upper(b / 16), hex_digit_upper(b % 16)]
        };
        here + url_encoded(bs, i + 1)
    }
}

fn hex_upper(v: u8) -> (c: char)
    requires
        v < 16,
    ensures
        c == hex_digit_upper(v),
{
    let c = if v < 10 { ((0x30u8 + v) as u32) as u8 } else { ((0x41u8 + v - 10) as u32) as u8 };
    c as char
}

/// Percent-encodes bytes: unreserved bytes stay, every other byte becomes
/// `%XX` with upper-case hexadecimal digits.
pub fn url_encode(bytes: &[u8]) -> (r: String)
    ensures
        r@ == url_encoded(bytes@, 0),
{
    let mut out: Vec<char> = Vec::new();
    let mut i: usize = 0;
    while i < bytes.len()
        invariant
            i <= bytes.len(),
            out@ + url_encoded(bytes@, i as int) == url_encoded(bytes@, 0),
        decreases bytes.len() - i,
    {
        let b = bytes[i];
        let ghost before = out@;
        let unres = (0x41 <= b && b <= 0x5A) || (0x61 <= b && b <= 0x7A) || (0x30 <= b && b <= 0x39)
            || b == 0x2D || b == 0x5F || b == 0x2E || b == 0x7E;
        if unres {
            out.push((b as u32) as u8 as char);
            proof {
                assert(out@ + url_encoded(bytes@, i + 1) =~= before + url_encoded(bytes@, i as int));
            }
        } else {
            out.push('%');
            out.push(hex_upper(b / 16));
            out.push(hex_upper(b % 16));
            proof {
                assert(out@ + url_encoded(bytes@, i + 1) =~= before + url_encoded(bytes@, i as int));
            }
        }
        i = i + 1;
    }
    proof {
        assert(out@ + Seq::<char>::empty() =~= out@);
    }
    string_from_chars(out.as_slice())
}

/// Percent-encodes the UTF-8 bytes of a string.
pub fn url_encode_str(s: &str) -> (r: String)
    ensures
        r@ == url_encoded(s.spec_bytes(), 0),
{
    url_encode(s.as_bytes())
}

/// Percent-decoding of bytes from index `i`: `%` followed by two more
/// bytes that name a byte in hexadecimal gives that byte; `+` gives a
/// space; any other byte stays.
pub open spec fn url_decoded_bytes(bs: Seq<u8>, i: int) -> Seq<u8>
    decreases bs.len() - i,
{
    if i < 0 || i >= bs.len() {
        Seq::empty()
    } else if bs[i] == 0x25 && i + 2 < bs.len()
        && hex_byte(seq![(bs[i + 1] as u32) as char, (bs[i + 2] as u32) as char]) is Some {
        seq![hex_byte(seq![(bs[i + 1] as u32) as char, (bs[i + 2] as u32) as char])->0]
            + url_decoded_bytes(bs, i + 3)
    } else if bs[i] == 0x2B {
        seq![0x20u8] + url_decoded_bytes(bs, i + 1)
    } else {
        seq![bs[i]] + url_decoded_bytes(bs, i + 1)
    }
}

/// What `String::from_utf8_lossy` gives for bytes.
pub uninterp spec fn utf8_lossy(bs: Seq<u8>) -> Seq<char>;

/// `String::from_utf8_lossy`: the text of the bytes, with invalid sequences
/// replaced. The contract names the result and states that valid UTF-8 is
/// decoded as it is.
#[verifier::external_body]
pub(crate) fn from_utf8_lossy(bs: &[u8]) -> (r: String)
    ensures
        r@ == utf8_lossy(bs@),
        vstd::utf8::valid_utf8(bs@) ==> r@ == vstd::utf8::decode_utf8(bs@),
{
    String::from_utf8_lossy(bs).into_owned()
}

/// Percent-decodes the bytes of a string, then reads the result as UTF-8
/// (invalid sequences replaced).
pub fn url_decode_str(s: &str) -> (r: String)
    ensures
        r@ == utf8_lossy(url_decoded_bytes(s.spec_bytes(), 0)),
        vstd::utf8::valid_utf8(url_decoded_bytes(s.spec_bytes(), 0))
            ==> r@ == vstd::utf8::decode_utf8(url_decoded_bytes(s.spec_bytes(), 0)),
{
    let bytes = s.as_bytes();
    let mut out: Vec<u8> = Vec::new();
    let mut i: usize = 0;
    while i < bytes.len()
        invariant
            i <= bytes.len(),
            bytes@ == s.spec_bytes(),
            out@ + url_decoded_bytes(bytes@, i as int) == url_decoded_bytes(bytes@, 0),
        decreases bytes.len() - i,
    {
        let ghost before = out@;
        if bytes[i] == 0x25 && 2 < bytes.len() - i {
            let mut h: Vec<char> = Vec::new();
            h.push((bytes[i + 1] as u32) as u8 as char);
            h.push((bytes[i + 2] as u32) as u8 as char);
            proof {
                assert(h@ =~= seq![(bytes@[i + 1] as u32) as char, (bytes@[i + 2] as u32) as char]);
            }
            match crate::net::http::request::parse_hex_byte(&h) {
                Some(b) => {
                    out.push(b);
                    proof {
                        assert(out@ + url_decoded_bytes(bytes@, i + 3) =~= before + url_decoded_bytes(bytes@, i as int));
                    }
                    i = i + 3;
                    continue;
                },
                None => {},
            }
        }
        if bytes[i] == 0x2B {
            out.push(0x20u8);
        } else {
            out.push(bytes[i]);
        }
        proof {
            assert(out@ + url_decoded_bytes(bytes@, i + 1) =~= before + url_decoded_bytes(bytes@, i as int));
        }
        i = i + 1;
    }
    proof {
        assert(out@ + Seq::<u8>::empty() =~= out@);
    }
    from_utf8_lossy(out.as_slice())
}

// ============================================================================
//                    BASE64
// ============================================================================

/// The Base64 alphabet's character for a six-bit value.
pub open spec fn b64_char(v: u32) -> u8 {
    if v < 26 {
        (0x41 + v) as u8
    } else if v < 52 {
        (0x61 + v - 26) as u8
    } else if v < 62 {
        (0x30 + v - 52) as u8
    } else if v == 62 {
        0x2B
    } else {
        0x2F
    }
}

/// The six-bit value of a Base64 character, if it is one.
pub open spec fn b64_value(c: u8) -> Option<u32> {
    if 0x41 <= c <= 0x5A {
        Some((c - 0x41) as u32)
    } else if 0x61 <= c <= 0x7A {
        Some((c - 0x61 + 26) as u32)
    } else if 0x30 <= c <= 0x39 {
        Some((c - 0x30 + 52) as u32)
    } else if c == 0x2B {
        Some(62)
    } else if c == 0x2F {
        Some(63)
    } else {
        None
    }
}

/// The byte at `i`, or zero past the end.
pub open spec fn byte_or_zero(bs: Seq<u8>, i: int) -> u32 {
    if 0 <= i < bs.len() {
        bs[i] as u32
    } else {
        0
    }
}

/// The four characters that encode the (up to) three bytes from `i`,
/// padded with `=`.
pub open spec fn b64_chunk(bs: Seq<u8>, i: int) -> Seq<u8> {
    let t = (byte_or_zero(bs, i) << 16u32) | (byte_or_zero(bs, i + 1) << 8u32) | byte_or_zero(bs, i + 2);
    seq![
        b64_char((t >> 18u32) & 0x3F),
        b64_char((t >> 12u32) & 0x3F),
        if i + 1 < bs.len() { b64_char((t >> 6u32) & 0x3F) } else { 0x3Du8 },
        if i + 2 < bs.len() { b64_char(t & 0x3F) } else { 0x3Du8 },
    ]
}

/// The Base64 encoding of the bytes from `i`, with padding.
pub open spec fn b64_encoded(bs: Seq<u8>, i: int) -> Seq<u8>
    decreases bs.len() - i,
{
    if i < 0 || i >= bs.len() {
        Seq::empty()
    } else if bs.len() - i <= 3 {
        b64_chunk(bs, i)
    } else {
        b64_chunk(bs, i) + b64_encoded(bs, i + 3)
    }
}

fn b64_char_exec(v: u32) -> (c: u8)
    requires
        v < 64,
    ensures
        c == b64_char(v),
{
    if v < 26 {
        (0x41 + v) as u8
    } else if v < 52 {
        (0x61 + v - 26) as u8
    } else if v < 62 {
        (0x30 + v - 52) as u8
    } else if v == 62 {
        0x2B
    } else {
        0x2F
    }
}

/// Base64-encodes bytes (standard alphabet, `=` padding).
pub fn base64_encode(input: &[u8]) -> (r: String)
    ensures
        r@ == b64_encoded(input@, 0).map_values(|b: u8| (b as u32) as char),
{
    let mut out: Vec<u8> = Vec::new();
    let mut i: usize = 0;
    while i < input.len()
        invariant
            i <= input.len(),
            out@ + b64_encoded(input@, i as int) == b64_encoded(input@, 0),
        decreases input.len() - i,
    {
        let ghost before = out@;
        let rest = input.len() - i;
        let b0 = input[i] as u32;
        let b1 = if rest > 1 { input[i + 1] as u32 } else { 0 };
        let b2 = if rest > 2 { input[i + 2] as u32 } else { 0 };
        let triple = (b0 << 16u32) | (b1 << 8u32) | b2;
        proof {
            assert(((triple >> 18u32) & 0x3F) < 64) by (bit_vector);
            assert(((triple >> 12u32) & 0x3F) < 64) by (bit_vector);
            assert(((triple >> 6u32) & 0x3F) < 64) by (bit_vector);
            assert((triple & 0x3F) < 64) by (bit_vector);
        }
        out.push(b64_char_exec((triple >> 18) & 0x3F));
        out.push(b64_char_exec((triple >> 12) & 0x3F));
        if rest > 1 {
            out.push(b64_char_exec((triple >> 6) & 0x3F));
        } else {
            out.push(0x3D);
        }
        if rest > 2 {
            out.push(b64_char_exec(triple & 0x3F));
        } else {
            out.push(0x3D);
        }
        proof {
            assert(out@ =~= before + b64_chunk(input@, i as int));
        }
        if rest <= 3 {
            proof {
                assert(out@ + Seq::<u8>::empty() =~= before + b64_encoded(input@, i as int));
            }
            i = input.len();
        } else {
            proof {
                assert(out@ + b64_encoded(input@, i + 3) =~= before + b64_encoded(input@, i as int));
            }
            i = i + 3;
        }
    }
    proof {
        assert(out@ + Seq::<u8>::empty() =~= out@);
    }
    let mut chars: Vec<char> = Vec::new();
    let mut k: usize = 0;
    while k < out.len()
        invariant
            k <= out.len(),
            chars@ == out@.take(k as int).map_values(|b: u8| (b as u32) as char),
        decreases out.len() - k,
    {
        chars.push((out[k] as u32) as u8 as char);
        k = k + 1;
        proof {
            assert(chars@ =~= out@.take(k as int).map_values(|b: u8| (b as u32) as char));
        }
    }
    proof {
        assert(out@.take(k as int) =~= out@);
    }
    string_from_chars(chars.as_slice())
}

/// The bytes without their trailing `=` characters.
pub open spec fn trim_padding(bs: Seq<u8>) -> Seq<u8>
    decreases bs.len(),
{
    if bs.len() > 0 && bs.last() == 0x3D {
        trim_padding(bs.drop_last())
    } else {
        bs
    }
}

/// The six-bit value at `i` (zero past the end), if its character is valid.
pub open spec fn value_or_zero(cs: Seq<u8>, i: int) -> Option<u32> {
    if 0 <= i < cs.len() {
        b64_value(cs[i])
    } else {
        Some(0)
    }
}

/// The bytes that the (up to) four characters from `i` decode to.
pub open spec fn b64_unchunk(cs: Seq<u8>, i: int) -> Option<Seq<u8>> {
    match (value_or_zero(cs, i), value_or_zero(cs, i + 1), value_or_zero(cs, i + 2), value_or_zero(cs, i + 3)) {
        (Some(v0), Some(v1), Some(v2), Some(v3)) => {
            let t = (v0 << 18u32) | (v1 << 12u32) | (v2 << 6u32) | v3;
            Some(seq![((t >> 16u32) & 0xFF) as u8]
                + (if i + 2 < cs.len() { seq![((t >> 8u32) & 0xFF) as u8] } else { Seq::empty() })
                + (if i + 3 < cs.len() { seq![(t & 0xFF) as u8] } else { Seq::empty() }))
        },
        _ => None,
    }
}

/// Decoding of unpadded Base64 characters from `i`: `None` at the first
/// character outside the alphabet.
pub open spec fn b64_decoded(cs: Seq<u8>, i: int) -> Option<Seq<u8>>
    decreases cs.len() - i,
{
    if i < 0 || i >= cs.len() {
        Some(Seq::empty())
    } else {
        match b64_unchunk(cs, i) {
            None => None,
            Some(here) => if cs.len() - i <= 4 {
                Some(here)
            } else {
                match b64_decoded(cs, i + 4) {
                    None => None,
                    Some(rest) => Some(here + rest),
                }
            },
        }
    }
}

fn b64_value_exec(c: u8) -> (r: Option<u32>)
    ensures
        r == b64_value(c),
        r matches Some(v) ==> v < 64,
{
    if 0x41 <= c && c <= 0x5A {
        Some((c - 0x41) as u32)
    } else if 0x61 <= c && c <= 0x7A {
        Some((c - 0x61 + 26) as u32)
    } else if 0x30 <= c && c <= 0x39 {
        Some((c - 0x30 + 52) as u32)
    } else if c == 0x2B {
        Some(62)
    } else if c == 0x2F {
        Some(63)
    } else {
        None
    }
}

/// The six-bit value at `i` of `cs`, zero past `len`.
fn value_at(cs: &[u8], i: usize, len: usize) -> (r: Option<u32>)
    requires
        len <= cs.len(),
    ensures
        r == value_or_zero(cs@.take(len as int), i as int),
        r matches Some(v) ==> v < 64,
{
    if i < len {
        b64_value_exec(cs[i])
    } else {
        Some(0)
    }
}

/// Decodes Base64 text: trailing `=` are dropped, then each group of up to
/// four characters gives up to three bytes. A character outside the
/// alphabet is an error.
pub fn base64_decode(input: &str) -> (r: Result<Vec<u8>, String>)
    ensures
        match b64_decoded(trim_padding(input.spec_bytes()), 0) {
            Some(bs) => r matches Ok(v) && v@ == bs,
            None => r matches Err(e) && e@ == "Некорректный Base64"@,
        },
{
    let cs = input.as_bytes();
    let mut len = cs.len();
    proof {
        assert(cs@.take(len as int) =~= cs@);
    }
    while len > 0 && cs[len - 1] == 0x3D
        invariant
            len <= cs.len(),
            trim_padding(cs@.take(len as int)) == trim_padding(cs@),
        decreases len,
    {
        proof {
            assert(cs@.take(len as int).drop_last() =~= cs@.take(len - 1));
        }
        len = len - 1;
    }
    let ghost t = cs@.take(len as int);
    proof {
        if len > 0 {
            assert(t.last() != 0x3D);
        }
        assert(trim_padding(t) == t);
        assert(cs@.take(len as int) =~= t);
    }
    let mut out: Vec<u8> = Vec::new();
    let mut i: usize = 0;
    while i < len
        invariant
            len <= cs.len(),
            i <= len,
            t == cs@.take(len as int),
            t == trim_padding(input.spec_bytes()),
            cs@ == input.spec_bytes(),
            match b64_decoded(t, 0) {
                Some(all) => match b64_decoded(t, i as int) {
                    Some(rest) => out@ + rest == all,
                    None => false,
                },
                None => b64_decoded(t, i as int) is None,
            },
        decreases len - i,
    {
        let ghost before = out@;
        let rest = len - i;
        let v0 = value_at(cs, i, len);
        let v1 = if rest > 1 { value_at(cs, i + 1, len) } else { Some(0) };
        let v2 = if rest > 2 { value_at(cs, i + 2, len) } else { Some(0) };
        let v3 = if rest > 3 { value_at(cs, i + 3, len) } else { Some(0) };
        match (v0, v1, v2, v3) {
            (Some(b0), Some(b1), Some(b2), Some(b3)) => {
                let triple = (b0 << 18u32) | (b1 << 12u32) | (b2 << 6u32) | b3;
                out.push(((triple >> 16) & 0xFF) as u8);
                if rest > 2 {
                    out.push(((triple >> 8) & 0xFF) as u8);
                }
                if rest > 3 {
                    out.push((triple & 0xFF) as u8);
                }
                proof {
                    let here = b64_unchunk(t, i as int)->0;
                    assert(out@ =~= before + here);
                    if rest > 4 {
                        match b64_decoded(t, i + 4) {
                            Some(r2) => assert(out@ + r2 =~= before + (here + r2)),
                            None => {},
                        }
                    } else {
                        assert(out@ + Seq::<u8>::empty() =~= before + here);
                    }
                }
                if rest <= 4 {
                    i = len;
                } else {
                    i = i + 4;
                }
            },
            _ => {
                return Err(String::from_str("Некорректный Base64"));
            },
        }
    }
    proof {
        assert(out@ + Seq::<u8>::empty() =~= out@);
    }
    Ok(out)
}

// ============================================================================
//                    LAWS
// ============================================================================

/// The bytes of percent-encoded text (all of it is ASCII).
pub open spec fn ascii_bytes(cs: Seq<char>) -> Seq<u8> {
    cs.map_values(|c: char| c as u8)
}

/// Percent-encoded text is ASCII.
proof fn lemma_url_encoded_ascii(bs: Seq<u8>, i: int)
    ensures
        vstd::utf8::is_ascii_chars(url_encoded(bs, i)),
    decreases bs.len() - i,
{
    if 0 <= i < bs.len() {
        lemma_url_encoded_ascii(bs, i + 1);
        let b = bs[i];
        let here = if unreserved(b) {
            seq![(b as u32) as char]
        } else {
            seq!['%', hex_digit_upper(b / 16), hex_digit_upper(b % 16)]
        };
        assert(vstd::utf8::is_ascii_chars(here));
        let all = url_encoded(bs, i);
        assert(all =~= here + url_encoded(bs, i + 1));
        assert forall|k: int| 0 <= k < all.len() implies '\0' <= #[trigger] all[k] <= '\u{7f}' by {
            if k < here.len() {
                assert(all[k] == here[k]);
            } else {
                assert(all[k] == url_encoded(bs, i + 1)[k - here.len()]);
            }
        }
    }
}

/// Decoding from index `j` looks only at the bytes from `j` on.
proof fn lemma_url_decoded_suffix(p: Seq<u8>, q: Seq<u8>)
    ensures
        url_decoded_bytes(p + q, p.len() as int) == url_decoded_bytes(q, 0),
    decreases q.len(),
{
    let s = p + q;
    let j = p.len() as int;
    if q.len() > 0 {
        assert(s[j] == q[0]);
        if q.len() > 1 {
            assert(s[j + 1] == q[1]);
        }
        if q.len() > 2 {
            assert(s[j + 2] == q[2]);
        }
        if q[0] == 0x25 && 2 < q.len()
            && hex_byte(seq![(q[1] as u32) as char, (q[2] as u32) as char]) is Some {
            lemma_url_decoded_suffix(p + q.take(3), q.skip(3));
            assert(p + q.take(3) + q.skip(3) =~= s);
            assert(q.take(3) + q.skip(3) =~= q);
            lemma_url_decoded_suffix(q.take(3), q.skip(3));
        } else {
            lemma_url_decoded_suffix(p + q.take(1), q.skip(1));
            assert(p + q.take(1) + q.skip(1) =~= s);
            assert(q.take(1) + q.skip(1) =~= q);
            lemma_url_decoded_suffix(q.take(1), q.skip(1));
        }
    } else {
        assert(s =~= p);
    }
}

/// The hexadecimal digits that percent-encoding writes for a byte are read
/// back as that byte.
proof fn lemma_hex_pair(b: u8)
    ensures
        hex_byte(seq![(hex_digit_upper(b / 16) as u8 as u32) as char, (hex_digit_upper(b % 16) as u8 as u32) as char])
            == Some(b),
{
    let h = hex_digit_upper(b / 16);
    let l = hex_digit_upper(b % 16);
    assert((h as u8 as u32) as char == h);
    assert((l as u8 as u32) as char == l);
    let d = seq![h, l];
    assert(d.len() == 2);
    assert(!(d[0] == '+'));
}

/// Decoding the bytes of the encoding of `bs` from index `i` gives the
/// bytes of `bs` from `i`.
proof fn lemma_url_roundtrip_from(bs: Seq<u8>, i: int)
    requires
        0 <= i <= bs.len(),
    ensures
        url_decoded_bytes(ascii_bytes(url_encoded(bs, i)), 0) == bs.skip(i),
    decreases bs.len() - i,
{
    if i < bs.len() {
        lemma_url_roundtrip_from(bs, i + 1);
        let b = bs[i];
        let here = if unreserved(b) {
            seq![(b as u32) as char]
        } else {
            seq!['%', hex_digit_upper(b / 16), hex_digit_upper(b % 16)]
        };
        let rest = url_encoded(bs, i + 1);
        assert(url_encoded(bs, i) == here + rest);
        assert(ascii_bytes(here + rest) =~= ascii_bytes(here) + ascii_bytes(rest));
        lemma_url_decoded_suffix(ascii_bytes(here), ascii_bytes(rest));
        let all = ascii_bytes(here) + ascii_bytes(rest);
        if unreserved(b) {
            assert(all[0] == b);
        } else {
            assert(all[0] == 0x25u8);
            assert(all[1] == hex_digit_upper(b / 16) as u8);
            assert(all[2] == hex_digit_upper(b % 16) as u8);
            lemma_hex_pair(b);
        }
        assert(seq![b] + bs.skip(i + 1) =~= bs.skip(i));
    } else {
        assert(ascii_bytes(url_encoded(bs, i)) =~= Seq::<u8>::empty());
        assert(bs.skip(i) =~= Seq::<u8>::empty());
    }
}

/// Percent-decoding undoes percent-encoding: the bytes of the encoding of
/// `bs`, decoded, are `bs`.
pub proof fn lemma_url_roundtrip(bs: Seq<u8>)
    ensures
        url_decoded_bytes(vstd::utf8::encode_utf8(url_encoded(bs, 0)), 0) == bs,
{
    let e = url_encoded(bs, 0);
    lemma_url_encoded_ascii(bs, 0);
    vstd::utf8::is_ascii_chars_encode_utf8(e);
    assert(vstd::utf8::encode_utf8(e) =~= ascii_bytes(e));
    lemma_url_roundtrip_from(bs, 0);
    assert(bs.skip(0) =~= bs);
}

/// Percent-encoding text and decoding it gives the text back: the decoded
/// bytes are the text's UTF-8, which is valid and decodes to the text.
pub proof fn lemma_url_text_roundtrip(s: Seq<char>)
    ensures
        url_decoded_bytes(vstd::utf8::encode_utf8(url_encoded(vstd::utf8::encode_utf8(s), 0)), 0)
            == vstd::utf8::encode_utf8(s),
        vstd::utf8::valid_utf8(vstd::utf8::encode_utf8(s)),
        vstd::utf8::decode_utf8(vstd::utf8::encode_utf8(s)) == s,
{
    lemma_url_roundtrip(vstd::utf8::encode_utf8(s));
    vstd::utf8::encode_utf8_valid_utf8(s);
    vstd::utf8::encode_utf8_decode_utf8(s);
}

/// The character of a six-bit value reads back as that value, and is
/// neither `=` nor outside ASCII.
proof fn lemma_b64_char_value(v: u32)
    requires
        v < 64,
    ensures
        b64_value(b64_char(v)) == Some(v),
        b64_char(v) != 0x3Du8,
        b64_char(v) < 128,
{
}

/// Three bytes spread over four six-bit values and gathered back.
proof fn lemma_b64_bits(b0: u32, b1: u32, b2: u32)
    requires
        b0 < 256,
        b1 < 256,
        b2 < 256,
    ensures
        ({
            let t = (b0 << 16u32) | (b1 << 8u32) | b2;
            let v0 = (t >> 18u32) & 0x3F;
            let v1 = (t >> 12u32) & 0x3F;
            let v2 = (t >> 6u32) & 0x3F;
            let v3 = t & 0x3F;
            let u = (v0 << 18u32) | (v1 << 12u32) | (v2 << 6u32) | v3;
            &&& v0 < 64 && v1 < 64 && v2 < 64 && v3 < 64
            &&& ((u >> 16u32) & 0xFF) == b0
            &&& ((u >> 8u32) & 0xFF) == b1
            &&& (u & 0xFF) == b2
            &&& (b1 == 0 && b2 == 0 ==> v2 == 0 && v3 == 0)
            &&& (b2 == 0 ==> v3 == 0)
        }),
{
    assert({
        let t = (b0 << 16u32) | (b1 << 8u32) | b2;
        let v0 = (t >> 18u32) & 0x3F;
        let v1 = (t >> 12u32) & 0x3F;
        let v2 = (t >> 6u32) & 0x3F;
        let v3 = t & 0x3F;
        let u = (v0 << 18u32) | (v1 << 12u32) | (v2 << 6u32) | v3;
        &&& v0 < 64 && v1 < 64 && v2 < 64 && v3 < 64
        &&& ((u >> 16u32) & 0xFF) == b0
        &&& ((u >> 8u32) & 0xFF) == b1
        &&& (u & 0xFF) == b2
        &&& (b1 == 0 && b2 == 0 ==> v2 == 0 && v3 == 0)
        &&& (b2 == 0 ==> v3 == 0)
    }) by (bit_vector)
        requires
            b0 < 256,
            b1 < 256,
            b2 < 256,
    ;
}

/// Decoding from index `j` looks only at the characters from `j` on.
proof fn lemma_b64_decoded_suffix(p: Seq<u8>, q: Seq<u8>)
    ensures
        b64_decoded(p + q, p.len() as int) == b64_decoded(q, 0),
    decreases q.len(),
{
    let s = p + q;
    let j = p.len() as int;
    if q.len() > 0 {
        assert forall|k: int| 0 <= k < 4 implies value_or_zero(s, j + k) == value_or_zero(q, k) by {
            if k < q.len() {
                assert(s[j + k] == q[k]);
            }
        }
        assert(b64_unchunk(s, j) == b64_unchunk(q, 0));
        if q.len() > 4 {
            lemma_b64_decoded_suffix(p + q.take(4), q.skip(4));
            assert(p + q.take(4) + q.skip(4) =~= s);
            assert(q.take(4) + q.skip(4) =~= q);
            lemma_b64_decoded_suffix(q.take(4), q.skip(4));
        }
    } else {
        assert(s =~= p);
    }
}

/// Removing padding from a text whose tail keeps a character other than
/// `=` leaves the head alone.
proof fn lemma_trim_padding_concat(a: Seq<u8>, b: Seq<u8>)
    requires
        trim_padding(b).len() > 0,
    ensures
        trim_padding(a + b) == a + trim_padding(b),
    decreases b.len(),
{
    assert(b.len() > 0);
    assert((a + b).last() == b.last());
    if b.last() == 0x3D {
        assert((a + b).drop_last() =~= a + b.drop_last());
        lemma_trim_padding_concat(a, b.drop_last());
    }
}

/// A group of four characters whose last ones are `=` loses exactly those.
proof fn lemma_trim_group(c: Seq<u8>, keep: int)
    requires
        c.len() == 4,
        2 <= keep <= 4,
        c[keep - 1] != 0x3Du8,
        forall|k: int| keep <= k < 4 ==> c[k] == 0x3Du8,
    ensures
        trim_padding(c) == c.take(keep),
{
    assert(trim_padding(c.take(keep)) == c.take(keep)) by {
        assert(c.take(keep).last() == c[keep - 1]);
    }
    if keep == 4 {
        assert(c.take(4) =~= c);
        assert(c.last() == c[3]);
    } else if keep == 3 {
        assert(c.drop_last() =~= c.take(3));
        assert(c.last() == c[3]);
        assert(trim_padding(c) == trim_padding(c.drop_last()));
    } else {
        assert(c.drop_last() =~= c.take(3));
        assert(c.take(3).drop_last() =~= c.take(2));
        assert(c.last() == c[3]);
        assert(c.take(3).last() == c[2]);
        assert(trim_padding(c) == trim_padding(c.take(3)));
        assert(trim_padding(c.take(3)) == trim_padding(c.take(2)));
    }
}

/// The encoding of the bytes from `i` is ASCII, and removing its padding
/// leaves the characters of the last group that carry data.
proof fn lemma_b64_encoded_shape(bs: Seq<u8>, i: int)
    requires
        0 <= i < bs.len(),
    ensures
        forall|k: int| 0 <= k < b64_encoded(bs, i).len() ==> #[trigger] b64_encoded(bs, i)[k] < 128,
        trim_padding(b64_encoded(bs, i)).len() > 0,
    decreases bs.len() - i,
{
    let b0 = bs[i] as u32;
    let b1 = byte_or_zero(bs, i + 1);
    let b2 = byte_or_zero(bs, i + 2);
    lemma_b64_bits(b0, b1, b2);
    let t = (b0 << 16u32) | (b1 << 8u32) | b2;
    lemma_b64_char_value((t >> 18u32) & 0x3F);
    lemma_b64_char_value((t >> 12u32) & 0x3F);
    lemma_b64_char_value((t >> 6u32) & 0x3F);
    lemma_b64_char_value(t & 0x3F);
    let c = b64_chunk(bs, i);
    assert(byte_or_zero(bs, i) == b0);
    if bs.len() - i <= 3 {
        let keep = bs.len() - i + 1;
        lemma_trim_group(c, keep);
    } else {
        lemma_b64_encoded_shape(bs, i + 3);
        let rest = b64_encoded(bs, i + 3);
        lemma_trim_padding_concat(c, rest);
        assert forall|k: int| 0 <= k < (c + rest).len() implies #[trigger] (c + rest)[k] < 128 by {
            if k >= 4 {
                assert((c + rest)[k] == rest[k - 4]);
            }
        }
    }
}

/// Decoding the encoding of the bytes from `i` (padding removed) gives
/// those bytes.
#[verifier::rlimit(60)]
proof fn lemma_b64_roundtrip_from(bs: Seq<u8>, i: int)
    requires
        0 <= i < bs.len(),
    ensures
        b64_decoded(trim_padding(b64_encoded(bs, i)), 0) == Some(bs.skip(i)),
    decreases bs.len() - i,
{
    let b0 = bs[i] as u32;
    let b1 = byte_or_zero(bs, i + 1);
    let b2 = byte_or_zero(bs, i + 2);
    lemma_b64_bits(b0, b1, b2);
    let t = (b0 << 16u32) | (b1 << 8u32) | b2;
    lemma_b64_char_value((t >> 18u32) & 0x3F);
    lemma_b64_char_value((t >> 12u32) & 0x3F);
    lemma_b64_char_value((t >> 6u32) & 0x3F);
    lemma_b64_char_value(t & 0x3F);
    let c = b64_chunk(bs, i);
    assert(byte_or_zero(bs, i) == b0);
    lemma_b64_encoded_shape(bs, i);
    if bs.len() - i <= 3 {
        let tc = trim_padding(c);
        let keep = bs.len() - i + 1;
        lemma_trim_group(c, keep);
        assert(tc == c.take(keep));
        if bs.len() - i == 1 {
            assert(bs.skip(i) =~= seq![bs[i]]);
        } else if bs.len() - i == 2 {
            assert(bs.skip(i) =~= seq![bs[i], bs[i + 1]]);
        } else {
            assert(bs.skip(i) =~= seq![bs[i], bs[i + 1], bs[i + 2]]);
        }
        assert(b64_unchunk(tc, 0) == Some(bs.skip(i)));
    } else {
        lemma_b64_roundtrip_from(bs, i + 3);
        lemma_b64_encoded_shape(bs, i + 3);
        let rest = b64_encoded(bs, i + 3);
        let tr = trim_padding(rest);
        lemma_trim_padding_concat(c, rest);
        let all = c + tr;
        assert(trim_padding(b64_encoded(bs, i)) == all);
        assert forall|k: int| 0 <= k < 4 implies value_or_zero(all, k) == value_or_zero(c, k) by {
            assert(all[k] == c[k]);
        }
        assert(b64_unchunk(all, 0) == Some(seq![bs[i], bs[i + 1], bs[i + 2]]));
        lemma_b64_decoded_suffix(c, tr);
        assert(seq![bs[i], bs[i + 1], bs[i + 2]] + bs.skip(i + 3) =~= bs.skip(i));
    }
}

/// Base64 decoding undoes Base64 encoding: the text that encoding gives
/// for `bs`, read back as bytes with its padding removed, decodes to `bs`.
pub proof fn lemma_base64_roundtrip(bs: Seq<u8>)
    ensures
        b64_decoded(
            trim_padding(vstd::utf8::encode_utf8(b64_encoded(bs, 0).map_values(|b: u8| (b as u32) as char))),
            0,
        ) == Some(bs),
{
    let e = b64_encoded(bs, 0);
    let cs = e.map_values(|b: u8| (b as u32) as char);
    if bs.len() == 0 {
        assert(cs =~= Seq::<char>::empty());
        assert(vstd::utf8::encode_utf8(cs) =~= Seq::<u8>::empty()) by {
            vstd::utf8::is_ascii_chars_encode_utf8(cs);
        }
        assert(bs =~= Seq::<u8>::empty());
    } else {
        lemma_b64_encoded_shape(bs, 0);
        assert(vstd::utf8::is_ascii_chars(cs)) by {
            assert forall|k: int| 0 <= k < cs.len() implies '\0' <= #[trigger] cs[k] <= '\u{7f}' by {
                assert(e[k] < 128);
            }
        }
        vstd::utf8::is_ascii_chars_encode_utf8(cs);
        assert(vstd::utf8::encode_utf8(cs) =~= e);
        lemma_b64_roundtrip_from(bs, 0);
        assert(bs.skip(0) =~= bs);
    }
}

} // verus!

verus! {

/// An address's components as a dictionary with the keys `scheme`,
/// `fragment`, `query`, `path`, `host` and `port` (see
/// `url_components_spec`), kept in the order of their keys.
pub open spec fn url_dict(p: ComponentParts) -> ValueModel {
    let m1 = object_insert(Seq::empty(), ValueModel::Str("scheme"@), ValueModel::Str(p.0));
    let m2 = object_insert(m1, ValueModel::Str("fragment"@), ValueModel::Str(p.5));
    let m3 = object_insert(m2, ValueModel::Str("query"@), ValueModel::Str(p.4));
    let m4 = object_insert(m3, ValueModel::Str("path"@), ValueModel::Str(p.3));
    let m5 = object_insert(m4, ValueModel::Str("host"@), ValueModel::Str(p.1));
    let m6 = object_insert(m5, ValueModel::Str("port"@), ValueModel::Str(p.2));
    ValueModel::Object(m6)
}

/// Splits an address into its components and hands them out as a dictionary.
pub fn url_parse_value(url: &str) -> (r: Value)
    ensures
        super::value::model(r) == url_dict(url_components_spec(url@)),
{
    let c = url_components(url);
    let mut m: Vec<(Value, Value)> = Vec::new();
    insert_entry(&mut m, "scheme".to_string(), Value::Str(c.scheme));
    insert_entry(&mut m, "fragment".to_string(), Value::Str(c.fragment));
    insert_entry(&mut m, "query".to_string(), Value::Str(c.query));
    insert_entry(&mut m, "path".to_string(), Value::Str(c.path));
    insert_entry(&mut m, "host".to_string(), Value::Str(c.host));
    insert_entry(&mut m, "port".to_string(), Value::Str(c.port));
    Value::Object(m)
}

} // verus!
