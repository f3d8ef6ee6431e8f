//! Character- and string-level helpers shared by the lexer and the libraries.

use vstd::prelude::*;
use vstd::string::StringSliceAdditionalSpecFns;

verus! {

/// Whether two string slices hold the same characters.
pub fn str_eq(a: &str, b: &str) -> (r: bool)
    ensures
        r == (a@ == b@),
{
    let x = a.as_bytes();
    let y = b.as_bytes();
    proof {
        vstd::utf8::encode_utf8_decode_utf8(a@);
        vstd::utf8::encode_utf8_decode_utf8(b@);
    }
    if x.len() != y.len() {
        return false;
    }
    let mut i: usize = 0;
    while i < x.len()
        invariant
            x.len() == y.len(),
            x@ == a.spec_bytes(),
            y@ == b.spec_bytes(),
            i <= x.len(),
            forall|k: int| 0 <= k < i ==> x@[k] == y@[k],
        decreases x.len() - i,
    {
        if x[i] != y[i] {
            assert(x@[i as int] != y@[i as int]);
            return false;
        }
        i = i + 1;
    }
    assert(x@ =~= y@);
    true
}

} // verus!

verus! {

/// The characters of a string slice, in order.
pub fn chars_of(s: &str) -> (v: Vec<char>)
    ensures
        v@ == s@,
{
    let mut v: Vec<char> = Vec::new();
    for c in it: s.chars()
        invariant
            v@ == it.seq().take(it.index()),
            it.seq() == s@,
    {
        v.push(c);
    }
    v
}

} // verus!

verus! {

/// A `String` holding exactly the given characters.
///
/// Calls `FromIterator<char>` for `String` (`Iterator::collect`), which
/// appends the characters in order; the contract claims just that.
#[verifier::external_body]
pub(crate) fn string_from_chars(v: &[char]) -> (s: String)
    ensures
        s@ == v@,
{
    v.iter().collect()
}

/// Number of bytes that the UTF-8 encoding of `c` takes.
pub open spec fn char_utf8_len(c: char) -> nat {
    if (c as u32) < 0x80 {
        1
    } else if (c as u32) < 0x800 {
        2
    } else if (c as u32) < 0x10000 {
        3
    } else {
        4
    }
}

/// Number of bytes that the UTF-8 encoding of a character sequence takes.
pub open spec fn utf8_len(s: Seq<char>) -> nat
    decreases s.len(),
{
    if s.len() == 0 {
        0
    } else {
        utf8_len(s.drop_last()) + char_utf8_len(s.last())
    }
}

/// Byte length of the UTF-8 encoding of `c` (`char::len_utf8`).
pub fn len_utf8(c: char) -> (n: usize)
    ensures
        n == char_utf8_len(c),
        1 <= n <= 4,
{
    let u = c as u32;
    if u < 0x80 {
        1
    } else if u < 0x800 {
        2
    } else if u < 0x10000 {
        3
    } else {
        4
    }
}

/// A prefix never takes more bytes than the whole sequence.
pub proof fn lemma_utf8_len_prefix(s: Seq<char>, i: int)
    requires
        0 <= i <= s.len(),
    ensures
        utf8_len(s.take(i)) <= utf8_len(s),
        i < s.len() ==> utf8_len(s.take(i + 1)) == utf8_len(s.take(i)) + char_utf8_len(s[i]),
    decreases s.len() - i,
{
    if i < s.len() {
        assert(s.take(i + 1).drop_last() =~= s.take(i));
        lemma_utf8_len_prefix(s, i + 1);
    } else {
        assert(s.take(i) =~= s);
    }
}

/// Whether `c` is an ASCII decimal digit (`char::is_ascii_digit`).
pub open spec fn spec_is_ascii_digit(c: char) -> bool {
    '0' <= c && c <= '9'
}

/// Whether `c` is an ASCII hexadecimal digit (`char::is_ascii_hexdigit`).
pub open spec fn spec_is_ascii_hexdigit(c: char) -> bool {
    ('0' <= c && c <= '9') || ('a' <= c && c <= 'f') || ('A' <= c && c <= 'F')
}

/// The value of a hexadecimal digit; meaningful where `spec_is_ascii_hexdigit` holds.
pub open spec fn spec_hex_value(c: char) -> u32 {
    if '0' <= c && c <= '9' {
        (c as u32 - '0' as u32) as u32
    } else if 'a' <= c && c <= 'f' {
        (c as u32 - 'a' as u32 + 10) as u32
    } else {
        (c as u32 - 'A' as u32 + 10) as u32
    }
}

pub fn is_ascii_digit(c: char) -> (r: bool)
    ensures
        r == spec_is_ascii_digit(c),
{
    '0' <= c && c <= '9'
}

pub fn is_ascii_hexdigit(c: char) -> (r: bool)
    ensures
        r == spec_is_ascii_hexdigit(c),
{
    ('0' <= c && c <= '9') || ('a' <= c && c <= 'f') || ('A' <= c && c <= 'F')
}

/// Value of a hexadecimal digit (`char::to_digit(16)` on a hex digit).
pub fn hex_value(c: char) -> (v: u32)
    requires
        spec_is_ascii_hexdigit(c),
    ensures
        v == spec_hex_value(c),
        v < 16,
{
    if '0' <= c && c <= '9' {
        (c as u32) - ('0' as u32)
    } else if 'a' <= c && c <= 'f' {
        (c as u32) - ('a' as u32) + 10
    } else {
        (c as u32) - ('A' as u32) + 10
    }
}

} // verus!

verus! {

/// Whether `v` is a Unicode scalar value (a code point that is not a surrogate).
pub open spec fn is_scalar_value(v: u32) -> bool {
    v < 0xD800 || (0xE000 <= v && v <= 0x10FFFF)
}

/// `char::from_u32`: the character with code point `v`, or `None` when `v`
/// is a surrogate or above U+10FFFF, as its documentation states.
#[verifier::external_body]
pub(crate) fn char_from_u32(v: u32) -> (r: Option<char>)
    ensures
        r is Some <==> is_scalar_value(v),
        r matches Some(c) ==> c as u32 == v && c == v as char,
{
    char::from_u32(v)
}

/// What `char::is_whitespace` answers for `c`: whether it has the Unicode
/// `White_Space` property, whose code points `PropList.txt` of the Unicode
/// Character Database lists: U+0009 to U+000D, U+0020, U+0085, U+00A0,
/// U+1680, U+2000 to U+200A, U+2028, U+2029, U+202F, U+205F and U+3000.
pub open spec fn unicode_white_space(c: char) -> bool {
    let u = c as u32;
    ||| 0x09 <= u <= 0x0D
    ||| u == 0x20
    ||| u == 0x85
    ||| u == 0xA0
    ||| u == 0x1680
    ||| 0x2000 <= u <= 0x200A
    ||| u == 0x2028
    ||| u == 0x2029
    ||| u == 0x202F
    ||| u == 0x205F
    ||| u == 0x3000
}

/// `char::is_whitespace`: whether `c` has the Unicode `White_Space` property
/// (see [`unicode_white_space`]).
#[verifier::external_body]
pub(crate) fn char_is_whitespace(c: char) -> (r: bool)
    ensures
        r == unicode_white_space(c),
{
    c.is_whitespace()
}

} // verus!

verus! {

/// The characters of `v` from index `a` up to (not including) `b`.
pub fn subrange_vec(v: &Vec<char>, a: usize, b: usize) -> (r: Vec<char>)
    requires
        a <= b <= v.len(),
    ensures
        r@ == v@.subrange(a as int, b as int),
{
    let mut r: Vec<char> = Vec::new();
    let mut k = a;
    while k < b
        invariant
            a <= k <= b <= v.len(),
            r@ == v@.subrange(a as int, k as int),
        decreases b - k,
    {
        r.push(v[k]);
        k = k + 1;
        proof {
            assert(r@ =~= v@.subrange(a as int, k as int));
        }
    }
    r
}

/// The characters of a sequence other than `_`.
pub open spec fn without_underscores(s: Seq<char>) -> Seq<char>
    decreases s.len(),
{
    if s.len() == 0 {
        Seq::empty()
    } else if s.last() == '_' {
        without_underscores(s.drop_last())
    } else {
        without_underscores(s.drop_last()).push(s.last())
    }
}

/// The characters of `v[a..b]` other than `_`.
pub fn without_underscores_vec(v: &Vec<char>, a: usize, b: usize) -> (r: Vec<char>)
    requires
        a <= b <= v.len(),
    ensures
        r@ == without_underscores(v@.subrange(a as int, b as int)),
{
    let mut r: Vec<char> = Vec::new();
    let mut k = a;
    while k < b
        invariant
            a <= k <= b <= v.len(),
            r@ == without_underscores(v@.subrange(a as int, k as int)),
        decreases b - k,
    {
        proof {
            assert(v@.subrange(a as int, k + 1).drop_last() =~= v@.subrange(a as int, k as int));
        }
        if v[k] != '_' {
            r.push(v[k]);
        }
        k = k + 1;
    }
    r
}

/// Removing `_` keeps only characters of the input that are not `_`.
pub proof fn lemma_without_underscores_chars(s: Seq<char>, p: spec_fn(char) -> bool)
    requires
        forall|k: int| 0 <= k < s.len() && s[k] != '_' ==> p(#[trigger] s[k]),
    ensures
        forall|k: int| 0 <= k < without_underscores(s).len() ==> p(#[trigger] without_underscores(s)[k]),
    decreases s.len(),
{
    if s.len() > 0 {
        let t = s.drop_last();
        assert forall|k: int| 0 <= k < t.len() && t[k] != '_' implies p(#[trigger] t[k]) by {
            assert(t[k] == s[k]);
        }
        lemma_without_underscores_chars(t, p);
        let w = without_underscores(t);
        if s.last() != '_' {
            let x = s.last();
            assert(p(s[s.len() - 1]));
            assert forall|k: int| 0 <= k < w.push(x).len() implies p(#[trigger] w.push(x)[k]) by {
                if k < w.len() {
                    assert(w.push(x)[k] == w[k]);
                }
            }
        }
    }
}

} // verus!

verus! {

/// The character of a decimal digit `d < 10`.
pub open spec fn digit_char(d: nat) -> char {
    (('0' as u32) + d) as char
}

/// The decimal digits of `n`, most significant first, without leading zeros
/// (`"0"` for zero): what `to_string` gives for an unsigned integer.
pub open spec fn decimal_digits(n: nat) -> Seq<char>
    decreases n,
{
    if n < 10 {
        seq![digit_char(n)]
    } else {
        decimal_digits(n / 10).push(digit_char(n % 10))
    }
}

/// The decimal text of a signed integer: a `-` before the digits of its
/// magnitude when it is negative.
pub open spec fn signed_decimal(n: int) -> Seq<char> {
    if n < 0 {
        seq!['-'] + decimal_digits((-n) as nat)
    } else {
        decimal_digits(n as nat)
    }
}

/// The decimal text of an unsigned integer.
pub fn u64_to_decimal(n: u64) -> (r: String)
    ensures
        r@ == decimal_digits(n as nat),
{
    let mut rev: Vec<char> = Vec::new();
    let mut m: u64 = n;
    let ghost mut tail: Seq<char> = Seq::empty();
    loop
        invariant_except_break
            decimal_digits(n as nat) == decimal_digits(m as nat) + tail,
        invariant
            rev@ == tail.reverse(),
        ensures
            decimal_digits(n as nat) == tail,
            rev@ == tail.reverse(),
        decreases m,
    {
        let d = (m % 10) as u32;
        let c = char_from_digit(d);
        if m < 10 {
            rev.push(c);
            proof {
                assert(decimal_digits(m as nat) == seq![digit_char(m as nat)]);
                assert(seq![c] + tail =~= decimal_digits(n as nat));
                assert((seq![c] + tail).reverse() =~= tail.reverse().push(c));
                tail = seq![c] + tail;
            }
            break;
        }
        rev.push(c);
        proof {
            assert(decimal_digits(m as nat) == decimal_digits((m / 10) as nat).push(digit_char((m % 10) as nat)));
            assert(decimal_digits((m / 10) as nat) + (seq![c] + tail) =~= decimal_digits(m as nat) + tail);
            assert((seq![c] + tail).reverse() =~= tail.reverse().push(c));
            tail = seq![c] + tail;
        }
        m = m / 10;
    }
    let mut out: Vec<char> = Vec::new();
    let mut k: usize = rev.len();
    proof {
        assert(rev@.subrange(k as int, rev.len() as int).reverse() =~= Seq::<char>::empty());
    }
    while k > 0
        invariant
            k <= rev.len(),
            rev@ == tail.reverse(),
            out@ == rev@.subrange(k as int, rev.len() as int).reverse(),
        decreases k,
    {
        k = k - 1;
        out.push(rev[k]);
        proof {
            assert(rev@.subrange(k as int, rev.len() as int).reverse()
                =~= rev@.subrange(k + 1, rev.len() as int).reverse().push(rev@[k as int]));
        }
    }
    proof {
        assert(rev@.subrange(0, rev.len() as int) =~= rev@);
        assert(tail.reverse().reverse() =~= tail);
        assert(decimal_digits(n as nat) =~= tail);
    }
    string_from_chars(out.as_slice())
}

/// The decimal text of a signed integer.
pub fn i64_to_decimal(n: i64) -> (r: String)
    ensures
        r@ == signed_decimal(n as int),
{
    if n < 0 {
        let mag: u64 = if n == i64::MIN { 9223372036854775808u64 } else { (-n) as u64 };
        let digits = u64_to_decimal(mag);
        let mut r = String::new();
        r.append("-");
        r.append(digits.as_str());
        proof {
            reveal_strlit("-");
        }
        r
    } else {
        u64_to_decimal(n as u64)
    }
}

/// Appends the characters of `s` to `out`.
pub fn push_chars(out: &mut Vec<char>, s: &Vec<char>)
    ensures
        final(out)@ == old(out)@ + s@,
{
    let mut k: usize = 0;
    while k < s.len()
        invariant
            k <= s.len(),
            out@ == old(out)@ + s@.take(k as int),
        decreases s.len() - k,
    {
        out.push(s[k]);
        k = k + 1;
        proof {
            assert(out@ =~= old(out)@ + s@.take(k as int));
        }
    }
    proof {
        assert(s@.take(k as int) =~= s@);
    }
}

/// The upper-case hexadecimal digit of `d < 16`.
pub open spec fn upper_hex_char(d: nat) -> char {
    if d < 10 {
        digit_char(d)
    } else {
        (('A' as u32) + (d - 10)) as char
    }
}

/// The upper-case hexadecimal digits of `n`, most significant first, without
/// leading zeros (`"0"` for zero).
pub open spec fn upper_hex_digits(n: nat) -> Seq<char>
    decreases n,
{
    if n < 16 {
        seq![upper_hex_char(n)]
    } else {
        upper_hex_digits(n / 16).push(upper_hex_char(n % 16))
    }
}

/// `s` with zeros in front up to `width` characters (`{:0width}`).
pub open spec fn zero_padded(s: Seq<char>, width: nat) -> Seq<char> {
    if s.len() >= width {
        s
    } else {
        Seq::new((width - s.len()) as nat, |i: int| '0') + s
    }
}

fn upper_hex_char_of(d: u32) -> (c: char)
    requires
        d < 16,
    ensures
        c == upper_hex_char(d as nat),
{
    if d < 10 {
        char_from_digit(d)
    } else {
        let c = match d {
            10 => 'A',
            11 => 'B',
            12 => 'C',
            13 => 'D',
            14 => 'E',
            _ => 'F',
        };
        c
    }
}

/// The upper-case hexadecimal text of `n`, with zeros in front up to
/// `width` characters (what `format!("{:0width$X}", n)` gives).
pub fn u32_to_upper_hex(n: u32, width: usize) -> (r: Vec<char>)
    ensures
        r@ == zero_padded(upper_hex_digits(n as nat), width as nat),
{
    let mut rev: Vec<char> = Vec::new();
    let mut m: u32 = n;
    let ghost mut tail: Seq<char> = Seq::empty();
    loop
        invariant_except_break
            upper_hex_digits(n as nat) == upper_hex_digits(m as nat) + tail,
        invariant
            rev@ == tail.reverse(),
        ensures
            upper_hex_digits(n as nat) == tail,
            rev@ == tail.reverse(),
        decreases m,
    {
        let c = upper_hex_char_of(m % 16);
        if m < 16 {
            rev.push(c);
            proof {
                assert(seq![c] + tail =~= upper_hex_digits(n as nat));
                assert((seq![c] + tail).reverse() =~= tail.reverse().push(c));
                tail = seq![c] + tail;
            }
            break;
        }
        rev.push(c);
        proof {
            assert(upper_hex_digits(m as nat) == upper_hex_digits((m / 16) as nat).push(
                upper_hex_char((m % 16) as nat),
            ));
            assert(upper_hex_digits((m / 16) as nat) + (seq![c] + tail) =~= upper_hex_digits(m as nat)
                + tail);
            assert((seq![c] + tail).reverse() =~= tail.reverse().push(c));
            tail = seq![c] + tail;
        }
        m = m / 16;
    }
    let mut out: Vec<char> = Vec::new();
    let mut pad: usize = rev.len();
    while pad < width
        invariant
            rev.len() <= pad <= width || (pad == rev.len() && width < rev.len()),
            out@ == Seq::new((pad - rev.len()) as nat, |i: int| '0'),
        decreases width - pad,
    {
        out.push('0');
        pad = pad + 1;
        proof {
            assert(out@ =~= Seq::new((pad - rev.len()) as nat, |i: int| '0'));
        }
    }
    let ghost zeros = out@;
    let mut k: usize = rev.len();
    proof {
        assert(rev@.subrange(k as int, rev.len() as int).reverse() =~= Seq::<char>::empty());
        assert(out@ =~= zeros + rev@.subrange(k as int, rev.len() as int).reverse());
    }
    while k > 0
        invariant
            k <= rev.len(),
            rev@ == tail.reverse(),
            out@ == zeros + rev@.subrange(k as int, rev.len() as int).reverse(),
        decreases k,
    {
        k = k - 1;
        out.push(rev[k]);
        proof {
            assert(rev@.subrange(k as int, rev.len() as int).reverse()
                =~= rev@.subrange(k + 1, rev.len() as int).reverse().push(rev@[k as int]));
            assert(out@ =~= zeros + rev@.subrange(k as int, rev.len() as int).reverse());
        }
    }
    proof {
        assert(rev@.subrange(0, rev.len() as int) =~= rev@);
        assert(tail.reverse().reverse() =~= tail);
        assert(upper_hex_digits(n as nat) =~= tail);
        if tail.len() >= width {
            assert(zeros =~= Seq::<char>::empty());
            assert(out@ =~= tail);
        } else {
            assert(out@ =~= zero_padded(tail, width as nat));
        }
    }
    out
}

/// The character of a digit below ten.
fn char_from_digit(d: u32) -> (c: char)
    requires
        d < 10,
    ensures
        c == digit_char(d as nat),
{
    let c = match d {
        0 => '0',
        1 => '1',
        2 => '2',
        3 => '3',
        4 => '4',
        5 => '5',
        6 => '6',
        7 => '7',
        8 => '8',
        _ => '9',
    };
    c
}

/// What `str::to_lowercase` gives for a string (Unicode lowercase mapping).
pub uninterp spec fn lowercase_of(s: Seq<char>) -> Seq<char>;

/// Whether every character is ASCII and none is an upper-case letter.
pub open spec fn lower_ascii_text(s: Seq<char>) -> bool {
    forall|k: int| 0 <= k < s.len() ==> (#[trigger] s[k] as u32) < 128 && !('A' <= s[k] && s[k] <= 'Z')
}

/// `str::to_lowercase`: the lowercase form of `s`, as Unicode defines it.
/// The contract names the result; beyond that it claims only that text of
/// ASCII characters without upper-case letters is left as it is (each such
/// character is its own lowercase mapping).
#[verifier::external_body]
pub(crate) fn to_lowercase(s: &str) -> (r: String)
    ensures
        r@ == lowercase_of(s@),
        lower_ascii_text(s@) ==> r@ == s@,
{
    s.to_lowercase()
}

/// What `str::to_uppercase` gives for a string (Unicode uppercase mapping).
pub uninterp spec fn uppercase_of(s: Seq<char>) -> Seq<char>;

/// `str::to_uppercase`: the uppercase form of `s`, as Unicode defines it.
/// The contract names the result and claims nothing else.
#[verifier::external_body]
pub(crate) fn to_uppercase(s: &str) -> (r: String)
    ensures
        r@ == uppercase_of(s@),
{
    s.to_uppercase()
}

/// The value of a string of ASCII digits, most significant first.
pub open spec fn decimal_value(s: Seq<char>) -> int
    decreases s.len(),
{
    if s.len() == 0 {
        0
    } else {
        decimal_value(s.drop_last()) * 10 + (s.last() as int - '0' as int)
    }
}

/// Whether every character is an ASCII digit.
pub open spec fn all_ascii_digits(s: Seq<char>) -> bool {
    forall|k: int| 0 <= k < s.len() ==> spec_is_ascii_digit(#[trigger] s[k])
}

/// What `str::parse::<i64>` accepts, as its documentation states: an
/// optional `+` or `-` followed by one or more ASCII digits, whose value
/// fits in `i64`.
pub open spec fn parsed_i64(s: Seq<char>) -> Option<i64> {
    let neg = s.len() > 0 && s[0] == '-';
    let signed = s.len() > 0 && (s[0] == '-' || s[0] == '+');
    let digits = if signed { s.subrange(1, s.len() as int) } else { s };
    let v = if neg { -decimal_value(digits) } else { decimal_value(digits) };
    if digits.len() > 0 && all_ascii_digits(digits) && i64::MIN <= v <= i64::MAX {
        Some(v as i64)
    } else {
        None
    }
}

/// A prefix of a string of digits has a value no greater than the whole.
proof fn lemma_decimal_value_prefix(s: Seq<char>, k: int)
    requires
        all_ascii_digits(s),
        0 <= k <= s.len(),
    ensures
        decimal_value(s.take(k)) <= decimal_value(s),
    decreases s.len(),
{
    if k < s.len() {
        assert(all_ascii_digits(s.drop_last()));
        lemma_decimal_value_prefix(s.drop_last(), k);
        assert(s.drop_last().take(k) =~= s.take(k));
        lemma_decimal_value_bound(s.drop_last());
        assert(spec_is_ascii_digit(s.last()));
    } else {
        assert(s.take(k) =~= s);
    }
}

/// Reads an integer as `str::parse::<i64>` does: the value of `s` when it
/// is an optionally signed decimal integer that fits, else `None`.
pub fn parse_i64(s: &str) -> (r: Option<i64>)
    ensures
        r == parsed_i64(s@),
{
    let cs = chars_of(s);
    let n = cs.len();
    if n == 0 {
        return None;
    }
    let neg = cs[0] == '-';
    let start: usize = if cs[0] == '-' || cs[0] == '+' { 1 } else { 0 };
    let ghost digits = cs@.subrange(start as int, n as int);
    if start == n {
        return None;
    }
    let mut acc: u64 = 0;
    let mut i = start;
    proof {
        assert(cs@.subrange(start as int, start as int) =~= Seq::<char>::empty());
        if start == 1 {
            assert(s@.subrange(1, s@.len() as int) =~= digits);
        } else {
            assert(cs@.subrange(0, n as int) =~= cs@);
        }
    }
    while i < n
        invariant
            start <= i <= n,
            n == cs.len(),
            digits == cs@.subrange(start as int, n as int),
            all_ascii_digits(cs@.subrange(start as int, i as int)),
            acc as int == decimal_value(cs@.subrange(start as int, i as int)),
            acc <= 9223372036854775808u64,
            !all_ascii_digits(digits) ==> parsed_i64(s@) is None,
            all_ascii_digits(digits) && decimal_value(digits) > 9223372036854775808 ==> parsed_i64(s@) is None,
        decreases n - i,
    {
        let c = cs[i];
        let ghost pre = cs@.subrange(start as int, i as int);
        let ghost post = cs@.subrange(start as int, i + 1);
        proof {
            assert(post.drop_last() =~= pre);
            assert(post.last() == c);
            assert(digits[i - start] == c);
        }
        if !is_ascii_digit(c) {
            return None;
        }
        let d = (c as u32 - '0' as u32) as u64;
        let t: u128 = (acc as u128) * 10 + (d as u128);
        proof {
            assert(all_ascii_digits(post));
            assert(decimal_value(post) == t);
        }
        if t > 9223372036854775808u128 {
            proof {
                if all_ascii_digits(digits) {
                    lemma_decimal_value_prefix(digits, i + 1 - start);
                    assert(digits.take(i + 1 - start) =~= post);
                }
            }
            return None;
        }
        acc = t as u64;
        i = i + 1;
    }
    proof {
        assert(cs@.subrange(start as int, i as int) =~= digits);
        assert(s@ == cs@);
        if start == 1 {
            assert(s@.subrange(1, s@.len() as int) =~= digits);
        } else {
            assert(cs@.subrange(0, n as int) =~= cs@);
        }
    }
    if neg {
        if acc == 9223372036854775808u64 {
            Some(i64::MIN)
        } else {
            Some(-(acc as i64))
        }
    } else if acc > 9223372036854775807u64 {
        None
    } else {
        Some(acc as i64)
    }
}

} // verus!

verus! {

/// A vector holding a copy of the bytes.
pub fn bytes_to_vec(b: &[u8]) -> (r: Vec<u8>)
    ensures
        r@ == b@,
{
    let mut r: Vec<u8> = Vec::new();
    let mut k: usize = 0;
    while k < b.len()
        invariant
            k <= b.len(),
            r@ == b@.take(k as int),
        decreases b.len() - k,
    {
        r.push(b[k]);
        k = k + 1;
        proof {
            assert(r@ =~= b@.take(k as int));
        }
    }
    proof {
        assert(b@.take(k as int) =~= b@);
    }
    r
}

} // verus!

verus! {

/// Index of the first character at or after `i` that is not white space.
pub open spec fn trim_start_index(s: Seq<char>, i: int) -> int
    decreases s.len() - i,
{
    if i >= s.len() || i < 0 || !unicode_white_space(s[i]) {
        i
    } else {
        trim_start_index(s, i + 1)
    }
}

/// One past the last character before `j` that is not white space, but not
/// below `lo`.
pub open spec fn trim_end_index(s: Seq<char>, lo: int, j: int) -> int
    decreases j - lo,
{
    if j <= lo || j > s.len() || !unicode_white_space(s[j - 1]) {
        j
    } else {
        trim_end_index(s, lo, j - 1)
    }
}

/// `s` without leading and trailing white space (what `str::trim` gives).
pub open spec fn trimmed(s: Seq<char>) -> Seq<char> {
    let a = trim_start_index(s, 0);
    s.subrange(a, trim_end_index(s, a, s.len() as int))
}

/// The index of the first character that is not white space at or after
/// `from` in `v`, or its end.
pub fn word_start_in(v: &Vec<char>, from: usize) -> (r: usize)
    requires
        from <= v.len(),
    ensures
        r == trim_start_index(v@, from as int),
        from <= r <= v.len(),
{
    let mut i = from;
    while i < v.len() && char_is_whitespace(v[i])
        invariant
            from <= i <= v.len(),
            trim_start_index(v@, from as int) == trim_start_index(v@, i as int),
        decreases v.len() - i,
    {
        i = i + 1;
    }
    i
}

/// Skipping white space from `i` stops at or after `i`, and within the text.
pub proof fn lemma_trim_start_bounds(s: Seq<char>, i: int)
    requires
        0 <= i <= s.len(),
    ensures
        i <= trim_start_index(s, i) <= s.len(),
    decreases s.len() - i,
{
    if i < s.len() && unicode_white_space(s[i]) {
        lemma_trim_start_bounds(s, i + 1);
    }
}

/// The bounds of the trimmed part of `v[lo..hi]`.
pub fn trim_bounds(v: &Vec<char>, lo: usize, hi: usize) -> (r: (usize, usize))
    requires
        lo <= hi <= v.len(),
    ensures
        r.0 == trim_start_index(v@.subrange(lo as int, hi as int), 0) + lo,
        r.1 == trim_end_index(v@.subrange(lo as int, hi as int), r.0 - lo, hi - lo) + lo,
        lo <= r.0 <= r.1 <= hi,
{
    let ghost s = v@.subrange(lo as int, hi as int);
    let mut a = lo;
    while a < hi && char_is_whitespace(v[a])
        invariant
            lo <= a <= hi <= v.len(),
            s == v@.subrange(lo as int, hi as int),
            trim_start_index(s, a - lo) == trim_start_index(s, 0),
        decreases hi - a,
    {
        a = a + 1;
    }
    let mut b = hi;
    while b > a && char_is_whitespace(v[b - 1])
        invariant
            lo <= a <= b <= hi <= v.len(),
            s == v@.subrange(lo as int, hi as int),
            trim_start_index(s, 0) == a - lo,
            trim_end_index(s, a - lo, b - lo) == trim_end_index(s, a - lo, hi - lo),
        decreases b - a,
    {
        b = b - 1;
    }
    (a, b)
}

/// The characters of `s` without leading and trailing white space.
pub fn trim_chars(v: &Vec<char>) -> (r: Vec<char>)
    ensures
        r@ == trimmed(v@),
{
    let (a, b) = trim_bounds(v, 0, v.len());
    proof {
        assert(v@.subrange(0, v.len() as int) =~= v@);
    }
    subrange_vec(v, a, b)
}

} // verus!

verus! {

/// The ASCII lowercase of a character: `A`–`Z` become `a`–`z`, everything
/// else stays (`char::to_ascii_lowercase`).
pub open spec fn ascii_lower(c: char) -> char {
    if 'A' <= c && c <= 'Z' {
        ((c as u32) + 32) as char
    } else {
        c
    }
}

/// The ASCII lowercase of every character of `s`.
pub open spec fn ascii_lower_seq(s: Seq<char>) -> Seq<char> {
    s.map_values(|c: char| ascii_lower(c))
}

/// The characters of `v` in ASCII lowercase (`str::to_ascii_lowercase`).
pub fn ascii_lowercase_chars(v: &Vec<char>) -> (r: Vec<char>)
    ensures
        r@ == ascii_lower_seq(v@),
{
    let mut r: Vec<char> = Vec::new();
    let mut k: usize = 0;
    while k < v.len()
        invariant
            k <= v.len(),
            r@ == ascii_lower_seq(v@.take(k as int)),
        decreases v.len() - k,
    {
        let c = v[k];
        let l = if 'A' <= c && c <= 'Z' {
            let b: u8 = (c as u32 + 32) as u8;
            b as char
        } else {
            c
        };
        assert(l == ascii_lower(c));
        r.push(l);
        proof {
            assert(v@.take(k + 1) =~= v@.take(k as int).push(c));
        }
        k = k + 1;
        proof {
            assert(r@ =~= ascii_lower_seq(v@.take(k as int)));
        }
    }
    proof {
        assert(v@.take(k as int) =~= v@);
    }
    r
}

/// Ten to the power `n`.
pub open spec fn pow10(n: nat) -> nat
    decreases n,
{
    if n == 0 {
        1
    } else {
        10 * pow10((n - 1) as nat)
    }
}

/// Powers of ten grow with the exponent.
pub proof fn lemma_pow10_mono(a: nat, b: nat)
    requires
        a <= b,
    ensures
        1 <= pow10(a) <= pow10(b),
    decreases b,
{
    if b > 0 {
        if a < b {
            lemma_pow10_mono(a, (b - 1) as nat);
        } else {
            lemma_pow10_mono((a - 1) as nat, (b - 1) as nat);
        }
    }
}

/// A string of `n` ASCII digits has a value below ten to the `n`.
pub proof fn lemma_decimal_value_bound(s: Seq<char>)
    requires
        all_ascii_digits(s),
    ensures
        0 <= decimal_value(s) < pow10(s.len()),
    decreases s.len(),
{
    if s.len() > 0 {
        assert(spec_is_ascii_digit(s[s.len() - 1]));
        assert(all_ascii_digits(s.drop_last()));
        lemma_decimal_value_bound(s.drop_last());
    }
}

} // verus!

verus! {

/// The first index at or after `i` holding `c`, if any.
pub open spec fn find_char_from(s: Seq<char>, c: char, i: int) -> Option<int>
    decreases s.len() - i,
{
    if i < 0 || i >= s.len() {
        None
    } else if s[i] == c {
        Some(i)
    } else {
        find_char_from(s, c, i + 1)
    }
}

/// The last index below `j` holding `c`, if any.
pub open spec fn rfind_char(s: Seq<char>, c: char, j: int) -> Option<int>
    decreases j,
{
    if j <= 0 || j > s.len() {
        None
    } else if s[j - 1] == c {
        Some(j - 1)
    } else {
        rfind_char(s, c, j - 1)
    }
}

/// The first index at or after `i` where `"\r\n"` starts, if any.
pub open spec fn find_crlf(s: Seq<char>, i: int) -> Option<int>
    decreases s.len() - i,
{
    if i < 0 || i + 1 >= s.len() {
        None
    } else if s[i] == '\r' && s[i + 1] == '\n' {
        Some(i)
    } else {
        find_crlf(s, i + 1)
    }
}

/// Whether `s` begins with `p`.
pub open spec fn has_prefix(s: Seq<char>, p: Seq<char>) -> bool {
    p.len() <= s.len() && s.take(p.len() as int) == p
}

/// Index of the first `c` in `v` at or after `from` (see [`find_char_from`]).
pub fn find_char_in(v: &Vec<char>, c: char, from: usize) -> (r: Option<usize>)
    ensures
        match r {
            Some(k) => find_char_from(v@, c, from as int) == Some(k as int) && from <= k < v.len(),
            None => find_char_from(v@, c, from as int) is None,
        },
{
    let mut i = from;
    while i < v.len()
        invariant
            from <= i,
            find_char_from(v@, c, from as int) == find_char_from(v@, c, i as int),
        decreases v.len() - i,
    {
        if v[i] == c {
            return Some(i);
        }
        i = i + 1;
    }
    None
}

/// Index of the last `c` in `v` below `to` (see [`rfind_char`]).
pub fn rfind_char_in(v: &Vec<char>, c: char, to: usize) -> (r: Option<usize>)
    requires
        to <= v.len(),
    ensures
        match r {
            Some(k) => rfind_char(v@, c, to as int) == Some(k as int) && k < to,
            None => rfind_char(v@, c, to as int) is None,
        },
{
    let mut j = to;
    while j > 0
        invariant
            j <= to <= v.len(),
            rfind_char(v@, c, to as int) == rfind_char(v@, c, j as int),
        decreases j,
    {
        if v[j - 1] == c {
            return Some(j - 1);
        }
        j = j - 1;
    }
    None
}

/// Index of the first `"\r\n"` in `v` at or after `from` (see [`find_crlf`]).
pub fn find_crlf_in(v: &Vec<char>, from: usize) -> (r: Option<usize>)
    ensures
        match r {
            Some(k) => find_crlf(v@, from as int) == Some(k as int) && from <= k && k + 1 < v.len(),
            None => find_crlf(v@, from as int) is None,
        },
{
    let mut i = from;
    while i < v.len() && i + 1 < v.len()
        invariant
            from <= i,
            find_crlf(v@, from as int) == find_crlf(v@, i as int),
        decreases v.len() - i,
    {
        if v[i] == '\r' && v[i + 1] == '\n' {
            return Some(i);
        }
        i = i + 1;
    }
    None
}

/// Whether `v` begins with `p`.
pub fn starts_with_chars(v: &Vec<char>, p: &Vec<char>) -> (r: bool)
    ensures
        r == has_prefix(v@, p@),
{
    if p.len() > v.len() {
        return false;
    }
    let mut i: usize = 0;
    while i < p.len()
        invariant
            p.len() <= v.len(),
            i <= p.len(),
            forall|k: int| 0 <= k < i ==> v@[k] == p@[k],
        decreases p.len() - i,
    {
        if v[i] != p[i] {
            assert(v@.take(p.len() as int)[i as int] != p@[i as int]);
            return false;
        }
        i = i + 1;
    }
    assert(v@.take(p.len() as int) =~= p@);
    true
}

/// Whether every character of `v[a..b]` is an ASCII digit.
pub fn all_digits_in(v: &Vec<char>, a: usize, b: usize) -> (r: bool)
    requires
        a <= b <= v.len(),
    ensures
        r == all_ascii_digits(v@.subrange(a as int, b as int)),
{
    let mut i = a;
    while i < b
        invariant
            a <= i <= b <= v.len(),
            forall|k: int| a <= k < i ==> spec_is_ascii_digit(#[trigger] v@[k]),
        decreases b - i,
    {
        if !is_ascii_digit(v[i]) {
            assert(!spec_is_ascii_digit(v@.subrange(a as int, b as int)[i - a]));
            return false;
        }
        i = i + 1;
    }
    assert forall|k: int| 0 <= k < b - a implies spec_is_ascii_digit(#[trigger] v@.subrange(a as int, b as int)[k]) by {
        assert(v@.subrange(a as int, b as int)[k] == v@[a + k]);
    }
    true
}

/// The value of the ASCII digits `v[a..b]`, or `cap` when it is at least `cap`.
pub fn decimal_capped(v: &Vec<char>, a: usize, b: usize, cap: u64) -> (r: u64)
    requires
        a <= b <= v.len(),
        all_ascii_digits(v@.subrange(a as int, b as int)),
        cap <= 0x1_0000_0000,
    ensures
        r == (if decimal_value(v@.subrange(a as int, b as int)) < cap {
            decimal_value(v@.subrange(a as int, b as int))
        } else {
            cap as int
        }),
{
    let mut i = a;
    let mut acc: u64 = 0;
    proof {
        assert(v@.subrange(a as int, a as int) =~= Seq::<char>::empty());
    }
    while i < b
        invariant
            a <= i <= b <= v.len(),
            cap <= 0x1_0000_0000,
            all_ascii_digits(v@.subrange(a as int, b as int)),
            decimal_value(v@.subrange(a as int, i as int)) >= 0,
            acc == (if decimal_value(v@.subrange(a as int, i as int)) < cap {
                decimal_value(v@.subrange(a as int, i as int))
            } else {
                cap as int
            }),
        decreases b - i,
    {
        let c = v[i];
        assert(v@.subrange(a as int, b as int)[i - a] == c);
        assert(spec_is_ascii_digit(c));
        let d: u64 = (c as u32 - '0' as u32) as u64;
        proof {
            assert(v@.subrange(a as int, i + 1).drop_last() =~= v@.subrange(a as int, i as int));
        }
        if acc < cap {
            acc = acc * 10 + d;
            if acc > cap {
                acc = cap;
            }
        }
        i = i + 1;
    }
    acc
}

} // verus!

verus! {

/// Whether two strings are equal ignoring ASCII case (`str::eq_ignore_ascii_case`).
pub fn eq_ignore_ascii_case(a: &str, b: &str) -> (r: bool)
    ensures
        r == (ascii_lower_seq(a@) == ascii_lower_seq(b@)),
{
    let x = ascii_lowercase_chars(&chars_of(a));
    let y = ascii_lowercase_chars(&chars_of(b));
    if x.len() != y.len() {
        return false;
    }
    let mut i: usize = 0;
    while i < x.len()
        invariant
            x.len() == y.len(),
            x@ == ascii_lower_seq(a@),
            y@ == ascii_lower_seq(b@),
            i <= x.len(),
            forall|k: int| 0 <= k < i ==> x@[k] == y@[k],
        decreases x.len() - i,
    {
        if x[i] != y[i] {
            assert(x@[i as int] != y@[i as int]);
            return false;
        }
        i = i + 1;
    }
    assert(x@ =~= y@);
    true
}

/// Whether `p` occurs in `s` at index `i`.
pub open spec fn occurs_at(s: Seq<char>, p: Seq<char>, i: int) -> bool {
    0 <= i && i + p.len() <= s.len() && s.subrange(i, i + p.len()) == p
}

/// Whether `p` occurs somewhere in `s` (`str::contains`).
pub open spec fn contains_seq(s: Seq<char>, p: Seq<char>) -> bool {
    exists|i: int| occurs_at(s, p, i)
}

/// Whether `p` occurs somewhere in `s`.
pub fn contains_chars(s: &str, p: &str) -> (r: bool)
    ensures
        r == contains_seq(s@, p@),
{
    let v = chars_of(s);
    let w = chars_of(p);
    if w.len() > v.len() {
        return false;
    }
    let mut i: usize = 0;
    while i <= v.len() - w.len()
        invariant
            w.len() <= v.len(),
            v@ == s@,
            w@ == p@,
            forall|k: int| 0 <= k < i ==> !occurs_at(s@, p@, k),
        decreases v.len() - i,
    {
        let mut j: usize = 0;
        while j < w.len() && v[i + j] == w[j]
            invariant
                i + w.len() <= v.len(),
                j <= w.len(),
                forall|m: int| 0 <= m < j ==> v@[i + m] == w@[m],
            decreases w.len() - j,
        {
            j = j + 1;
        }
        if j == w.len() {
            assert(v@.subrange(i as int, i + w.len()) =~= w@);
            assert(occurs_at(s@, p@, i as int));
            return true;
        }
        assert(v@.subrange(i as int, i + w.len())[j as int] != w@[j as int]);
        i = i + 1;
    }
    assert forall|k: int| !occurs_at(s@, p@, k) by {
        if 0 <= k && k + p@.len() <= s@.len() {
            assert(k < i);
        }
    }
    false
}

} // verus!

verus! {

/// A `"\r\n"` found from `i` on lies at or after `i`, inside the sequence.
pub proof fn lemma_find_crlf_bounds(s: Seq<char>, i: int)
    ensures
        find_crlf(s, i) matches Some(k) ==> i <= k && k + 1 < s.len() && s[k] == '\r' && s[k + 1] == '\n',
    decreases s.len() - i,
{
    if 0 <= i && i + 1 < s.len() && !(s[i] == '\r' && s[i + 1] == '\n') {
        lemma_find_crlf_bounds(s, i + 1);
    }
}

/// A character found from `i` on lies at or after `i`, inside the sequence.
pub proof fn lemma_find_char_bounds(s: Seq<char>, c: char, i: int)
    ensures
        find_char_from(s, c, i) matches Some(k) ==> i <= k < s.len() && s[k] == c,
    decreases s.len() - i,
{
    if 0 <= i && i < s.len() && s[i] != c {
        lemma_find_char_bounds(s, c, i + 1);
    }
}

} // verus!

verus! {

/// The first index at or after `i` where `p` occurs in `s`, if any.
pub open spec fn find_seq_from(s: Seq<char>, p: Seq<char>, i: int) -> Option<int>
    decreases s.len() + 1 - i,
{
    if i < 0 || i + p.len() > s.len() {
        None
    } else if occurs_at(s, p, i) {
        Some(i)
    } else {
        find_seq_from(s, p, i + 1)
    }
}

/// Index of the first occurrence of `p` in `v` (see [`find_seq_from`]).
pub fn find_chars_in(v: &Vec<char>, p: &Vec<char>) -> (r: Option<usize>)
    ensures
        match r {
            Some(k) => find_seq_from(v@, p@, 0) == Some(k as int) && k + p.len() <= v.len(),
            None => find_seq_from(v@, p@, 0) is None,
        },
{
    if p.len() > v.len() {
        return None;
    }
    let mut i: usize = 0;
    while i <= v.len() - p.len()
        invariant
            p.len() <= v.len(),
            find_seq_from(v@, p@, 0) == find_seq_from(v@, p@, i as int),
        decreases v.len() - i,
    {
        let mut j: usize = 0;
        while j < p.len() && v[i + j] == p[j]
            invariant
                i + p.len() <= v.len(),
                j <= p.len(),
                forall|m: int| 0 <= m < j ==> v@[i + m] == p@[m],
            decreases p.len() - j,
        {
            j = j + 1;
        }
        if j == p.len() {
            assert(v@.subrange(i as int, i + p.len()) =~= p@);
            return Some(i);
        }
        assert(v@.subrange(i as int, i + p.len())[j as int] != p@[j as int]);
        i = i + 1;
    }
    None
}

} // verus!

verus! {

/// The decimal text of `m` is a non-empty run of digits whose value is `m`.
pub proof fn lemma_decimal_digits_facts(m: nat)
    ensures
        decimal_digits(m).len() > 0,
        all_ascii_digits(decimal_digits(m)),
        decimal_value(decimal_digits(m)) == m,
    decreases m,
{
    let d = decimal_digits(m);
    if m < 10 {
        assert(d == seq![digit_char(m)]);
        assert(d.drop_last() =~= Seq::<char>::empty());
        assert(decimal_value(d.drop_last()) == 0);
    } else {
        lemma_decimal_digits_facts(m / 10);
        assert(d.drop_last() =~= decimal_digits(m / 10));
        assert(d.last() == digit_char(m % 10));
    }
}

} // verus!
