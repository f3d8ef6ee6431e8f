//! What the JSON writer and reader promise together: written text reads
//! back as the value that was written.

use vstd::prelude::*;
use super::json::{
    array_items, has_word, object_entries, parse_array, parse_object, parse_value,
    digits_end, entries_text, entry_text, items_text, escaped, lemma_digits_end_bounds, escaped_char, float_literal_ok, json_text, number_end, parse_number,
    parse_string, string_rest, unescaped, Parsed,
};
use super::value::{key_less, object_insert, text_less, ValueModel};
use crate::text::{
    all_ascii_digits, decimal_digits, decimal_value, digit_char, lemma_decimal_digits_facts,
    occurs_at, parsed_i64,
    signed_decimal, spec_is_ascii_digit, trim_start_index, unicode_white_space,
};

verus! {

/// The characters that give JSON text its structure (quotes, brackets,
/// braces, comma, colon, the first letters of `true`, `false` and `null`,
/// minus and the digits) are not white space.
spec fn structure_is_not_white_space() -> bool {
    &&& !unicode_white_space('"')
    &&& !unicode_white_space('[')
    &&& !unicode_white_space(']')
    &&& !unicode_white_space('{')
    &&& !unicode_white_space('}')
    &&& !unicode_white_space(',')
    &&& !unicode_white_space(':')
    &&& !unicode_white_space('t')
    &&& !unicode_white_space('f')
    &&& !unicode_white_space('n')
    &&& !unicode_white_space('-')
    &&& !unicode_white_space('0')
    &&& !unicode_white_space('1')
    &&& !unicode_white_space('2')
    &&& !unicode_white_space('3')
    &&& !unicode_white_space('4')
    &&& !unicode_white_space('5')
    &&& !unicode_white_space('6')
    &&& !unicode_white_space('7')
    &&& !unicode_white_space('8')
    &&& !unicode_white_space('9')
}

/// Whether `s` ends at `e` or a comma, `]` or `}` follows there.
pub open spec fn ends_value(s: Seq<char>, e: int) -> bool {
    e == s.len() || (0 <= e < s.len() && (s[e] == ',' || s[e] == ']' || s[e] == '}'))
}

proof fn lemma_digit_not_white(c: char)
    requires
        structure_is_not_white_space(),
        spec_is_ascii_digit(c),
    ensures
        !unicode_white_space(c),
{
    assert(c == '0' || c == '1' || c == '2' || c == '3' || c == '4' || c == '5' || c == '6'
        || c == '7' || c == '8' || c == '9');
}

/// Over a run of digits from `a` to `e` that the text ends after, the
/// digits end at `e`.
proof fn lemma_digits_run(s: Seq<char>, a: int, e: int)
    requires
        0 <= a <= e <= s.len(),
        forall|k: int| a <= k < e ==> spec_is_ascii_digit(#[trigger] s[k]),
        e == s.len() || !spec_is_ascii_digit(s[e]),
    ensures
        digits_end(s, a) == e,
    decreases e - a,
{
    if a < e {
        lemma_digits_run(s, a + 1, e);
    }
}

/// Digits are counted the same in `t` and where `t` stands in `s`, when what
/// follows `t` in `s` ends a value.
proof fn lemma_digits_end_in(s: Seq<char>, t: Seq<char>, i: int, x: int)
    requires
        occurs_at(s, t, i),
        ends_value(s, i + t.len()),
        0 <= x <= t.len(),
    ensures
        digits_end(s, i + x) == i + digits_end(t, x),
    decreases t.len() - x,
{
    if x < t.len() {
        assert(s[i + x] == t[x]) by {
            assert(s.subrange(i, i + t.len())[x] == s[i + x]);
        }
        if spec_is_ascii_digit(t[x]) {
            lemma_digits_end_in(s, t, i, x + 1);
        }
    }
}


proof fn lemma_char_in(s: Seq<char>, t: Seq<char>, i: int, x: int)
    requires
        occurs_at(s, t, i),
        0 <= x < t.len(),
    ensures
        s[i + x] == t[x],
{
    assert(s.subrange(i, i + t.len())[x] == s[i + x]);
}

/// A number is read the same in `t` and where `t` stands in `s`, when what
/// follows `t` in `s` ends a value.
proof fn lemma_number_in(s: Seq<char>, t: Seq<char>, i: int)
    requires
        occurs_at(s, t, i),
        ends_value(s, i + t.len()),
        0 < t.len(),
    ensures
        number_end(s, i) == (i + number_end(t, 0).0, number_end(t, 0).1),
        float_literal_ok(s, i) == float_literal_ok(t, 0),
{
    let n = t.len();
    lemma_char_in(s, t, i, 0);
    let a1 = if t[0] == '-' { 1int } else { 0int };
    lemma_digits_end_in(s, t, i, a1);
    lemma_digits_end_bounds(t, a1);
    let b1 = digits_end(t, a1);
    if b1 < n {
        lemma_char_in(s, t, i, b1);
    }
    let dot = b1 < n && t[b1] == '.';
    if dot {
        lemma_digits_end_in(s, t, i, b1 + 1);
        lemma_digits_end_bounds(t, b1 + 1);
    }
    let c1 = if dot { digits_end(t, b1 + 1) } else { b1 };
    if c1 < n {
        lemma_char_in(s, t, i, c1);
    }
    if c1 + 1 < n {
        lemma_char_in(s, t, i, c1 + 1);
    }
    if c1 < n && (t[c1] == 'e' || t[c1] == 'E') {
        let d1 = if c1 + 1 < n && (t[c1 + 1] == '+' || t[c1 + 1] == '-') { c1 + 2 } else { c1 + 1 };
        lemma_digits_end_in(s, t, i, d1);
    }
}


proof fn lemma_int_text(n: int)
    requires
        i64::MIN <= n <= i64::MAX,
    ensures
        signed_decimal(n).len() > 0,
        spec_is_ascii_digit(signed_decimal(n)[0]) || signed_decimal(n)[0] == '-',
        number_end(signed_decimal(n), 0) == (signed_decimal(n).len() as int, false),
        parsed_i64(signed_decimal(n)) == Some(n as i64),
{
    let t = signed_decimal(n);
    if n < 0 {
        let dd = decimal_digits((-n) as nat);
        lemma_decimal_digits_facts((-n) as nat);
        assert(t == seq!['-'] + dd);
        assert forall|k: int| 1 <= k < t.len() implies spec_is_ascii_digit(#[trigger] t[k]) by {
            assert(t[k] == dd[k - 1]);
        }
        lemma_digits_run(t, 1, t.len() as int);
        assert(t.subrange(1, t.len() as int) =~= dd);
    } else {
        let dd = decimal_digits(n as nat);
        lemma_decimal_digits_facts(n as nat);
        assert(t == dd);
        assert(spec_is_ascii_digit(t[0]));
        lemma_digits_run(t, 0, t.len() as int);
    }
}

/// Whether `t` is a float literal that the reader takes as a whole.
pub open spec fn whole_float_literal(t: Seq<char>) -> bool {
    &&& 0 < t.len()
    &&& (spec_is_ascii_digit(t[0]) || t[0] == '-')
    &&& number_end(t, 0) == (t.len() as int, true)
    &&& float_literal_ok(t, 0)
}

proof fn lemma_number_reads(s: Seq<char>, i: int, v: ValueModel)
    requires
        (v matches ValueModel::Int(n) && i64::MIN <= n <= i64::MAX) || (v matches ValueModel::Float(
            t,
        ) && whole_float_literal(t)),
        occurs_at(s, json_text(v), i),
        ends_value(s, i + json_text(v).len()),
    ensures
        parse_number(s, i) == Parsed::Value(v, i + json_text(v).len()),
{
    let t = json_text(v);
    match v {
        ValueModel::Int(n) => {
            lemma_int_text(n);
        },
        _ => {},
    }
    lemma_number_in(s, t, i);
    assert(s.subrange(i, i + t.len()) == t);
}


proof fn lemma_escaped_prepend(c: char, u: Seq<char>)
    ensures
        escaped(seq![c] + u) == escaped_char(c) + escaped(u),
    decreases u.len(),
{
    let w = seq![c] + u;
    if u.len() == 0 {
        assert(w.drop_last() =~= Seq::<char>::empty());
        assert(w.last() == c);
        assert(escaped(w.drop_last()) =~= Seq::<char>::empty());
        assert(escaped(u) =~= Seq::<char>::empty());
        assert(escaped(w) =~= escaped_char(c) + escaped(u));
    } else {
        lemma_escaped_prepend(c, u.drop_last());
        assert(w.drop_last() =~= seq![c] + u.drop_last());
        assert(w.last() == u.last());
        assert(escaped(u) == escaped(u.drop_last()) + escaped_char(u.last()));
        assert(escaped(w) =~= escaped_char(c) + escaped(u));
    }
}

/// An escaped string followed by its closing quote reads back.
proof fn lemma_string_rest_reads(s: Seq<char>, k: int, acc: Seq<char>, u: Seq<char>)
    requires
        0 <= k,
        occurs_at(s, escaped(u) + seq!['"'], k),
    ensures
        string_rest(s, k, acc) == Parsed::Value(ValueModel::Str(acc + u), k + escaped(u).len() + 1),
    decreases u.len(),
{
    let p = escaped(u) + seq!['"'];
    lemma_char_in(s, p, k, 0);
    if u.len() == 0 {
        assert(escaped(u) =~= Seq::<char>::empty());
        assert(s[k] == '"');
        assert(acc + u =~= acc);
    } else {
        let c = u[0];
        let rest = u.drop_first();
        assert(u =~= seq![c] + rest);
        lemma_escaped_prepend(c, rest);
        let ec = escaped_char(c);
        assert(escaped(u) == ec + escaped(rest));
        let p2 = escaped(rest) + seq!['"'];
        assert(p =~= ec + p2);
        let k2 = k + ec.len();
        assert(occurs_at(s, p2, k2)) by {
            assert forall|x: int| 0 <= x < p2.len() implies s.subrange(k2, k2 + p2.len())[x] == p2[x] by {
                assert(s[k + ec.len() + x] == p[ec.len() + x]);
            }
            assert(s.subrange(k2, k2 + p2.len()) =~= p2);
        }
        if c == '\\' || c == '"' || c == '\n' || c == '\r' || c == '\t' {
            assert(ec.len() == 2);
            lemma_char_in(s, p, k, 1);
            assert(s[k] == '\\');
            assert(s[k + 1] == ec[1]);
            assert(unescaped(s[k + 1]) == seq![c]);
            lemma_string_rest_reads(s, k + 2, acc + seq![c], rest);
            assert(acc + seq![c] + rest =~= acc + u);
        } else {
            assert(ec == seq![c]);
            assert(s[k] == c);
            lemma_string_rest_reads(s, k + 1, acc.push(c), rest);
            assert(acc.push(c) + rest =~= acc + u);
        }
    }
}

proof fn lemma_string_reads(s: Seq<char>, i: int, u: Seq<char>)
    requires
        0 <= i,
        occurs_at(s, json_text(ValueModel::Str(u)), i),
    ensures
        parse_string(s, i) == Parsed::Value(ValueModel::Str(u), i + json_text(ValueModel::Str(u)).len()),
{
    let t = json_text(ValueModel::Str(u));
    assert(t == seq!['"'] + escaped(u) + seq!['"']);
    lemma_char_in(s, t, i, 0);
    let p = escaped(u) + seq!['"'];
    assert(occurs_at(s, p, i + 1)) by {
        assert forall|x: int| 0 <= x < p.len() implies s.subrange(i + 1, i + 1 + p.len())[x] == p[x] by {
            lemma_char_in(s, t, i, x + 1);
        }
        assert(s.subrange(i + 1, i + 1 + p.len()) =~= p);
    }
    lemma_string_rest_reads(s, i + 1, Seq::empty(), u);
    assert(Seq::<char>::empty() + u =~= u);
}


/// Whether the text that `json_text` writes for `v` reads back as `v`'s
/// shape requires: no characters (they are written as strings), integers
/// within `i64`, float literals that the reader takes whole, and objects
/// with string keys in strictly increasing order.
pub open spec fn reads_back(v: ValueModel) -> bool
    decreases v,
{
    match v {
        ValueModel::Int(n) => i64::MIN <= n <= i64::MAX,
        ValueModel::Float(t) => whole_float_literal(t),
        ValueModel::Char(_) => false,
        ValueModel::Array(items) => forall|q: int| 0 <= q < items.len() ==> reads_back(#[trigger] items[q]),
        ValueModel::Object(es) => {
            &&& forall|q: int|
                0 <= q < es.len() ==> (#[trigger] es[q]).0 is Str && reads_back(es[q].1)
            &&& forall|q: int, r: int|
                0 <= q < r < es.len() ==> key_less(#[trigger] es[q].0, #[trigger] es[r].0)
        },
        _ => true,
    }
}

/// The characters that a value's text can start with.
pub open spec fn value_start(c: char) -> bool {
    c == '"' || c == '[' || c == '{' || c == 't' || c == 'f' || c == 'n' || c == '-'
        || spec_is_ascii_digit(c)
}

proof fn lemma_value_start_not_white(c: char)
    requires
        structure_is_not_white_space(),
        value_start(c),
    ensures
        !unicode_white_space(c),
{
    if spec_is_ascii_digit(c) {
        lemma_digit_not_white(c);
    }
}

proof fn lemma_first_char(v: ValueModel)
    requires
        reads_back(v),
    ensures
        json_text(v).len() > 0,
        value_start(json_text(v)[0]),
{
    match v {
        ValueModel::Int(n) => {
            lemma_int_text(n);
        },
        _ => {},
    }
}

proof fn lemma_text_less_irreflexive(a: Seq<char>)
    ensures
        !text_less(a, a),
    decreases a.len(),
{
    if a.len() > 0 {
        lemma_text_less_irreflexive(a.drop_first());
    }
}

proof fn lemma_text_less_asymmetric(a: Seq<char>, b: Seq<char>)
    requires
        text_less(a, b),
    ensures
        !text_less(b, a),
    decreases a.len(),
{
    if a.len() > 0 && b.len() > 0 && a[0] == b[0] {
        lemma_text_less_asymmetric(a.drop_first(), b.drop_first());
    }
}

/// A key greater than every key present goes in last.
proof fn lemma_insert_last(acc: Seq<(ValueModel, ValueModel)>, key: Seq<char>, v: ValueModel)
    requires
        forall|p: int| 0 <= p < acc.len() ==> key_less(#[trigger] acc[p].0, ValueModel::Str(key)),
    ensures
        object_insert(acc, ValueModel::Str(key), v) == acc.push((ValueModel::Str(key), v)),
    decreases acc.len(),
{
    if acc.len() > 0 {
        let k0 = acc[0].0;
        assert(key_less(k0, ValueModel::Str(key)));
        if let ValueModel::Str(a) = k0 {
            lemma_text_less_asymmetric(a, key);
            if a == key {
                lemma_text_less_irreflexive(a);
            }
        }
        assert(k0 != ValueModel::Str(key));
        assert(!key_less(ValueModel::Str(key), k0));
        let rest = acc.drop_first();
        assert forall|p: int| 0 <= p < rest.len() implies key_less(#[trigger] rest[p].0, ValueModel::Str(key)) by {
            assert(rest[p] == acc[p + 1]);
        }
        lemma_insert_last(rest, key, v);
        assert(seq![acc[0]] + rest.push((ValueModel::Str(key), v)) =~= acc.push((ValueModel::Str(key), v)));
    }
}

proof fn lemma_items_text_front(x: Seq<ValueModel>)
    requires
        x.len() >= 2,
    ensures
        items_text(x) == json_text(x[0]) + seq![','] + items_text(x.drop_first()),
    decreases x.len(),
{
    let a = x.drop_last();
    let b = x.drop_first();
    assert(items_text(x) == items_text(a) + seq![','] + json_text(x.last()));
    if x.len() == 2 {
        assert(a.len() == 1 && a[0] == x[0]);
        assert(b.len() == 1 && b[0] == x[1]);
        assert(items_text(a) == json_text(x[0]));
        assert(items_text(b) == json_text(x[1]));
    } else {
        lemma_items_text_front(a);
        assert(a.drop_first() =~= b.drop_last());
        assert(b.last() == x.last());
        assert(items_text(b) == items_text(b.drop_last()) + seq![','] + json_text(b.last()));
        assert(items_text(x) =~= json_text(x[0]) + seq![','] + items_text(b));
    }
}

proof fn lemma_entries_text_front(x: Seq<(ValueModel, ValueModel)>)
    requires
        x.len() >= 2,
    ensures
        entries_text(x) == entry_text(x[0]) + seq![','] + entries_text(x.drop_first()),
    decreases x.len(),
{
    let a = x.drop_last();
    let b = x.drop_first();
    assert(entries_text(x) == entries_text(a) + seq![','] + entry_text(x.last()));
    if x.len() == 2 {
        assert(a.len() == 1 && a[0] == x[0]);
        assert(b.len() == 1 && b[0] == x[1]);
        assert(entries_text(a) == entry_text(x[0]));
        assert(entries_text(b) == entry_text(x[1]));
    } else {
        lemma_entries_text_front(a);
        assert(a.drop_first() =~= b.drop_last());
        assert(b.last() == x.last());
        assert(entries_text(b) == entries_text(b.drop_last()) + seq![','] + entry_text(b.last()));
        assert(entries_text(x) =~= entry_text(x[0]) + seq![','] + entries_text(b));
    }
}


proof fn lemma_sub_occurs(s: Seq<char>, t: Seq<char>, i: int, a: int, b: int)
    requires
        occurs_at(s, t, i),
        0 <= a <= b <= t.len(),
    ensures
        occurs_at(s, t.subrange(a, b), i + a),
{
    assert forall|x: int| 0 <= x < b - a implies s.subrange(i + a, i + b)[x] == t.subrange(a, b)[x] by {
        lemma_char_in(s, t, i, a + x);
    }
    assert(s.subrange(i + a, i + b) =~= t.subrange(a, b));
}

proof fn lemma_items_text_first(x: Seq<ValueModel>)
    requires
        x.len() >= 1,
        reads_back(x[0]),
    ensures
        items_text(x).len() > 0,
        items_text(x)[0] == json_text(x[0])[0],
        value_start(items_text(x)[0]),
{
    lemma_first_char(x[0]);
    if x.len() >= 2 {
        lemma_items_text_front(x);
    }
}

proof fn lemma_entries_text_first(x: Seq<(ValueModel, ValueModel)>)
    requires
        x.len() >= 1,
        x[0].0 is Str,
    ensures
        entries_text(x).len() > 0,
        entries_text(x)[0] == '"',
{
    let e = x[0];
    let kt = json_text(e.0);
    assert(kt == seq!['"'] + escaped(e.0->Str_0) + seq!['"']);
    assert(entry_text(e) == kt + seq![':'] + json_text(e.1));
    assert(entry_text(e)[0] == '"');
    if x.len() >= 2 {
        lemma_entries_text_front(x);
    }
}

proof fn lemma_value_reads(v: ValueModel, s: Seq<char>, i: int)
    requires
        structure_is_not_white_space(),
        reads_back(v),
        0 <= i,
        occurs_at(s, json_text(v), i),
        ends_value(s, i + json_text(v).len()),
    ensures
        parse_value(s, i) == Parsed::Value(v, i + json_text(v).len()),
    decreases v, 0int,
{
    let t = json_text(v);
    lemma_first_char(v);
    lemma_char_in(s, t, i, 0);
    lemma_value_start_not_white(t[0]);
    assert(trim_start_index(s, i) == i);
    match v {
        ValueModel::Null => {
            assert(s.subrange(i, i + 4) =~= t);
        },
        ValueModel::Boolean(b) => {
            assert(s.subrange(i, i + t.len()) =~= t);
        },
        ValueModel::Int(_) => {
            lemma_number_reads(s, i, v);
        },
        ValueModel::Float(_) => {
            lemma_number_reads(s, i, v);
        },
        ValueModel::Str(u) => {
            lemma_string_reads(s, i, u);
        },
        ValueModel::Char(_) => {},
        ValueModel::Array(items) => {
            let close = i + t.len() - 1;
            lemma_char_in(s, t, i, t.len() - 1);
            if items.len() == 0 {
                assert(t =~= seq!['[', ']']);
                lemma_char_in(s, t, i, 1);
                assert(items =~= Seq::<ValueModel>::empty());
            } else {
                lemma_items_text_first(items);
                lemma_char_in(s, t, i, 1);
                lemma_value_start_not_white(items_text(items)[0]);
                assert(t.subrange(1, t.len() - 1) =~= items_text(items));
                lemma_sub_occurs(s, t, i, 1, t.len() - 1);
                assert(items.skip(0) =~= items);
                assert(decreases_to!(v => v->Array_0));
                lemma_items_reads(items, 0, s, i + 1, close);
                assert(items.take(0) =~= Seq::<ValueModel>::empty());
            }
        },
        ValueModel::Object(es) => {
            let close = i + t.len() - 1;
            lemma_char_in(s, t, i, t.len() - 1);
            if es.len() == 0 {
                assert(t =~= seq!['{', '}']);
                lemma_char_in(s, t, i, 1);
                assert(es =~= Seq::<(ValueModel, ValueModel)>::empty());
            } else {
                lemma_entries_text_first(es);
                lemma_char_in(s, t, i, 1);
                assert(t.subrange(1, t.len() - 1) =~= entries_text(es));
                lemma_sub_occurs(s, t, i, 1, t.len() - 1);
                assert(es.skip(0) =~= es);
                assert(decreases_to!(v => v->Object_0));
                lemma_entries_reads(es, 0, s, i + 1, close);
                assert(es.take(0) =~= Seq::<(ValueModel, ValueModel)>::empty());
            }
        },
    }
}

proof fn lemma_items_reads(items: Seq<ValueModel>, q: int, s: Seq<char>, k: int, close: int)
    requires
        structure_is_not_white_space(),
        forall|p: int| 0 <= p < items.len() ==> reads_back(#[trigger] items[p]),
        0 <= q < items.len(),
        0 <= k,
        occurs_at(s, items_text(items.skip(q)), k),
        close == k + items_text(items.skip(q)).len(),
        close < s.len(),
        s[close] == ']',
    ensures
        array_items(s, k, items.take(q)) == Parsed::Value(ValueModel::Array(items), close + 1),
    decreases items, items.len() - q,
{
    let x = items.skip(q);
    let v0 = items[q];
    assert(x[0] == v0);
    let t0 = json_text(v0);
    lemma_first_char(v0);
    if x.len() == 1 {
        assert(items_text(x) == t0);
        lemma_value_reads(v0, s, k);
        assert(trim_start_index(s, close) == close);
        assert(items.take(q).push(v0) =~= items);
    } else {
        lemma_items_text_front(x);
        let xt = items_text(x);
        let e = k + t0.len();
        assert(xt[t0.len() as int] == ',');
        lemma_char_in(s, xt, k, t0.len() as int);
        assert(xt.subrange(0, t0.len() as int) =~= t0);
        lemma_sub_occurs(s, xt, k, 0, t0.len() as int);
        lemma_value_reads(v0, s, k);
        assert(trim_start_index(s, e) == e);
        assert(x.drop_first() =~= items.skip(q + 1));
        let rt = items_text(items.skip(q + 1));
        assert(xt.subrange(t0.len() as int + 1, xt.len() as int) =~= rt);
        lemma_sub_occurs(s, xt, k, t0.len() as int + 1, xt.len() as int);
        assert(items.skip(q + 1)[0] == items[q + 1]);
        lemma_items_text_first(items.skip(q + 1));
        lemma_char_in(s, xt, k, t0.len() as int + 1);
        lemma_value_start_not_white(rt[0]);
        assert(trim_start_index(s, e + 1) == e + 1);
        lemma_items_reads(items, q + 1, s, e + 1, close);
        assert(items.take(q).push(v0) =~= items.take(q + 1));
    }
}

proof fn lemma_entries_reads(
    es: Seq<(ValueModel, ValueModel)>,
    q: int,
    s: Seq<char>,
    k: int,
    close: int,
)
    requires
        structure_is_not_white_space(),
        forall|p: int| 0 <= p < es.len() ==> (#[trigger] es[p]).0 is Str && reads_back(es[p].1),
        forall|p: int, r: int| 0 <= p < r < es.len() ==> key_less(#[trigger] es[p].0, #[trigger] es[r].0),
        0 <= q < es.len(),
        0 <= k,
        occurs_at(s, entries_text(es.skip(q)), k),
        close == k + entries_text(es.skip(q)).len(),
        close < s.len(),
        s[close] == '}',
    ensures
        object_entries(s, k, es.take(q)) == Parsed::Value(ValueModel::Object(es), close + 1),
    decreases es, es.len() - q,
{
    let x = es.skip(q);
    let e0 = es[q];
    assert(x[0] == e0);
    let u = e0.0->Str_0;
    let val = e0.1;
    let kt = json_text(e0.0);
    let vt = json_text(val);
    let et = entry_text(e0);
    assert(et == kt + seq![':'] + vt);
    lemma_first_char(val);
    let xt = entries_text(x);
    if x.len() >= 2 {
        lemma_entries_text_front(x);
    } else {
        assert(xt == et);
    }
    assert(xt.subrange(0, et.len() as int) =~= et);
    // The key.
    assert(et.subrange(0, kt.len() as int) =~= kt);
    assert(xt.subrange(0, kt.len() as int) =~= kt);
    lemma_sub_occurs(s, xt, k, 0, kt.len() as int);
    lemma_char_in(s, xt, k, 0);
    assert(kt[0] == '"');
    assert(trim_start_index(s, k) == k);
    lemma_string_reads(s, k, u);
    let e = k + kt.len();
    // The colon.
    assert(xt[kt.len() as int] == ':');
    lemma_char_in(s, xt, k, kt.len() as int);
    lemma_digit_not_white('0');
    assert(trim_start_index(s, e) == e);
    // The value.
    assert(xt.subrange(kt.len() as int + 1, kt.len() as int + 1 + vt.len()) =~= vt);
    lemma_sub_occurs(s, xt, k, kt.len() as int + 1, kt.len() as int + 1 + vt.len());
    let e2 = e + 1 + vt.len();
    if x.len() >= 2 {
        assert(xt[et.len() as int] == ',');
        lemma_char_in(s, xt, k, et.len() as int);
    }
    assert(decreases_to!(es => es[q]));
    assert(decreases_to!(es[q] => es[q].1));
    lemma_value_reads(val, s, e + 1);
    // The pair goes in last.
    assert forall|p: int| 0 <= p < es.take(q).len() implies key_less(
        #[trigger] es.take(q)[p].0,
        ValueModel::Str(u),
    ) by {
        assert(es.take(q)[p] == es[p]);
        assert(key_less(es[p].0, es[q].0));
    }
    lemma_insert_last(es.take(q), u, val);
    assert(e0 == (ValueModel::Str(u), val));
    assert(trim_start_index(s, e2) == e2);
    if x.len() == 1 {
        assert(es.take(q).push(e0) =~= es);
    } else {
        assert(x.drop_first() =~= es.skip(q + 1));
        let rt = entries_text(es.skip(q + 1));
        assert(xt.subrange(et.len() as int + 1, xt.len() as int) =~= rt);
        lemma_sub_occurs(s, xt, k, et.len() as int + 1, xt.len() as int);
        assert(es.skip(q + 1)[0] == es[q + 1]);
        lemma_entries_text_first(es.skip(q + 1));
        lemma_char_in(s, xt, k, et.len() as int + 1);
        assert(trim_start_index(s, e2 + 1) == e2 + 1);
        lemma_entries_reads(es, q + 1, s, e2 + 1, close);
        assert(es.take(q).push(e0) =~= es.take(q + 1));
    }
}


/// Text that the writer gives for a value reads back as that value, the
/// reader stopping at the end of the text: for values whose shape allows
/// it (see [`reads_back`]).
pub proof fn lemma_json_text_reads_back(v: ValueModel)
    requires
        reads_back(v),
    ensures
        parse_value(json_text(v), 0) == Parsed::Value(v, json_text(v).len() as int),
{
    assert(structure_is_not_white_space());
    let t = json_text(v);
    assert(t.subrange(0, t.len() as int) =~= t);
    lemma_value_reads(v, t, 0);
}

} // verus!
