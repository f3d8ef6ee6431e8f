//! JSON text: a small recursive-descent reader and a writer for the values
//! that the network library exchanges with programs.
//!
//! Numbers with a fraction or an exponent are kept as the text of the
//! literal (`Value::Float`); turning that text into a binary float, and
//! a binary float into text, is left to the caller.

use vstd::prelude::*;
use super::value::{
    entry_models, insert_entry, lemma_entry_models, lemma_models, model, models, object_insert,
    string_keys, Value, ValueModel,
};
use crate::text::{
    chars_of, i64_to_decimal, is_ascii_digit, lemma_trim_start_bounds, parse_i64, parsed_i64,
    push_chars, signed_decimal, spec_is_ascii_digit, string_from_chars, subrange_vec,
    trim_start_index, word_start_in,
};


verus! {

/// How one character of a string is written between the quotes.
pub open spec fn escaped_char(c: char) -> Seq<char> {
    if c == '\\' {
        seq!['\\', '\\']
    } else if c == '"' {
        seq!['\\', '"']
    } else if c == '\n' {
        seq!['\\', 'n']
    } else if c == '\r' {
        seq!['\\', 'r']
    } else if c == '\t' {
        seq!['\\', 't']
    } else {
        seq![c]
    }
}

/// A string's characters, each written as `escaped_char` says.
pub open spec fn escaped(s: Seq<char>) -> Seq<char>
    decreases s.len(),
{
    if s.len() == 0 {
        Seq::empty()
    } else {
        escaped(s.drop_last()) + escaped_char(s.last())
    }
}

/// The JSON text of a value.
pub open spec fn json_text(v: ValueModel) -> Seq<char>
    decreases v,
{
    match v {
        ValueModel::Null => seq!['n', 'u', 'l', 'l'],
        ValueModel::Boolean(b) => if b {
            seq!['t', 'r', 'u', 'e']
        } else {
            seq!['f', 'a', 'l', 's', 'e']
        },
        ValueModel::Int(n) => signed_decimal(n),
        ValueModel::Float(t) => t,
        ValueModel::Str(t) => seq!['"'] + escaped(t) + seq!['"'],
        ValueModel::Char(c) => seq!['"', c, '"'],
        ValueModel::Array(items) => seq!['['] + items_text(items) + seq![']'],
        ValueModel::Object(entries) => seq!['{'] + entries_text(entries) + seq!['}'],
    }
}

/// The texts of the values, separated by commas.
pub open spec fn items_text(s: Seq<ValueModel>) -> Seq<char>
    decreases s,
{
    if s.len() == 0 {
        Seq::empty()
    } else if s.len() == 1 {
        json_text(s[0])
    } else {
        items_text(s.drop_last()) + seq![','] + json_text(s.last())
    }
}

/// The text of one key/value pair: key, colon, value.
pub open spec fn entry_text(e: (ValueModel, ValueModel)) -> Seq<char>
    decreases e,
{
    json_text(e.0) + seq![':'] + json_text(e.1)
}

/// The texts of the pairs, separated by commas.
pub open spec fn entries_text(s: Seq<(ValueModel, ValueModel)>) -> Seq<char>
    decreases s,
{
    if s.len() == 0 {
        Seq::empty()
    } else if s.len() == 1 {
        entry_text(s[0])
    } else {
        entries_text(s.drop_last()) + seq![','] + entry_text(s.last())
    }
}

} // verus!

verus! {

fn push_escaped(out: &mut Vec<char>, s: &Vec<char>)
    ensures
        final(out)@ == old(out)@ + escaped(s@),
{
    let mut k: usize = 0;
    while k < s.len()
        invariant
            k <= s.len(),
            out@ == old(out)@ + escaped(s@.take(k as int)),
        decreases s.len() - k,
    {
        let c = s[k];
        if c == '\\' {
            out.push('\\');
            out.push('\\');
        } else if c == '"' {
            out.push('\\');
            out.push('"');
        } else if c == '\n' {
            out.push('\\');
            out.push('n');
        } else if c == '\r' {
            out.push('\\');
            out.push('r');
        } else if c == '\t' {
            out.push('\\');
            out.push('t');
        } else {
            out.push(c);
        }
        proof {
            let t = s@.take(k as int + 1);
            assert(t.drop_last() =~= s@.take(k as int));
            assert(t.last() == c);
            assert(out@ =~= old(out)@ + escaped(t));
        }
        k = k + 1;
    }
    proof {
        assert(s@.take(k as int) =~= s@);
    }
}

fn write_json(v: &Value, out: &mut Vec<char>)
    ensures
        final(out)@ == old(out)@ + json_text(model(*v)),
    decreases v,
{
    match v {
        Value::Null => {
            out.push('n');
            out.push('u');
            out.push('l');
            out.push('l');
            proof {
                assert(out@ =~= old(out)@ + json_text(model(*v)));
            }
        },
        Value::Boolean(b) => {
            if *b {
                out.push('t');
                out.push('r');
                out.push('u');
                out.push('e');
            } else {
                out.push('f');
                out.push('a');
                out.push('l');
                out.push('s');
                out.push('e');
            }
            proof {
                assert(out@ =~= old(out)@ + json_text(model(*v)));
            }
        },
        Value::Int(n) => {
            let t = i64_to_decimal(*n);
            let cs = chars_of(t.as_str());
            push_chars(out, &cs);
        },
        Value::Float(t) => {
            let cs = chars_of(t.as_str());
            push_chars(out, &cs);
        },
        Value::Str(t) => {
            let cs = chars_of(t.as_str());
            out.push('"');
            push_escaped(out, &cs);
            out.push('"');
            proof {
                assert(out@ =~= old(out)@ + json_text(model(*v)));
            }
        },
        Value::Char(c) => {
            out.push('"');
            out.push(*c);
            out.push('"');
            proof {
                assert(out@ =~= old(out)@ + json_text(model(*v)));
            }
        },
        Value::Array(items) => {
            let ghost ms = models(items@);
            proof {
                lemma_models(items@);
            }
            out.push('[');
            let ghost start = out@;
            let mut k: usize = 0;
            while k < items.len()
                invariant
                    k <= items.len(),
                    ms == models(items@),
                    ms.len() == items@.len(),
                    forall|j: int| 0 <= j < items@.len() ==> #[trigger] ms[j] == model(items@[j]),
                    out@ == start + items_text(ms.take(k as int)),
                    *v == Value::Array(*items),
                decreases items.len() - k,
            {
                if k > 0 {
                    out.push(',');
                }
                proof {
                    assert(decreases_to!(*v => (*v)->Array_0));
                    assert(decreases_to!(*items => items@));
                    assert(decreases_to!(items@ => items@[k as int]));
                    assert(decreases_to!(*v => items@[k as int]));
                }
                write_json(&items[k], out);
                proof {
                    let t = ms.take(k as int + 1);
                    assert(t.drop_last() =~= ms.take(k as int));
                    assert(t.last() == ms[k as int]);
                    if k == 0 {
                        assert(t.len() == 1);
                        assert(out@ =~= start + items_text(t));
                    } else {
                        assert(out@ =~= start + items_text(t));
                    }
                }
                k = k + 1;
            }
            out.push(']');
            proof {
                assert(ms.take(k as int) =~= ms);
                assert(out@ =~= old(out)@ + json_text(model(*v)));
            }
        },
        Value::Object(entries) => {
            let ghost ms = entry_models(entries@);
            proof {
                lemma_entry_models(entries@);
            }
            out.push('{');
            let ghost start = out@;
            let mut k: usize = 0;
            while k < entries.len()
                invariant
                    k <= entries.len(),
                    ms == entry_models(entries@),
                    ms.len() == entries@.len(),
                    forall|j: int|
                        0 <= j < entries@.len() ==> #[trigger] ms[j] == (
                        model(entries@[j].0),
                        model(entries@[j].1),
                    ),
                    out@ == start + entries_text(ms.take(k as int)),
                    *v == Value::Object(*entries),
                decreases entries.len() - k,
            {
                if k > 0 {
                    out.push(',');
                }
                proof {
                    assert(decreases_to!(*v => (*v)->Object_0));
                    assert(decreases_to!(*entries => entries@));
                    assert(decreases_to!(entries@ => entries@[k as int]));
                    assert(decreases_to!(entries@[k as int] => entries@[k as int].0));
                    assert(decreases_to!(entries@[k as int] => entries@[k as int].1));
                    assert(decreases_to!(*v => entries@[k as int].0));
                    assert(decreases_to!(*v => entries@[k as int].1));
                }
                let ghost before = out@;
                write_json(&entries[k].0, out);
                out.push(':');
                write_json(&entries[k].1, out);
                proof {
                    let t = ms.take(k as int + 1);
                    assert(t.drop_last() =~= ms.take(k as int));
                    assert(t.last() == ms[k as int]);
                    assert(out@ =~= before + entry_text(ms[k as int]));
                    if k == 0 {
                        assert(t.len() == 1);
                        assert(out@ =~= start + entries_text(t));
                    } else {
                        assert(out@ =~= start + entries_text(t));
                    }
                }
                k = k + 1;
            }
            out.push('}');
            proof {
                assert(ms.take(k as int) =~= ms);
                assert(out@ =~= old(out)@ + json_text(model(*v)));
            }
        },
    }
}

/// The JSON text of a value: `null`, `true`/`false`, an integer in decimal,
/// a float's literal as given, a string in quotes with `\`, `"`, line feed,
/// carriage return and tab escaped, a character in quotes as it is, and
/// arrays and objects with their parts separated by commas and no spaces.
pub fn json_stringify(v: &Value) -> (r: String)
    ensures
        r@ == json_text(model(*v)),
{
    let mut out: Vec<char> = Vec::new();
    write_json(v, &mut out);
    proof {
        assert(out@ =~= json_text(model(*v)));
    }
    string_from_chars(out.as_slice())
}

} // verus!

verus! {

/// What reading JSON text from a position gives: a value and the position
/// just after it, an error message, or a panic of the reader.
pub enum Parsed {
    Value(ValueModel, int),
    Error(Seq<char>),
    Panic,
}

pub open spec fn msg_empty() -> Seq<char> {
    "Пустой JSON"@
}

pub open spec fn msg_unclosed() -> Seq<char> {
    "Незакрытая строка JSON"@
}

pub open spec fn msg_quote() -> Seq<char> {
    "Ожидается '\"'"@
}

pub open spec fn msg_array() -> Seq<char> {
    "Ожидается ',' или ']' в массиве JSON"@
}

pub open spec fn msg_colon() -> Seq<char> {
    "Ожидается ':' в объекте JSON"@
}

pub open spec fn msg_object() -> Seq<char> {
    "Ожидается ',' или '}' в объекте JSON"@
}

pub open spec fn msg_unexpected(c: char) -> Seq<char> {
    "Неожиданный символ в JSON: '"@ + seq![c, '\'']
}

pub open spec fn msg_number(t: Seq<char>) -> Seq<char> {
    "Неверное число: "@ + t
}

/// Whether `w` stands in `s` at `i`.
pub open spec fn has_word(s: Seq<char>, i: int, w: Seq<char>) -> bool {
    0 <= i && i + w.len() <= s.len() && s.subrange(i, i + w.len()) == w
}

/// The end of the run of ASCII digits that starts at `k`.
pub open spec fn digits_end(s: Seq<char>, k: int) -> int
    decreases s.len() - k,
{
    if 0 <= k < s.len() && spec_is_ascii_digit(s[k]) {
        digits_end(s, k + 1)
    } else {
        k
    }
}

/// Where a number that starts at `j` ends (an optional `-`, digits, an
/// optional `.` and digits, an optional `e` or `E`, sign and digits), and
/// whether it has a fraction or an exponent.
pub open spec fn number_end(s: Seq<char>, j: int) -> (int, bool) {
    let a = if j < s.len() && s[j] == '-' { j + 1 } else { j };
    let b = digits_end(s, a);
    let dot = b < s.len() && s[b] == '.';
    let c = if dot { digits_end(s, b + 1) } else { b };
    if c < s.len() && (s[c] == 'e' || s[c] == 'E') {
        let d = if c + 1 < s.len() && (s[c + 1] == '+' || s[c + 1] == '-') { c + 2 } else { c + 1 };
        (digits_end(s, d), true)
    } else {
        (c, dot)
    }
}

/// Whether the float literal that starts at `j` is one that `f64::from_str`
/// accepts: its documented grammar asks for at least one digit before the
/// exponent, and for at least one digit in the exponent when there is one.
pub open spec fn float_literal_ok(s: Seq<char>, j: int) -> bool {
    let a = if j < s.len() && s[j] == '-' { j + 1 } else { j };
    let b = digits_end(s, a);
    let dot = b < s.len() && s[b] == '.';
    let c = if dot { digits_end(s, b + 1) } else { b };
    let d = if c + 1 < s.len() && (s[c + 1] == '+' || s[c + 1] == '-') { c + 2 } else { c + 1 };
    let mantissa = (b - a) + (if dot { c - b - 1 } else { 0 });
    mantissa > 0 && (c < s.len() && (s[c] == 'e' || s[c] == 'E') ==> digits_end(s, d) > d)
}

/// Reading a number at `j`: an integer when it has neither fraction nor
/// exponent and fits `i64`, else the literal's text when a float reads it.
pub open spec fn parse_number(s: Seq<char>, j: int) -> Parsed {
    let (e, is_float) = number_end(s, j);
    let t = s.subrange(j, e);
    if is_float {
        if float_literal_ok(s, j) {
            Parsed::Value(ValueModel::Float(t), e)
        } else {
            Parsed::Error(msg_number(t))
        }
    } else {
        match parsed_i64(t) {
            Some(n) => Parsed::Value(ValueModel::Int(n as int), e),
            None => Parsed::Error(msg_number(t)),
        }
    }
}

/// What an escape `\c` inside a string stands for.
pub open spec fn unescaped(c: char) -> Seq<char> {
    if c == '"' {
        seq!['"']
    } else if c == '\\' {
        seq!['\\']
    } else if c == '/' {
        seq!['/']
    } else if c == 'n' {
        seq!['\n']
    } else if c == 'r' {
        seq!['\r']
    } else if c == 't' {
        seq!['\t']
    } else {
        seq!['\\', c]
    }
}

/// Reading the rest of a string from `k`, having read `acc` so far.
pub open spec fn string_rest(s: Seq<char>, k: int, acc: Seq<char>) -> Parsed
    decreases s.len() - k,
{
    if k < 0 || k >= s.len() {
        Parsed::Error(msg_unclosed())
    } else if s[k] == '"' {
        Parsed::Value(ValueModel::Str(acc), k + 1)
    } else if s[k] == '\\' {
        if k + 1 < s.len() {
            string_rest(s, k + 2, acc + unescaped(s[k + 1]))
        } else {
            Parsed::Error(msg_unclosed())
        }
    } else {
        string_rest(s, k + 1, acc.push(s[k]))
    }
}

/// Reading a string that starts with `"` at `j`.
pub open spec fn parse_string(s: Seq<char>, j: int) -> Parsed {
    if 0 <= j < s.len() && s[j] == '"' {
        string_rest(s, j + 1, Seq::empty())
    } else {
        Parsed::Error(msg_quote())
    }
}

/// Reading a value at `i`, after any white space.
pub open spec fn parse_value(s: Seq<char>, i: int) -> Parsed
    decreases s.len() - i, 1int,
{
    if i < 0 || i > s.len() {
        Parsed::Panic
    } else {
        let j = trim_start_index(s, i);
        proof {
            lemma_trim_start_bounds(s, i);
        }
        if j >= s.len() {
            Parsed::Error(msg_empty())
        } else if s[j] == '"' {
            parse_string(s, j)
        } else if s[j] == '[' {
            parse_array(s, j)
        } else if s[j] == '{' {
            parse_object(s, j)
        } else if s[j] == 't' && has_word(s, j, seq!['t', 'r', 'u', 'e']) {
            Parsed::Value(ValueModel::Boolean(true), j + 4)
        } else if s[j] == 'f' && has_word(s, j, seq!['f', 'a', 'l', 's', 'e']) {
            Parsed::Value(ValueModel::Boolean(false), j + 5)
        } else if s[j] == 'n' && has_word(s, j, seq!['n', 'u', 'l', 'l']) {
            Parsed::Value(ValueModel::Null, j + 4)
        } else if spec_is_ascii_digit(s[j]) || s[j] == '-' {
            parse_number(s, j)
        } else if (s[j] as u32) < 0x80 {
            Parsed::Error(msg_unexpected(s[j]))
        } else {
            Parsed::Panic
        }
    }
}

/// Reading an array whose `[` stands at `j`.
pub open spec fn parse_array(s: Seq<char>, j: int) -> Parsed
    decreases s.len() - j, 0int,
{
    if j < 0 || j >= s.len() {
        Parsed::Panic
    } else {
        let k = trim_start_index(s, j + 1);
        proof {
            lemma_trim_start_bounds(s, j + 1);
        }
        if k < s.len() && s[k] == ']' {
            Parsed::Value(ValueModel::Array(Seq::empty()), k + 1)
        } else {
            array_items(s, k, Seq::empty())
        }
    }
}

/// Reading the items of an array from `k`, having read `acc` so far.
pub open spec fn array_items(s: Seq<char>, k: int, acc: Seq<ValueModel>) -> Parsed
    decreases s.len() - k, 2int,
{
    if k < 0 || k > s.len() {
        Parsed::Panic
    } else {
        match parse_value(s, k) {
            Parsed::Value(v, e) => {
                if e <= k || e > s.len() {
                    Parsed::Panic
                } else {
                    let r = trim_start_index(s, e);
                    proof {
                        lemma_trim_start_bounds(s, e);
                    }
                    if r < s.len() && s[r] == ']' {
                        Parsed::Value(ValueModel::Array(acc.push(v)), r + 1)
                    } else if r < s.len() && s[r] == ',' {
                        proof {
                            lemma_trim_start_bounds(s, r + 1);
                        }
                        array_items(s, trim_start_index(s, r + 1), acc.push(v))
                    } else {
                        Parsed::Error(msg_array())
                    }
                }
            },
            Parsed::Error(m) => Parsed::Error(m),
            Parsed::Panic => Parsed::Panic,
        }
    }
}

/// Reading an object whose `{` stands at `j`.
pub open spec fn parse_object(s: Seq<char>, j: int) -> Parsed
    decreases s.len() - j, 0int,
{
    if j < 0 || j >= s.len() {
        Parsed::Panic
    } else {
        let k = trim_start_index(s, j + 1);
        proof {
            lemma_trim_start_bounds(s, j + 1);
        }
        if k < s.len() && s[k] == '}' {
            Parsed::Value(ValueModel::Object(Seq::empty()), k + 1)
        } else {
            object_entries(s, k, Seq::empty())
        }
    }
}

/// Reading the pairs of an object from `k`, having read `acc` so far.
pub open spec fn object_entries(s: Seq<char>, k: int, acc: Seq<(ValueModel, ValueModel)>) -> Parsed
    decreases s.len() - k, 2int,
{
    if k < 0 || k > s.len() {
        Parsed::Panic
    } else {
        let k1 = trim_start_index(s, k);
        proof {
            lemma_trim_start_bounds(s, k);
        }
        match parse_string(s, k1) {
            Parsed::Value(key, e) => {
                if e <= k1 || e > s.len() {
                    Parsed::Panic
                } else {
                    let r = trim_start_index(s, e);
                    proof {
                        lemma_trim_start_bounds(s, e);
                    }
                    if !(r < s.len() && s[r] == ':') {
                        Parsed::Error(msg_colon())
                    } else {
                        match parse_value(s, r + 1) {
                            Parsed::Value(v, e2) => {
                                if e2 <= r + 1 || e2 > s.len() {
                                    Parsed::Panic
                                } else {
                                    let acc2 = object_insert(acc, key, v);
                                    let r2 = trim_start_index(s, e2);
                                    proof {
                                        lemma_trim_start_bounds(s, e2);
                                    }
                                    if r2 < s.len() && s[r2] == '}' {
                                        Parsed::Value(ValueModel::Object(acc2), r2 + 1)
                                    } else if r2 < s.len() && s[r2] == ',' {
                                        proof {
                                            lemma_trim_start_bounds(s, r2 + 1);
                                        }
                                        object_entries(s, trim_start_index(s, r2 + 1), acc2)
                                    } else {
                                        Parsed::Error(msg_object())
                                    }
                                }
                            },
                            Parsed::Error(m) => Parsed::Error(m),
                            Parsed::Panic => Parsed::Panic,
                        }
                    }
                }
            },
            Parsed::Error(m) => Parsed::Error(m),
            Parsed::Panic => Parsed::Panic,
        }
    }
}

} // verus!

verus! {

/// Whether an exec result agrees with what the reader's specification gives:
/// `Some(Ok((value, end)))`, `Some(Err(message))`, or `None` for a panic.
pub open spec fn agrees(r: Option<Result<(Value, usize), String>>, p: Parsed) -> bool {
    match p {
        Parsed::Value(m, e) => r matches Some(Ok((v, e2))) && model(v) == m && e2 == e,
        Parsed::Error(msg) => r matches Some(Err(t)) && t@ == msg,
        Parsed::Panic => r is None,
    }
}

fn digits_end_at(s: &Vec<char>, k: usize) -> (r: usize)
    requires
        k <= s.len(),
    ensures
        r == digits_end(s@, k as int),
        k <= r <= s.len(),
{
    let mut i = k;
    while i < s.len() && is_ascii_digit(s[i])
        invariant
            k <= i <= s.len(),
            digits_end(s@, i as int) == digits_end(s@, k as int),
        decreases s.len() - i,
    {
        i = i + 1;
    }
    i
}

fn error_text(msg: &str) -> (r: Option<Result<(Value, usize), String>>)
    ensures
        r matches Some(Err(t)) && t@ == msg@,
{
    Some(Err(msg.to_string()))
}

fn number_at(s: &Vec<char>, j: usize) -> (r: Option<Result<(Value, usize), String>>)
    requires
        j < s.len(),
    ensures
        agrees(r, parse_number(s@, j as int)),
{
    let ghost sv = s@;
    let a = if s[j] == '-' { j + 1 } else { j };
    let b = digits_end_at(s, a);
    let dot = b < s.len() && s[b] == '.';
    let c = if dot { digits_end_at(s, b + 1) } else { b };
    let mut is_float = dot;
    let mut e = c;
    if c < s.len() && (s[c] == 'e' || s[c] == 'E') {
        let d = if c + 1 < s.len() && (s[c + 1] == '+' || s[c + 1] == '-') { c + 2 } else { c + 1 };
        e = digits_end_at(s, d);
        is_float = true;
    }
    assert((e as int, is_float) == number_end(sv, j as int));
    let tv = subrange_vec(s, j, e);
    let t = string_from_chars(tv.as_slice());
    if is_float {
        let mantissa_digits = (b - a) > 0 || (dot && c - b > 1);
        let exponent_ok = !(c < s.len() && (s[c] == 'e' || s[c] == 'E')) || e > (if c + 1 < s.len() && (s[c + 1] == '+' || s[c + 1] == '-') { c + 2 } else { c + 1 });
        if mantissa_digits && exponent_ok {
            Some(Ok((Value::Float(t), e)))
        } else {
            let mut m = chars_of("Неверное число: ");
            push_chars(&mut m, &tv);
            Some(Err(string_from_chars(m.as_slice())))
        }
    } else {
        match parse_i64(t.as_str()) {
            Some(n) => Some(Ok((Value::Int(n), e))),
            None => {
                let mut m = chars_of("Неверное число: ");
                push_chars(&mut m, &tv);
                Some(Err(string_from_chars(m.as_slice())))
            },
        }
    }
}

fn string_at(s: &Vec<char>, j: usize) -> (r: Option<Result<(Value, usize), String>>)
    requires
        j <= s.len(),
    ensures
        agrees(r, parse_string(s@, j as int)),
        r matches Some(Ok((v, e))) ==> j < e <= s.len() && v is Str,
{
    if !(j < s.len() && s[j] == '"') {
        return error_text("Ожидается '\"'");
    }
    let mut acc: Vec<char> = Vec::new();
    let mut k = j + 1;
    while k < s.len()
        invariant
            j < k <= s.len(),
            s@[j as int] == '"',
            string_rest(s@, k as int, acc@) == string_rest(s@, j + 1, Seq::empty()),
        decreases s.len() - k,
    {
        let c = s[k];
        if c == '"' {
            let t = string_from_chars(acc.as_slice());
            proof {
                assert(string_rest(s@, k as int, acc@) == Parsed::Value(ValueModel::Str(acc@), k + 1));
            }
            return Some(Ok((Value::Str(t), k + 1)));
        } else if c == '\\' {
            if k + 1 < s.len() {
                let e = s[k + 1];
                let ghost before = acc@;
                if e == '"' {
                    acc.push('"');
                } else if e == '\\' {
                    acc.push('\\');
                } else if e == '/' {
                    acc.push('/');
                } else if e == 'n' {
                    acc.push('\n');
                } else if e == 'r' {
                    acc.push('\r');
                } else if e == 't' {
                    acc.push('\t');
                } else {
                    acc.push('\\');
                    acc.push(e);
                }
                proof {
                    assert(acc@ =~= before + unescaped(e));
                }
                k = k + 2;
            } else {
                proof {
                    assert(string_rest(s@, k as int, acc@) == Parsed::Error(msg_unclosed()));
                }
                return error_text("Незакрытая строка JSON");
            }
        } else {
            acc.push(c);
            k = k + 1;
        }
    }
    error_text("Незакрытая строка JSON")
}

} // verus!


verus! {

fn value_at(s: &Vec<char>, i: usize) -> (r: Option<Result<(Value, usize), String>>)
    requires
        i <= s.len(),
    ensures
        agrees(r, parse_value(s@, i as int)),
    decreases s.len() - i, 1int,
{
    let j = word_start_in(s, i);
    if j >= s.len() {
        return error_text("Пустой JSON");
    }
    let c = s[j];
    if c == '"' {
        string_at(s, j)
    } else if c == '[' {
        array_at(s, j)
    } else if c == '{' {
        object_at(s, j)
    } else if c == 't' && s.len() - j >= 4 && s[j + 1] == 'r' && s[j + 2] == 'u' && s[j + 3] == 'e' {
        proof {
            assert(s@.subrange(j as int, j + 4) =~= seq!['t', 'r', 'u', 'e']);
        }
        Some(Ok((Value::Boolean(true), j + 4)))
    } else if c == 'f' && s.len() - j >= 5 && s[j + 1] == 'a' && s[j + 2] == 'l' && s[j + 3] == 's'
        && s[j + 4] == 'e' {
        proof {
            assert(s@.subrange(j as int, j + 5) =~= seq!['f', 'a', 'l', 's', 'e']);
        }
        Some(Ok((Value::Boolean(false), j + 5)))
    } else if c == 'n' && s.len() - j >= 4 && s[j + 1] == 'u' && s[j + 2] == 'l' && s[j + 3] == 'l' {
        proof {
            assert(s@.subrange(j as int, j + 4) =~= seq!['n', 'u', 'l', 'l']);
        }
        Some(Ok((Value::Null, j + 4)))
    } else {
        proof {
            if c == 't' {
                assert(!has_word(s@, j as int, seq!['t', 'r', 'u', 'e'])) by {
                    if has_word(s@, j as int, seq!['t', 'r', 'u', 'e']) {
                        assert(s@.subrange(j as int, j + 4)[1] == 'r');
                    }
                }
            }
            if c == 'f' {
                assert(!has_word(s@, j as int, seq!['f', 'a', 'l', 's', 'e'])) by {
                    if has_word(s@, j as int, seq!['f', 'a', 'l', 's', 'e']) {
                        assert(s@.subrange(j as int, j + 5)[1] == 'a');
                    }
                }
            }
            if c == 'n' {
                assert(!has_word(s@, j as int, seq!['n', 'u', 'l', 'l'])) by {
                    if has_word(s@, j as int, seq!['n', 'u', 'l', 'l']) {
                        assert(s@.subrange(j as int, j + 4)[1] == 'u');
                    }
                }
            }
        }
        if is_ascii_digit(c) || c == '-' {
            number_at(s, j)
        } else if (c as u32) < 0x80 {
            let mut m = chars_of("Неожиданный символ в JSON: '");
            m.push(c);
            m.push('\'');
            proof {
                assert(m@ =~= msg_unexpected(c));
            }
            Some(Err(string_from_chars(m.as_slice())))
        } else {
            None
        }
    }
}

fn array_at(s: &Vec<char>, j: usize) -> (r: Option<Result<(Value, usize), String>>)
    requires
        j < s.len(),
    ensures
        agrees(r, parse_array(s@, j as int)),
    decreases s.len() - j, 0int,
{
    let k0 = word_start_in(s, j + 1);
    if k0 < s.len() && s[k0] == ']' {
        return Some(Ok((Value::Array(Vec::new()), k0 + 1)));
    }
    let mut items: Vec<Value> = Vec::new();
    let mut k = k0;
    loop
        invariant
            j < k <= s.len(),
            k0 <= s.len(),
            parse_array(s@, j as int) == array_items(s@, k0 as int, Seq::empty()),
            array_items(s@, k as int, models(items@)) == array_items(s@, k0 as int, Seq::empty()),
        decreases s.len() - k,
    {
        let r = value_at(s, k);
        match r {
            Some(Ok((v, e))) => {
                if e <= k || e > s.len() {
                    return None;
                }
                let ghost before = items@;
                let ghost mv = model(v);
                let r2 = word_start_in(s, e);
                proof {
                    assert(items@.push(v).drop_last() =~= items@);
                }
                if r2 < s.len() && s[r2] == ']' {
                    items.push(v);
                    proof {
                        assert(models(items@) == models(before).push(mv));
                    }
                    return Some(Ok((Value::Array(items), r2 + 1)));
                } else if r2 < s.len() && s[r2] == ',' {
                    items.push(v);
                    proof {
                        assert(models(items@) == models(before).push(mv));
                    }
                    k = word_start_in(s, r2 + 1);
                } else {
                    return error_text("Ожидается ',' или ']' в массиве JSON");
                }
            },
            Some(Err(m)) => {
                return Some(Err(m));
            },
            None => {
                return None;
            },
        }
    }
}

fn object_at(s: &Vec<char>, j: usize) -> (r: Option<Result<(Value, usize), String>>)
    requires
        j < s.len(),
    ensures
        agrees(r, parse_object(s@, j as int)),
    decreases s.len() - j, 0int,
{
    let k0 = word_start_in(s, j + 1);
    if k0 < s.len() && s[k0] == '}' {
        return Some(Ok((Value::Object(Vec::new()), k0 + 1)));
    }
    let mut entries: Vec<(Value, Value)> = Vec::new();
    let mut k = k0;
    loop
        invariant
            j < k <= s.len(),
            k0 <= s.len(),
            string_keys(entries@),
            parse_object(s@, j as int) == object_entries(s@, k0 as int, Seq::empty()),
            object_entries(s@, k as int, entry_models(entries@)) == object_entries(
                s@,
                k0 as int,
                Seq::empty(),
            ),
        decreases s.len() - k,
    {
        let k1 = word_start_in(s, k);
        let ks = string_at(s, k1);
        match ks {
            Some(Ok((key, e))) => {
                let key_text = match key {
                    Value::Str(t) => t,
                    _ => {
                        return None;
                    },
                };
                let r = word_start_in(s, e);
                if !(r < s.len() && s[r] == ':') {
                    return error_text("Ожидается ':' в объекте JSON");
                }
                let vr = value_at(s, r + 1);
                match vr {
                    Some(Ok((v, e2))) => {
                        if e2 <= r + 1 || e2 > s.len() {
                            return None;
                        }
                        insert_entry(&mut entries, key_text, v);
                        let r2 = word_start_in(s, e2);
                        if r2 < s.len() && s[r2] == '}' {
                            return Some(Ok((Value::Object(entries), r2 + 1)));
                        } else if r2 < s.len() && s[r2] == ',' {
                            k = word_start_in(s, r2 + 1);
                        } else {
                            return error_text("Ожидается ',' или '}' в объекте JSON");
                        }
                    },
                    Some(Err(m)) => {
                        return Some(Err(m));
                    },
                    None => {
                        return None;
                    },
                }
            },
            Some(Err(m)) => {
                return Some(Err(m));
            },
            None => {
                return None;
            },
        }
    }
}

} // verus!

verus! {

/// Reads the JSON value at the start of `text` (after white space) and
/// ignores what follows it; `None` on the inputs where the reader panics
/// (a value that starts with a character outside ASCII that begins no value;
/// ASCII text never does, see [`lemma_ascii_text_reads_without_panic`]).
pub fn json_parse_checked(text: &str) -> (r: Option<Result<Value, String>>)
    ensures
        match parse_value(text@, 0) {
            Parsed::Value(m, _) => r matches Some(Ok(v)) && model(v) == m,
            Parsed::Error(msg) => r matches Some(Err(t)) && t@ == msg,
            Parsed::Panic => r is None,
        },
{
    let cs = chars_of(text);
    match value_at(&cs, 0) {
        Some(Ok((v, _))) => Some(Ok(v)),
        Some(Err(m)) => Some(Err(m)),
        None => None,
    }
}

/// Reads the JSON value at the start of `text` (after white space) and
/// ignores what follows it: strings with the escapes `\"`, `\\`, `\/`, `\n`,
/// `\r`, `\t` (any other escape is kept as written), integers that fit
/// `i64`, float literals as text, `true`, `false`, `null`, arrays, and
/// objects whose pairs are kept in the order of their keys, a repeated key
/// keeping the last value. Errors name what was expected.
pub fn json_parse(text: &str) -> (r: Result<Value, String>)
    requires
        !(parse_value(text@, 0) is Panic),
    ensures
        match parse_value(text@, 0) {
            Parsed::Value(m, _) => r matches Ok(v) && model(v) == m,
            Parsed::Error(msg) => r matches Err(t) && t@ == msg,
            Parsed::Panic => false,
        },
{
    match json_parse_checked(text) {
        Some(res) => res,
        None => Err(String::new()),
    }
}

} // verus!

verus! {

/// Whether every character of `s` is ASCII.
pub open spec fn all_ascii(s: Seq<char>) -> bool {
    forall|k: int| 0 <= k < s.len() ==> (#[trigger] s[k] as u32) < 0x80
}

pub proof fn lemma_digits_end_bounds(s: Seq<char>, k: int)
    requires
        0 <= k <= s.len(),
    ensures
        k <= digits_end(s, k) <= s.len(),
        k < s.len() && spec_is_ascii_digit(s[k]) ==> k < digits_end(s, k),
    decreases s.len() - k,
{
    if k < s.len() && spec_is_ascii_digit(s[k]) {
        lemma_digits_end_bounds(s, k + 1);
    }
}

proof fn lemma_number_bounds(s: Seq<char>, j: int)
    requires
        0 <= j < s.len(),
        spec_is_ascii_digit(s[j]) || s[j] == '-',
    ensures
        parse_number(s, j) matches Parsed::Value(_, e) ==> j < e <= s.len(),
        !(parse_number(s, j) is Panic),
{
    let a = if j < s.len() && s[j] == '-' { j + 1 } else { j };
    lemma_digits_end_bounds(s, a);
    let b = digits_end(s, a);
    let dot = b < s.len() && s[b] == '.';
    if dot {
        lemma_digits_end_bounds(s, b + 1);
    }
    let c = if dot { digits_end(s, b + 1) } else { b };
    if c < s.len() && (s[c] == 'e' || s[c] == 'E') {
        let d = if c + 1 < s.len() && (s[c + 1] == '+' || s[c + 1] == '-') { c + 2 } else { c + 1 };
        lemma_digits_end_bounds(s, d);
    }
}

proof fn lemma_string_rest_bounds(s: Seq<char>, k: int, acc: Seq<char>)
    requires
        0 <= k,
    ensures
        string_rest(s, k, acc) matches Parsed::Value(_, e) ==> k < e <= s.len(),
        !(string_rest(s, k, acc) is Panic),
    decreases s.len() - k,
{
    if k < s.len() && s[k] != '"' {
        if s[k] == '\\' {
            if k + 1 < s.len() {
                lemma_string_rest_bounds(s, k + 2, acc + unescaped(s[k + 1]));
            }
        } else {
            lemma_string_rest_bounds(s, k + 1, acc.push(s[k]));
        }
    }
}

proof fn lemma_string_bounds(s: Seq<char>, j: int)
    requires
        0 <= j,
    ensures
        parse_string(s, j) matches Parsed::Value(_, e) ==> j < e <= s.len(),
        !(parse_string(s, j) is Panic),
{
    lemma_string_rest_bounds(s, j + 1, Seq::empty());
}

proof fn lemma_value_bounds(s: Seq<char>, i: int)
    requires
        0 <= i <= s.len(),
    ensures
        parse_value(s, i) matches Parsed::Value(_, e) ==> i < e <= s.len(),
        all_ascii(s) ==> !(parse_value(s, i) is Panic),
    decreases s.len() - i, 1int,
{
    lemma_trim_start_bounds(s, i);
    let j = trim_start_index(s, i);
    if j < s.len() {
        if s[j] == '"' {
            lemma_string_bounds(s, j);
        } else if s[j] == '[' {
            lemma_array_bounds(s, j);
        } else if s[j] == '{' {
            lemma_object_bounds(s, j);
        } else if spec_is_ascii_digit(s[j]) || s[j] == '-' {
            lemma_number_bounds(s, j);
        }
    }
}

proof fn lemma_array_bounds(s: Seq<char>, j: int)
    requires
        0 <= j < s.len(),
    ensures
        parse_array(s, j) matches Parsed::Value(_, e) ==> j < e <= s.len(),
        all_ascii(s) ==> !(parse_array(s, j) is Panic),
    decreases s.len() - j, 0int,
{
    lemma_trim_start_bounds(s, j + 1);
    let k = trim_start_index(s, j + 1);
    if !(k < s.len() && s[k] == ']') {
        lemma_items_bounds(s, k, Seq::empty());
    }
}

proof fn lemma_items_bounds(s: Seq<char>, k: int, acc: Seq<ValueModel>)
    requires
        0 <= k <= s.len(),
    ensures
        array_items(s, k, acc) matches Parsed::Value(_, e) ==> k < e <= s.len(),
        all_ascii(s) ==> !(array_items(s, k, acc) is Panic),
    decreases s.len() - k, 2int,
{
    lemma_value_bounds(s, k);
    if let Parsed::Value(v, e) = parse_value(s, k) {
        lemma_trim_start_bounds(s, e);
        let r = trim_start_index(s, e);
        if r < s.len() && s[r] == ',' {
            lemma_trim_start_bounds(s, r + 1);
            lemma_items_bounds(s, trim_start_index(s, r + 1), acc.push(v));
        }
    }
}

proof fn lemma_object_bounds(s: Seq<char>, j: int)
    requires
        0 <= j < s.len(),
    ensures
        parse_object(s, j) matches Parsed::Value(_, e) ==> j < e <= s.len(),
        all_ascii(s) ==> !(parse_object(s, j) is Panic),
    decreases s.len() - j, 0int,
{
    lemma_trim_start_bounds(s, j + 1);
    let k = trim_start_index(s, j + 1);
    if !(k < s.len() && s[k] == '}') {
        lemma_entries_bounds(s, k, Seq::empty());
    }
}

proof fn lemma_entries_bounds(s: Seq<char>, k: int, acc: Seq<(ValueModel, ValueModel)>)
    requires
        0 <= k <= s.len(),
    ensures
        object_entries(s, k, acc) matches Parsed::Value(_, e) ==> k < e <= s.len(),
        all_ascii(s) ==> !(object_entries(s, k, acc) is Panic),
    decreases s.len() - k, 2int,
{
    lemma_trim_start_bounds(s, k);
    let k1 = trim_start_index(s, k);
    lemma_string_bounds(s, k1);
    if let Parsed::Value(key, e) = parse_string(s, k1) {
        lemma_trim_start_bounds(s, e);
        let r = trim_start_index(s, e);
        if r < s.len() && s[r] == ':' {
            lemma_value_bounds(s, r + 1);
            if let Parsed::Value(v, e2) = parse_value(s, r + 1) {
                lemma_trim_start_bounds(s, e2);
                let r2 = trim_start_index(s, e2);
                if r2 < s.len() && s[r2] == ',' {
                    lemma_trim_start_bounds(s, r2 + 1);
                    lemma_entries_bounds(s, trim_start_index(s, r2 + 1), object_insert(acc, key, v));
                }
            }
        }
    }
}

/// Reading JSON text that is all ASCII never panics: it gives a value or an
/// error message.
pub proof fn lemma_ascii_text_reads_without_panic(s: Seq<char>)
    requires
        all_ascii(s),
    ensures
        !(parse_value(s, 0) is Panic),
{
    lemma_value_bounds(s, 0);
}

} // verus!
