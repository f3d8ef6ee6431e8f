//! What a program sees of the HTTP client: header lists written as text,
//! and bodies checked against the status code.

use vstd::prelude::*;
use vstd::string::StringExecFns;
use crate::text::{chars_of, decimal_digits, find_char_from, find_char_in, string_from_chars, subrange_vec, u64_to_decimal};
use super::transport::{header_entry, pairs_view, Response};
use super::value::{arg_text, copy_value, entry_models, insert_entry, model, object_insert, string_keys, Value, ValueModel};
use crate::text::{lowercase_of, push_chars, to_lowercase};

verus! {

/// The headers written on the lines of `s` from index `i` on, one
/// `Name: value` per line (see [`header_entry`]). Lines end at `\n`, a
/// `\r` before it is dropped, and no line follows a final `\n`.
pub open spec fn text_header_lines(s: Seq<char>, i: int) -> Seq<(Seq<char>, Seq<char>)>
    decreases s.len() - i,
{
    if i < 0 || i >= s.len() {
        Seq::empty()
    } else {
        match find_char_from(s, '\n', i) {
            Some(e) => {
                proof {
                    crate::text::lemma_find_char_bounds(s, '\n', i);
                }
                let raw = s.subrange(i, e);
                let line = if raw.len() > 0 && raw.last() == '\r' { raw.drop_last() } else { raw };
                header_entry(line) + text_header_lines(s, e + 1)
            },
            None => header_entry(s.subrange(i, s.len() as int)),
        }
    }
}

/// Reads headers written one `Name: value` per line (see [`text_header_lines`]).
pub fn parse_headers(text: &str) -> (r: Vec<(String, String)>)
    ensures
        pairs_view(r@) == text_header_lines(text@, 0),
{
    let s = chars_of(text);
    let mut hs: Vec<(String, String)> = Vec::new();
    let mut i: usize = 0;
    proof {
        assert(pairs_view(hs@) =~= Seq::<(Seq<char>, Seq<char>)>::empty());
    }
    while i < s.len()
        invariant
            s@ == text@,
            i <= s.len(),
            pairs_view(hs@) + text_header_lines(s@, i as int) == text_header_lines(s@, 0),
        decreases s.len() - i,
    {
        let ghost before = pairs_view(hs@);
        let found = find_char_in(&s, '\n', i);
        let e = match found {
            Some(k) => k,
            None => s.len(),
        };
        let raw = subrange_vec(&s, i, e);
        let line = if found.is_some() && raw.len() > 0 && raw[raw.len() - 1] == '\r' {
            let l = subrange_vec(&raw, 0, raw.len() - 1);
            proof {
                assert(raw@.drop_last() =~= l@);
            }
            l
        } else {
            raw
        };
        match find_char_in(&line, ':', 0) {
            Some(c) => {
                let name = crate::text::trim_chars(&subrange_vec(&line, 0, c));
                let value = crate::text::trim_chars(&subrange_vec(&line, c + 1, line.len()));
                proof {
                    assert(line@.take(c as int) =~= line@.subrange(0, c as int));
                    assert(line@.skip(c + 1) =~= line@.subrange(c + 1, line.len() as int));
                }
                hs.push((string_from_chars(name.as_slice()), string_from_chars(value.as_slice())));
            },
            None => {},
        }
        proof {
            assert(pairs_view(hs@) =~= before + header_entry(line@));
        }
        if found.is_some() {
            i = e + 1;
        } else {
            i = s.len();
            proof {
                assert(text_header_lines(s@, i as int) =~= Seq::<(Seq<char>, Seq<char>)>::empty());
                assert(pairs_view(hs@) + text_header_lines(s@, i as int) =~= pairs_view(hs@));
            }
        }
    }
    proof {
        assert(pairs_view(hs@) + text_header_lines(s@, i as int) =~= pairs_view(hs@));
    }
    hs
}

/// Whether a status code reports success (200 to 299).
pub open spec fn is_success(status: u16) -> bool {
    200 <= status < 300
}

/// The body of a successful answer; for any other, an error naming the
/// status, the reason and the address asked.
pub fn body_or_error(response: Response, url: &str) -> (r: Result<String, String>)
    ensures
        is_success(response.status) ==> (r matches Ok(b) && b@ == response.body@),
        !is_success(response.status) ==> (r matches Err(e) && e@ == "Сервер ответил "@
            + decimal_digits(response.status as nat) + " "@ + response.reason@ + " на запрос "@ + url@),
{
    if 200 <= response.status && response.status < 300 {
        return Ok(response.body);
    }
    let code = u64_to_decimal(response.status as u64);
    Err(String::from_str("Сервер ответил ").concat(code.as_str()).concat(" ").concat(
        response.reason.as_str(),
    ).concat(" на запрос ").concat(url))
}

/// The header lines `name: value` of `hs` from index `i` on, joined by `\n`.
pub open spec fn joined_headers(hs: Seq<(Seq<char>, Seq<char>)>, i: int) -> Seq<char>
    decreases hs.len() - i,
{
    if i < 0 || i >= hs.len() {
        Seq::empty()
    } else if i + 1 == hs.len() {
        hs[i].0 + ": "@ + hs[i].1
    } else {
        hs[i].0 + ": "@ + hs[i].1 + "\n"@ + joined_headers(hs, i + 1)
    }
}

/// An answer's headers as text, one `name: value` per line.
pub fn headers_text(response: &Response) -> (r: String)
    ensures
        r@ == joined_headers(pairs_view(response.headers@), 0),
{
    let hs = &response.headers;
    let ghost ps = pairs_view(hs@);
    let mut out = String::new();
    let mut i: usize = 0;
    while i < hs.len()
        invariant
            i <= hs.len(),
            ps == pairs_view(hs@),
            out@ + joined_headers(ps, i as int) == joined_headers(ps, 0),
        decreases hs.len() - i,
    {
        let ghost before = out@;
        assert(ps[i as int] == (hs@[i as int].0@, hs@[i as int].1@));
        out.append(hs[i].0.as_str());
        out.append(": ");
        out.append(hs[i].1.as_str());
        if i + 1 < hs.len() {
            out.append("\n");
        }
        proof {
            assert(out@ + joined_headers(ps, i + 1) =~= before + joined_headers(ps, i as int));
        }
        i = i + 1;
    }
    proof {
        assert(out@ + joined_headers(ps, i as int) =~= out@);
    }
    out
}

/// The headers as a dictionary: names in lower case, a later header
/// replacing an earlier one of the same name.
pub open spec fn header_dict(hs: Seq<(Seq<char>, Seq<char>)>) -> Seq<(ValueModel, ValueModel)>
    decreases hs.len(),
{
    if hs.len() == 0 {
        Seq::empty()
    } else {
        object_insert(
            header_dict(hs.drop_last()),
            ValueModel::Str(lowercase_of(hs.last().0)),
            ValueModel::Str(hs.last().1),
        )
    }
}

/// The dictionary with `v` set under the Russian key `ru` and then under
/// the English key `en`.
pub open spec fn put_both(
    m: Seq<(ValueModel, ValueModel)>,
    ru: Seq<char>,
    en: Seq<char>,
    v: ValueModel,
) -> Seq<(ValueModel, ValueModel)> {
    object_insert(object_insert(m, ValueModel::Str(ru), v), ValueModel::Str(en), v)
}

/// What a program gets for an answer: a dictionary that holds, each under a
/// Russian and an English key, the status (`код`/`status`), whether it is a
/// success (`успех`/`ok`), the reason (`причина`/`reason`), the body
/// (`тело`/`body`) and the headers (`заголовки`/`headers`).
pub open spec fn response_dict(
    status: u16,
    reason: Seq<char>,
    headers: Seq<(Seq<char>, Seq<char>)>,
    body: Seq<char>,
) -> ValueModel {
    let m1 = put_both(Seq::empty(), "код"@, "status"@, ValueModel::Int(status as int));
    let m2 = put_both(m1, "успех"@, "ok"@, ValueModel::Boolean(is_success(status)));
    let m3 = put_both(m2, "причина"@, "reason"@, ValueModel::Str(reason));
    let m4 = put_both(m3, "тело"@, "body"@, ValueModel::Str(body));
    let m5 = put_both(m4, "заголовки"@, "headers"@, ValueModel::Object(header_dict(headers)));
    ValueModel::Object(m5)
}

fn put_both_keys(map: &mut Vec<(Value, Value)>, ru: &str, en: &str, v: Value)
    requires
        string_keys(old(map)@),
    ensures
        string_keys(final(map)@),
        entry_models(final(map)@) == put_both(entry_models(old(map)@), ru@, en@, model(v)),
{
    let c = copy_value(&v);
    insert_entry(map, ru.to_string(), c);
    insert_entry(map, en.to_string(), v);
}

/// The answer as the dictionary that programs see (see [`response_dict`]).
pub fn response_to_value(response: Response) -> (r: Value)
    ensures
        model(r) == response_dict(
            response.status,
            response.reason@,
            pairs_view(response.headers@),
            response.body@,
        ),
{
    let ghost hv = pairs_view(response.headers@);
    let mut headers: Vec<(Value, Value)> = Vec::new();
    let mut i: usize = 0;
    proof {
        assert(hv.take(0) =~= Seq::<(Seq<char>, Seq<char>)>::empty());
    }
    while i < response.headers.len()
        invariant
            i <= response.headers.len(),
            hv == pairs_view(response.headers@),
            string_keys(headers@),
            entry_models(headers@) == header_dict(hv.take(i as int)),
        decreases response.headers.len() - i,
    {
        let name = to_lowercase(response.headers[i].0.as_str());
        let value = response.headers[i].1.clone();
        insert_entry(&mut headers, name, Value::Str(value));
        proof {
            let t = hv.take(i + 1);
            assert(t.drop_last() =~= hv.take(i as int));
            assert(t.last() == hv[i as int]);
        }
        i = i + 1;
    }
    proof {
        assert(hv.take(i as int) =~= hv);
    }
    let mut map: Vec<(Value, Value)> = Vec::new();
    let ok = 200 <= response.status && response.status < 300;
    put_both_keys(&mut map, "код", "status", Value::Int(response.status as i64));
    put_both_keys(&mut map, "успех", "ok", Value::Boolean(ok));
    put_both_keys(&mut map, "причина", "reason", Value::Str(response.reason));
    put_both_keys(&mut map, "тело", "body", Value::Str(response.body));
    put_both_keys(&mut map, "заголовки", "headers", Value::Object(headers));
    Value::Object(map)
}

/// A required string argument; a missing or non-string one is an error
/// that names the parameter.
pub fn text_arg(args: &[Value], index: usize, name: &str) -> (r: Result<String, String>)
    ensures
        match arg_text(args@, index as int) {
            Some(t) => r matches Ok(x) && x@ == t,
            None => r matches Err(e) && e@ == "Ожидается строка в параметре «"@ + name@ + "»"@,
        },
{
    if index < args.len() {
        if let Value::Str(t) = &args[index] {
            return Ok(t.clone());
        }
    }
    let mut m = chars_of("Ожидается строка в параметре «");
    push_chars(&mut m, &chars_of(name));
    push_chars(&mut m, &chars_of("»"));
    Err(string_from_chars(m.as_slice()))
}

/// An optional string argument; empty when missing or not a string.
pub fn optional_text(args: &[Value], index: usize) -> (r: String)
    ensures
        r@ == match arg_text(args@, index as int) {
            Some(t) => t,
            None => Seq::empty(),
        },
{
    if index < args.len() {
        if let Value::Str(t) = &args[index] {
            return t.clone();
        }
    }
    String::new()
}

} // verus!
