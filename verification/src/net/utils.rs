//! The network library's text functions as programs call them: each takes
//! the program's arguments and gives a value or an error message.

use vstd::prelude::*;
use vstd::utf8::{decode_utf8, encode_utf8, valid_utf8};
use super::codec::{
    b64_decoded, b64_encoded, base64_decode, base64_encode, trim_padding, url_decode_str,
    url_decoded_bytes, url_dict, url_encode_str, url_encoded, url_parse_value, utf8_lossy,
};
use super::http::request::str_from_utf8;
use super::json::{json_parse_checked, json_stringify, json_text, parse_value, Parsed};
use super::transport::url_components_spec;
use super::value::{arg_text, model, Value, ValueModel};

verus! {

/// `url_кодирование(строка)`: the string percent-encoded.
pub fn url_encode_handler(args: &[Value]) -> (r: Result<Value, String>)
    ensures
        match arg_text(args@, 0) {
            Some(t) => r matches Ok(v) && model(v) == ValueModel::Str(url_encoded(encode_utf8(t), 0)),
            None => r matches Err(e) && e@ == "Ожидается строковый аргумент"@,
        },
{
    if 0 < args.len() {
        if let Value::Str(t) = &args[0] {
            return Ok(Value::Str(url_encode_str(t.as_str())));
        }
    }
    Err("Ожидается строковый аргумент".to_string())
}

/// `url_декодирование(строка)`: the string percent-decoded, read as UTF-8
/// with invalid sequences replaced.
pub fn url_decode_handler(args: &[Value]) -> (r: Result<Value, String>)
    ensures
        match arg_text(args@, 0) {
            Some(t) => r matches Ok(v) && model(v) == ValueModel::Str(
                utf8_lossy(url_decoded_bytes(encode_utf8(t), 0)),
            ),
            None => r matches Err(e) && e@ == "Ожидается строковый аргумент"@,
        },
{
    if 0 < args.len() {
        if let Value::Str(t) = &args[0] {
            return Ok(Value::Str(url_decode_str(t.as_str())));
        }
    }
    Err("Ожидается строковый аргумент".to_string())
}

/// `url_разбор(url)`: the address's components as a dictionary.
pub fn url_parse_handler(args: &[Value]) -> (r: Result<Value, String>)
    ensures
        match arg_text(args@, 0) {
            Some(t) => r matches Ok(v) && model(v) == url_dict(url_components_spec(t)),
            None => r matches Err(e) && e@ == "Ожидается строковый аргумент 'url'"@,
        },
{
    if 0 < args.len() {
        if let Value::Str(t) = &args[0] {
            return Ok(url_parse_value(t.as_str()));
        }
    }
    Err("Ожидается строковый аргумент 'url'".to_string())
}

/// `base64_кодирование(строка)`: the string's UTF-8 bytes in Base64.
pub fn base64_encode_handler(args: &[Value]) -> (r: Result<Value, String>)
    ensures
        match arg_text(args@, 0) {
            Some(t) => r matches Ok(v) && model(v) == ValueModel::Str(
                b64_encoded(encode_utf8(t), 0).map_values(|b: u8| (b as u32) as char),
            ),
            None => r matches Err(e) && e@ == "Ожидается строковый аргумент"@,
        },
{
    if 0 < args.len() {
        if let Value::Str(t) = &args[0] {
            return Ok(Value::Str(base64_encode(t.as_str().as_bytes())));
        }
    }
    Err("Ожидается строковый аргумент".to_string())
}

/// `base64_декодирование(строка)`: the decoded bytes as text; an error
/// when the input is no Base64 or the bytes are no UTF-8.
pub fn base64_decode_handler(args: &[Value]) -> (r: Result<Value, String>)
    ensures
        match arg_text(args@, 0) {
            Some(t) => match b64_decoded(trim_padding(encode_utf8(t)), 0) {
                Some(bs) => if valid_utf8(bs) {
                    r matches Ok(v) && model(v) == ValueModel::Str(decode_utf8(bs))
                } else {
                    r matches Err(e) && e@ == "Декодированные данные не являются UTF-8"@
                },
                None => r matches Err(e) && e@ == "Некорректный Base64"@,
            },
            None => r matches Err(e) && e@ == "Ожидается строковый аргумент"@,
        },
{
    if 0 < args.len() {
        if let Value::Str(t) = &args[0] {
            let bytes = match base64_decode(t.as_str()) {
                Ok(b) => b,
                Err(e) => {
                    return Err(e);
                },
            };
            return match str_from_utf8(bytes.as_slice()) {
                Ok(text) => Ok(Value::Str(text.to_string())),
                Err(_) => Err("Декодированные данные не являются UTF-8".to_string()),
            };
        }
    }
    Err("Ожидается строковый аргумент".to_string())
}

/// `json_разбор(строка)`: the value that the JSON text starts with.
pub fn json_parse_handler(args: &[Value]) -> (r: Result<Value, String>)
    requires
        arg_text(args@, 0) matches Some(t) ==> !(parse_value(t, 0) is Panic),
    ensures
        match arg_text(args@, 0) {
            Some(t) => match parse_value(t, 0) {
                Parsed::Value(m, _) => r matches Ok(v) && model(v) == m,
                Parsed::Error(msg) => r matches Err(e) && e@ == msg,
                Parsed::Panic => false,
            },
            None => r matches Err(e) && e@ == "Ожидается строковый аргумент"@,
        },
{
    if 0 < args.len() {
        if let Value::Str(t) = &args[0] {
            return match json_parse_checked(t.as_str()) {
                Some(res) => res,
                None => Err(String::new()),
            };
        }
    }
    Err("Ожидается строковый аргумент".to_string())
}

/// `json_строка(значение)`: the JSON text of the value.
pub fn json_stringify_handler(args: &[Value]) -> (r: Result<Value, String>)
    ensures
        args.len() > 0 ==> (r matches Ok(v) && model(v) == ValueModel::Str(json_text(model(args@[0])))),
        args.len() == 0 ==> (r matches Err(e) && e@ == "Ожидается аргумент 'значение'"@),
{
    if args.len() == 0 {
        return Err("Ожидается аргумент 'значение'".to_string());
    }
    Ok(Value::Str(json_stringify(&args[0])))
}

} // verus!
