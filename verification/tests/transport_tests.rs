use kumir3_shared::net::client::{body_or_error, headers_text, optional_text, parse_headers, response_to_value, text_arg};
use kumir3_shared::net::value::Value;
use kumir3_shared::net::transport::{
    after_response, decode_chunked, decode_chunked_checked, parse_response, parse_response_text,
    parse_url, request_head, resolve_redirect, too_many_redirects, try_parse_response,
    RedirectStep, Response, url_components,
};

#[test]
fn razbor_adresa() {
    let url = parse_url("https://example.org/путь?a=1").unwrap();
    assert_eq!(url.host, "example.org");
    assert_eq!(url.port, 443, "у https порт по умолчанию 443");
    assert_eq!(url.path, "/путь?a=1");
    assert!(url.https);

    let url = parse_url("example.org").unwrap();
    assert_eq!(url.port, 80, "без схемы — обычный http");
    assert_eq!(url.path, "/", "путь по умолчанию — корень");
    assert!(!url.https);

    let url = parse_url("http://localhost:8080/api").unwrap();
    assert_eq!((url.host.as_str(), url.port), ("localhost", 8080));
}

#[test]
fn pustoj_adres_soobshchaetsya() {
    assert!(parse_url("").is_err());
    assert!(parse_url("http://").is_err());
}

/// Builds an answer from lines: HTTP separates them by CR+LF.
fn raw_response(lines: &[&str], body: &str) -> Vec<u8> {
    let mut text = lines.join("\r\n");
    text.push_str("\r\n\r\n");
    text.push_str(body);
    text.into_bytes()
}

#[test]
fn razbor_otveta_s_zagolovkami() {
    let raw = raw_response(
        &["HTTP/1.1 404 Not Found", "Content-Type: text/plain", "X-Test: 1"],
        "нет такой страницы",
    );
    let response = parse_response(&raw).unwrap();
    assert_eq!(response.status, 404);
    assert_eq!(response.reason, "Not Found");
    assert_eq!(response.body, "нет такой страницы");
    assert_eq!(response.header("content-type"), Some("text/plain"));
    assert_eq!(response.header("нет-такого"), None);
}

#[test]
fn telo_iz_kuskov_skleivaetsya() {
    // Each chunk's length is in bytes, and a Russian letter takes two.
    let raw = raw_response(
        &["HTTP/1.1 200 OK", "Transfer-Encoding: chunked"],
        "6\r\nПри\r\n6\r\nвет\r\n0\r\n\r\n",
    );
    let response = parse_response(&raw).unwrap();
    assert_eq!(response.body, "Привет");
}

#[test]
fn rasshireniya_kuskov_ne_meshayut() {
    let body = "3;имя=значение\r\nabc\r\n0\r\n\r\n";
    assert_eq!(decode_chunked(body).unwrap(), "abc");
}

#[test]
fn perenapravlenie_razreshaetsya_otnositelno_tekushchego() {
    let current = parse_url("https://example.org/a/b/c").unwrap();

    let absolute = resolve_redirect(&current, "https://other.org/x").unwrap();
    assert_eq!(absolute.host, "other.org");

    let from_root = resolve_redirect(&current, "/x").unwrap();
    assert_eq!((from_root.host.as_str(), from_root.path.as_str()), ("example.org", "/x"));

    let relative = resolve_redirect(&current, "d").unwrap();
    assert_eq!(relative.path, "/a/b/d", "относительный путь — от каталога");
}

#[test]
fn nestandartnyj_port_sohranyaetsya_pri_perenapravlenii() {
    let current = parse_url("http://localhost:8080/a").unwrap();
    let next = resolve_redirect(&current, "/b").unwrap();
    assert_eq!((next.host.as_str(), next.port, next.path.as_str()), ("localhost", 8080, "/b"));
}

#[test]
fn headers_parsed_line_by_line() {
    let headers = parse_headers("Accept: text/html\nX-Ключ:  значение \nмусор без двоеточия");
    assert_eq!(
        headers,
        vec![
            ("Accept".to_string(), "text/html".to_string()),
            ("X-Ключ".to_string(), "значение".to_string()),
        ]
    );
}

#[test]
fn response_dict_bilingual() {
    let response = Response {
        status: 200,
        reason: "OK".to_string(),
        headers: vec![("Content-Type".to_string(), "text/plain".to_string())],
        body: "привет".to_string(),
    };
    let map = response_to_value(response);
    let Value::Object(_) = &map else {
        panic!("ожидался словарь");
    };

    for (ru, en) in [
        ("код", "status"),
        ("успех", "ok"),
        ("тело", "body"),
        ("заголовки", "headers"),
    ] {
        let ru_value = map.get(ru);
        assert!(ru_value.is_some(), "нет ключа «{ru}»");
        assert_eq!(ru_value, map.get(en), "«{ru}» и «{en}» должны совпадать");
    }

    assert_eq!(map.get("успех"), Some(&Value::Boolean(true)));
}

#[test]
fn header_names_lowercased() {
    let response = Response {
        status: 200,
        reason: "OK".to_string(),
        headers: vec![("Content-Type".to_string(), "text/html".to_string())],
        body: String::new(),
    };
    let map = response_to_value(response);
    let Value::Object(_) = &map else {
        panic!("ожидался словарь");
    };
    let Some(headers @ Value::Object(_)) = map.get("заголовки") else {
        panic!("нет заголовков");
    };
    assert_eq!(headers.get("content-type"), Some(&Value::Str("text/html".to_string())));
}

#[test]
fn response_dict_keys_are_ordered_and_status_is_a_number() {
    let response = Response {
        status: 404,
        reason: "Not Found".to_string(),
        headers: vec![
            ("X-B".to_string(), "1".to_string()),
            ("x-a".to_string(), "2".to_string()),
            ("X-b".to_string(), "3".to_string()),
        ],
        body: String::new(),
    };
    let map = response_to_value(response);
    assert_eq!(map.get("status"), Some(&Value::Int(404)));
    assert_eq!(map.get("ok"), Some(&Value::Boolean(false)));
    assert_eq!(map.get("причина"), Some(&Value::Str("Not Found".to_string())));
    assert_eq!(
        map.get("headers"),
        Some(&Value::Object(vec![
            (Value::Str("x-a".to_string()), Value::Str("2".to_string())),
            (Value::Str("x-b".to_string()), Value::Str("3".to_string())),
        ]))
    );
    let Value::Object(entries) = &map else {
        panic!("ожидался словарь");
    };
    let keys: Vec<&Value> = entries.iter().map(|(k, _)| k).collect();
    let expected: Vec<Value> = ["body", "headers", "ok", "reason", "status", "заголовки", "код", "причина", "тело", "успех"]
        .iter()
        .map(|k| Value::Str(k.to_string()))
        .collect();
    assert_eq!(keys, expected.iter().collect::<Vec<&Value>>());
    assert_eq!(map.get("missing"), None);
}

#[test]
fn server_error_not_silent() {
    let response = Response {
        status: 404,
        reason: "Not Found".to_string(),
        headers: Vec::new(),
        body: "<html>нет такой страницы</html>".to_string(),
    };
    let result = body_or_error(response, "http://example.org/нет");
    assert!(result.is_err());
    assert!(result.unwrap_err().contains("404"));
}

#[test]
fn address_errors_and_ports() {
    assert_eq!(parse_url("  ").unwrap_err(), "Адрес пуст");
    assert_eq!(parse_url("http://:80/x").unwrap_err(), "В адресе не указан узел: http://:80/x");
    assert_eq!(parse_url("host:70000").unwrap_err(), "Неверный порт в адресе: host:70000");
    // A colon not followed by digits belongs to the host.
    let url = parse_url("https://[::1]/").unwrap();
    assert_eq!((url.host.as_str(), url.port), ("[::1]", 443));
    let url = parse_url("  http://example.org:8443  ").unwrap();
    assert_eq!((url.host.as_str(), url.port, url.path.as_str()), ("example.org", 8443, "/"));
    assert_eq!(url.origin(), "http://example.org:8443");
    assert_eq!(parse_url("https://a.b/").unwrap().origin(), "https://a.b");
}

#[test]
fn redirect_from_a_path_without_directory() {
    let current = parse_url("http://h").unwrap();
    let next = resolve_redirect(&current, "page").unwrap();
    assert_eq!(next.path, "/page");
}

#[test]
fn answers_without_head_or_status_are_errors() {
    assert_eq!(
        parse_response(b"HTTP/1.1 200 OK\r\n").unwrap_err(),
        "Ответ сервера оборван: нет заголовков"
    );
    assert_eq!(
        parse_response(b"HTTP/1.1 abc OK\r\n\r\n").unwrap_err(),
        "Не разобрать строку состояния: «HTTP/1.1 abc OK»"
    );
    let r = parse_response(b"HTTP/1.1 +204\r\n\r\n").unwrap();
    assert_eq!((r.status, r.reason.as_str(), r.headers.len()), (204, "", 0));
}

#[test]
fn chunked_bodies_edge_cases() {
    assert_eq!(decode_chunked("zz\r\nabc\r\n").unwrap_err(), "Неверная длина куска ответа: «zz»");
    // A chunk longer than the rest takes the rest.
    assert_eq!(decode_chunked("10\r\nabc").unwrap(), "abc");
    // Without a line break the body ends.
    assert_eq!(decode_chunked("abc").unwrap(), "");
    // A chunk that would end inside a character is refused.
    assert_eq!(decode_chunked_checked("1\r\nП\r\n0\r\n\r\n"), None);
    assert!(parse_response_text("HTTP/1.1 200 OK\r\nTransfer-Encoding: CHUNKED, chunked\r\n\r\n1\r\nП").is_none());
    // An invalid byte becomes U+FFFD, three bytes long, before the chunks are read.
    let raw = b"HTTP/1.1 200 OK\r\nTransfer-Encoding: chunked\r\n\r\n3\r\n\xD0\r\n0\r\n\r\n";
    assert_eq!(try_parse_response(raw).unwrap().unwrap().body, "\u{FFFD}");
}

#[test]
fn request_text_is_written() {
    let url = parse_url("http://example.org/a?b=1").unwrap();
    let text = request_head("POST", &url, Some("x=1"), &[]);
    assert_eq!(
        text,
        "POST /a?b=1 HTTP/1.1\r\nHost: example.org\r\nConnection: close\r\nUser-Agent: Kumir3\r\n\
Content-Length: 3\r\nContent-Type: application/x-www-form-urlencoded\r\n\r\nx=1"
    );
    let headers = vec![("user-agent".to_string(), "me".to_string())];
    let text = request_head("GET", &url, None, &headers);
    assert_eq!(text, "GET /a?b=1 HTTP/1.1\r\nHost: example.org\r\nConnection: close\r\nuser-agent: me\r\n\r\n");
    let text = request_head("PUT", &url, Some("тело"), &[]);
    assert!(text.contains("Content-Length: 8\r\n"));
}

#[test]
fn redirect_steps() {
    let target = parse_url("https://example.org/a/b").unwrap();
    let answer = |status: u16, location: Option<&str>| Response {
        status,
        reason: String::new(),
        headers: location.map(|l| vec![("Location".to_string(), l.to_string())]).unwrap_or_default(),
        body: String::new(),
    };
    assert!(matches!(after_response("GET", &target, None, &answer(200, Some("/x"))), RedirectStep::Done));
    assert!(matches!(after_response("GET", &target, None, &answer(301, None)), RedirectStep::Done));
    match after_response("POST", &target, Some("d"), &answer(302, Some("c"))) {
        RedirectStep::Follow { target, method, body } => {
            assert_eq!(target.path, "/a/c");
            assert_eq!(method, "GET");
            assert_eq!(body, None);
        }
        _ => panic!("expected a redirect"),
    }
    match after_response("POST", &target, Some("d"), &answer(307, Some("/n"))) {
        RedirectStep::Follow { method, body, .. } => {
            assert_eq!(method, "POST");
            assert_eq!(body.as_deref(), Some("d"));
        }
        _ => panic!("expected a redirect"),
    }
    assert!(matches!(after_response("GET", &target, None, &answer(303, Some("http://"))), RedirectStep::Failed(_)));
    assert_eq!(too_many_redirects("u"), "Слишком много перенаправлений (больше 5) при запросе u");
}

#[test]
fn client_views_of_answers() {
    let response = Response {
        status: 200,
        reason: "OK".to_string(),
        headers: vec![("A".to_string(), "1".to_string()), ("B".to_string(), "2".to_string())],
        body: "тело".to_string(),
    };
    assert_eq!(headers_text(&response), "A: 1\nB: 2");
    assert_eq!(body_or_error(response, "u").unwrap(), "тело");
    assert_eq!(parse_headers("a: 1\r\n\r\nb:2\n"), vec![
        ("a".to_string(), "1".to_string()),
        ("b".to_string(), "2".to_string()),
    ]);
}

#[test]
fn address_components() {
    let c = url_components("https://example.org:8443/a/b?x=1#top");
    assert_eq!(c.scheme, "https");
    assert_eq!(c.host, "example.org");
    assert_eq!(c.port, "8443");
    assert_eq!(c.path, "/a/b");
    assert_eq!(c.query, "x=1");
    assert_eq!(c.fragment, "top");
    let c = url_components("example.org");
    assert_eq!((c.scheme.as_str(), c.host.as_str(), c.port.as_str(), c.path.as_str()), ("http", "example.org", "80", "/"));
    let c = url_components("https://h");
    assert_eq!(c.port, "443");
    assert_eq!((c.query.as_str(), c.fragment.as_str()), ("", ""));
}

#[test]
fn string_arguments_are_checked() {
    let args = vec![Value::Str("GET".to_string()), Value::Int(5)];
    assert_eq!(text_arg(&args, 0, "метод"), Ok("GET".to_string()));
    assert_eq!(text_arg(&args, 1, "url"), Err("Ожидается строка в параметре «url»".to_string()));
    assert_eq!(text_arg(&args, 7, "тело"), Err("Ожидается строка в параметре «тело»".to_string()));
    assert_eq!(optional_text(&args, 0), "GET");
    assert_eq!(optional_text(&args, 1), "");
    assert_eq!(optional_text(&args, 9), "");
}
