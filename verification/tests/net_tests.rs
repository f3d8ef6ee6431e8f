use kumir3_shared::net::codec::{base64_decode, base64_encode, url_decode_str, url_encode_str, url_parse_value};
use kumir3_shared::net::value::Value;
use kumir3_shared::net::utils::{
    base64_decode_handler, base64_encode_handler, json_parse_handler, json_stringify_handler,
    url_decode_handler, url_encode_handler, url_parse_handler,
};
use kumir3_shared::net::conn::{ConnectionId, RingBuffer};
use kumir3_shared::net::http::body::Body;
use kumir3_shared::net::http::middleware::{rate_limit, rate_limited_response, RateDecision, RateEntry};
use kumir3_shared::net::http::middleware::{apply_cors_headers, CorsConfig, CorsMiddleware, LoggingMiddleware, CompressionMiddleware};
use kumir3_shared::net::http::request::{parse_query_string, parse_request, parse_uri, url_decode, NetError, Request, RequestBuilder, HttpVersion};
use kumir3_shared::net::http::response::{CookieOptions, Response};
use kumir3_shared::net::http::types::{Headers, Method, StatusCode, HeaderName, HeaderValue};

#[test]
fn test_ring_buffer() {
    let mut buf = RingBuffer::new(16);
    assert!(buf.is_empty());
    let written = buf.write(b"hello");
    assert_eq!(written, 5);
    assert_eq!(buf.len(), 5);
    let mut out = [0u8; 10];
    let read = buf.read(&mut out);
    assert_eq!(read, 5);
    assert_eq!(&out[..5], b"hello");
}

#[test]
fn test_cors_config() {
    let config = CorsConfig::new()
        .allow_origin("http://localhost:3000")
        .allow_credentials()
        .max_age(3600);

    assert!(config.allow_credentials);
    assert_eq!(config.max_age, Some(3600));
}

#[test]
fn test_parse_query_string() {
    let params = parse_query_string("name=John&age=30&city=New%20York");
    assert_eq!(params.get("name").unwrap(), "John");
    assert_eq!(params.get("age").unwrap(), "30");
    assert_eq!(params.get("city").unwrap(), "New York");
}

#[test]
fn test_response_builder() {
    let resp = Response::builder()
        .status(StatusCode(201))
        .header("X-Custom", "value")
        .content_type("application/json; charset=utf-8")
        .body(Body::from_text(r#"{"id": 1}"#))
        .build();

    assert_eq!(resp.status(), StatusCode(201));
    assert!(resp.headers().contains("x-custom"));
}

#[test]
fn test_response_shortcuts() {
    assert_eq!(Response::ok().status(), StatusCode(200));
    assert_eq!(Response::not_found().status(), StatusCode(404));
    assert_eq!(Response::internal_error("oops").status(), StatusCode(500));
}

#[test]
fn test_cookie_options() {
    let opts = CookieOptions::new()
        .max_age(3600)
        .path("/")
        .http_only()
        .same_site_strict();

    assert_eq!(opts.max_age, Some(3600));
    assert!(opts.http_only);
}

#[test]
fn test_method_from_str() {
    assert_eq!("GET".parse::<Method>().unwrap(), Method::GET);
    assert_eq!("post".parse::<Method>().unwrap(), Method::POST);
}

#[test]
fn test_status_code() {
    assert!(StatusCode(200).is_success());
    assert!(StatusCode(404).is_client_error());
    assert!(StatusCode(500).is_server_error());
}

#[test]
fn test_headers() {
    let mut headers = Headers::new();
    headers.insert("Content-Type", "application/json");
    headers.append("Set-Cookie", "a=1");
    headers.append("Set-Cookie", "b=2");

    assert_eq!(headers.get("content-type").unwrap().as_str(), "application/json");
    assert_eq!(headers.get_all("set-cookie").unwrap().len(), 2);
}

#[test]
fn test_base64() {
    let result = base64_encode_handler(&[Value::Str("Hello".to_string())]).unwrap();
    assert_eq!(result, Value::Str("SGVsbG8=".to_string()));

    let decoded = base64_decode_handler(&[Value::Str("SGVsbG8=".to_string())]).unwrap();
    assert_eq!(decoded, Value::Str("Hello".to_string()));
}

#[test]
fn test_url_encode_decode() {
    let result = url_encode_handler(&[Value::Str("Привет мир".to_string())]).unwrap();
    match &result {
        Value::Str(s) => {
            // The input text comes back.
            let decoded = url_decode_handler(&[Value::Str(s.clone())]).unwrap();
            assert_eq!(decoded, Value::Str("Привет мир".to_string()));
        }
        _ => panic!("Expected String"),
    }
}

#[test]
fn library_text_functions_check_their_arguments() {
    let none: [Value; 0] = [];
    let number = [Value::Int(3)];
    let wanted = Err("Ожидается строковый аргумент".to_string());
    assert_eq!(url_encode_handler(&number), wanted);
    assert_eq!(url_decode_handler(&none), wanted);
    assert_eq!(base64_encode_handler(&number), wanted);
    assert_eq!(base64_decode_handler(&number), wanted);
    assert_eq!(json_parse_handler(&number), wanted);
    assert_eq!(url_parse_handler(&number), Err("Ожидается строковый аргумент 'url'".to_string()));
    assert_eq!(json_stringify_handler(&none), Err("Ожидается аргумент 'значение'".to_string()));
    assert_eq!(
        base64_decode_handler(&[Value::Str("!!".to_string())]),
        Err("Некорректный Base64".to_string())
    );
    assert_eq!(
        base64_decode_handler(&[Value::Str("/w==".to_string())]),
        Err("Декодированные данные не являются UTF-8".to_string())
    );
    assert_eq!(
        url_encode_handler(&[Value::Str("a b~".to_string())]),
        Ok(Value::Str("a%20b~".to_string()))
    );
    assert_eq!(
        json_parse_handler(&[Value::Str("[1, \"x\"]".to_string())]),
        Ok(Value::Array(vec![Value::Int(1), Value::Str("x".to_string())]))
    );
    assert_eq!(
        json_stringify_handler(&[Value::Array(vec![Value::Boolean(true), Value::Null])]),
        Ok(Value::Str("[true,null]".to_string()))
    );
    let parsed = url_parse_handler(&[Value::Str("https://h/p".to_string())]).unwrap();
    assert_eq!(parsed.get("port"), Some(&Value::Str("443".to_string())));
}

// ---------------------------------------------------------------------------
// Further checks of the network library.
// ---------------------------------------------------------------------------

#[test]
fn ring_buffer_is_fifo_and_bounded() {
    let mut buf = RingBuffer::new(4);
    assert_eq!(buf.available(), 3);
    assert_eq!(buf.write(b"abcdef"), 3);
    let mut out = [0u8; 2];
    assert_eq!(buf.read(&mut out), 2);
    assert_eq!(&out, b"ab");
    assert_eq!(buf.write(b"xy"), 2);
    let mut out = [0u8; 8];
    assert_eq!(buf.read(&mut out), 3);
    assert_eq!(&out[..3], b"cxy");
    buf.write(b"q");
    buf.clear();
    assert!(buf.is_empty());
}

#[test]
fn connection_ids() {
    assert!(ConnectionId::null().is_null());
    assert!(!ConnectionId(7).is_null());
}

#[test]
fn base64_roundtrip_and_errors() {
    for data in [&b""[..], b"f", b"fo", b"foo", b"foob", b"fooba", b"foobar", &[0u8, 255, 128, 7][..]] {
        let e = base64_encode(data);
        assert_eq!(base64_decode(&e).unwrap(), data.to_vec());
    }
    assert_eq!(base64_encode(b"foobar"), "Zm9vYmFy");
    assert!(base64_decode("a$b").is_err());
}

#[test]
fn percent_encoding() {
    assert_eq!(url_encode_str("a b&c~"), "a%20b%26c~");
    assert_eq!(url_decode_str("a+b%41%zz"), "a bA%zz");
    assert_eq!(url_decode("x%2By+z"), "x+y z");
}

#[test]
fn uri_and_query() {
    let (p, q) = parse_uri("/users?page=1");
    assert_eq!(p, "/users");
    assert_eq!(q, Some("page=1".to_string()));
    let (p, q) = parse_uri("/plain");
    assert_eq!(p, "/plain");
    assert_eq!(q, None);
    let params = parse_query_string("a=1&&b&a=2");
    assert_eq!(params.len(), 2);
    assert_eq!(params.get("a").unwrap(), "2");
    assert_eq!(params.get("b").unwrap(), "");
    assert!(params.get("c").is_none());
}

#[test]
fn request_builder_builds_request() {
    let req = Request::builder()
        .get("/users?page=1")
        .header("Accept", "application/json")
        .build();
    assert_eq!(req.method(), Method::GET);
    assert_eq!(req.path(), "/users");
    assert_eq!(req.query_string(), Some("page=1"));
    assert_eq!(req.query("page"), Some("1".to_string()));
    let req = RequestBuilder::new().post("/x").version(HttpVersion::Http2).build();
    assert_eq!(req.method(), Method::POST);
    assert_eq!(req.version(), HttpVersion::Http2);
    let req = Request::new(Method::DELETE, "/a?b=c");
    assert_eq!(req.uri(), "/a?b=c");
}

#[test]
fn error_response_body() {
    let r = Response::not_found();
    assert_eq!(r.body().as_bytes(), br#"{"error":{"code":404,"message":"Not Found"}}"#);
    assert_eq!(r.headers().content_type(), Some("application/json; charset=utf-8"));
    let r = Response::bad_request("say \"hi\"");
    assert_eq!(r.body().as_bytes(), br#"{"error":{"code":400,"message":"say \"hi\""}}"#);
    let r = Response::bad_request("a\\b\u{1}\u{8}\n\tп/");
    assert_eq!(r.body().as_bytes(), "{\"error\":{\"code\":400,\"message\":\"a\\\\b\\u0001\\b\\n\\tп/\"}}".as_bytes());
}

#[test]
fn text_and_redirect_responses() {
    let r = Response::text("hi");
    assert_eq!(r.body().as_bytes(), b"hi");
    assert_eq!(r.headers().content_type(), Some("text/plain; charset=utf-8"));
    let r = Response::redirect("/next");
    assert_eq!(r.status(), StatusCode(302));
    assert_eq!(r.headers().get("Location").unwrap().as_str(), "/next");
}

#[test]
fn cookies_render_their_attributes() {
    let r = Response::ok().cookie("a", "1");
    assert_eq!(r.headers().get("set-cookie").unwrap().as_str(), "a=1");
    let opts = CookieOptions::new().max_age(-5).domain("x.org").path("/").secure().http_only().same_site_lax();
    let r = Response::ok().cookie_with_options("s", "v", opts);
    assert_eq!(
        r.headers().get("set-cookie").unwrap().as_str(),
        "s=v; Max-Age=-5; Domain=x.org; Path=/; Secure; HttpOnly; SameSite=Lax"
    );
}

#[test]
fn cors_headers_on_response() {
    let mut r = Response::ok();
    let cfg = CorsConfig::new().allow_credentials();
    apply_cors_headers(&mut r, &cfg);
    assert_eq!(r.headers().get("access-control-allow-origin").unwrap().as_str(), "*");
    assert_eq!(
        r.headers().get("access-control-allow-methods").unwrap().as_str(),
        "GET, POST, PUT, DELETE, PATCH, OPTIONS"
    );
    assert_eq!(r.headers().get("access-control-allow-credentials").unwrap().as_str(), "true");
    assert_eq!(r.headers().get("access-control-max-age").unwrap().as_str(), "86400");
    assert!(!r.headers().contains("access-control-expose-headers"));
    let m = CorsMiddleware::permissive();
    assert!(!m.config.allow_credentials);
}

#[test]
fn headers_behave_as_a_map() {
    let mut h = Headers::new();
    h.insert("A", "1");
    h.insert("a", "2");
    assert_eq!(h.len(), 1);
    assert_eq!(h.get("A").unwrap().as_str(), "2");
    h.set_content_length(42);
    assert_eq!(h.content_length(), Some(42));
    assert_eq!(h.remove("a").unwrap().len(), 1);
    assert!(!h.contains("a"));
    assert_eq!(HeaderName::new("X-Y").as_str(), "x-y");
    assert_eq!(HeaderValue::new("12").to_int(), Some(12));
    assert_eq!(HeaderValue::new("1x").to_int(), None);
}

#[test]
fn methods_and_statuses() {
    assert!(Method::POST.has_body());
    assert!(!Method::POST.is_idempotent());
    assert!(Method::HEAD.is_safe());
    assert_eq!(Method::PATCH.as_str(), "PATCH");
    assert_eq!(Method::parse("delete"), Some(Method::DELETE));
    assert_eq!(Method::parse("FETCH"), None);
    assert_eq!(StatusCode(404).reason(), "Not Found");
    assert_eq!(StatusCode(299).reason(), "Unknown");
    assert!(StatusCode(301).is_redirect());
    assert_eq!(StatusCode::from(418u16).code(), 418);
}

#[test]
fn middleware_settings() {
    let l = LoggingMiddleware::new().with_body();
    assert!(l.log_body && !l.log_headers);
    assert_eq!(CompressionMiddleware::new().min_size, 1024);
    assert_eq!(CompressionMiddleware::new().min_size(10).min_size, 10);
}

#[test]
fn test_request_builder() {
    let req = Request::builder()
        .get("/users?page=1")
        .header("Accept", "application/json")
        .build();

    assert_eq!(req.method(), Method::GET);
    assert_eq!(req.path(), "/users");
    assert_eq!(req.query_string(), Some("page=1"));
    assert_eq!(req.query("page"), Some("1".to_string()));
}

#[test]
fn test_parse_request() {
    let raw = b"GET /users?id=1 HTTP/1.1\r\nHost: localhost\r\nAccept: */*\r\n\r\n";
    let req = parse_request(raw).unwrap();

    assert_eq!(req.method(), Method::GET);
    assert_eq!(req.path(), "/users");
    assert_eq!(req.host(), Some("localhost"));
}

fn parse_error(raw: &[u8]) -> String {
    match parse_request(raw) {
        Err(NetError::Parse(m)) => m,
        Ok(_) => panic!("expected an error"),
    }
}

#[test]
fn raw_requests_and_their_errors() {
    assert_eq!(parse_error(b""), "Empty request");
    assert_eq!(parse_error(b"   \r\n"), "Missing method");
    assert_eq!(parse_error(b"FETCH /"), "Invalid method");
    assert_eq!(parse_error(b"get"), "Missing URI");
    assert_eq!(parse_error(b"GET / HTTP/3"), "Unsupported HTTP version: HTTP/3");
    assert!(parse_error(b"GET /\xFF").starts_with("Invalid UTF-8: "));

    let req = parse_request(b"post /a?x=1\nX-A: 1\nx-a:2\nbad\n\nIgnored: yes").unwrap();
    assert_eq!(req.method(), Method::POST);
    assert_eq!(req.version(), HttpVersion::Http11);
    assert_eq!(req.query("x"), Some("1".to_string()));
    let values: Vec<&str> = req.headers().get_all("x-a").unwrap().iter().map(|v| v.as_str()).collect();
    assert_eq!(values, vec!["1", "2"]);
    assert!(!req.headers().contains("ignored"));

    let req = parse_request(b"HEAD / HTTP/2.0\r\nUpgrade: WebSocket\r\nContent-Length: 12\r\nUser-Agent: t\r\n").unwrap();
    assert_eq!(req.version(), HttpVersion::Http2);
    assert!(req.is_websocket_upgrade());
    assert_eq!(req.content_length(), Some(12));
    assert_eq!(req.user_agent(), Some("t"));
    assert_eq!(req.content_type(), None);
}

#[test]
fn rate_limit_windows() {
    let second: u128 = 1_000_000_000;
    let mut e = RateEntry { count: 0, window_start: 0 };
    assert_eq!(rate_limit(&mut e, 1, 60, 2), RateDecision::Allow);
    assert_eq!(rate_limit(&mut e, 2, 60, 2), RateDecision::Allow);
    assert_eq!(e.count, 2);
    // Over the limit 10.5 s into the window: 60 - 10 seconds remain.
    assert_eq!(rate_limit(&mut e, 10 * second + second / 2, 60, 2), RateDecision::Reject(50));
    assert_eq!(e.count, 2);
    // A window that has passed starts anew.
    assert_eq!(rate_limit(&mut e, 61 * second, 60, 2), RateDecision::Allow);
    assert_eq!(e, RateEntry { count: 1, window_start: 61 * second });
    let r = rate_limited_response(50);
    assert_eq!(r.status(), StatusCode(429));
    assert_eq!(r.headers().get("retry-after").map(|v| v.as_str()), Some("50"));
}

#[test]
fn codecs_round_trip() {
    for bytes in [&b""[..], b"a", b"ab", b"abc", b"abcd", &[0u8, 255, 128, 7, 63][..]] {
        let text = base64_encode(bytes);
        assert_eq!(base64_decode(&text).unwrap(), bytes.to_vec());
    }
    assert_eq!(base64_decode("a$").unwrap_err(), "Некорректный Base64");
    for s in ["", "plain", "with space+plus", "Привет, мир!", "%zz"] {
        assert_eq!(url_decode_str(&url_encode_str(s)), s);
    }
}

#[test]
fn responses_on_the_wire() {
    let mut r = Response::text("hi");
    let bytes = r.to_bytes();
    assert_eq!(
        String::from_utf8(bytes).unwrap(),
        "HTTP/1.1 200 OK\r\ncontent-type: text/plain; charset=utf-8\r\ncontent-length: 2\r\nserver: Kumir3-Net/1.0\r\n\r\nhi"
    );
    // Headers already present are kept, and an empty body gets no length.
    let mut r = Response::not_found().header("Server", "x");
    let text = String::from_utf8(r.to_bytes()).unwrap();
    assert!(text.starts_with("HTTP/1.1 404 Not Found\r\n"));
    assert!(text.contains("server: x\r\n"));
    assert!(!text.contains("Kumir3-Net"));
}

#[test]
fn url_parse_gives_an_ordered_dictionary() {
    let v = url_parse_value("https://example.org:8443/a/b?x=1#top");
    let text = |t: &str| Value::Str(t.to_string());
    assert_eq!(
        v,
        Value::Object(vec![
            (text("fragment"), text("top")),
            (text("host"), text("example.org")),
            (text("path"), text("/a/b")),
            (text("port"), text("8443")),
            (text("query"), text("x=1")),
            (text("scheme"), text("https")),
        ])
    );
    let v = url_parse_value("example.org");
    assert_eq!(v.get("port"), Some(&text("80")));
    assert_eq!(v.get("path"), Some(&text("/")));
    assert_eq!(v.get("scheme"), Some(&text("http")));
}
