use wasps_with_bazookas::http::{parse_content_length, parse_http_status_code};
use wasps_with_bazookas::request::{RequestConfig, RequestError};
use wasps_with_bazookas::text::{chars_of, contains, parse_unsigned_in, push_decimal, trim_bounds};

fn chars(s: &str) -> Vec<char> {
    s.chars().collect()
}

#[test]
fn status_code_of_ok_line() {
    assert_eq!(parse_http_status_code("HTTP/1.1 200 OK"), Some(200));
}

#[test]
fn status_code_of_full_header() {
    assert_eq!(
        parse_http_status_code("HTTP/1.1 404 Not Found\r\nContent-Length: 0\r\n\r\n"),
        Some(404)
    );
}

#[test]
fn status_code_with_extra_spaces_and_plus() {
    assert_eq!(parse_http_status_code("  HTTP/1.0\t+503  Busy"), Some(503));
}

#[test]
fn status_code_missing_or_invalid() {
    assert_eq!(parse_http_status_code(""), None);
    assert_eq!(parse_http_status_code("HTTP/1.1"), None);
    assert_eq!(parse_http_status_code("HTTP/1.1 abc"), None);
    assert_eq!(parse_http_status_code("HTTP/1.1 65536 Too big"), None);
    assert_eq!(parse_http_status_code("HTTP/1.1 -1 Negative"), None);
    assert_eq!(parse_http_status_code("\nHTTP/1.1 200 OK"), None);
}

#[test]
fn status_code_largest() {
    assert_eq!(parse_http_status_code("HTTP/1.1 65535 X"), Some(65535));
}

#[test]
fn content_length_found_in_any_case() {
    assert_eq!(parse_content_length("HTTP/1.1 200 OK\r\nContent-Length: 12\r\n\r\n"), Some(12));
    assert_eq!(parse_content_length("HTTP/1.1 200 OK\r\ncontent-length:7\r\n\r\n"), Some(7));
    assert_eq!(parse_content_length("HTTP/1.1 200 OK\r\nCONTENT-LENGTH:  42  \r\n\r\n"), Some(42));
}

#[test]
fn content_length_absent_or_after_blank_line() {
    assert_eq!(parse_content_length("HTTP/1.1 200 OK\r\nServer: x\r\n\r\n"), None);
    assert_eq!(
        parse_content_length("HTTP/1.1 200 OK\r\n\r\nContent-Length: 5\r\n"),
        None
    );
    assert_eq!(parse_content_length("HTTP/1.1 200 OK\r\nContent-Length: x\r\n\r\n"), None);
}

#[test]
fn content_length_first_valid_wins() {
    assert_eq!(
        parse_content_length("HTTP/1.1 200 OK\r\nContent-Length: bad\r\nContent-Length: 3\r\n\r\n"),
        Some(3)
    );
}

#[test]
fn unsigned_parsing_follows_std() {
    let v = chars("+12");
    assert_eq!(parse_unsigned_in(&v, 0, v.len(), 65535), Some(12));
    let v = chars("");
    assert_eq!(parse_unsigned_in(&v, 0, 0, 65535), None);
    let v = chars("+");
    assert_eq!(parse_unsigned_in(&v, 0, 1, 65535), None);
    let v = chars("65536");
    assert_eq!(parse_unsigned_in(&v, 0, v.len(), 65535), None);
    let v = chars("99999999999999999999999");
    assert_eq!(parse_unsigned_in(&v, 0, v.len(), u64::MAX), None);
    let v = chars("18446744073709551615");
    assert_eq!(parse_unsigned_in(&v, 0, v.len(), u64::MAX), Some(u64::MAX));
    let v = chars("x123y");
    assert_eq!(parse_unsigned_in(&v, 1, 4, 1000), Some(123));
}

#[test]
fn decimal_formatting() {
    for (n, s) in [(0u64, "0"), (7, "7"), (10, "10"), (12345, "12345"), (u64::MAX, "18446744073709551615")] {
        let mut v = Vec::new();
        push_decimal(&mut v, n);
        assert_eq!(v.iter().collect::<String>(), s);
    }
}

#[test]
fn trimming_and_search() {
    let v = chars("  a b \t");
    let (a, b) = trim_bounds(&v, 0, v.len());
    assert_eq!((a, b), (2, 5));
    let w = chars("   ");
    let (a, b) = trim_bounds(&w, 0, w.len());
    assert_eq!(a, b);
    assert!(contains(&chars("Broken pipe (os error 32)"), &chars("Broken pipe")));
    assert!(!contains(&chars("Broken"), &chars("Broken pipe")));
    assert!(contains(&chars("abc"), &chars("")));
    assert_eq!(chars_of("h\u{e9}"), vec!['h', '\u{e9}']);
}

#[test]
fn request_from_plain_url() {
    let cfg = RequestConfig::from_url("http://example.com/path?q=1", "get", &["X-Test: 1".to_string()], None)
        .unwrap();
    assert_eq!(cfg.method, "GET");
    assert_eq!(cfg.host, "example.com");
    assert_eq!(cfg.port, 80);
    assert_eq!(cfg.path, "/path");
    assert!(!cfg.is_https);
    assert_eq!(
        cfg.headers,
        vec![
            ("X-Test".to_string(), "1".to_string()),
            ("Host".to_string(), "example.com".to_string()),
            ("Connection".to_string(), "keep-alive".to_string()),
            ("User-Agent".to_string(), "Wasps-With-Bazookas/2.0.0".to_string()),
        ]
    );
    assert_eq!(cfg.body, None);
}

#[test]
fn request_from_https_url_with_port() {
    let cfg = RequestConfig::from_url("https://localhost:8443", "post", &[], Some("x")).unwrap();
    assert!(cfg.is_https);
    assert_eq!(cfg.port, 8443);
    assert_eq!(cfg.path, "/");
    assert_eq!(cfg.body, Some("x".to_string()));
    let cfg = RequestConfig::from_url("https://localhost/", "GET", &[], None).unwrap();
    assert_eq!(cfg.port, 443);
}

#[test]
fn request_headers_given_are_kept() {
    let hs = vec![
        "  host :  custom.example ".to_string(),
        "no colon here".to_string(),
        "connection: close".to_string(),
        "USER-AGENT: probe".to_string(),
        "X-Empty:".to_string(),
    ];
    let cfg = RequestConfig::from_url("http://example.com/", "GET", &hs, None).unwrap();
    assert_eq!(
        cfg.headers,
        vec![
            ("host".to_string(), "custom.example".to_string()),
            ("connection".to_string(), "close".to_string()),
            ("USER-AGENT".to_string(), "probe".to_string()),
            ("X-Empty".to_string(), "".to_string()),
        ]
    );
}

#[test]
fn request_from_bad_url() {
    let r = RequestConfig::from_url("not a url", "GET", &[], None);
    assert!(matches!(r, Err(RequestError::InvalidUrl(_))));
}

#[test]
fn build_request_without_body() {
    let cfg = RequestConfig::from_url("http://example.com/a", "GET", &[], None).unwrap();
    assert_eq!(
        cfg.build_request(),
        "GET /a HTTP/1.1\r\nHost: example.com\r\nConnection: keep-alive\r\nUser-Agent: Wasps-With-Bazookas/2.0.0\r\n\r\n"
    );
}

#[test]
fn build_request_with_body_counts_utf8_bytes() {
    let cfg = RequestConfig {
        method: "POST".to_string(),
        path: "/p".to_string(),
        host: "h".to_string(),
        port: 80,
        headers: vec![("A".to_string(), "b".to_string())],
        body: Some("h\u{e9}".to_string()),
        is_https: false,
    };
    assert_eq!(
        cfg.build_request(),
        "POST /p HTTP/1.1\r\nA: b\r\nContent-Length: 3\r\n\r\nh\u{e9}"
    );
}
