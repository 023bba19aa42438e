use vanadium::errors::FetchError;
use vanadium::protocol::{
    decode_body, finish_response, interpret_headers, is_blank_line, parse_header_line,
    parse_status_line, request_text, Response,
};
use vanadium::url::Url;

#[test]
fn redirect_statuses() {
    assert!(Response::is_redirect(301));
    assert!(Response::is_redirect(302));
    assert!(Response::is_redirect(303));
    assert!(Response::is_redirect(307));
    assert!(Response::is_redirect(308));
    assert!(!Response::is_redirect(200));
    assert!(!Response::is_redirect(304));
    assert!(!Response::is_redirect(404));
}

#[test]
fn request_text_exact() {
    let u = Url::new("http://example.com/path").unwrap();
    assert_eq!(
        request_text(&u),
        "GET /path HTTP/1.1\r\nHost: example.com\r\nConnection: keep-alive\r\nUser-Agent: vanadium/0.1.0\r\n\r\n"
    );
}

#[test]
fn request_text_carries_explicit_port() {
    let u = Url::new("https://example.com:8443/a/b").unwrap();
    assert_eq!(
        request_text(&u),
        "GET /a/b HTTP/1.1\r\nHost: example.com:8443\r\nConnection: keep-alive\r\nUser-Agent: vanadium/0.1.0\r\n\r\n"
    );
}

#[test]
fn status_line_parses_code() {
    assert_eq!(parse_status_line("HTTP/1.1 200 OK\r\n"), Ok(200));
    assert_eq!(parse_status_line("HTTP/1.1 301 Moved Permanently\r\n"), Ok(301));
}

#[test]
fn status_line_needs_two_separators() {
    assert_eq!(parse_status_line("HTTP/1.1 200"), Err(FetchError::MalformedResponse));
    assert_eq!(parse_status_line("junk"), Err(FetchError::MalformedResponse));
}

#[test]
fn status_line_needs_numeric_code() {
    assert_eq!(parse_status_line("HTTP/1.1 abc OK\r\n"), Err(FetchError::MalformedResponse));
}

#[test]
fn header_line_lower_cases_and_trims() {
    let (name, value) = parse_header_line("Content-Length: 42\r\n").unwrap();
    assert_eq!(name, "content-length");
    assert_eq!(value, "42");
}

#[test]
fn header_line_splits_on_first_colon() {
    let (name, value) = parse_header_line("Location: http://a.com/x\r\n").unwrap();
    assert_eq!(name, "location");
    assert_eq!(value, "http://a.com/x");
}

#[test]
fn header_line_without_colon_is_refused() {
    assert_eq!(parse_header_line("nonsense\r\n"), Err(FetchError::MalformedResponse));
}

#[test]
fn blank_line_ends_headers() {
    assert!(is_blank_line("\r\n"));
    assert!(is_blank_line(""));
    assert!(!is_blank_line("a: b\r\n"));
}

#[test]
fn chunked_transfer_encoding_is_refused() {
    let headers = vec![
        (String::from("content-length"), String::from("5")),
        (String::from("transfer-encoding"), String::from("chunked")),
    ];
    assert_eq!(
        interpret_headers(200, &headers).map(|_| ()),
        Err(FetchError::UnsupportedEncoding)
    );
}

#[test]
fn content_encoding_is_refused() {
    let headers = vec![
        (String::from("content-length"), String::from("5")),
        (String::from("content-encoding"), String::from("gzip")),
    ];
    assert_eq!(
        interpret_headers(200, &headers).map(|_| ()),
        Err(FetchError::UnsupportedEncoding)
    );
}

#[test]
fn missing_content_length_is_refused() {
    let headers = vec![(String::from("server"), String::from("x"))];
    assert_eq!(
        interpret_headers(200, &headers).map(|_| ()),
        Err(FetchError::MissingContentLength)
    );
}

#[test]
fn unparsable_content_length_is_refused() {
    let headers = vec![(String::from("content-length"), String::from("five"))];
    assert_eq!(
        interpret_headers(200, &headers).map(|_| ()),
        Err(FetchError::MalformedResponse)
    );
}

#[test]
fn redirect_with_location_yields_redirect() {
    let headers = vec![
        (String::from("content-length"), String::from("0")),
        (String::from("location"), String::from("/next")),
    ];
    let head = interpret_headers(301, &headers).unwrap();
    assert_eq!(head.status, 301);
    assert_eq!(head.content_length, 0);
    match finish_response(head, Vec::new()) {
        Ok(Response::Redirect(loc)) => assert_eq!(loc, "/next"),
        _ => panic!("a redirect status with a location must yield Redirect"),
    }
}

#[test]
fn redirect_without_location_is_refused() {
    let headers = vec![(String::from("content-length"), String::from("0"))];
    assert_eq!(
        interpret_headers(302, &headers).map(|_| ()),
        Err(FetchError::MissingLocation)
    );
}

#[test]
fn plain_status_decodes_body() {
    let headers = vec![(String::from("content-length"), String::from("2"))];
    let head = interpret_headers(200, &headers).unwrap();
    match finish_response(head, vec![b'h', b'i']) {
        Ok(Response::Body(text)) => assert_eq!(text, "hi"),
        _ => panic!("a plain status must yield the decoded body"),
    }
}

#[test]
fn invalid_utf8_body_is_refused() {
    let headers = vec![(String::from("content-length"), String::from("1"))];
    let head = interpret_headers(200, &headers).unwrap();
    match finish_response(head, vec![0xff]) {
        Err(FetchError::InvalidEncoding) => {}
        _ => panic!("invalid UTF-8 must fail with InvalidEncoding"),
    }
}

#[test]
fn later_header_overrides_earlier() {
    let headers = vec![
        (String::from("content-length"), String::from("5")),
        (String::from("content-length"), String::from("6")),
    ];
    let head = interpret_headers(200, &headers).unwrap();
    assert_eq!(head.content_length, 6);
}

#[test]
fn decode_body_exact() {
    assert_eq!(decode_body(vec![b'a', b'b']), Ok(String::from("ab")));
    assert_eq!(decode_body(vec![0xc3, 0xa9]), Ok(String::from("\u{e9}")));
    assert_eq!(decode_body(vec![0xc3]), Err(FetchError::InvalidEncoding));
}
