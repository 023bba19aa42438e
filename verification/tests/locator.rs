use vanadium::errors::FetchError;
use vanadium::url::Url;

#[test]
fn parse_default_port_and_root_path() {
    let u = Url::new("http://example.com").unwrap();
    assert_eq!(
        u,
        Url::Network {
            secure: false,
            view_source: false,
            host: String::from("example.com"),
            port: 80,
            path: String::from("/"),
        }
    );
}

#[test]
fn parse_explicit_port_and_path() {
    let u = Url::new("https://example.com:8443/a/b").unwrap();
    assert_eq!(
        u,
        Url::Network {
            secure: true,
            view_source: false,
            host: String::from("example.com"),
            port: 8443,
            path: String::from("/a/b"),
        }
    );
}

#[test]
fn parse_https_default_port() {
    let u = Url::new("https://example.com").unwrap();
    match u {
        Url::Network { secure, port, .. } => {
            assert!(secure);
            assert_eq!(port, 443);
        }
        _ => panic!("expected a network locator"),
    }
}

#[test]
fn parse_inline_content() {
    let u = Url::new("data:text/plain,hi").unwrap();
    assert_eq!(
        u,
        Url::Inline {
            view_source: false,
            media_type: String::from("text/plain"),
            content: String::from("hi"),
        }
    );
}

#[test]
fn parse_inline_content_keeps_later_commas() {
    let u = Url::new("data:text/plain,a,b").unwrap();
    match u {
        Url::Inline { content, .. } => assert_eq!(content, "a,b"),
        _ => panic!("expected an inline locator"),
    }
}

#[test]
fn parse_view_source_file() {
    let u = Url::new("view-source:file:///tmp/x").unwrap();
    assert_eq!(
        u,
        Url::File { view_source: true, path: String::from("/tmp/x") }
    );
    assert!(u.view_source());
}

#[test]
fn parse_view_source_network() {
    let u = Url::new("view-source:http://example.com/p").unwrap();
    assert!(u.view_source());
    match u {
        Url::Network { secure, host, port, path, .. } => {
            assert!(!secure);
            assert_eq!(host, "example.com");
            assert_eq!(port, 80);
            assert_eq!(path, "/p");
        }
        _ => panic!("expected a network locator"),
    }
}

#[test]
fn parse_unsupported_scheme() {
    assert_eq!(Url::new("ftp://example.com/x"), Err(FetchError::UnsupportedScheme));
}

#[test]
fn parse_without_scheme_separator() {
    assert_eq!(Url::new("example.com/x"), Err(FetchError::MalformedLocator));
}

#[test]
fn parse_inline_without_comma() {
    assert_eq!(Url::new("data:text/plain"), Err(FetchError::MalformedLocator));
}

#[test]
fn parse_port_out_of_range() {
    assert_eq!(Url::new("http://h:99999/x"), Err(FetchError::MalformedLocator));
}

#[test]
fn parse_port_not_a_number() {
    assert_eq!(Url::new("http://h:ab/x"), Err(FetchError::MalformedLocator));
    assert_eq!(Url::new("http://h:/x"), Err(FetchError::MalformedLocator));
}

#[test]
fn follow_relative_location() {
    let u = Url::new("http://a.com/x").unwrap();
    let v = u.follow(String::from("/y")).unwrap();
    assert_eq!(v, Url::new("http://a.com/y").unwrap());
}

#[test]
fn follow_absolute_location() {
    let u = Url::new("http://a.com/x").unwrap();
    let v = u.follow(String::from("http://b.com/z")).unwrap();
    assert_eq!(v, Url::new("http://b.com/z").unwrap());
}

#[test]
fn follow_resets_view_source() {
    let u = Url::new("view-source:http://a.com/x").unwrap();
    let v = u.follow(String::from("/y")).unwrap();
    assert!(!v.view_source());
}

#[test]
fn follow_keeps_authority_and_scheme() {
    let u = Url::new("https://a.com:8443/x").unwrap();
    let v = u.follow(String::from("/y")).unwrap();
    match v {
        Url::Network { secure, host, port, path, .. } => {
            assert!(secure);
            assert_eq!(host, "a.com");
            assert_eq!(port, 8443);
            assert_eq!(path, "/y");
        }
        _ => panic!("expected a network locator"),
    }
}

#[test]
fn follow_on_inline_is_refused() {
    let u = Url::new("data:text/plain,hi").unwrap();
    assert_eq!(u.follow(String::from("/y")), Err(FetchError::UnsupportedOperation));
}

#[test]
fn follow_on_file_is_refused() {
    let u = Url::new("file:///tmp/x").unwrap();
    assert_eq!(u.follow(String::from("/y")), Err(FetchError::UnsupportedOperation));
}

#[test]
fn display_host_hides_default_port() {
    let u = Url::new("http://example.com/x").unwrap();
    assert_eq!(u.display_host(), "example.com");
    let v = Url::new("https://example.com/x").unwrap();
    assert_eq!(v.display_host(), "example.com");
}

#[test]
fn display_host_shows_explicit_port() {
    let u = Url::new("http://example.com:8080/x").unwrap();
    assert_eq!(u.display_host(), "example.com:8080");
    let v = Url::new("https://example.com:80/x").unwrap();
    assert_eq!(v.display_host(), "example.com:80");
}

#[test]
fn locator_equality_is_by_fields() {
    let a = Url::new("http://a.com/x").unwrap();
    let b = Url::new("http://a.com/x").unwrap();
    let c = Url::new("http://a.com/y").unwrap();
    assert_eq!(a, b);
    assert_ne!(a, c);
}
