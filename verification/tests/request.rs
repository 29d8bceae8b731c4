use browser_engine::http::error::{Fatal, HttpError};
use browser_engine::http::response::{respond, Reply};
use browser_engine::http::transport::{
    check_server_name, failed_read_ends_stream, judge_server_name, write_request,
};
use browser_engine::http::url::{known_scheme, parse, scheme_name, ParsedUrl, Scheme};
use browser_engine::http::{request, Step};

fn page(content_type: &str, body: &str) -> Vec<u8> {
    format!("HTTP/1.1 200 OK\r\nContent-Type: {}\r\n\r\n{}", content_type, body).into_bytes()
}

fn target_of(url: &str) -> ParsedUrl {
    match request(url) {
        Step::Connect(target) => target,
        other => panic!("no connection asked for: {:?}", other),
    }
}

#[test]
fn test_http_request() {
    let http_sites = vec!["http://www.google.com/", "http://example.com/"];
    for site in http_sites {
        let target = target_of(site);
        assert_eq!(target.scheme, Scheme::Http);
        assert_eq!(target.port, 80);
        let stream = page("text/html; charset=UTF-8", "<html><body>Hello</body></html>");
        let (header, body) = match respond(&stream, true) {
            Reply::Finished(result) => result.unwrap(),
            other => panic!("no answer: {:?}", other),
        };
        assert_eq!(header.contains_key(b"content-type"), true);
        assert_eq!(body.len() > 0, true);
    }
}

#[test]
fn test_https_request() {
    let https_sites = vec!["https://www.google.com/", "https://example.com/"];
    for site in https_sites {
        let target = target_of(site);
        assert_eq!(target.scheme, Scheme::Https);
        assert_eq!(target.port, 443);
        assert_eq!(check_server_name(&target), Ok(()));
        let stream = page("text/html; charset=UTF-8", "<html><body>Hello</body></html>");
        let (header, body) = match respond(&stream, true) {
            Reply::Finished(result) => result.unwrap(),
            other => panic!("no answer: {:?}", other),
        };
        assert_eq!(header.contains_key(b"content-type"), true);
        assert_eq!(body.len() > 0, true);
    }
}

#[test]
fn test_data_request() {
    let (header, body) = match request("data:text/html,Hello world") {
        Step::Finished(result) => result.unwrap(),
        other => panic!("no answer: {:?}", other),
    };
    assert_eq!(header.get(b"content-type").unwrap().as_slice(), b"text/html");
    assert_eq!(std::str::from_utf8(&body).unwrap(), "Hello world");
}

#[test]
fn data_url_has_one_header_and_keeps_its_body_as_written() {
    let (header, body) = match request("data:text/plain;charset=utf-8,a,b%20c<d>") {
        Step::Finished(result) => result.unwrap(),
        other => panic!("no answer: {:?}", other),
    };
    assert_eq!(header.len(), 1);
    assert_eq!(
        header.entries(),
        vec![(b"content-type".to_vec(), b"text/plain;charset=utf-8".to_vec())]
    );
    assert_eq!(body, b"a,b%20c<d>".to_vec());
}

#[test]
fn data_url_without_comma_is_malformed() {
    match request("data:text/html") {
        Step::Finished(Err(e)) => assert_eq!(e, HttpError::MalformedUrl),
        other => panic!("unexpected: {:?}", other),
    }
}

#[test]
fn unknown_scheme_aborts_before_any_connection() {
    match request("ftp://example.com/file") {
        Step::Abort(Fatal::UnknownScheme { scheme }) => assert_eq!(scheme, b"ftp".to_vec()),
        other => panic!("unexpected: {:?}", other),
    }
    assert!(!known_scheme("ftp://example.com/file"));
    assert_eq!(scheme_name("ftp://example.com/file"), b"ftp".to_vec());
    match request("localhost:8080/index.html") {
        Step::Abort(Fatal::UnknownScheme { scheme }) => assert_eq!(scheme, b"localhost".to_vec()),
        other => panic!("unexpected: {:?}", other),
    }
    match request("HTTP://example.com/") {
        Step::Abort(Fatal::UnknownScheme { scheme }) => assert_eq!(scheme, b"HTTP".to_vec()),
        other => panic!("unexpected: {:?}", other),
    }
}

#[test]
fn known_schemes_are_the_three() {
    assert!(known_scheme("http://a/"));
    assert!(known_scheme("https://a/"));
    assert!(known_scheme("data:x,y"));
    assert!(known_scheme("no-colon-at-all"));
    assert!(!known_scheme("file:///etc/passwd"));
    assert!(!known_scheme(":80/"));
    assert_eq!(scheme_name("example.com/"), b"https".to_vec());
}

#[test]
fn parse_recovers_host_port_and_path() {
    let parts = parse("http://example.com:8080/a/b?q=1#f").unwrap();
    assert_eq!(
        parts,
        ParsedUrl {
            scheme: Scheme::Http,
            host: b"example.com".to_vec(),
            port: 8080,
            path: b"/a/b?q=1#f".to_vec(),
            data_payload: None,
        }
    );
    let parts = parse("https://example.org/").unwrap();
    assert_eq!(
        parts,
        ParsedUrl {
            scheme: Scheme::Https,
            host: b"example.org".to_vec(),
            port: 443,
            path: b"/".to_vec(),
            data_payload: None,
        }
    );
    let parts = parse("http://example.org/index.html").unwrap();
    assert_eq!(parts.port, 80);
    assert_eq!(parts.path, b"/index.html".to_vec());
}

#[test]
fn parse_round_trip_over_written_urls() {
    for (scheme, name, default) in [(Scheme::Http, "http", 80u16), (Scheme::Https, "https", 443u16)] {
        for host in ["a", "example.com", "xn--bcher-kva.example", "127.0.0.1", ""] {
            for port in [None, Some(0u16), Some(1), Some(80), Some(8080), Some(65535)] {
                for path in ["", "index.html", "a/b/c", "x:y//z?k=v", "%20 <>"] {
                    let url = match port {
                        Some(p) => format!("{}://{}:{}/{}", name, host, p, path),
                        None => format!("{}://{}/{}", name, host, path),
                    };
                    let parts = parse(&url).unwrap();
                    assert_eq!(parts.scheme, scheme);
                    assert_eq!(parts.host, host.as_bytes().to_vec());
                    assert_eq!(parts.port, port.unwrap_or(default));
                    assert_eq!(parts.path, format!("/{}", path).into_bytes());
                    assert_eq!(parts.data_payload, None);
                }
            }
        }
    }
}

#[test]
fn parse_is_permissive_about_scheme_and_slashes() {
    let parts = parse("example.com/index.html").unwrap();
    assert_eq!(parts.scheme, Scheme::Https);
    assert_eq!(parts.host, b"example.com".to_vec());
    assert_eq!(parts.port, 443);
    assert_eq!(parts.path, b"/index.html".to_vec());
    let parts = parse("http:example.com/x").unwrap();
    assert_eq!(parts.scheme, Scheme::Http);
    assert_eq!(parts.host, b"example.com".to_vec());
    assert_eq!(parts.path, b"/x".to_vec());
    let parts = parse("http:///x").unwrap();
    assert_eq!(parts.host, b"".to_vec());
    assert_eq!(parts.path, b"/x".to_vec());
}

#[test]
fn parse_rejects_missing_path_delimiter_and_bad_ports() {
    assert_eq!(parse("http://example.com"), Err(HttpError::MalformedUrl));
    assert_eq!(parse("https://"), Err(HttpError::MalformedUrl));
    assert_eq!(parse("http://example.com:/"), Err(HttpError::MalformedUrl));
    assert_eq!(parse("http://example.com:http/"), Err(HttpError::MalformedUrl));
    assert_eq!(parse("http://example.com:65536/"), Err(HttpError::MalformedUrl));
    assert_eq!(parse("http://example.com:-1/"), Err(HttpError::MalformedUrl));
    assert_eq!(parse("http://example.com:80:90/"), Err(HttpError::MalformedUrl));
    assert_eq!(parse("http://example.com: 80/"), Err(HttpError::MalformedUrl));
    assert_eq!(parse("http://example.com:+/"), Err(HttpError::MalformedUrl));
    assert_eq!(parse("http://example.com:+80/").unwrap().port, 80);
    assert_eq!(parse("http://example.com:00080/").unwrap().port, 80);
}

#[test]
fn parse_of_data_url_holds_the_payload_only() {
    let parts = parse("data:text/html,Hello world").unwrap();
    assert_eq!(parts.scheme, Scheme::Data);
    assert_eq!(parts.host, Vec::<u8>::new());
    assert_eq!(parts.port, 0);
    assert_eq!(parts.path, Vec::<u8>::new());
    let payload = parts.data_payload.unwrap();
    assert_eq!(payload.content_type, b"text/html".to_vec());
    assert_eq!(payload.body, b"Hello world".to_vec());
    let parts = parse("data:,").unwrap();
    let payload = parts.data_payload.unwrap();
    assert_eq!(payload.content_type, Vec::<u8>::new());
    assert_eq!(payload.body, Vec::<u8>::new());
}

#[test]
fn request_text_is_exact() {
    let target = target_of("http://example.com:8080/a/b?q=1");
    let text = write_request(&target, "linux");
    assert_eq!(
        String::from_utf8(text).unwrap(),
        "GET /a/b?q=1 HTTP/1.1\r\nHost: example.com\r\nConnection: close\r\nUser-Agent: Mozilla/5.0 (linux)\r\nAccept-Encoding: gzip,deflate\r\n\r\n"
    );
}

#[test]
fn server_name_is_checked_for_encrypted_connections_only() {
    assert_eq!(check_server_name(&target_of("https://example.com/")), Ok(()));
    assert_eq!(
        check_server_name(&target_of("https://exa mple.com/")),
        Err(HttpError::MalformedUrl)
    );
    assert_eq!(
        check_server_name(&target_of("https://b\u{fc}cher.example/")),
        Err(HttpError::MalformedUrl)
    );
    assert_eq!(check_server_name(&target_of("https:///")), Err(HttpError::MalformedUrl));
    assert_eq!(check_server_name(&target_of("http://exa mple.com/")), Ok(()));
    assert_eq!(judge_server_name(Scheme::Https, true), Ok(()));
    assert_eq!(judge_server_name(Scheme::Https, false), Err(HttpError::MalformedUrl));
    assert_eq!(judge_server_name(Scheme::Http, false), Ok(()));
    assert_eq!(judge_server_name(Scheme::Data, false), Ok(()));
}

#[test]
fn errors_have_their_words() {
    assert_eq!(HttpError::MalformedUrl.message(), "Malformed URL");
    assert_eq!(HttpError::ConnectionError.message(), "Connection error");
    assert_eq!(HttpError::MalformedResponse.message(), "Malformed response");
    assert_eq!(HttpError::UnsupportedEncoding.message(), "Unsupported encoding");
}

#[test]
fn aborted_encrypted_connection_is_the_end_of_the_stream() {
    assert!(failed_read_ends_stream(true, true));
    assert!(!failed_read_ends_stream(true, false));
    assert!(!failed_read_ends_stream(false, true));
    assert!(!failed_read_ends_stream(false, false));
}
