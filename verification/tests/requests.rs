use http_lib::{Fields, Method, Request, Version};

const HEAD_STRINGIFIED: &str = "\
    HEAD / HTTP/1.1\r\n\
    Host: example.com\r\n\
    User-Agent: curl/8.1.2\r\n\
    Accept: */*\r\n\r\n";

const HEAD_HEADERS: [(&str, &[&str]); 3] = [
    ("Host", &["example.com"]),
    ("User-Agent", &["curl/8.1.2"]),
    ("Accept", &["*/*"]),
];

const POST_STRINGIFIED: &str = "\
    POST / HTTP/1.1\r\n\
    Host: example.com\r\n\
    User-Agent: curl/8.1.2\r\n\
    Accept: */*\r\n\
    Content-Length: 12\r\n\
    Content-Type: application/x-www-form-urlencoded\r\n\
    \r\n\
    Hello world!";

const POST_HEADERS: [(&str, &[&str]); 5] = [
    ("Host", &["example.com"]),
    ("User-Agent", &["curl/8.1.2"]),
    ("Accept", &["*/*"]),
    ("Content-Length", &["12"]),
    ("Content-Type", &["application/x-www-form-urlencoded"]),
];

fn assert_headers(actual: &Fields, expected: &[(&str, &[&str])]) {
    assert_eq!(actual.len(), expected.len());
    for (expected_key, expected_values) in expected {
        let Some(actual_values) = actual.get(expected_key.as_bytes()) else {
            panic!("field \"{expected_key}\" does not exist");
        };
        let mut actual_slices: Vec<&[u8]> = Vec::new();
        actual_slices.push(actual_values.first_slice());
        for value in actual_values.extra() {
            actual_slices.push(value.as_slice());
        }
        assert_eq!(actual_slices.len(), expected_values.len());
        for (av, ev) in actual_slices.iter().zip(expected_values.iter()) {
            assert_eq!(*av, ev.as_bytes());
        }
    }
}

fn assert_start_line(req: &Request, method: Method, path: &str, version: Version) {
    assert_eq!(req.method, method);
    assert_eq!(&req.path[..], path.as_bytes());
    assert_eq!(req.version, version);
}

#[test]
fn head_from_bytes() {
    let mut bytes = bytes::Bytes::copy_from_slice(HEAD_STRINGIFIED.as_bytes());
    let req = Request::from_bytes(&mut bytes).unwrap();
    assert_start_line(&req, Method::Head, "/", Version(1, 1));
    assert_headers(&req.headers, &HEAD_HEADERS);
    assert!(req.body.is_empty());
    assert!(req.trailers.is_empty());
}

#[test]
fn head_to_string() {
    let req = Request {
        method: Method::Head,
        path: "/".into(),
        version: Version(1, 1),
        headers: Fields::copy_from_str(HEAD_HEADERS),
        body: bytes::Bytes::new(),
        trailers: Fields::new(),
    };
    assert_eq!(String::from_utf8(req.to_buffer()).unwrap(), HEAD_STRINGIFIED);
}

#[test]
fn post_from_bytes() {
    let mut bytes = bytes::Bytes::copy_from_slice(POST_STRINGIFIED.as_bytes());
    let req = Request::from_bytes(&mut bytes).unwrap();
    assert_start_line(&req, Method::Post, "/", Version(1, 1));
    assert_headers(&req.headers, &POST_HEADERS);
    assert_eq!(&req.body[..], b"Hello world!");
    assert!(req.trailers.is_empty());
}

#[test]
fn post_to_string() {
    let req = Request {
        method: Method::Post,
        path: "/".into(),
        version: Version(1, 1),
        headers: Fields::copy_from_str(POST_HEADERS),
        body: "Hello world!".into(),
        trailers: Fields::new(),
    };
    assert_eq!(String::from_utf8(req.to_buffer()).unwrap(), POST_STRINGIFIED);
}

#[test]
fn content_length_framing() {
    let mut bytes: bytes::Bytes = "POST / HTTP/1.1\r\nContent-Length: 12\r\n\r\nHello world!".into();
    let req = Request::from_bytes(&mut bytes).unwrap();
    assert_eq!(&req.body[..], b"Hello world!");
}

#[test]
fn body_longer_than_stream_rejected() {
    let mut bytes: bytes::Bytes = "POST / HTTP/1.1\r\nContent-Length: 2\r\n\r\nHello".into();
    let err = Request::from_bytes(&mut bytes).unwrap_err();
    assert_eq!(err, http_lib::request::ParsingError::BodyLongerThanStream);
}

#[test]
fn body_shorter_than_stream_rejected() {
    let mut bytes: bytes::Bytes = "POST / HTTP/1.1\r\nContent-Length: 99\r\n\r\nHello".into();
    let err = Request::from_bytes(&mut bytes).unwrap_err();
    assert_eq!(err, http_lib::request::ParsingError::BodyShorterThanStream);
}

#[test]
fn request_error_taxonomy() {
    let mut bytes: bytes::Bytes = "BREW / HTTP/1.1\r\n\r\n".into();
    assert_eq!(
        Request::from_bytes(&mut bytes).unwrap_err(),
        http_lib::request::ParsingError::MethodUnsupported
    );
    let mut bytes: bytes::Bytes = "GET/ HTTP/1.1\r\n\r\n".into();
    assert_eq!(
        Request::from_bytes(&mut bytes).unwrap_err(),
        http_lib::request::ParsingError::MalformedStartLine
    );
    let mut bytes: bytes::Bytes = "GET  HTTP/1.1\r\n\r\n".into();
    assert_eq!(
        Request::from_bytes(&mut bytes).unwrap_err(),
        http_lib::request::ParsingError::InvalidResource
    );
    let mut bytes: bytes::Bytes = "GET / XTTP/1.1\r\n\r\n".into();
    assert_eq!(
        Request::from_bytes(&mut bytes).unwrap_err(),
        http_lib::request::ParsingError::VersionMalformed
    );
    let mut bytes: bytes::Bytes = "GET / HTTP/1.1\r\nHost example.com\r\n\r\n".into();
    assert_eq!(
        Request::from_bytes(&mut bytes).unwrap_err(),
        http_lib::request::ParsingError::Header(http_lib::field::ParsingError::Malformed)
    );
}

#[test]
fn request_builder() {
    let req = Request::builder("example.com".into(), Method::Post, "/submit".into())
        .add_header_value("Accept".into(), "*/*".into())
        .body("Hello world!".to_string())
        .finish();
    assert_eq!(req.method, Method::Post);
    assert_eq!(&req.path[..], b"/submit");
    assert_eq!(req.headers.get_single(b"Host").unwrap(), b"example.com");
    assert_eq!(req.headers.get_single(b"Accept").unwrap(), b"*/*");
    assert_eq!(req.headers.get_single(b"Content-Length").unwrap(), b"12");
    assert_eq!(req.headers.get_single(b"Content-Type").unwrap(), b"text/plain");
    assert_eq!(&req.body[..], b"Hello world!");
    let wire = req.to_buffer();
    let mut bytes = bytes::Bytes::from(wire);
    let reparsed = Request::from_bytes(&mut bytes).unwrap();
    assert_eq!(reparsed.method, Method::Post);
    assert_eq!(&reparsed.body[..], b"Hello world!");
}
