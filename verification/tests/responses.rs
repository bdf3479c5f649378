use http_lib::response::Code;
use http_lib::{Fields, Response, Version};

const STRINGIFIED: &str = "\
    HTTP/1.1 301 Moved Permanently\r\n\
    Location: http://www.example.com/\r\n\
    Date: Fri, 09 Jun 2023 18:36:58 GMT\r\n\
    Expires: Sun, 09 Jul 2023 18:36:58 GMT\r\n\
    Cache-Control: public, max-age=2592000\r\n\
    Server: example\r\n\
    Content-Length: 0\r\n\
    X-XSS-Protection: 0\r\n\
    X-Frame-Options: SAMEORIGIN\r\n\
    \r\n";

const HEADERS: [(&str, &[&str]); 8] = [
    ("Location", &["http://www.example.com/"]),
    ("Date", &["Fri, 09 Jun 2023 18:36:58 GMT"]),
    ("Expires", &["Sun, 09 Jul 2023 18:36:58 GMT"]),
    ("Cache-Control", &["public", "max-age=2592000"]),
    ("Server", &["example"]),
    ("Content-Length", &["0"]),
    ("X-XSS-Protection", &["0"]),
    ("X-Frame-Options", &["SAMEORIGIN"]),
];

fn assert_headers(actual: &Fields, expected: &[(&str, &[&str])]) {
    assert_eq!(actual.len(), expected.len());
    for (expected_key, expected_values) in expected {
        let Some(actual_values) = actual.get(expected_key.as_bytes()) else {
            panic!("field \"{expected_key}\" does not exist");
        };
        let mut actual_slices: Vec<&[u8]> = Vec::new();
        actual_slices.push(actual_values.first_slice());
        for value in actual_values.extra() {
            actual_slices.push(value.as_slice());
        }
        assert_eq!(actual_slices.len(), expected_values.len());
        for (av, ev) in actual_slices.iter().zip(expected_values.iter()) {
            assert_eq!(*av, ev.as_bytes());
        }
    }
}

#[test]
fn response_from_bytes() {
    let mut bytes = bytes::Bytes::from_static(STRINGIFIED.as_bytes());
    let res = Response::from_bytes(&mut bytes).unwrap();
    assert_eq!(res.version, Version(1, 1));
    assert_eq!(res.code, Code::MovedPermanently);
    assert_headers(&res.headers, &HEADERS);
}

#[test]
fn response_to_buffer() {
    let res = Response {
        version: Version(1, 1),
        code: Code::MovedPermanently,
        headers: Fields::copy_from_str(HEADERS),
        body: bytes::Bytes::new(),
        trailers: Fields::new(),
    };
    assert_eq!(String::from_utf8(res.to_buffer()).unwrap(), STRINGIFIED);
}

#[test]
fn response_new_carries_date() {
    let res = Response::new(Code::Okay);
    assert_eq!(res.version, Version(1, 1));
    assert_eq!(res.code, Code::Okay);
    let date = res.headers.get_single(b"Date").unwrap();
    assert_eq!(date.len(), 29);
    for &b in date {
        assert!(b.is_ascii_alphanumeric() || b == b' ' || b == b',' || b == b':');
    }
    assert!(res.body.is_empty());
    assert!(res.trailers.is_empty());
}

#[test]
fn response_builder() {
    let res = Response::builder(Code::NotFound)
        .body("Not found".to_string())
        .finish();
    assert_eq!(res.code, Code::NotFound);
    assert_eq!(res.headers.get_single(b"Content-Length").unwrap(), b"9");
    assert_eq!(res.headers.get_single(b"Content-Type").unwrap(), b"text/plain");
    assert_eq!(&res.body[..], b"Not found");
    let wire = res.to_buffer();
    assert!(wire.starts_with(b"HTTP/1.1 404 Not Found\r\n"));
    assert!(wire.ends_with(b"Not found"));
}

#[test]
fn response_error_taxonomy() {
    let mut bytes: bytes::Bytes = "XTTP/1.1 200 OK\r\n\r\n".into();
    assert_eq!(
        Response::from_bytes(&mut bytes).unwrap_err(),
        http_lib::response::ParsingError::VersionMalformed
    );
    let mut bytes: bytes::Bytes = "HTTP/1.1200 OK\r\n\r\n".into();
    assert_eq!(
        Response::from_bytes(&mut bytes).unwrap_err(),
        http_lib::response::ParsingError::MalformedStartLine
    );
    let mut bytes: bytes::Bytes = "HTTP/1.1 999 Wat\r\n\r\n".into();
    assert_eq!(
        Response::from_bytes(&mut bytes).unwrap_err(),
        http_lib::response::ParsingError::Code(http_lib::response::code::ParsingError::InvalidCode)
    );
    let mut bytes: bytes::Bytes = "HTTP/1.1 200 KO\r\n\r\n".into();
    assert_eq!(
        Response::from_bytes(&mut bytes).unwrap_err(),
        http_lib::response::ParsingError::Code(
            http_lib::response::code::ParsingError::MalformedCode,
        )
    );
}

#[test]
fn response_round_trip() {
    let res = Response::builder(Code::Okay)
        .body("hello".to_string())
        .finish();
    let wire = res.to_buffer();
    let mut bytes = bytes::Bytes::from(wire.clone());
    let reparsed = Response::from_bytes(&mut bytes).unwrap();
    assert_eq!(reparsed.code, Code::Okay);
    assert_eq!(&reparsed.body[..], b"hello");
    assert_eq!(reparsed.to_buffer(), wire);
    assert!(bytes.is_empty());
}
