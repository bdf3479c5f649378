use http_lib::Fields;

const SIMPLE_STRINGIFIED: &str = "\
    Host: example.com\r\n\
    User-Agent: curl/8.1.2\r\n\
    Accept: */*\r\n\
    \r\n";

const SIMPLE_INTERNAL: [(&str, &[&str]); 3] = [
    ("Host", &["example.com"]),
    ("User-Agent", &["curl/8.1.2"]),
    ("Accept", &["*/*"]),
];

const QUOTED_STRINGIFIED: &str = "\
    Host: example.com\r\n\
    Example-Dates: \"Sat, 04 May 1996\", \"Wed, 14 Sep 2005\"\r\n\
    Accept: */*\r\n\
    Backslash-Test: \"with a \\\\ backslash and a \\\" quote\"\r\n\
    User-Agent: curl/8.1.2\r\n\
    \r\n";

const QUOTED_INTERNAL: [(&str, &[&str]); 5] = [
    ("Host", &["example.com"]),
    (
        "Example-Dates",
        &["\"Sat, 04 May 1996\"", "\"Wed, 14 Sep 2005\""],
    ),
    ("Accept", &["*/*"]),
    (
        "Backslash-Test",
        &["\"with a \\\\ backslash and a \\\" quote\""],
    ),
    ("User-Agent", &["curl/8.1.2"]),
];

const CHROME_STRINGIFIED: &str = "\
    Host: localhost:8000\r\n\
    Connection: keep-alive\r\n\
    Pragma: no-cache\r\n\
    Cache-Control: no-cache\r\n\
    sec-ch-ua: \"Not.A/Brand\";v=\"8\", \"Chromium\";v=\"114\", \"Google Chrome\";v=\"114\"\r\n\
    sec-ch-ua-mobile: ?0\r\n\
    sec-ch-ua-platform: \"Linux\"\r\n\
    DNT: 1\r\n\
    Upgrade-Insecure-Requests: 1\r\n\
    User-Agent: Mozilla/5.0 (X11; Linux x86_64) AppleWebKit/537.36 (KHTML, like Gecko) Chrome/114.0.0.0 Safari/537.36\r\n\
    Accept: text/html, application/xhtml+xml, application/xml;q=0.9, image/avif, image/webp, image/apng, */*;q=0.8, application/signed-exchange;v=b3;q=0.7\r\n\
    Sec-Fetch-Site: cross-site\r\n\
    Sec-Fetch-Mode: navigate\r\n\
    Sec-Fetch-User: ?1\r\n\
    Sec-Fetch-Dest: document\r\n\
    Accept-Encoding: gzip, deflate, br\r\n\
    Accept-Language: en-US, en;q=0.9, pl-PL;q=0.8, pl;q=0.7\r\n\
    \r\n";

const CHROME_INTERNAL: [(&str, &[&str]); 17] = [
    ("Host", &["localhost:8000"]),
    ("Connection", &["keep-alive"]),
    ("Pragma", &["no-cache"]),
    ("Cache-Control", &["no-cache"]),
    ("sec-ch-ua", &[
        "\"Not.A/Brand\";v=\"8\"",
        "\"Chromium\";v=\"114\"",
        "\"Google Chrome\";v=\"114\""
    ]),
    ("sec-ch-ua-mobile", &["?0"]),
    ("sec-ch-ua-platform", &["\"Linux\""]),
    ("DNT", &["1"]),
    ("Upgrade-Insecure-Requests", &["1"]),
    ("User-Agent", &["Mozilla/5.0 (X11; Linux x86_64) AppleWebKit/537.36 (KHTML, like Gecko) Chrome/114.0.0.0 Safari/537.36"]),
    ("Accept", &[
        "text/html",
        "application/xhtml+xml",
        "application/xml;q=0.9",
        "image/avif",
        "image/webp",
        "image/apng",
        "*/*;q=0.8",
        "application/signed-exchange;v=b3;q=0.7"
    ]),
    ("Sec-Fetch-Site", &["cross-site"]),
    ("Sec-Fetch-Mode", &["navigate"]),
    ("Sec-Fetch-User", &["?1"]),
    ("Sec-Fetch-Dest", &["document"]),
    ("Accept-Encoding", &["gzip", "deflate", "br"]),
    ("Accept-Language", &["en-US", "en;q=0.9", "pl-PL;q=0.8", "pl;q=0.7"]),
];

pub fn assert_headers(actual: &Fields, expected: &[(&str, &[&str])]) {
    assert_eq!(actual.len(), expected.len());
    for (expected_key, expected_values) in expected {
        let Some(actual_values) = actual.get(expected_key.as_bytes()) else {
            panic!("field \"{expected_key}\" does not exist");
        };
        let mut actual_slices: Vec<&[u8]> = Vec::new();
        actual_slices.push(actual_values.first_slice());
        for value in actual_values.extra() {
            actual_slices.push(value.as_slice());
        }
        assert_eq!(actual_slices.len(), expected_values.len());
        for (av, ev) in actual_slices.iter().zip(expected_values.iter()) {
            assert_eq!(*av, ev.as_bytes());
        }
    }
}

#[test]
fn simple_from_bytes() {
    let mut bytes: bytes::Bytes = SIMPLE_STRINGIFIED.into();
    let actual = Fields::from_bytes(&mut bytes).unwrap();
    assert_headers(&actual, &SIMPLE_INTERNAL);
}

#[test]
fn simple_to_string() {
    let actual = String::from_utf8(Fields::copy_from_str(SIMPLE_INTERNAL).to_buffer()).unwrap();
    assert_eq!(actual, SIMPLE_STRINGIFIED);
}

#[test]
fn quoted_from_bytes() {
    let mut bytes: bytes::Bytes = QUOTED_STRINGIFIED.into();
    let actual = Fields::from_bytes(&mut bytes).unwrap();
    assert_headers(&actual, &QUOTED_INTERNAL);
}

#[test]
fn quoted_to_string() {
    let actual = String::from_utf8(Fields::copy_from_str(QUOTED_INTERNAL).to_buffer()).unwrap();
    assert_eq!(actual, QUOTED_STRINGIFIED);
}

#[test]
fn chrome_from_bytes() {
    let mut bytes: bytes::Bytes = CHROME_STRINGIFIED.into();
    let actual = Fields::from_bytes(&mut bytes).unwrap();
    assert_headers(&actual, &CHROME_INTERNAL);
}

#[test]
fn chrome_to_buffer() {
    let actual = String::from_utf8(Fields::copy_from_str(CHROME_INTERNAL).to_buffer()).unwrap();
    assert_eq!(actual, CHROME_STRINGIFIED);
}

#[test]
fn copy_from_str_repeated_name_replaces() {
    // a repeated name keeps its place; the later values win
    let fields = Fields::copy_from_str([
        ("A", ["1"].as_slice()),
        ("B", ["2"].as_slice()),
        ("A", ["3"].as_slice()),
    ]);
    assert_eq!(fields.len(), 2);
    assert_eq!(
        String::from_utf8(fields.to_buffer()).unwrap(),
        "A: 3\r\nB: 2\r\n\r\n"
    );
}

#[test]
fn fields_round_trip() {
    let fields = Fields::copy_from_str(SIMPLE_INTERNAL);
    let wire = fields.to_buffer();
    let mut bytes = bytes::Bytes::from(wire.clone());
    let reparsed = Fields::from_bytes(&mut bytes).unwrap();
    assert_headers(&reparsed, &SIMPLE_INTERNAL);
    assert_eq!(reparsed.to_buffer(), wire);
    assert!(bytes.is_empty());
}

#[test]
fn list_semantics() {
    let mut bytes: bytes::Bytes = "sec-ch-ua: \"Not.A/Brand\";v=\"8\", \"Chromium\";v=\"114\"\r\n\r\n".into();
    let fields = Fields::from_bytes(&mut bytes).unwrap();
    let values = fields.get(b"sec-ch-ua").unwrap();
    assert_eq!(values.count(), 2);
    assert_eq!(values.first_slice(), b"\"Not.A/Brand\";v=\"8\"");
    assert_eq!(values.extra()[0].as_slice(), b"\"Chromium\";v=\"114\"");
    assert_eq!(
        values.to_buffer(),
        b"\"Not.A/Brand\";v=\"8\", \"Chromium\";v=\"114\"".to_vec()
    );
}

#[test]
fn repeated_name_merges() {
    let mut bytes: bytes::Bytes = "Accept: a\r\nAccept: b, c\r\n\r\n".into();
    let fields = Fields::from_bytes(&mut bytes).unwrap();
    assert_eq!(fields.len(), 1);
    let values = fields.get(b"Accept").unwrap();
    assert_eq!(values.count(), 3);
    assert_eq!(values.first_slice(), b"a");
    assert_eq!(values.extra()[0].as_slice(), b"b");
    assert_eq!(values.extra()[1].as_slice(), b"c");
}

#[test]
fn empty_fields_serialize_to_nothing() {
    let fields = Fields::new();
    assert!(fields.is_empty());
    assert_eq!(fields.to_buffer(), Vec::<u8>::new());
}

#[test]
fn lookup_accessors() {
    let mut bytes: bytes::Bytes = "Host: example.com\r\nAccept: a, b\r\n\r\n".into();
    let fields = Fields::from_bytes(&mut bytes).unwrap();
    assert!(fields.contains_name(b"Host"));
    assert!(!fields.contains_name(b"host"));
    assert_eq!(fields.get_single(b"Host").unwrap(), b"example.com");
    assert_eq!(fields.get_single(b"Accept"), None);
    assert!(fields.contains_value(b"Accept", b"b"));
    assert!(!fields.contains_value(b"Accept", b"c"));
    assert!(fields.contains_value_exact(b"Host", b"example.com"));
    assert!(!fields.contains_value_exact(b"Accept", b"a"));
    assert!(fields.contains_values(b"Accept", [b"b".as_slice(), b"a".as_slice()]));
    assert!(!fields.contains_values(b"Accept", [b"a".as_slice(), b"x".as_slice()]));
    assert!(fields.contains_values_exact(b"Accept", [b"b".as_slice(), b"a".as_slice()]));
    assert!(!fields.contains_values_exact(b"Accept", [b"a".as_slice()]));
    let (first, extra) = fields.get_slices(b"Accept").unwrap();
    assert_eq!(first, b"a");
    assert_eq!(extra, vec![b"b".as_slice()]);
}

#[test]
fn value_boundary_at_limit_parses() {
    let mut wire = Vec::new();
    wire.extend_from_slice(b"N: ");
    wire.extend(std::iter::repeat(b'a').take(100_000));
    wire.extend_from_slice(b"\r\n\r\n");
    let mut bytes = bytes::Bytes::from(wire);
    let fields = Fields::from_bytes(&mut bytes).unwrap();
    assert_eq!(fields.get_single(b"N").unwrap().len(), 100_000);
}

#[test]
fn value_boundary_over_limit_fails() {
    let mut wire = Vec::new();
    wire.extend_from_slice(b"N: ");
    wire.extend(std::iter::repeat(b'a').take(100_001));
    wire.extend_from_slice(b"\r\n\r\n");
    let mut bytes = bytes::Bytes::from(wire);
    let err = Fields::from_bytes(&mut bytes).unwrap_err();
    assert_eq!(err, http_lib::field::ParsingError::ValueTooLong);
}

#[test]
fn unterminated_comment_fails() {
    let mut bytes: bytes::Bytes = "N: (abc".into();
    let err = Fields::from_bytes(&mut bytes).unwrap_err();
    assert_eq!(err, http_lib::field::ParsingError::IncorrectlyTerminated);
}

#[test]
fn header_without_colon_fails() {
    let mut bytes: bytes::Bytes = "Host example.com\r\n\r\n".into();
    let err = Fields::from_bytes(&mut bytes).unwrap_err();
    assert_eq!(err, http_lib::field::ParsingError::Malformed);
}

#[test]
fn invalid_token_fails() {
    let mut bytes: bytes::Bytes = "N: a\x01b\r\n\r\n".into();
    let err = Fields::from_bytes(&mut bytes).unwrap_err();
    assert_eq!(err, http_lib::field::ParsingError::ValueInvalidToken);
}

#[test]
fn invalid_quoted_text_fails() {
    let mut bytes: bytes::Bytes = "N: \"a\x01b\"\r\n\r\n".into();
    let err = Fields::from_bytes(&mut bytes).unwrap_err();
    assert_eq!(err, http_lib::field::ParsingError::ValueInvalidQuotedText);
}

#[test]
fn invalid_comment_character_fails() {
    let mut bytes: bytes::Bytes = "N: (a\x01b)\r\n\r\n".into();
    let err = Fields::from_bytes(&mut bytes).unwrap_err();
    assert_eq!(err, http_lib::field::ParsingError::InvalidCommentCharacter);
}

#[test]
fn missing_final_blank_line_fails() {
    let mut bytes: bytes::Bytes = "Host: example.com\r\n".into();
    let err = Fields::from_bytes(&mut bytes).unwrap_err();
    assert_eq!(err, http_lib::field::ParsingError::IncorrectlyTerminated);
}
