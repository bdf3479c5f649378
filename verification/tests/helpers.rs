use http_lib::serve::{HostPolicy, LogLevel, RouteDecision};
use http_lib::slices::{slice_contains, slices_equal};
use http_lib::transcode::{ascii_digit_to_u8, parse_content_length, percent_decode};
use http_lib::Method;

#[test]
fn percent_decode_pairs() {
    assert_eq!(percent_decode(b"a%20b").unwrap(), b"a b".to_vec());
    assert_eq!(percent_decode(b"%41%62c").unwrap(), b"Abc".to_vec());
    assert_eq!(percent_decode(b"plain").unwrap(), b"plain".to_vec());
    assert!(percent_decode(b"%zz").is_err());
    assert!(percent_decode(b"%a").is_err());
    assert!(percent_decode(b"tail%").is_err());
    // the number parser tolerates an optional plus sign, nothing else
    assert_eq!(percent_decode(b"%+5").unwrap(), vec![5u8]);
    assert!(percent_decode(b"%-0").is_err());
    assert!(percent_decode(b"%-1").is_err());
    assert!(percent_decode(b"%5+").is_err());
}

#[test]
fn digit_mask() {
    assert_eq!(ascii_digit_to_u8(b'0'), 0);
    assert_eq!(ascii_digit_to_u8(b'9'), 9);
    assert!(ascii_digit_to_u8(b'x') >= 10);
}

#[test]
fn content_length_values() {
    assert_eq!(parse_content_length(b"12"), 12);
    assert_eq!(parse_content_length(b"+12"), 12);
    assert_eq!(parse_content_length(b"0"), 0);
    assert_eq!(parse_content_length(b""), 0);
    assert_eq!(parse_content_length(b"12a"), 0);
    assert_eq!(parse_content_length(b" 12"), 0);
    assert_eq!(parse_content_length(b"99999999999999999999999999"), 0);
}

#[test]
fn slice_helpers() {
    assert!(slices_equal(b"abc", b"abc"));
    assert!(!slices_equal(b"abc", b"abd"));
    assert!(!slices_equal(b"abc", b"ab"));
    assert!(slice_contains(b"/a/../b", b".."));
    assert!(!slice_contains(b"/a/.b", b".."));
    assert!(slice_contains(b"anything", b""));
}

#[test]
fn log_filter_levels() {
    assert_eq!(http_lib::serve::log_filter_from_int(0), LogLevel::Off);
    assert_eq!(http_lib::serve::log_filter_from_int(1), LogLevel::Error);
    assert_eq!(http_lib::serve::log_filter_from_int(2), LogLevel::Warn);
    assert_eq!(http_lib::serve::log_filter_from_int(3), LogLevel::Info);
    assert_eq!(http_lib::serve::log_filter_from_int(4), LogLevel::Debug);
    assert_eq!(http_lib::serve::log_filter_from_int(5), LogLevel::Trace);
    assert_eq!(http_lib::serve::log_filter_from_int(9), LogLevel::Trace);
    assert_eq!(http_lib::serve::log_filter_from_int(-1), LogLevel::Off);
}

#[test]
fn host_policy_accepts_forms() {
    let policy = HostPolicy::new(b"127.0.0.1:80".to_vec(), b"example.com:80".to_vec(), true);
    assert!(policy.validate_host(b"127.0.0.1:80"));
    assert!(policy.validate_host(b"127.0.0.1"));
    assert!(policy.validate_host(b"example.com:80"));
    assert!(policy.validate_host(b"example.com"));
    assert!(!policy.validate_host(b"evil.com"));

    let other_port = HostPolicy::new(b"127.0.0.1:8000".to_vec(), Vec::new(), false);
    assert!(other_port.validate_host(b"127.0.0.1:8000"));
    assert!(!other_port.validate_host(b"127.0.0.1"));
    assert!(!other_port.validate_host(b""));
}

#[test]
fn route_decisions() {
    let policy = HostPolicy::new(b"127.0.0.1:8000".to_vec(), Vec::new(), false);
    let host = Some(b"127.0.0.1:8000".as_slice());
    assert_eq!(
        http_lib::serve::route_decision(&policy, None, Method::Get, b"/x"),
        RouteDecision::Misdirected
    );
    assert_eq!(
        http_lib::serve::route_decision(&policy, Some(b"evil"), Method::Get, b"/x"),
        RouteDecision::Misdirected
    );
    assert_eq!(
        http_lib::serve::route_decision(&policy, host, Method::Post, b"/x"),
        RouteDecision::MethodNotAllowed
    );
    assert_eq!(
        http_lib::serve::route_decision(&policy, host, Method::Get, b"x"),
        RouteDecision::NotFound
    );
    assert_eq!(
        http_lib::serve::route_decision(&policy, host, Method::Get, b"/a/../b"),
        RouteDecision::BadRequest
    );
    assert_eq!(
        http_lib::serve::route_decision(&policy, host, Method::Head, b"/dir/"),
        RouteDecision::ListDirectory
    );
    assert_eq!(
        http_lib::serve::route_decision(&policy, host, Method::Get, b"/file.txt"),
        RouteDecision::ServeFile
    );
}

#[test]
fn method_wire_forms() {
    let mut bytes: bytes::Bytes = "GET ".into();
    assert_eq!(Method::from_bytes(&mut bytes), Some(Method::Get));
    assert_eq!(&bytes[..], b" ");
    let mut bytes: bytes::Bytes = "BREW ".into();
    assert_eq!(Method::from_bytes(&mut bytes), None);
    assert_eq!(Method::Options.as_bytes(), b"OPTIONS");
    assert_eq!(Method::Trace.as_str(), "TRACE");
}
