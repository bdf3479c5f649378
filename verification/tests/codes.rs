use http_lib::response::code::{Code, ParsingError};

fn test_from_bytes(src: &[u8]) -> Result<Code, ParsingError> {
    let mut bytes = bytes::Bytes::copy_from_slice(src);
    Code::from_bytes(&mut bytes)
}

#[test]
fn code_from_bytes() {
    assert!(test_from_bytes(b"404 Not Found").is_ok_and(|c| c == Code::NotFound));
    assert!(test_from_bytes(b"200 OK").is_ok_and(|c| c == Code::Okay));
    assert!(test_from_bytes(b"200").is_err_and(|e| e == ParsingError::MalformedCode));
    assert!(test_from_bytes(b"20").is_err_and(|e| e == ParsingError::InvalidCode));
    assert!(test_from_bytes(b"000 Nonexistent").is_err_and(|e| e == ParsingError::InvalidCode));
}

const ALL_CODES: [Code; 62] = [
    Code::Continue,
    Code::SwitchingProtocols,
    Code::Processing,
    Code::EarlyHints,
    Code::Okay,
    Code::Created,
    Code::Accepted,
    Code::NonAuthoritativeInformation,
    Code::NoContent,
    Code::ResetContent,
    Code::PartialContent,
    Code::MultiStatus,
    Code::AlreadyReported,
    Code::IMUsed,
    Code::MultipleChoices,
    Code::MovedPermanently,
    Code::Found,
    Code::SeeOther,
    Code::NotModified,
    Code::UseProxy,
    Code::TemporaryRedirect,
    Code::PermanentRedirect,
    Code::BadRequest,
    Code::Unauthorized,
    Code::PaymentRequired,
    Code::Forbidden,
    Code::NotFound,
    Code::MethodNotAllowed,
    Code::NotAcceptable,
    Code::ProxyAuthenticationRequired,
    Code::RequestTimeout,
    Code::Conflict,
    Code::Gone,
    Code::LengthRequired,
    Code::PreconditionFailed,
    Code::PayloadTooLarge,
    Code::URITooLong,
    Code::UnsupportedMediaType,
    Code::RangeNotSatisfiable,
    Code::ExpectationFailed,
    Code::ImATeapot,
    Code::MisdirectedRequest,
    Code::UnprocessableContent,
    Code::Locked,
    Code::FailedDependency,
    Code::TooEarly,
    Code::UpgradeRequired,
    Code::PreconditionRequired,
    Code::TooManyRequests,
    Code::RequestHeaderFieldsTooLarge,
    Code::UnavailableForLegalReasons,
    Code::InternalServerError,
    Code::NotImplemented,
    Code::BadGateway,
    Code::ServiceUnavailable,
    Code::GatewayTimeout,
    Code::HTTPVersionNotSupported,
    Code::VariantAlsoNegotiates,
    Code::InsufficientStorage,
    Code::LoopDetected,
    Code::NotExtended,
    Code::NetworkAuthenticationRequired,
];

#[test]
fn every_code_round_trips() {
    for code in ALL_CODES {
        let wire = code.as_bytes();
        let mut bytes = bytes::Bytes::copy_from_slice(wire);
        let reparsed = Code::from_bytes(&mut bytes).unwrap();
        assert_eq!(reparsed, code);
        assert!(bytes.is_empty());
        assert_eq!(code.as_str().as_bytes(), wire);
    }
}

#[test]
fn code_from_raw_bounds() {
    assert_eq!(Code::from_raw(200), Some(Code::Okay));
    assert_eq!(Code::from_raw(404), Some(Code::NotFound));
    assert_eq!(Code::from_raw(99), None);
    assert_eq!(Code::from_raw(306), None);
    assert_eq!(Code::from_raw(600), None);
}
