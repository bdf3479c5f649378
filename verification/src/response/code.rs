//! Response status codes: a closed enumeration over an explicit set of
//! numbers, each with its canonical reason phrase. Unknown numbers are
//! rejected outright, and the wire form always carries the full
//! `<code> <reason phrase>` text.

use vstd::prelude::*;

use crate::advance::Advance;
use crate::buffer::{bytes_at, bytes_len, contents};

verus! {

/// Why a status code failed to parse: the three digits name no known code,
/// or the digits are not followed by the code's canonical reason phrase.
#[derive(Clone, Copy, PartialEq, Eq, Structural, Debug)]
pub enum ParsingError {
    InvalidCode,
    MalformedCode,
}

impl ParsingError {
    pub fn as_str(self) -> &'static str {
        match self {
            ParsingError::InvalidCode => "invalid code",
            ParsingError::MalformedCode => "malformed code",
        }
    }
}

#[derive(Clone, Copy, PartialEq, Eq, Structural, Debug)]
pub enum Code {
    Continue,
    SwitchingProtocols,
    Processing,
    EarlyHints,
    Okay,
    Created,
    Accepted,
    NonAuthoritativeInformation,
    NoContent,
    ResetContent,
    PartialContent,
    MultiStatus,
    AlreadyReported,
    IMUsed,
    MultipleChoices,
    MovedPermanently,
    Found,
    SeeOther,
    NotModified,
    UseProxy,
    TemporaryRedirect,
    PermanentRedirect,
    BadRequest,
    Unauthorized,
    PaymentRequired,
    Forbidden,
    NotFound,
    MethodNotAllowed,
    NotAcceptable,
    ProxyAuthenticationRequired,
    RequestTimeout,
    Conflict,
    Gone,
    LengthRequired,
    PreconditionFailed,
    PayloadTooLarge,
    URITooLong,
    UnsupportedMediaType,
    RangeNotSatisfiable,
    ExpectationFailed,
    ImATeapot,
    MisdirectedRequest,
    UnprocessableContent,
    Locked,
    FailedDependency,
    TooEarly,
    UpgradeRequired,
    PreconditionRequired,
    TooManyRequests,
    RequestHeaderFieldsTooLarge,
    UnavailableForLegalReasons,
    InternalServerError,
    NotImplemented,
    BadGateway,
    ServiceUnavailable,
    GatewayTimeout,
    HTTPVersionNotSupported,
    VariantAlsoNegotiates,
    InsufficientStorage,
    LoopDetected,
    NotExtended,
    NetworkAuthenticationRequired,
}

/// A code's number.
pub open spec fn code_num(c: Code) -> u16 {
    match c {
        Code::Continue => 100,
        Code::SwitchingProtocols => 101,
        Code::Processing => 102,
        Code::EarlyHints => 103,
        Code::Okay => 200,
        Code::Created => 201,
        Code::Accepted => 202,
        Code::NonAuthoritativeInformation => 203,
        Code::NoContent => 204,
        Code::ResetContent => 205,
        Code::PartialContent => 206,
        Code::MultiStatus => 207,
        Code::AlreadyReported => 208,
        Code::IMUsed => 226,
        Code::MultipleChoices => 300,
        Code::MovedPermanently => 301,
        Code::Found => 302,
        Code::SeeOther => 303,
        Code::NotModified => 304,
        Code::UseProxy => 305,
        Code::TemporaryRedirect => 307,
        Code::PermanentRedirect => 308,
        Code::BadRequest => 400,
        Code::Unauthorized => 401,
        Code::PaymentRequired => 402,
        Code::Forbidden => 403,
        Code::NotFound => 404,
        Code::MethodNotAllowed => 405,
        Code::NotAcceptable => 406,
        Code::ProxyAuthenticationRequired => 407,
        Code::RequestTimeout => 408,
        Code::Conflict => 409,
        Code::Gone => 410,
        Code::LengthRequired => 411,
        Code::PreconditionFailed => 412,
        Code::PayloadTooLarge => 413,
        Code::URITooLong => 414,
        Code::UnsupportedMediaType => 415,
        Code::RangeNotSatisfiable => 416,
        Code::ExpectationFailed => 417,
        Code::ImATeapot => 418,
        Code::MisdirectedRequest => 421,
        Code::UnprocessableContent => 422,
        Code::Locked => 423,
        Code::FailedDependency => 424,
        Code::TooEarly => 425,
        Code::UpgradeRequired => 426,
        Code::PreconditionRequired => 428,
        Code::TooManyRequests => 429,
        Code::RequestHeaderFieldsTooLarge => 431,
        Code::UnavailableForLegalReasons => 451,
        Code::InternalServerError => 500,
        Code::NotImplemented => 501,
        Code::BadGateway => 502,
        Code::ServiceUnavailable => 503,
        Code::GatewayTimeout => 504,
        Code::HTTPVersionNotSupported => 505,
        Code::VariantAlsoNegotiates => 506,
        Code::InsufficientStorage => 507,
        Code::LoopDetected => 508,
        Code::NotExtended => 510,
        Code::NetworkAuthenticationRequired => 511,
    }
}

/// A code's full wire form: the three digits, a space, and the canonical
/// reason phrase.
pub open spec fn code_phrase(c: Code) -> Seq<u8> {
    match c {
        Code::Continue => seq![49u8, 48u8, 48u8, 32u8, 67u8, 111u8, 110u8, 116u8, 105u8, 110u8, 117u8, 101u8],
        Code::SwitchingProtocols => seq![49u8, 48u8, 49u8, 32u8, 83u8, 119u8, 105u8, 116u8, 99u8, 104u8, 105u8, 110u8, 103u8, 32u8, 80u8, 114u8, 111u8, 116u8, 111u8, 99u8, 111u8, 108u8, 115u8],
        Code::Processing => seq![49u8, 48u8, 50u8, 32u8, 80u8, 114u8, 111u8, 99u8, 101u8, 115u8, 115u8, 105u8, 110u8, 103u8],
        Code::EarlyHints => seq![49u8, 48u8, 51u8, 32u8, 69u8, 97u8, 114u8, 108u8, 121u8, 32u8, 72u8, 105u8, 110u8, 116u8, 115u8],
        Code::Okay => seq![50u8, 48u8, 48u8, 32u8, 79u8, 75u8],
        Code::Created => seq![50u8, 48u8, 49u8, 32u8, 67u8, 114u8, 101u8, 97u8, 116u8, 101u8, 100u8],
        Code::Accepted => seq![50u8, 48u8, 50u8, 32u8, 65u8, 99u8, 99u8, 101u8, 112u8, 116u8, 101u8, 100u8],
        Code::NonAuthoritativeInformation => seq![50u8, 48u8, 51u8, 32u8, 78u8, 111u8, 110u8, 45u8, 65u8, 117u8, 116u8, 104u8, 111u8, 114u8, 105u8, 116u8, 97u8, 116u8, 105u8, 118u8, 101u8, 32u8, 73u8, 110u8, 102u8, 111u8, 114u8, 109u8, 97u8, 116u8, 105u8, 111u8, 110u8],
        Code::NoContent => seq![50u8, 48u8, 52u8, 32u8, 78u8, 111u8, 32u8, 67u8, 111u8, 110u8, 116u8, 101u8, 110u8, 116u8],
        Code::ResetContent => seq![50u8, 48u8, 53u8, 32u8, 82u8, 101u8, 115u8, 101u8, 116u8, 32u8, 67u8, 111u8, 110u8, 116u8, 101u8, 110u8, 116u8],
        Code::PartialContent => seq![50u8, 48u8, 54u8, 32u8, 80u8, 97u8, 114u8, 116u8, 105u8, 97u8, 108u8, 32u8, 67u8, 111u8, 110u8, 116u8, 101u8, 110u8, 116u8],
        Code::MultiStatus => seq![50u8, 48u8, 55u8, 32u8, 77u8, 117u8, 108u8, 116u8, 105u8, 45u8, 83u8, 116u8, 97u8, 116u8, 117u8, 115u8],
        Code::AlreadyReported => seq![50u8, 48u8, 56u8, 32u8, 65u8, 108u8, 114u8, 101u8, 97u8, 100u8, 121u8, 32u8, 82u8, 101u8, 112u8, 111u8, 114u8, 116u8, 101u8, 100u8],
        Code::IMUsed => seq![50u8, 50u8, 54u8, 32u8, 73u8, 77u8, 32u8, 85u8, 115u8, 101u8, 100u8],
        Code::MultipleChoices => seq![51u8, 48u8, 48u8, 32u8, 77u8, 117u8, 108u8, 116u8, 105u8, 112u8, 108u8, 101u8, 32u8, 67u8, 104u8, 111u8, 105u8, 99u8, 101u8, 115u8],
        Code::MovedPermanently => seq![51u8, 48u8, 49u8, 32u8, 77u8, 111u8, 118u8, 101u8, 100u8, 32u8, 80u8, 101u8, 114u8, 109u8, 97u8, 110u8, 101u8, 110u8, 116u8, 108u8, 121u8],
        Code::Found => seq![51u8, 48u8, 50u8, 32u8, 70u8, 111u8, 117u8, 110u8, 100u8],
        Code::SeeOther => seq![51u8, 48u8, 51u8, 32u8, 83u8, 101u8, 101u8, 32u8, 79u8, 116u8, 104u8, 101u8, 114u8],
        Code::NotModified => seq![51u8, 48u8, 52u8, 32u8, 78u8, 111u8, 116u8, 32u8, 77u8, 111u8, 100u8, 105u8, 102u8, 105u8, 101u8, 100u8],
        Code::UseProxy => seq![51u8, 48u8, 53u8, 32u8, 85u8, 115u8, 101u8, 32u8, 80u8, 114u8, 111u8, 120u8, 121u8],
        Code::TemporaryRedirect => seq![51u8, 48u8, 55u8, 32u8, 84u8, 101u8, 109u8, 112u8, 111u8, 114u8, 97u8, 114u8, 121u8, 32u8, 82u8, 101u8, 100u8, 105u8, 114u8, 101u8, 99u8, 116u8],
        Code::PermanentRedirect => seq![51u8, 48u8, 56u8, 32u8, 80u8, 101u8, 114u8, 109u8, 97u8, 110u8, 101u8, 110u8, 116u8, 32u8, 82u8, 101u8, 100u8, 105u8, 114u8, 101u8, 99u8, 116u8],
        Code::BadRequest => seq![52u8, 48u8, 48u8, 32u8, 66u8, 97u8, 100u8, 32u8, 82u8, 101u8, 113u8, 117u8, 101u8, 115u8, 116u8],
        Code::Unauthorized => seq![52u8, 48u8, 49u8, 32u8, 85u8, 110u8, 97u8, 117u8, 116u8, 104u8, 111u8, 114u8, 105u8, 122u8, 101u8, 100u8],
        Code::PaymentRequired => seq![52u8, 48u8, 50u8, 32u8, 80u8, 97u8, 121u8, 109u8, 101u8, 110u8, 116u8, 32u8, 82u8, 101u8, 113u8, 117u8, 105u8, 114u8, 101u8, 100u8],
        Code::Forbidden => seq![52u8, 48u8, 51u8, 32u8, 70u8, 111u8, 114u8, 98u8, 105u8, 100u8, 100u8, 101u8, 110u8],
        Code::NotFound => seq![52u8, 48u8, 52u8, 32u8, 78u8, 111u8, 116u8, 32u8, 70u8, 111u8, 117u8, 110u8, 100u8],
        Code::MethodNotAllowed => seq![52u8, 48u8, 53u8, 32u8, 77u8, 101u8, 116u8, 104u8, 111u8, 100u8, 32u8, 78u8, 111u8, 116u8, 32u8, 65u8, 108u8, 108u8, 111u8, 119u8, 101u8, 100u8],
        Code::NotAcceptable => seq![52u8, 48u8, 54u8, 32u8, 78u8, 111u8, 116u8, 32u8, 65u8, 99u8, 99u8, 101u8, 112u8, 116u8, 97u8, 98u8, 108u8, 101u8],
        Code::ProxyAuthenticationRequired => seq![52u8, 48u8, 55u8, 32u8, 80u8, 114u8, 111u8, 120u8, 121u8, 32u8, 65u8, 117u8, 116u8, 104u8, 101u8, 110u8, 116u8, 105u8, 99u8, 97u8, 116u8, 105u8, 111u8, 110u8, 32u8, 82u8, 101u8, 113u8, 117u8, 105u8, 114u8, 101u8, 100u8],
        Code::RequestTimeout => seq![52u8, 48u8, 56u8, 32u8, 82u8, 101u8, 113u8, 117u8, 101u8, 115u8, 116u8, 32u8, 84u8, 105u8, 109u8, 101u8, 111u8, 117u8, 116u8],
        Code::Conflict => seq![52u8, 48u8, 57u8, 32u8, 67u8, 111u8, 110u8, 102u8, 108u8, 105u8, 99u8, 116u8],
        Code::Gone => seq![52u8, 49u8, 48u8, 32u8, 71u8, 111u8, 110u8, 101u8],
        Code::LengthRequired => seq![52u8, 49u8, 49u8, 32u8, 76u8, 101u8, 110u8, 103u8, 116u8, 104u8, 32u8, 82u8, 101u8, 113u8, 117u8, 105u8, 114u8, 101u8, 100u8],
        Code::PreconditionFailed => seq![52u8, 49u8, 50u8, 32u8, 80u8, 114u8, 101u8, 99u8, 111u8, 110u8, 100u8, 105u8, 116u8, 105u8, 111u8, 110u8, 32u8, 70u8, 97u8, 105u8, 108u8, 101u8, 100u8],
        Code::PayloadTooLarge => seq![52u8, 49u8, 51u8, 32u8, 80u8, 97u8, 121u8, 108u8, 111u8, 97u8, 100u8, 32u8, 84u8, 111u8, 111u8, 32u8, 76u8, 97u8, 114u8, 103u8, 101u8],
        Code::URITooLong => seq![52u8, 49u8, 52u8, 32u8, 85u8, 82u8, 73u8, 32u8, 84u8, 111u8, 111u8, 32u8, 76u8, 111u8, 110u8, 103u8],
        Code::UnsupportedMediaType => seq![52u8, 49u8, 53u8, 32u8, 85u8, 110u8, 115u8, 117u8, 112u8, 112u8, 111u8, 114u8, 116u8, 101u8, 100u8, 32u8, 77u8, 101u8, 100u8, 105u8, 97u8, 32u8, 84u8, 121u8, 112u8, 101u8],
        Code::RangeNotSatisfiable => seq![52u8, 49u8, 54u8, 32u8, 82u8, 97u8, 110u8, 103u8, 101u8, 32u8, 78u8, 111u8, 116u8, 32u8, 83u8, 97u8, 116u8, 105u8, 115u8, 102u8, 105u8, 97u8, 98u8, 108u8, 101u8],
        Code::ExpectationFailed => seq![52u8, 49u8, 55u8, 32u8, 69u8, 120u8, 112u8, 101u8, 99u8, 116u8, 97u8, 116u8, 105u8, 111u8, 110u8, 32u8, 70u8, 97u8, 105u8, 108u8, 101u8, 100u8],
        Code::ImATeapot => seq![52u8, 49u8, 56u8, 32u8, 73u8, 39u8, 109u8, 32u8, 97u8, 32u8, 116u8, 101u8, 97u8, 112u8, 111u8, 116u8],
        Code::MisdirectedRequest => seq![52u8, 50u8, 49u8, 32u8, 77u8, 105u8, 115u8, 100u8, 105u8, 114u8, 101u8, 99u8, 116u8, 101u8, 100u8, 32u8, 82u8, 101u8, 113u8, 117u8, 101u8, 115u8, 116u8],
        Code::UnprocessableContent => seq![52u8, 50u8, 50u8, 32u8, 85u8, 110u8, 112u8, 114u8, 111u8, 99u8, 101u8, 115u8, 115u8, 97u8, 98u8, 108u8, 101u8, 32u8, 67u8, 111u8, 110u8, 116u8, 101u8, 110u8, 116u8],
        Code::Locked => seq![52u8, 50u8, 51u8, 32u8, 76u8, 111u8, 99u8, 107u8, 101u8, 100u8],
        Code::FailedDependency => seq![52u8, 50u8, 52u8, 32u8, 70u8, 97u8, 105u8, 108u8, 101u8, 100u8, 32u8, 68u8, 101u8, 112u8, 101u8, 110u8, 100u8, 101u8, 110u8, 99u8, 121u8],
        Code::TooEarly => seq![52u8, 50u8, 53u8, 32u8, 84u8, 111u8, 111u8, 32u8, 69u8, 97u8, 114u8, 108u8, 121u8],
        Code::UpgradeRequired => seq![52u8, 50u8, 54u8, 32u8, 85u8, 112u8, 103u8, 114u8, 97u8, 100u8, 101u8, 32u8, 82u8, 101u8, 113u8, 117u8, 105u8, 114u8, 101u8, 100u8],
        Code::PreconditionRequired => seq![52u8, 50u8, 56u8, 32u8, 80u8, 114u8, 101u8, 99u8, 111u8, 110u8, 100u8, 105u8, 116u8, 105u8, 111u8, 110u8, 32u8, 82u8, 101u8, 113u8, 117u8, 105u8, 114u8, 101u8, 100u8],
        Code::TooManyRequests => seq![52u8, 50u8, 57u8, 32u8, 84u8, 111u8, 111u8, 32u8, 77u8, 97u8, 110u8, 121u8, 32u8, 82u8, 101u8, 113u8, 117u8, 101u8, 115u8, 116u8, 115u8],
        Code::RequestHeaderFieldsTooLarge => seq![52u8, 51u8, 49u8, 32u8, 82u8, 101u8, 113u8, 117u8, 101u8, 115u8, 116u8, 32u8, 72u8, 101u8, 97u8, 100u8, 101u8, 114u8, 32u8, 70u8, 105u8, 101u8, 108u8, 100u8, 115u8, 32u8, 84u8, 111u8, 111u8, 32u8, 76u8, 97u8, 114u8, 103u8, 101u8],
        Code::UnavailableForLegalReasons => seq![52u8, 53u8, 49u8, 32u8, 85u8, 110u8, 97u8, 118u8, 97u8, 105u8, 108u8, 97u8, 98u8, 108u8, 101u8, 32u8, 70u8, 111u8, 114u8, 32u8, 76u8, 101u8, 103u8, 97u8, 108u8, 32u8, 82u8, 101u8, 97u8, 115u8, 111u8, 110u8, 115u8],
        Code::InternalServerError => seq![53u8, 48u8, 48u8, 32u8, 73u8, 110u8, 116u8, 101u8, 114u8, 110u8, 97u8, 108u8, 32u8, 83u8, 101u8, 114u8, 118u8, 101u8, 114u8, 32u8, 69u8, 114u8, 114u8, 111u8, 114u8],
        Code::NotImplemented => seq![53u8, 48u8, 49u8, 32u8, 78u8, 111u8, 116u8, 32u8, 73u8, 109u8, 112u8, 108u8, 101u8, 109u8, 101u8, 110u8, 116u8, 101u8, 100u8],
        Code::BadGateway => seq![53u8, 48u8, 50u8, 32u8, 66u8, 97u8, 100u8, 32u8, 71u8, 97u8, 116u8, 101u8, 119u8, 97u8, 121u8],
        Code::ServiceUnavailable => seq![53u8, 48u8, 51u8, 32u8, 83u8, 101u8, 114u8, 118u8, 105u8, 99u8, 101u8, 32u8, 85u8, 110u8, 97u8, 118u8, 97u8, 105u8, 108u8, 97u8, 98u8, 108u8, 101u8],
        Code::GatewayTimeout => seq![53u8, 48u8, 52u8, 32u8, 71u8, 97u8, 116u8, 101u8, 119u8, 97u8, 121u8, 32u8, 84u8, 105u8, 109u8, 101u8, 111u8, 117u8, 116u8],
        Code::HTTPVersionNotSupported => seq![53u8, 48u8, 53u8, 32u8, 72u8, 84u8, 84u8, 80u8, 32u8, 86u8, 101u8, 114u8, 115u8, 105u8, 111u8, 110u8, 32u8, 78u8, 111u8, 116u8, 32u8, 83u8, 117u8, 112u8, 112u8, 111u8, 114u8, 116u8, 101u8, 100u8],
        Code::VariantAlsoNegotiates => seq![53u8, 48u8, 54u8, 32u8, 86u8, 97u8, 114u8, 105u8, 97u8, 110u8, 116u8, 32u8, 65u8, 108u8, 115u8, 111u8, 32u8, 78u8, 101u8, 103u8, 111u8, 116u8, 105u8, 97u8, 116u8, 101u8, 115u8],
        Code::InsufficientStorage => seq![53u8, 48u8, 55u8, 32u8, 73u8, 110u8, 115u8, 117u8, 102u8, 102u8, 105u8, 99u8, 105u8, 101u8, 110u8, 116u8, 32u8, 83u8, 116u8, 111u8, 114u8, 97u8, 103u8, 101u8],
        Code::LoopDetected => seq![53u8, 48u8, 56u8, 32u8, 76u8, 111u8, 111u8, 112u8, 32u8, 68u8, 101u8, 116u8, 101u8, 99u8, 116u8, 101u8, 100u8],
        Code::NotExtended => seq![53u8, 49u8, 48u8, 32u8, 78u8, 111u8, 116u8, 32u8, 69u8, 120u8, 116u8, 101u8, 110u8, 100u8, 101u8, 100u8],
        Code::NetworkAuthenticationRequired => seq![53u8, 49u8, 49u8, 32u8, 78u8, 101u8, 116u8, 119u8, 111u8, 114u8, 107u8, 32u8, 65u8, 117u8, 116u8, 104u8, 101u8, 110u8, 116u8, 105u8, 99u8, 97u8, 116u8, 105u8, 111u8, 110u8, 32u8, 82u8, 101u8, 113u8, 117u8, 105u8, 114u8, 101u8, 100u8],
    }
}

/// A code's wire form as characters, for display.
pub open spec fn code_phrase_chars(c: Code) -> Seq<char> {
    match c {
        Code::Continue => "100 Continue"@,
        Code::SwitchingProtocols => "101 Switching Protocols"@,
        Code::Processing => "102 Processing"@,
        Code::EarlyHints => "103 Early Hints"@,
        Code::Okay => "200 OK"@,
        Code::Created => "201 Created"@,
        Code::Accepted => "202 Accepted"@,
        Code::NonAuthoritativeInformation => "203 Non-Authoritative Information"@,
        Code::NoContent => "204 No Content"@,
        Code::ResetContent => "205 Reset Content"@,
        Code::PartialContent => "206 Partial Content"@,
        Code::MultiStatus => "207 Multi-Status"@,
        Code::AlreadyReported => "208 Already Reported"@,
        Code::IMUsed => "226 IM Used"@,
        Code::MultipleChoices => "300 Multiple Choices"@,
        Code::MovedPermanently => "301 Moved Permanently"@,
        Code::Found => "302 Found"@,
        Code::SeeOther => "303 See Other"@,
        Code::NotModified => "304 Not Modified"@,
        Code::UseProxy => "305 Use Proxy"@,
        Code::TemporaryRedirect => "307 Temporary Redirect"@,
        Code::PermanentRedirect => "308 Permanent Redirect"@,
        Code::BadRequest => "400 Bad Request"@,
        Code::Unauthorized => "401 Unauthorized"@,
        Code::PaymentRequired => "402 Payment Required"@,
        Code::Forbidden => "403 Forbidden"@,
        Code::NotFound => "404 Not Found"@,
        Code::MethodNotAllowed => "405 Method Not Allowed"@,
        Code::NotAcceptable => "406 Not Acceptable"@,
        Code::ProxyAuthenticationRequired => "407 Proxy Authentication Required"@,
        Code::RequestTimeout => "408 Request Timeout"@,
        Code::Conflict => "409 Conflict"@,
        Code::Gone => "410 Gone"@,
        Code::LengthRequired => "411 Length Required"@,
        Code::PreconditionFailed => "412 Precondition Failed"@,
        Code::PayloadTooLarge => "413 Payload Too Large"@,
        Code::URITooLong => "414 URI Too Long"@,
        Code::UnsupportedMediaType => "415 Unsupported Media Type"@,
        Code::RangeNotSatisfiable => "416 Range Not Satisfiable"@,
        Code::ExpectationFailed => "417 Expectation Failed"@,
        Code::ImATeapot => "418 I'm a teapot"@,
        Code::MisdirectedRequest => "421 Misdirected Request"@,
        Code::UnprocessableContent => "422 Unprocessable Content"@,
        Code::Locked => "423 Locked"@,
        Code::FailedDependency => "424 Failed Dependency"@,
        Code::TooEarly => "425 Too Early"@,
        Code::UpgradeRequired => "426 Upgrade Required"@,
        Code::PreconditionRequired => "428 Precondition Required"@,
        Code::TooManyRequests => "429 Too Many Requests"@,
        Code::RequestHeaderFieldsTooLarge => "431 Request Header Fields Too Large"@,
        Code::UnavailableForLegalReasons => "451 Unavailable For Legal Reasons"@,
        Code::InternalServerError => "500 Internal Server Error"@,
        Code::NotImplemented => "501 Not Implemented"@,
        Code::BadGateway => "502 Bad Gateway"@,
        Code::ServiceUnavailable => "503 Service Unavailable"@,
        Code::GatewayTimeout => "504 Gateway Timeout"@,
        Code::HTTPVersionNotSupported => "505 HTTP Version Not Supported"@,
        Code::VariantAlsoNegotiates => "506 Variant Also Negotiates"@,
        Code::InsufficientStorage => "507 Insufficient Storage"@,
        Code::LoopDetected => "508 Loop Detected"@,
        Code::NotExtended => "510 Not Extended"@,
        Code::NetworkAuthenticationRequired => "511 Network Authentication Required"@,
    }
}

/// The code a number names, if any.
pub open spec fn from_raw_spec(n: u16) -> Option<Code> {
    if false {
        None
    } else if n == 100 {
        Some(Code::Continue)
    } else if n == 101 {
        Some(Code::SwitchingProtocols)
    } else if n == 102 {
        Some(Code::Processing)
    } else if n == 103 {
        Some(Code::EarlyHints)
    } else if n == 200 {
        Some(Code::Okay)
    } else if n == 201 {
        Some(Code::Created)
    } else if n == 202 {
        Some(Code::Accepted)
    } else if n == 203 {
        Some(Code::NonAuthoritativeInformation)
    } else if n == 204 {
        Some(Code::NoContent)
    } else if n == 205 {
        Some(Code::ResetContent)
    } else if n == 206 {
        Some(Code::PartialContent)
    } else if n == 207 {
        Some(Code::MultiStatus)
    } else if n == 208 {
        Some(Code::AlreadyReported)
    } else if n == 226 {
        Some(Code::IMUsed)
    } else if n == 300 {
        Some(Code::MultipleChoices)
    } else if n == 301 {
        Some(Code::MovedPermanently)
    } else if n == 302 {
        Some(Code::Found)
    } else if n == 303 {
        Some(Code::SeeOther)
    } else if n == 304 {
        Some(Code::NotModified)
    } else if n == 305 {
        Some(Code::UseProxy)
    } else if n == 307 {
        Some(Code::TemporaryRedirect)
    } else if n == 308 {
        Some(Code::PermanentRedirect)
    } else if n == 400 {
        Some(Code::BadRequest)
    } else if n == 401 {
        Some(Code::Unauthorized)
    } else if n == 402 {
        Some(Code::PaymentRequired)
    } else if n == 403 {
        Some(Code::Forbidden)
    } else if n == 404 {
        Some(Code::NotFound)
    } else if n == 405 {
        Some(Code::MethodNotAllowed)
    } else if n == 406 {
        Some(Code::NotAcceptable)
    } else if n == 407 {
        Some(Code::ProxyAuthenticationRequired)
    } else if n == 408 {
        Some(Code::RequestTimeout)
    } else if n == 409 {
        Some(Code::Conflict)
    } else if n == 410 {
        Some(Code::Gone)
    } else if n == 411 {
        Some(Code::LengthRequired)
    } else if n == 412 {
        Some(Code::PreconditionFailed)
    } else if n == 413 {
        Some(Code::PayloadTooLarge)
    } else if n == 414 {
        Some(Code::URITooLong)
    } else if n == 415 {
        Some(Code::UnsupportedMediaType)
    } else if n == 416 {
        Some(Code::RangeNotSatisfiable)
    } else if n == 417 {
        Some(Code::ExpectationFailed)
    } else if n == 418 {
        Some(Code::ImATeapot)
    } else if n == 421 {
        Some(Code::MisdirectedRequest)
    } else if n == 422 {
        Some(Code::UnprocessableContent)
    } else if n == 423 {
        Some(Code::Locked)
    } else if n == 424 {
        Some(Code::FailedDependency)
    } else if n == 425 {
        Some(Code::TooEarly)
    } else if n == 426 {
        Some(Code::UpgradeRequired)
    } else if n == 428 {
        Some(Code::PreconditionRequired)
    } else if n == 429 {
        Some(Code::TooManyRequests)
    } else if n == 431 {
        Some(Code::RequestHeaderFieldsTooLarge)
    } else if n == 451 {
        Some(Code::UnavailableForLegalReasons)
    } else if n == 500 {
        Some(Code::InternalServerError)
    } else if n == 501 {
        Some(Code::NotImplemented)
    } else if n == 502 {
        Some(Code::BadGateway)
    } else if n == 503 {
        Some(Code::ServiceUnavailable)
    } else if n == 504 {
        Some(Code::GatewayTimeout)
    } else if n == 505 {
        Some(Code::HTTPVersionNotSupported)
    } else if n == 506 {
        Some(Code::VariantAlsoNegotiates)
    } else if n == 507 {
        Some(Code::InsufficientStorage)
    } else if n == 508 {
        Some(Code::LoopDetected)
    } else if n == 510 {
        Some(Code::NotExtended)
    } else if n == 511 {
        Some(Code::NetworkAuthenticationRequired)
    } else {
        None
    }
}

/// Parse a status code off the front of `s`: three decimal digits naming a
/// known code, followed by that code's full canonical phrase. Fewer than
/// three bytes, non-digits, or an unknown number give `InvalidCode`; fewer
/// than five bytes, or a phrase mismatch, give `MalformedCode`.
pub open spec fn parse_code(s: Seq<u8>) -> Result<(Code, Seq<u8>), ParsingError> {
    if s.len() < 3 {
        Err(ParsingError::InvalidCode)
    } else if s.len() < 5 {
        Err(ParsingError::MalformedCode)
    } else if !(48 <= s[0] <= 57 && 48 <= s[1] <= 57 && 48 <= s[2] <= 57) {
        Err(ParsingError::InvalidCode)
    } else {
        let n = ((s[0] - 48) * 100 + (s[1] - 48) * 10 + (s[2] - 48)) as u16;
        match from_raw_spec(n) {
            None => Err(ParsingError::InvalidCode),
            Some(c) => if s.len() >= code_phrase(c).len() && s.take(code_phrase(c).len() as int)
                == code_phrase(c) {
                Ok((c, s.skip(code_phrase(c).len() as int)))
            } else {
                Err(ParsingError::MalformedCode)
            },
        }
    }
}

impl Code {
    pub fn as_str(self) -> (r: &'static str)
        ensures
            r@ == code_phrase_chars(self),
    {
        match self {
            Code::Continue => "100 Continue",
            Code::SwitchingProtocols => "101 Switching Protocols",
            Code::Processing => "102 Processing",
            Code::EarlyHints => "103 Early Hints",
            Code::Okay => "200 OK",
            Code::Created => "201 Created",
            Code::Accepted => "202 Accepted",
            Code::NonAuthoritativeInformation => "203 Non-Authoritative Information",
            Code::NoContent => "204 No Content",
            Code::ResetContent => "205 Reset Content",
            Code::PartialContent => "206 Partial Content",
            Code::MultiStatus => "207 Multi-Status",
            Code::AlreadyReported => "208 Already Reported",
            Code::IMUsed => "226 IM Used",
            Code::MultipleChoices => "300 Multiple Choices",
            Code::MovedPermanently => "301 Moved Permanently",
            Code::Found => "302 Found",
            Code::SeeOther => "303 See Other",
            Code::NotModified => "304 Not Modified",
            Code::UseProxy => "305 Use Proxy",
            Code::TemporaryRedirect => "307 Temporary Redirect",
            Code::PermanentRedirect => "308 Permanent Redirect",
            Code::BadRequest => "400 Bad Request",
            Code::Unauthorized => "401 Unauthorized",
            Code::PaymentRequired => "402 Payment Required",
            Code::Forbidden => "403 Forbidden",
            Code::NotFound => "404 Not Found",
            Code::MethodNotAllowed => "405 Method Not Allowed",
            Code::NotAcceptable => "406 Not Acceptable",
            Code::ProxyAuthenticationRequired => "407 Proxy Authentication Required",
            Code::RequestTimeout => "408 Request Timeout",
            Code::Conflict => "409 Conflict",
            Code::Gone => "410 Gone",
            Code::LengthRequired => "411 Length Required",
            Code::PreconditionFailed => "412 Precondition Failed",
            Code::PayloadTooLarge => "413 Payload Too Large",
            Code::URITooLong => "414 URI Too Long",
            Code::UnsupportedMediaType => "415 Unsupported Media Type",
            Code::RangeNotSatisfiable => "416 Range Not Satisfiable",
            Code::ExpectationFailed => "417 Expectation Failed",
            Code::ImATeapot => "418 I'm a teapot",
            Code::MisdirectedRequest => "421 Misdirected Request",
            Code::UnprocessableContent => "422 Unprocessable Content",
            Code::Locked => "423 Locked",
            Code::FailedDependency => "424 Failed Dependency",
            Code::TooEarly => "425 Too Early",
            Code::UpgradeRequired => "426 Upgrade Required",
            Code::PreconditionRequired => "428 Precondition Required",
            Code::TooManyRequests => "429 Too Many Requests",
            Code::RequestHeaderFieldsTooLarge => "431 Request Header Fields Too Large",
            Code::UnavailableForLegalReasons => "451 Unavailable For Legal Reasons",
            Code::InternalServerError => "500 Internal Server Error",
            Code::NotImplemented => "501 Not Implemented",
            Code::BadGateway => "502 Bad Gateway",
            Code::ServiceUnavailable => "503 Service Unavailable",
            Code::GatewayTimeout => "504 Gateway Timeout",
            Code::HTTPVersionNotSupported => "505 HTTP Version Not Supported",
            Code::VariantAlsoNegotiates => "506 Variant Also Negotiates",
            Code::InsufficientStorage => "507 Insufficient Storage",
            Code::LoopDetected => "508 Loop Detected",
            Code::NotExtended => "510 Not Extended",
            Code::NetworkAuthenticationRequired => "511 Network Authentication Required",
        }
    }

    pub fn as_bytes(self) -> (r: &'static [u8])
        ensures
            r@ == code_phrase(self),
    {
        match self {
            Code::Continue => &[49u8, 48u8, 48u8, 32u8, 67u8, 111u8, 110u8, 116u8, 105u8, 110u8, 117u8, 101u8],
            Code::SwitchingProtocols => &[49u8, 48u8, 49u8, 32u8, 83u8, 119u8, 105u8, 116u8, 99u8, 104u8, 105u8, 110u8, 103u8, 32u8, 80u8, 114u8, 111u8, 116u8, 111u8, 99u8, 111u8, 108u8, 115u8],
            Code::Processing => &[49u8, 48u8, 50u8, 32u8, 80u8, 114u8, 111u8, 99u8, 101u8, 115u8, 115u8, 105u8, 110u8, 103u8],
            Code::EarlyHints => &[49u8, 48u8, 51u8, 32u8, 69u8, 97u8, 114u8, 108u8, 121u8, 32u8, 72u8, 105u8, 110u8, 116u8, 115u8],
            Code::Okay => &[50u8, 48u8, 48u8, 32u8, 79u8, 75u8],
            Code::Created => &[50u8, 48u8, 49u8, 32u8, 67u8, 114u8, 101u8, 97u8, 116u8, 101u8, 100u8],
            Code::Accepted => &[50u8, 48u8, 50u8, 32u8, 65u8, 99u8, 99u8, 101u8, 112u8, 116u8, 101u8, 100u8],
            Code::NonAuthoritativeInformation => &[50u8, 48u8, 51u8, 32u8, 78u8, 111u8, 110u8, 45u8, 65u8, 117u8, 116u8, 104u8, 111u8, 114u8, 105u8, 116u8, 97u8, 116u8, 105u8, 118u8, 101u8, 32u8, 73u8, 110u8, 102u8, 111u8, 114u8, 109u8, 97u8, 116u8, 105u8, 111u8, 110u8],
            Code::NoContent => &[50u8, 48u8, 52u8, 32u8, 78u8, 111u8, 32u8, 67u8, 111u8, 110u8, 116u8, 101u8, 110u8, 116u8],
            Code::ResetContent => &[50u8, 48u8, 53u8, 32u8, 82u8, 101u8, 115u8, 101u8, 116u8, 32u8, 67u8, 111u8, 110u8, 116u8, 101u8, 110u8, 116u8],
            Code::PartialContent => &[50u8, 48u8, 54u8, 32u8, 80u8, 97u8, 114u8, 116u8, 105u8, 97u8, 108u8, 32u8, 67u8, 111u8, 110u8, 116u8, 101u8, 110u8, 116u8],
            Code::MultiStatus => &[50u8, 48u8, 55u8, 32u8, 77u8, 117u8, 108u8, 116u8, 105u8, 45u8, 83u8, 116u8, 97u8, 116u8, 117u8, 115u8],
            Code::AlreadyReported => &[50u8, 48u8, 56u8, 32u8, 65u8, 108u8, 114u8, 101u8, 97u8, 100u8, 121u8, 32u8, 82u8, 101u8, 112u8, 111u8, 114u8, 116u8, 101u8, 100u8],
            Code::IMUsed => &[50u8, 50u8, 54u8, 32u8, 73u8, 77u8, 32u8, 85u8, 115u8, 101u8, 100u8],
            Code::MultipleChoices => &[51u8, 48u8, 48u8, 32u8, 77u8, 117u8, 108u8, 116u8, 105u8, 112u8, 108u8, 101u8, 32u8, 67u8, 104u8, 111u8, 105u8, 99u8, 101u8, 115u8],
            Code::MovedPermanently => &[51u8, 48u8, 49u8, 32u8, 77u8, 111u8, 118u8, 101u8, 100u8, 32u8, 80u8, 101u8, 114u8, 109u8, 97u8, 110u8, 101u8, 110u8, 116u8, 108u8, 121u8],
            Code::Found => &[51u8, 48u8, 50u8, 32u8, 70u8, 111u8, 117u8, 110u8, 100u8],
            Code::SeeOther => &[51u8, 48u8, 51u8, 32u8, 83u8, 101u8, 101u8, 32u8, 79u8, 116u8, 104u8, 101u8, 114u8],
            Code::NotModified => &[51u8, 48u8, 52u8, 32u8, 78u8, 111u8, 116u8, 32u8, 77u8, 111u8, 100u8, 105u8, 102u8, 105u8, 101u8, 100u8],
            Code::UseProxy => &[51u8, 48u8, 53u8, 32u8, 85u8, 115u8, 101u8, 32u8, 80u8, 114u8, 111u8, 120u8, 121u8],
            Code::TemporaryRedirect => &[51u8, 48u8, 55u8, 32u8, 84u8, 101u8, 109u8, 112u8, 111u8, 114u8, 97u8, 114u8, 121u8, 32u8, 82u8, 101u8, 100u8, 105u8, 114u8, 101u8, 99u8, 116u8],
            Code::PermanentRedirect => &[51u8, 48u8, 56u8, 32u8, 80u8, 101u8, 114u8, 109u8, 97u8, 110u8, 101u8, 110u8, 116u8, 32u8, 82u8, 101u8, 100u8, 105u8, 114u8, 101u8, 99u8, 116u8],
            Code::BadRequest => &[52u8, 48u8, 48u8, 32u8, 66u8, 97u8, 100u8, 32u8, 82u8, 101u8, 113u8, 117u8, 101u8, 115u8, 116u8],
            Code::Unauthorized => &[52u8, 48u8, 49u8, 32u8, 85u8, 110u8, 97u8, 117u8, 116u8, 104u8, 111u8, 114u8, 105u8, 122u8, 101u8, 100u8],
            Code::PaymentRequired => &[52u8, 48u8, 50u8, 32u8, 80u8, 97u8, 121u8, 109u8, 101u8, 110u8, 116u8, 32u8, 82u8, 101u8, 113u8, 117u8, 105u8, 114u8, 101u8, 100u8],
            Code::Forbidden => &[52u8, 48u8, 51u8, 32u8, 70u8, 111u8, 114u8, 98u8, 105u8, 100u8, 100u8, 101u8, 110u8],
            Code::NotFound => &[52u8, 48u8, 52u8, 32u8, 78u8, 111u8, 116u8, 32u8, 70u8, 111u8, 117u8, 110u8, 100u8],
            Code::MethodNotAllowed => &[52u8, 48u8, 53u8, 32u8, 77u8, 101u8, 116u8, 104u8, 111u8, 100u8, 32u8, 78u8, 111u8, 116u8, 32u8, 65u8, 108u8, 108u8, 111u8, 119u8, 101u8, 100u8],
            Code::NotAcceptable => &[52u8, 48u8, 54u8, 32u8, 78u8, 111u8, 116u8, 32u8, 65u8, 99u8, 99u8, 101u8, 112u8, 116u8, 97u8, 98u8, 108u8, 101u8],
            Code::ProxyAuthenticationRequired => &[52u8, 48u8, 55u8, 32u8, 80u8, 114u8, 111u8, 120u8, 121u8, 32u8, 65u8, 117u8, 116u8, 104u8, 101u8, 110u8, 116u8, 105u8, 99u8, 97u8, 116u8, 105u8, 111u8, 110u8, 32u8, 82u8, 101u8, 113u8, 117u8, 105u8, 114u8, 101u8, 100u8],
            Code::RequestTimeout => &[52u8, 48u8, 56u8, 32u8, 82u8, 101u8, 113u8, 117u8, 101u8, 115u8, 116u8, 32u8, 84u8, 105u8, 109u8, 101u8, 111u8, 117u8, 116u8],
            Code::Conflict => &[52u8, 48u8, 57u8, 32u8, 67u8, 111u8, 110u8, 102u8, 108u8, 105u8, 99u8, 116u8],
            Code::Gone => &[52u8, 49u8, 48u8, 32u8, 71u8, 111u8, 110u8, 101u8],
            Code::LengthRequired => &[52u8, 49u8, 49u8, 32u8, 76u8, 101u8, 110u8, 103u8, 116u8, 104u8, 32u8, 82u8, 101u8, 113u8, 117u8, 105u8, 114u8, 101u8, 100u8],
            Code::PreconditionFailed => &[52u8, 49u8, 50u8, 32u8, 80u8, 114u8, 101u8, 99u8, 111u8, 110u8, 100u8, 105u8, 116u8, 105u8, 111u8, 110u8, 32u8, 70u8, 97u8, 105u8, 108u8, 101u8, 100u8],
            Code::PayloadTooLarge => &[52u8, 49u8, 51u8, 32u8, 80u8, 97u8, 121u8, 108u8, 111u8, 97u8, 100u8, 32u8, 84u8, 111u8, 111u8, 32u8, 76u8, 97u8, 114u8, 103u8, 101u8],
            Code::URITooLong => &[52u8, 49u8, 52u8, 32u8, 85u8, 82u8, 73u8, 32u8, 84u8, 111u8, 111u8, 32u8, 76u8, 111u8, 110u8, 103u8],
            Code::UnsupportedMediaType => &[52u8, 49u8, 53u8, 32u8, 85u8, 110u8, 115u8, 117u8, 112u8, 112u8, 111u8, 114u8, 116u8, 101u8, 100u8, 32u8, 77u8, 101u8, 100u8, 105u8, 97u8, 32u8, 84u8, 121u8, 112u8, 101u8],
            Code::RangeNotSatisfiable => &[52u8, 49u8, 54u8, 32u8, 82u8, 97u8, 110u8, 103u8, 101u8, 32u8, 78u8, 111u8, 116u8, 32u8, 83u8, 97u8, 116u8, 105u8, 115u8, 102u8, 105u8, 97u8, 98u8, 108u8, 101u8],
            Code::ExpectationFailed => &[52u8, 49u8, 55u8, 32u8, 69u8, 120u8, 112u8, 101u8, 99u8, 116u8, 97u8, 116u8, 105u8, 111u8, 110u8, 32u8, 70u8, 97u8, 105u8, 108u8, 101u8, 100u8],
            Code::ImATeapot => &[52u8, 49u8, 56u8, 32u8, 73u8, 39u8, 109u8, 32u8, 97u8, 32u8, 116u8, 101u8, 97u8, 112u8, 111u8, 116u8],
            Code::MisdirectedRequest => &[52u8, 50u8, 49u8, 32u8, 77u8, 105u8, 115u8, 100u8, 105u8, 114u8, 101u8, 99u8, 116u8, 101u8, 100u8, 32u8, 82u8, 101u8, 113u8, 117u8, 101u8, 115u8, 116u8],
            Code::UnprocessableContent => &[52u8, 50u8, 50u8, 32u8, 85u8, 110u8, 112u8, 114u8, 111u8, 99u8, 101u8, 115u8, 115u8, 97u8, 98u8, 108u8, 101u8, 32u8, 67u8, 111u8, 110u8, 116u8, 101u8, 110u8, 116u8],
            Code::Locked => &[52u8, 50u8, 51u8, 32u8, 76u8, 111u8, 99u8, 107u8, 101u8, 100u8],
            Code::FailedDependency => &[52u8, 50u8, 52u8, 32u8, 70u8, 97u8, 105u8, 108u8, 101u8, 100u8, 32u8, 68u8, 101u8, 112u8, 101u8, 110u8, 100u8, 101u8, 110u8, 99u8, 121u8],
            Code::TooEarly => &[52u8, 50u8, 53u8, 32u8, 84u8, 111u8, 111u8, 32u8, 69u8, 97u8, 114u8, 108u8, 121u8],
            Code::UpgradeRequired => &[52u8, 50u8, 54u8, 32u8, 85u8, 112u8, 103u8, 114u8, 97u8, 100u8, 101u8, 32u8, 82u8, 101u8, 113u8, 117u8, 105u8, 114u8, 101u8, 100u8],
            Code::PreconditionRequired => &[52u8, 50u8, 56u8, 32u8, 80u8, 114u8, 101u8, 99u8, 111u8, 110u8, 100u8, 105u8, 116u8, 105u8, 111u8, 110u8, 32u8, 82u8, 101u8, 113u8, 117u8, 105u8, 114u8, 101u8, 100u8],
            Code::TooManyRequests => &[52u8, 50u8, 57u8, 32u8, 84u8, 111u8, 111u8, 32u8, 77u8, 97u8, 110u8, 121u8, 32u8, 82u8, 101u8, 113u8, 117u8, 101u8, 115u8, 116u8, 115u8],
            Code::RequestHeaderFieldsTooLarge => &[52u8, 51u8, 49u8, 32u8, 82u8, 101u8, 113u8, 117u8, 101u8, 115u8, 116u8, 32u8, 72u8, 101u8, 97u8, 100u8, 101u8, 114u8, 32u8, 70u8, 105u8, 101u8, 108u8, 100u8, 115u8, 32u8, 84u8, 111u8, 111u8, 32u8, 76u8, 97u8, 114u8, 103u8, 101u8],
            Code::UnavailableForLegalReasons => &[52u8, 53u8, 49u8, 32u8, 85u8, 110u8, 97u8, 118u8, 97u8, 105u8, 108u8, 97u8, 98u8, 108u8, 101u8, 32u8, 70u8, 111u8, 114u8, 32u8, 76u8, 101u8, 103u8, 97u8, 108u8, 32u8, 82u8, 101u8, 97u8, 115u8, 111u8, 110u8, 115u8],
            Code::InternalServerError => &[53u8, 48u8, 48u8, 32u8, 73u8, 110u8, 116u8, 101u8, 114u8, 110u8, 97u8, 108u8, 32u8, 83u8, 101u8, 114u8, 118u8, 101u8, 114u8, 32u8, 69u8, 114u8, 114u8, 111u8, 114u8],
            Code::NotImplemented => &[53u8, 48u8, 49u8, 32u8, 78u8, 111u8, 116u8, 32u8, 73u8, 109u8, 112u8, 108u8, 101u8, 109u8, 101u8, 110u8, 116u8, 101u8, 100u8],
            Code::BadGateway => &[53u8, 48u8, 50u8, 32u8, 66u8, 97u8, 100u8, 32u8, 71u8, 97u8, 116u8, 101u8, 119u8, 97u8, 121u8],
            Code::ServiceUnavailable => &[53u8, 48u8, 51u8, 32u8, 83u8, 101u8, 114u8, 118u8, 105u8, 99u8, 101u8, 32u8, 85u8, 110u8, 97u8, 118u8, 97u8, 105u8, 108u8, 97u8, 98u8, 108u8, 101u8],
            Code::GatewayTimeout => &[53u8, 48u8, 52u8, 32u8, 71u8, 97u8, 116u8, 101u8, 119u8, 97u8, 121u8, 32u8, 84u8, 105u8, 109u8, 101u8, 111u8, 117u8, 116u8],
            Code::HTTPVersionNotSupported => &[53u8, 48u8, 53u8, 32u8, 72u8, 84u8, 84u8, 80u8, 32u8, 86u8, 101u8, 114u8, 115u8, 105u8, 111u8, 110u8, 32u8, 78u8, 111u8, 116u8, 32u8, 83u8, 117u8, 112u8, 112u8, 111u8, 114u8, 116u8, 101u8, 100u8],
            Code::VariantAlsoNegotiates => &[53u8, 48u8, 54u8, 32u8, 86u8, 97u8, 114u8, 105u8, 97u8, 110u8, 116u8, 32u8, 65u8, 108u8, 115u8, 111u8, 32u8, 78u8, 101u8, 103u8, 111u8, 116u8, 105u8, 97u8, 116u8, 101u8, 115u8],
            Code::InsufficientStorage => &[53u8, 48u8, 55u8, 32u8, 73u8, 110u8, 115u8, 117u8, 102u8, 102u8, 105u8, 99u8, 105u8, 101u8, 110u8, 116u8, 32u8, 83u8, 116u8, 111u8, 114u8, 97u8, 103u8, 101u8],
            Code::LoopDetected => &[53u8, 48u8, 56u8, 32u8, 76u8, 111u8, 111u8, 112u8, 32u8, 68u8, 101u8, 116u8, 101u8, 99u8, 116u8, 101u8, 100u8],
            Code::NotExtended => &[53u8, 49u8, 48u8, 32u8, 78u8, 111u8, 116u8, 32u8, 69u8, 120u8, 116u8, 101u8, 110u8, 100u8, 101u8, 100u8],
            Code::NetworkAuthenticationRequired => &[53u8, 49u8, 49u8, 32u8, 78u8, 101u8, 116u8, 119u8, 111u8, 114u8, 107u8, 32u8, 65u8, 117u8, 116u8, 104u8, 101u8, 110u8, 116u8, 105u8, 99u8, 97u8, 116u8, 105u8, 111u8, 110u8, 32u8, 82u8, 101u8, 113u8, 117u8, 105u8, 114u8, 101u8, 100u8],
        }
    }

    /// Consume a status code and its reason phrase off the front of the
    /// buffer.
    pub fn from_bytes(bytes: &mut bytes::Bytes) -> (r: Result<Self, ParsingError>)
        ensures
            match r {
                Ok(c) => parse_code(contents(*old(bytes))) == Ok::<(Code, Seq<u8>), ParsingError>(
                    (c, contents(*final(bytes))),
                ),
                Err(e) => parse_code(contents(*old(bytes))) == Err::<(Code, Seq<u8>), ParsingError>(
                    e,
                ),
            },
    {
        let len = bytes_len(bytes);
        if len < 3 {
            return Err(ParsingError::InvalidCode);
        } else if len < 5 {
            return Err(ParsingError::MalformedCode);
        }
        let d0 = bytes_at(bytes, 0);
        let d1 = bytes_at(bytes, 1);
        let d2 = bytes_at(bytes, 2);
        if !(48 <= d0 && d0 <= 57 && 48 <= d1 && d1 <= 57 && 48 <= d2 && d2 <= 57) {
            return Err(ParsingError::InvalidCode);
        }
        let raw = (d0 - 48) as u16 * 100 + (d1 - 48) as u16 * 10 + (d2 - 48) as u16;
        let code = match Self::from_raw(raw) {
            None => {
                return Err(ParsingError::InvalidCode);
            },
            Some(code) => code,
        };
        if !bytes.advance_bytes(code.as_bytes()) {
            return Err(ParsingError::MalformedCode);
        }
        Ok(code)
    }

    /// The code a number names, if any.
    pub fn from_raw(code: u16) -> (r: Option<Self>)
        ensures
            r == from_raw_spec(code),
    {
        match code {
            100 => Some(Code::Continue),
            101 => Some(Code::SwitchingProtocols),
            102 => Some(Code::Processing),
            103 => Some(Code::EarlyHints),
            200 => Some(Code::Okay),
            201 => Some(Code::Created),
            202 => Some(Code::Accepted),
            203 => Some(Code::NonAuthoritativeInformation),
            204 => Some(Code::NoContent),
            205 => Some(Code::ResetContent),
            206 => Some(Code::PartialContent),
            207 => Some(Code::MultiStatus),
            208 => Some(Code::AlreadyReported),
            226 => Some(Code::IMUsed),
            300 => Some(Code::MultipleChoices),
            301 => Some(Code::MovedPermanently),
            302 => Some(Code::Found),
            303 => Some(Code::SeeOther),
            304 => Some(Code::NotModified),
            305 => Some(Code::UseProxy),
            307 => Some(Code::TemporaryRedirect),
            308 => Some(Code::PermanentRedirect),
            400 => Some(Code::BadRequest),
            401 => Some(Code::Unauthorized),
            402 => Some(Code::PaymentRequired),
            403 => Some(Code::Forbidden),
            404 => Some(Code::NotFound),
            405 => Some(Code::MethodNotAllowed),
            406 => Some(Code::NotAcceptable),
            407 => Some(Code::ProxyAuthenticationRequired),
            408 => Some(Code::RequestTimeout),
            409 => Some(Code::Conflict),
            410 => Some(Code::Gone),
            411 => Some(Code::LengthRequired),
            412 => Some(Code::PreconditionFailed),
            413 => Some(Code::PayloadTooLarge),
            414 => Some(Code::URITooLong),
            415 => Some(Code::UnsupportedMediaType),
            416 => Some(Code::RangeNotSatisfiable),
            417 => Some(Code::ExpectationFailed),
            418 => Some(Code::ImATeapot),
            421 => Some(Code::MisdirectedRequest),
            422 => Some(Code::UnprocessableContent),
            423 => Some(Code::Locked),
            424 => Some(Code::FailedDependency),
            425 => Some(Code::TooEarly),
            426 => Some(Code::UpgradeRequired),
            428 => Some(Code::PreconditionRequired),
            429 => Some(Code::TooManyRequests),
            431 => Some(Code::RequestHeaderFieldsTooLarge),
            451 => Some(Code::UnavailableForLegalReasons),
            500 => Some(Code::InternalServerError),
            501 => Some(Code::NotImplemented),
            502 => Some(Code::BadGateway),
            503 => Some(Code::ServiceUnavailable),
            504 => Some(Code::GatewayTimeout),
            505 => Some(Code::HTTPVersionNotSupported),
            506 => Some(Code::VariantAlsoNegotiates),
            507 => Some(Code::InsufficientStorage),
            508 => Some(Code::LoopDetected),
            510 => Some(Code::NotExtended),
            511 => Some(Code::NetworkAuthenticationRequired),
            _ => None,
        }
    }
}

} // verus!
