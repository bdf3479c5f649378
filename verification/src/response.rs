use vstd::prelude::*;

pub mod code;

pub use code::Code;

use crate::advance::Advance;
use crate::buffer::{bytes_as_slice, bytes_copy_from_slice, bytes_from_vec, bytes_len, bytes_new,
    bytes_split_to, contents};
use crate::chars::{crlf, is_date_char, CR, LF, SP};
use crate::field::{self, date_name, parse_fields_from, ser_fields, upsert, Fields, FieldsView,
    vec_push_slice};
use crate::request::{content_length_name, content_type_name, declared_length, text_plain};
use crate::response::code::{code_phrase, parse_code};
use crate::transcode::{decimal_of, parse_content_length, push_decimal};
use crate::version::{parse_version, ser_version, Version};
use vstd::string::StringSliceAdditionalSpecFns;
use vstd::utf8::encode_utf8;

verus! {

/// Why a response failed to parse. `BodyShorterThanStream` reports a
/// declared `Content-Length` larger than what the buffer holds, which would
/// otherwise be an out-of-bounds slice.
#[derive(Clone, Copy, PartialEq, Eq, Structural, Debug)]
pub enum ParsingError {
    VersionMalformed,
    Code(code::ParsingError),
    MalformedStartLine,
    Header(field::ParsingError),
    BodyLongerThanStream,
    BodyShorterThanStream,
    Trailer(field::ParsingError),
}

impl ParsingError {
    pub fn as_str(self) -> &'static str {
        match self {
            ParsingError::VersionMalformed => "version malformed",
            ParsingError::Code(err) => err.as_str(),
            ParsingError::MalformedStartLine => "start line is malformed",
            ParsingError::Header(field::ParsingError::Malformed) => "malformed header",
            ParsingError::Header(
                field::ParsingError::IncorrectlyTerminated,
            ) => "incorrectly terminated header",
            ParsingError::Header(field::ParsingError::NameMissing) => "header name is missing",
            ParsingError::Header(field::ParsingError::ValueTooLong) => "header value too long",
            ParsingError::Header(
                field::ParsingError::ValueInvalidToken,
            ) => "header value contains an invalid token character",
            ParsingError::Header(
                field::ParsingError::ValueInvalidQuotedText,
            ) => "header value contains invalid quoted text",
            ParsingError::Header(
                field::ParsingError::InvalidCommentCharacter,
            ) => "header comment contains an invalid character",
            ParsingError::BodyLongerThanStream => "stream continues after Content-Length bytes",
            ParsingError::BodyShorterThanStream => "stream ended before Content-Length was reached",
            ParsingError::Trailer(field::ParsingError::Malformed) => "malformed trailer",
            ParsingError::Trailer(
                field::ParsingError::IncorrectlyTerminated,
            ) => "incorrectly terminated trailer",
            ParsingError::Trailer(field::ParsingError::NameMissing) => "trailer name is missing",
            ParsingError::Trailer(field::ParsingError::ValueTooLong) => "trailer value too long",
            ParsingError::Trailer(
                field::ParsingError::ValueInvalidToken,
            ) => "trailer value contains an invalid token character",
            ParsingError::Trailer(
                field::ParsingError::ValueInvalidQuotedText,
            ) => "trailer value contains invalid quoted text",
            ParsingError::Trailer(
                field::ParsingError::InvalidCommentCharacter,
            ) => "trailer comment contains an invalid character",
        }
    }
}

/// What a response parses to, and what serialization reproduces.
pub struct ResponseView {
    pub version: Version,
    pub code: Code,
    pub headers: FieldsView,
    pub body: Seq<u8>,
    pub trailers: FieldsView,
}

/// Parse a whole response: version, space, status code with its reason
/// phrase, line terminator, headers, then exactly the declared
/// `Content-Length` bytes as the body. Parsed trailers are always empty.
pub open spec fn parse_response(s: Seq<u8>) -> Result<ResponseView, ParsingError> {
    match parse_version(s) {
        Err(_) => Err(ParsingError::VersionMalformed),
        Ok((v, s1)) => {
            if s1.len() == 0 || s1[0] != SP {
                Err(ParsingError::MalformedStartLine)
            } else {
                match parse_code(s1.skip(1)) {
                    Err(ce) => Err(ParsingError::Code(ce)),
                    Ok((c, s2)) => {
                        if !(s2.len() >= 2 && s2[0] == CR && s2[1] == LF) {
                            Err(ParsingError::MalformedStartLine)
                        } else {
                            match parse_fields_from(s2.skip(2), Seq::empty()) {
                                Err(fe) => Err(ParsingError::Header(fe)),
                                Ok((hv, s3)) => {
                                    let cl = declared_length(hv);
                                    if cl < s3.len() {
                                        Err(ParsingError::BodyLongerThanStream)
                                    } else if cl > s3.len() {
                                        Err(ParsingError::BodyShorterThanStream)
                                    } else {
                                        Ok(
                                            ResponseView {
                                                version: v,
                                                code: c,
                                                headers: hv,
                                                body: s3,
                                                trailers: Seq::empty(),
                                            },
                                        )
                                    }
                                },
                            }
                        }
                    },
                }
            }
        },
    }
}

/// A response's wire form.
pub open spec fn ser_response(rv: ResponseView) -> Seq<u8> {
    ser_version(rv.version) + seq![SP] + code_phrase(rv.code) + crlf() + ser_fields(rv.headers)
        + rv.body + ser_fields(rv.trailers)
}

/// Relies on `httpdate::fmt_http_date` applied to the current time: its
/// result is always the 29-byte IMF-fixdate form, whose bytes are ASCII
/// letters, digits, spaces, commas and colons — all date-value characters.
/// `httpdate` panics on a system clock before the Unix epoch or past the
/// year 9999.
#[verifier::external_body]
fn http_date_now() -> (r: Vec<u8>)
    ensures
        r@.len() == 29,
        forall|i: int| 0 <= i < r@.len() ==> is_date_char(#[trigger] r@[i]),
{
    httpdate::fmt_http_date(std::time::SystemTime::now()).into_bytes()
}

/// A full response message.
#[derive(Debug)]
pub struct Response {
    pub version: Version,
    pub code: Code,
    pub headers: Fields,
    pub body: bytes::Bytes,
    pub trailers: Fields,
}

impl View for Response {
    type V = ResponseView;

    open spec fn view(&self) -> ResponseView {
        ResponseView {
            version: self.version,
            code: self.code,
            headers: self.headers@,
            body: contents(self.body),
            trailers: self.trailers@,
        }
    }
}

impl Response {
    /// The version digits are single decimal digits and the field blocks
    /// satisfy their invariant.
    pub open spec fn wf(&self) -> bool {
        self.version.0 < 10 && self.version.1 < 10 && self.headers.wf() && self.trailers.wf()
    }

    pub fn builder(code: Code) -> (r: Builder)
        ensures
            r.wf(),
            r@.code == code,
            r@.version == Version(1, 1),
            Response::fresh_view(r@),
    {
        Builder::new(code)
    }

    /// What a freshly built response's variable parts look like: one `Date`
    /// header holding one 29-byte date-shaped value, no body, no trailers.
    pub open spec fn fresh_view(rv: ResponseView) -> bool {
        &&& rv.headers.len() == 1
        &&& rv.headers[0].0 == date_name()
        &&& rv.headers[0].1.len() == 1
        &&& rv.headers[0].1[0].len() == 29
        &&& (forall|i: int|
            0 <= i < rv.headers[0].1[0].len() ==> is_date_char(#[trigger] rv.headers[0].1[0][i]))
        &&& rv.body == Seq::<u8>::empty()
        &&& rv.trailers == Seq::<(Seq<u8>, Seq<Seq<u8>>)>::empty()
    }

    /// A response with the given code, version 1.1, and a `Date` header
    /// holding the current time.
    pub fn new(code: Code) -> (r: Self)
        ensures
            r.wf(),
            r@.code == code,
            r@.version == Version(1, 1),
            Response::fresh_view(r@),
    {
        let date = http_date_now();
        let mut headers = Fields::new();
        headers.add_header_value(
            bytes_copy_from_slice(&[68u8, 97u8, 116u8, 101u8]),
            bytes_from_vec(date),
        );
        let r = Response {
            version: Version(1, 1),
            code,
            headers,
            body: bytes_new(),
            trailers: Fields::new(),
        };
        r
    }

    /// Add one header value, appending when the name is already present.
    pub fn add_header_value(&mut self, name: bytes::Bytes, value: bytes::Bytes)
        requires
            old(self).wf(),
        ensures
            final(self).wf(),
            final(self)@ == (ResponseView {
                headers: upsert(old(self)@.headers, contents(name), seq![contents(value)]),
                ..old(self)@
            }),
    {
        self.headers.add_header_value(name, value);
    }

    /// Attach a plain-text body, setting `Content-Length` and
    /// `Content-Type`.
    pub fn body(&mut self, body: String)
        requires
            old(self).wf(),
        ensures
            final(self).wf(),
            final(self)@ == (ResponseView {
                headers: upsert(
                    upsert(
                        old(self)@.headers,
                        content_length_name(),
                        seq![decimal_of(encode_utf8(body@).len() as int)],
                    ),
                    content_type_name(),
                    seq![text_plain()],
                ),
                body: encode_utf8(body@),
                ..old(self)@
            }),
    {
        let ct = bytes_copy_from_slice(
            &[116u8, 101u8, 120u8, 116u8, 47u8, 112u8, 108u8, 97u8, 105u8, 110u8],
        );
        self.body_of_type(bytes_from_vec(body.as_bytes_vec()), ct);
    }

    /// Set `Content-Length` and `Content-Type` for a body carried
    /// elsewhere, without attaching it.
    pub fn no_body(&mut self, body: &str)
        requires
            old(self).wf(),
        ensures
            final(self).wf(),
            final(self)@ == (ResponseView {
                headers: upsert(
                    upsert(
                        old(self)@.headers,
                        content_length_name(),
                        seq![decimal_of(body.spec_bytes().len() as int)],
                    ),
                    content_type_name(),
                    seq![text_plain()],
                ),
                ..old(self)@
            }),
    {
        let ct = bytes_copy_from_slice(
            &[116u8, 101u8, 120u8, 116u8, 47u8, 112u8, 108u8, 97u8, 105u8, 110u8],
        );
        self.no_body_of_type(body.as_bytes(), ct);
    }

    /// Attach a body of the given media type, setting `Content-Length` and
    /// `Content-Type`.
    pub fn body_of_type(&mut self, body: bytes::Bytes, content_type: bytes::Bytes)
        requires
            old(self).wf(),
        ensures
            final(self).wf(),
            final(self)@ == (ResponseView {
                headers: upsert(
                    upsert(
                        old(self)@.headers,
                        content_length_name(),
                        seq![decimal_of(contents(body).len() as int)],
                    ),
                    content_type_name(),
                    seq![contents(content_type)],
                ),
                body: contents(body),
                ..old(self)@
            }),
    {
        self.no_body_of_type(bytes_as_slice(&body), content_type);
        self.body = body;
    }

    /// Set `Content-Length` to the body's length and `Content-Type` to the
    /// given type, without attaching the body.
    pub fn no_body_of_type(&mut self, body: &[u8], content_type: bytes::Bytes)
        requires
            old(self).wf(),
        ensures
            final(self).wf(),
            final(self)@ == (ResponseView {
                headers: upsert(
                    upsert(
                        old(self)@.headers,
                        content_length_name(),
                        seq![decimal_of(body@.len() as int)],
                    ),
                    content_type_name(),
                    seq![contents(content_type)],
                ),
                ..old(self)@
            }),
    {
        let mut digits: Vec<u8> = Vec::new();
        push_decimal(body.len(), &mut digits);
        proof {
            assert(Seq::<u8>::empty() + decimal_of(body@.len() as int) =~= decimal_of(
                body@.len() as int,
            ));
        }
        let cl_name = bytes_copy_from_slice(
            &[67u8, 111u8, 110u8, 116u8, 101u8, 110u8, 116u8, 45u8, 76u8, 101u8, 110u8, 103u8,
                116u8, 104u8],
        );
        self.add_header_value(cl_name, bytes_from_vec(digits));
        let ct_name = bytes_copy_from_slice(
            &[67u8, 111u8, 110u8, 116u8, 101u8, 110u8, 116u8, 45u8, 84u8, 121u8, 112u8, 101u8],
        );
        self.add_header_value(ct_name, content_type);
    }

    /// Parse a whole response off the buffer; on success the buffer is fully
    /// consumed.
    pub fn from_bytes(bytes: &mut bytes::Bytes) -> (r: Result<Self, ParsingError>)
        ensures
            match r {
                Ok(res) => parse_response(contents(*old(bytes))) == Ok::<
                    ResponseView,
                    ParsingError,
                >(res@) && res.wf() && contents(*final(bytes)).len() == 0,
                Err(e) => parse_response(contents(*old(bytes))) == Err::<
                    ResponseView,
                    ParsingError,
                >(e),
            },
    {
        let version = match Version::from_bytes(bytes) {
            Err(_) => {
                return Err(ParsingError::VersionMalformed);
            },
            Ok(v) => v,
        };
        if !bytes.advance_byte(SP) {
            return Err(ParsingError::MalformedStartLine);
        }
        let code = match Code::from_bytes(bytes) {
            Err(ce) => {
                return Err(ParsingError::Code(ce));
            },
            Ok(c) => c,
        };
        let ghost s2 = contents(*bytes);
        if !bytes.advance_bytes(&[CR, LF]) {
            proof {
                if s2.len() >= 2 && s2[0] == CR && s2[1] == LF {
                    assert(s2.take(2) =~= seq![CR, LF]);
                }
            }
            return Err(ParsingError::MalformedStartLine);
        }
        proof {
            assert(s2[0] == s2.take(2)[0] && s2[1] == s2.take(2)[1]);
        }
        let headers = match Fields::from_bytes(bytes) {
            Err(e) => {
                return Err(ParsingError::Header(e));
            },
            Ok(h) => h,
        };
        proof {
            field::lemma_find_name(headers@, content_length_name(), 0);
        }
        let content_length = match headers.get(
            &[67u8, 111u8, 110u8, 116u8, 101u8, 110u8, 116u8, 45u8, 76u8, 101u8, 110u8, 103u8,
                116u8, 104u8],
        ) {
            None => 0,
            Some(c) => parse_content_length(c.first_slice()),
        };
        let remaining = bytes_len(bytes);
        if content_length < remaining {
            return Err(ParsingError::BodyLongerThanStream);
        } else if content_length > remaining {
            return Err(ParsingError::BodyShorterThanStream);
        }
        let ghost rem = contents(*bytes);
        let body = bytes_split_to(bytes, content_length);
        proof {
            assert(rem.take(rem.len() as int) =~= rem);
        }
        Ok(Response { version, code, headers, body, trailers: Fields::new() })
    }

    /// Append the response's wire form to a buffer.
    pub fn write_to_buffer(&self, buffer: &mut Vec<u8>)
        requires
            self.wf(),
        ensures
            final(buffer)@ == old(buffer)@ + ser_response(self@),
    {
        self.version.write_to_buffer(buffer);
        buffer.push(SP);
        vec_push_slice(buffer, self.code.as_bytes());
        vec_push_slice(buffer, &[CR, LF]);
        self.headers.write_to_buffer(buffer);
        vec_push_slice(buffer, bytes_as_slice(&self.body));
        self.trailers.write_to_buffer(buffer);
        proof {
            assert(buffer@ =~= old(buffer)@ + ser_response(self@));
        }
    }

    /// The response's wire form as a fresh buffer.
    pub fn to_buffer(&self) -> (r: Vec<u8>)
        requires
            self.wf(),
        ensures
            r@ == ser_response(self@),
    {
        let mut buffer: Vec<u8> = Vec::new();
        self.write_to_buffer(&mut buffer);
        proof {
            assert(Seq::<u8>::empty() + ser_response(self@) =~= ser_response(self@));
        }
        buffer
    }
}

/// Builds a response incrementally, starting from its status code.
pub struct Builder {
    response: Response,
}

impl View for Builder {
    type V = ResponseView;

    closed spec fn view(&self) -> ResponseView {
        self.response@
    }
}

impl Builder {
    pub closed spec fn wf(&self) -> bool {
        self.response.wf()
    }

    pub fn new(code: Code) -> (r: Self)
        ensures
            r.wf(),
            r@.code == code,
            r@.version == Version(1, 1),
            Response::fresh_view(r@),
    {
        Builder { response: Response::new(code) }
    }

    pub fn add_header_value(self, name: bytes::Bytes, value: bytes::Bytes) -> (r: Self)
        requires
            self.wf(),
        ensures
            r.wf(),
            r@ == (ResponseView {
                headers: upsert(self@.headers, contents(name), seq![contents(value)]),
                ..self@
            }),
    {
        let mut this = self;
        this.response.add_header_value(name, value);
        this
    }

    pub fn body(self, body: String) -> (r: Self)
        requires
            self.wf(),
        ensures
            r.wf(),
            r@ == (ResponseView {
                headers: upsert(
                    upsert(
                        self@.headers,
                        content_length_name(),
                        seq![decimal_of(encode_utf8(body@).len() as int)],
                    ),
                    content_type_name(),
                    seq![text_plain()],
                ),
                body: encode_utf8(body@),
                ..self@
            }),
    {
        let mut this = self;
        this.response.body(body);
        this
    }

    pub fn no_body(self, body: &str) -> (r: Self)
        requires
            self.wf(),
        ensures
            r.wf(),
            r@ == (ResponseView {
                headers: upsert(
                    upsert(
                        self@.headers,
                        content_length_name(),
                        seq![decimal_of(body.spec_bytes().len() as int)],
                    ),
                    content_type_name(),
                    seq![text_plain()],
                ),
                ..self@
            }),
    {
        let mut this = self;
        this.response.no_body(body);
        this
    }

    pub fn body_of_type(self, body: bytes::Bytes, content_type: bytes::Bytes) -> (r: Self)
        requires
            self.wf(),
        ensures
            r.wf(),
            r@ == (ResponseView {
                headers: upsert(
                    upsert(
                        self@.headers,
                        content_length_name(),
                        seq![decimal_of(contents(body).len() as int)],
                    ),
                    content_type_name(),
                    seq![contents(content_type)],
                ),
                body: contents(body),
                ..self@
            }),
    {
        let mut this = self;
        this.response.body_of_type(body, content_type);
        this
    }

    pub fn no_body_of_type(self, body: &[u8], content_type: bytes::Bytes) -> (r: Self)
        requires
            self.wf(),
        ensures
            r.wf(),
            r@ == (ResponseView {
                headers: upsert(
                    upsert(
                        self@.headers,
                        content_length_name(),
                        seq![decimal_of(body@.len() as int)],
                    ),
                    content_type_name(),
                    seq![contents(content_type)],
                ),
                ..self@
            }),
    {
        let mut this = self;
        this.response.no_body_of_type(body, content_type);
        this
    }

    pub fn as_mut_ref(&mut self) -> (r: &mut Response)
        ensures
            (*r)@ == old(self)@,
            old(self).wf() ==> (*r).wf(),
            final(self)@ == (*final(r))@,
            final(self).wf() == (*final(r)).wf(),
    {
        &mut self.response
    }

    pub fn finish(self) -> (r: Response)
        ensures
            r@ == self@,
            self.wf() ==> r.wf(),
    {
        self.response
    }
}

} // verus!
