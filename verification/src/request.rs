//! Requests: the start line (method, path, version), headers, and a body
//! framed by the `Content-Length` header. Parsed structures are zero-copy
//! views into the connection buffer.

use vstd::prelude::*;

use crate::advance::{class_prefix_len, lemma_class_prefix, Advance};
use crate::buffer::{bytes_as_slice, bytes_copy_from_slice, bytes_from_vec, bytes_len,
    bytes_new, bytes_split_to, contents};
use crate::chars::{crlf, map_allows, CharMap, CR, LF, SP};
use crate::field::{self, find_name, parse_fields_from, ser_fields, upsert, Fields, FieldsView,
    vec_push_slice};
use crate::method::{method_name, parse_method, Method};
use crate::transcode::{content_length_spec, decimal_of, parse_content_length, push_decimal};
use crate::version::{parse_version, ser_version, Version};
use vstd::string::StringSliceAdditionalSpecFns;
use vstd::utf8::encode_utf8;

verus! {

/// Why a request failed to parse. `BodyShorterThanStream` reports a declared
/// `Content-Length` larger than what the buffer holds, which would otherwise
/// be an out-of-bounds slice.
#[derive(Clone, Copy, PartialEq, Eq, Structural, Debug)]
pub enum ParsingError {
    VersionMalformed,
    MethodUnsupported,
    MalformedStartLine,
    InvalidResource,
    Header(field::ParsingError),
    BodyLongerThanStream,
    BodyShorterThanStream,
    Trailer(field::ParsingError),
}

impl ParsingError {
    pub fn as_str(self) -> &'static str {
        match self {
            ParsingError::VersionMalformed => "version malformed",
            ParsingError::MethodUnsupported => "unsupported method",
            ParsingError::MalformedStartLine => "start line is malformed",
            ParsingError::InvalidResource => "invalid resource",
            ParsingError::Header(field::ParsingError::Malformed) => "malformed header",
            ParsingError::Header(
                field::ParsingError::IncorrectlyTerminated,
            ) => "incorrectly terminated header",
            ParsingError::Header(field::ParsingError::NameMissing) => "header name is missing",
            ParsingError::Header(field::ParsingError::ValueTooLong) => "header value too long",
            ParsingError::Header(
                field::ParsingError::ValueInvalidToken,
            ) => "header value contains an invalid token character",
            ParsingError::Header(
                field::ParsingError::ValueInvalidQuotedText,
            ) => "header value contains invalid quoted text",
            ParsingError::Header(
                field::ParsingError::InvalidCommentCharacter,
            ) => "header comment contains an invalid character",
            ParsingError::BodyLongerThanStream => "stream continues after Content-Length bytes",
            ParsingError::BodyShorterThanStream => "stream ended before Content-Length was reached",
            ParsingError::Trailer(field::ParsingError::Malformed) => "malformed trailer",
            ParsingError::Trailer(
                field::ParsingError::IncorrectlyTerminated,
            ) => "incorrectly terminated trailer",
            ParsingError::Trailer(field::ParsingError::NameMissing) => "trailer name is missing",
            ParsingError::Trailer(field::ParsingError::ValueTooLong) => "trailer value too long",
            ParsingError::Trailer(
                field::ParsingError::ValueInvalidToken,
            ) => "trailer value contains an invalid token character",
            ParsingError::Trailer(
                field::ParsingError::ValueInvalidQuotedText,
            ) => "trailer value contains invalid quoted text",
            ParsingError::Trailer(
                field::ParsingError::InvalidCommentCharacter,
            ) => "trailer comment contains an invalid character",
        }
    }
}

/// The name `Content-Length`.
pub open spec fn content_length_name() -> Seq<u8> {
    seq![67u8, 111u8, 110u8, 116u8, 101u8, 110u8, 116u8, 45u8, 76u8, 101u8, 110u8, 103u8, 116u8,
        104u8]
}

/// The name `Content-Type`.
pub open spec fn content_type_name() -> Seq<u8> {
    seq![67u8, 111u8, 110u8, 116u8, 101u8, 110u8, 116u8, 45u8, 84u8, 121u8, 112u8, 101u8]
}

/// The name `Host`.
pub open spec fn host_name() -> Seq<u8> {
    seq![72u8, 111u8, 115u8, 116u8]
}

/// The declared body length of a parsed field block: the first
/// `Content-Length` value read as a number, zero when absent or unreadable.
pub open spec fn declared_length(hv: FieldsView) -> int {
    let k = find_name(hv, content_length_name(), 0);
    if k < hv.len() {
        content_length_spec(hv[k].1[0])
    } else {
        0
    }
}

/// Parse a request start line off the front of `s`: a known method, one
/// space, a non-empty path of URI characters, one space, a version token,
/// and the line terminator.
pub open spec fn parse_start_line(s: Seq<u8>) -> Result<
    ((Method, Seq<u8>, Version), Seq<u8>),
    ParsingError,
> {
    match parse_method(s) {
        None => Err(ParsingError::MethodUnsupported),
        Some((m, s1)) => {
            if s1.len() == 0 || s1[0] != SP {
                Err(ParsingError::MalformedStartLine)
            } else {
                let s2 = s1.skip(1);
                let plen = class_prefix_len(s2, CharMap::Uri);
                if plen == 0 {
                    Err(ParsingError::InvalidResource)
                } else {
                    let path = s2.take(plen);
                    let s3 = s2.skip(plen);
                    if s3.len() == 0 || s3[0] != SP {
                        Err(ParsingError::MalformedStartLine)
                    } else {
                        match parse_version(s3.skip(1)) {
                            Err(_) => Err(ParsingError::VersionMalformed),
                            Ok((v, s4)) => if s4.len() >= 2 && s4[0] == CR && s4[1] == LF {
                                Ok(((m, path, v), s4.skip(2)))
                            } else {
                                Err(ParsingError::MalformedStartLine)
                            },
                        }
                    }
                }
            }
        },
    }
}

/// What a request parses to, and what serialization reproduces.
pub struct RequestView {
    pub method: Method,
    pub path: Seq<u8>,
    pub version: Version,
    pub headers: FieldsView,
    pub body: Seq<u8>,
    pub trailers: FieldsView,
}

/// Parse a whole request: start line, headers, then exactly the declared
/// `Content-Length` bytes as the body. Bytes beyond the declared length give
/// `BodyLongerThanStream`; a declared length beyond the buffer gives
/// `BodyShorterThanStream`. Parsed trailers are always empty.
pub open spec fn parse_request(s: Seq<u8>) -> Result<RequestView, ParsingError> {
    match parse_start_line(s) {
        Err(e) => Err(e),
        Ok(((m, path, v), s1)) => match parse_fields_from(s1, Seq::empty()) {
            Err(fe) => Err(ParsingError::Header(fe)),
            Ok((hv, s2)) => {
                let cl = declared_length(hv);
                if cl < s2.len() {
                    Err(ParsingError::BodyLongerThanStream)
                } else if cl > s2.len() {
                    Err(ParsingError::BodyShorterThanStream)
                } else {
                    Ok(
                        RequestView {
                            method: m,
                            path: path,
                            version: v,
                            headers: hv,
                            body: s2,
                            trailers: Seq::empty(),
                        },
                    )
                }
            },
        },
    }
}

/// A request's wire form.
pub open spec fn ser_request(rv: RequestView) -> Seq<u8> {
    method_name(rv.method) + seq![SP] + rv.path + seq![SP] + ser_version(rv.version) + crlf()
        + ser_fields(rv.headers) + rv.body + ser_fields(rv.trailers)
}

struct StartLine {
    method: Method,
    path: bytes::Bytes,
    version: Version,
}

impl StartLine {
    fn from_bytes(bytes: &mut bytes::Bytes) -> (r: Result<Self, ParsingError>)
        ensures
            match r {
                Ok(sl) => parse_start_line(contents(*old(bytes))) == Ok::<
                    ((Method, Seq<u8>, Version), Seq<u8>),
                    ParsingError,
                >(((sl.method, contents(sl.path), sl.version), contents(*final(bytes))))
                    && sl.version.0 < 10 && sl.version.1 < 10,
                Err(e) => parse_start_line(contents(*old(bytes))) == Err::<
                    ((Method, Seq<u8>, Version), Seq<u8>),
                    ParsingError,
                >(e),
            },
    {
        let method = match Method::from_bytes(bytes) {
            None => {
                return Err(ParsingError::MethodUnsupported);
            },
            Some(m) => m,
        };
        if !bytes.advance_byte(SP) {
            return Err(ParsingError::MalformedStartLine);
        }
        let ghost s2 = contents(*bytes);
        proof {
            lemma_class_prefix(s2, CharMap::Uri);
        }
        let path = bytes.split_while(CharMap::Uri);
        proof {
            let k = contents(path).len() as int;
            let c = class_prefix_len(s2, CharMap::Uri);
            if k < c {
                assert(!map_allows(CharMap::Uri, s2[k]));
            }
            if c < k {
                assert(map_allows(CharMap::Uri, s2[c]));
            }
            assert(k == c);
        }
        if bytes_len(&path) == 0 {
            return Err(ParsingError::InvalidResource);
        }
        if !bytes.advance_byte(SP) {
            return Err(ParsingError::MalformedStartLine);
        }
        let version = match Version::from_bytes(bytes) {
            Err(_) => {
                return Err(ParsingError::VersionMalformed);
            },
            Ok(v) => v,
        };
        let ghost s4 = contents(*bytes);
        if !bytes.advance_bytes(&[CR, LF]) {
            proof {
                if s4.len() >= 2 && s4[0] == CR && s4[1] == LF {
                    assert(s4.take(2) =~= seq![CR, LF]);
                }
            }
            return Err(ParsingError::MalformedStartLine);
        }
        proof {
            assert(s4[0] == s4.take(2)[0] && s4[1] == s4.take(2)[1]);
        }
        Ok(StartLine { method, path, version })
    }
}

/// A full request message.
#[derive(Debug)]
pub struct Request {
    pub method: Method,
    pub path: bytes::Bytes,
    pub version: Version,
    pub headers: Fields,
    pub body: bytes::Bytes,
    pub trailers: Fields,
}

impl View for Request {
    type V = RequestView;

    open spec fn view(&self) -> RequestView {
        RequestView {
            method: self.method,
            path: contents(self.path),
            version: self.version,
            headers: self.headers@,
            body: contents(self.body),
            trailers: self.trailers@,
        }
    }
}

impl Request {
    /// The version digits are single decimal digits and the field blocks
    /// satisfy their invariant.
    pub open spec fn wf(&self) -> bool {
        self.version.0 < 10 && self.version.1 < 10 && self.headers.wf() && self.trailers.wf()
    }

    pub fn builder(host: bytes::Bytes, method: Method, path: bytes::Bytes) -> (r: Builder)
        ensures
            r@ == (Request::new_view(contents(host), method, contents(path))),
            r.wf(),
    {
        Builder::new(host, method, path)
    }

    /// What a freshly built request looks like: version 1.1, one `Host`
    /// header, no body, no trailers.
    pub open spec fn new_view(host: Seq<u8>, method: Method, path: Seq<u8>) -> RequestView {
        RequestView {
            method: method,
            path: path,
            version: Version(1, 1),
            headers: seq![(host_name(), seq![host])],
            body: Seq::empty(),
            trailers: Seq::empty(),
        }
    }

    pub fn new(host: bytes::Bytes, method: Method, path: bytes::Bytes) -> (r: Self)
        ensures
            r@ == Request::new_view(contents(host), method, contents(path)),
            r.wf(),
    {
        let mut headers = Fields::new();
        headers.add_header_value(bytes_copy_from_slice(&[72u8, 111u8, 115u8, 116u8]), host);
        let r = Request {
            method,
            path,
            version: Version(1, 1),
            headers,
            body: bytes_new(),
            trailers: Fields::new(),
        };
        proof {
            assert(r@.headers =~~= seq![(host_name(), seq![contents(host)])]);
        }
        r
    }

    /// Add one header value, appending when the name is already present.
    pub fn add_header_value(&mut self, name: bytes::Bytes, value: bytes::Bytes)
        requires
            old(self).wf(),
        ensures
            final(self).wf(),
            final(self)@ == (RequestView {
                headers: upsert(old(self)@.headers, contents(name), seq![contents(value)]),
                ..old(self)@
            }),
    {
        self.headers.add_header_value(name, value);
    }

    /// Attach a plain-text body, setting `Content-Length` and
    /// `Content-Type`.
    pub fn body(&mut self, body: String)
        requires
            old(self).wf(),
        ensures
            final(self).wf(),
            final(self)@ == (RequestView {
                headers: upsert(
                    upsert(
                        old(self)@.headers,
                        content_length_name(),
                        seq![decimal_of(encode_utf8(body@).len() as int)],
                    ),
                    content_type_name(),
                    seq![text_plain()],
                ),
                body: encode_utf8(body@),
                ..old(self)@
            }),
    {
        let ct = bytes_copy_from_slice(
            &[116u8, 101u8, 120u8, 116u8, 47u8, 112u8, 108u8, 97u8, 105u8, 110u8],
        );
        self.body_of_type(bytes_from_vec(body.as_bytes_vec()), ct);
    }

    /// Set `Content-Length` and `Content-Type` for a body carried
    /// elsewhere, without attaching it.
    pub fn no_body(&mut self, body: &str)
        requires
            old(self).wf(),
        ensures
            final(self).wf(),
            final(self)@ == (RequestView {
                headers: upsert(
                    upsert(
                        old(self)@.headers,
                        content_length_name(),
                        seq![decimal_of(body.spec_bytes().len() as int)],
                    ),
                    content_type_name(),
                    seq![text_plain()],
                ),
                ..old(self)@
            }),
    {
        let ct = bytes_copy_from_slice(
            &[116u8, 101u8, 120u8, 116u8, 47u8, 112u8, 108u8, 97u8, 105u8, 110u8],
        );
        self.no_body_of_type(body.as_bytes(), ct);
    }

    /// Attach a body of the given media type, setting `Content-Length` and
    /// `Content-Type`.
    pub fn body_of_type(&mut self, body: bytes::Bytes, content_type: bytes::Bytes)
        requires
            old(self).wf(),
        ensures
            final(self).wf(),
            final(self)@ == (RequestView {
                headers: upsert(
                    upsert(
                        old(self)@.headers,
                        content_length_name(),
                        seq![decimal_of(contents(body).len() as int)],
                    ),
                    content_type_name(),
                    seq![contents(content_type)],
                ),
                body: contents(body),
                ..old(self)@
            }),
    {
        self.no_body_of_type(bytes_as_slice(&body), content_type);
        self.body = body;
    }

    /// Set `Content-Length` to the body's length and `Content-Type` to the
    /// given type, without attaching the body.
    pub fn no_body_of_type(&mut self, body: &[u8], content_type: bytes::Bytes)
        requires
            old(self).wf(),
        ensures
            final(self).wf(),
            final(self)@ == (RequestView {
                headers: upsert(
                    upsert(
                        old(self)@.headers,
                        content_length_name(),
                        seq![decimal_of(body@.len() as int)],
                    ),
                    content_type_name(),
                    seq![contents(content_type)],
                ),
                ..old(self)@
            }),
    {
        let mut digits: Vec<u8> = Vec::new();
        push_decimal(body.len(), &mut digits);
        proof {
            assert(Seq::<u8>::empty() + decimal_of(body@.len() as int) =~= decimal_of(
                body@.len() as int,
            ));
        }
        let cl_name = bytes_copy_from_slice(
            &[67u8, 111u8, 110u8, 116u8, 101u8, 110u8, 116u8, 45u8, 76u8, 101u8, 110u8, 103u8,
                116u8, 104u8],
        );
        self.add_header_value(cl_name, bytes_from_vec(digits));
        let ct_name = bytes_copy_from_slice(
            &[67u8, 111u8, 110u8, 116u8, 101u8, 110u8, 116u8, 45u8, 84u8, 121u8, 112u8, 101u8],
        );
        self.add_header_value(ct_name, content_type);
    }

    /// Parse a whole request off the buffer; on success the buffer is fully
    /// consumed.
    pub fn from_bytes(bytes: &mut bytes::Bytes) -> (r: Result<Self, ParsingError>)
        ensures
            match r {
                Ok(req) => parse_request(contents(*old(bytes))) == Ok::<RequestView, ParsingError>(
                    req@,
                ) && req.wf() && contents(*final(bytes)).len() == 0,
                Err(e) => parse_request(contents(*old(bytes))) == Err::<RequestView, ParsingError>(
                    e,
                ),
            },
    {
        let start_line = match StartLine::from_bytes(bytes) {
            Err(e) => {
                return Err(e);
            },
            Ok(sl) => sl,
        };
        let headers = match Fields::from_bytes(bytes) {
            Err(e) => {
                return Err(ParsingError::Header(e));
            },
            Ok(h) => h,
        };
        proof {
            field::lemma_find_name(headers@, content_length_name(), 0);
        }
        let content_length = match headers.get(
            &[67u8, 111u8, 110u8, 116u8, 101u8, 110u8, 116u8, 45u8, 76u8, 101u8, 110u8, 103u8,
                116u8, 104u8],
        ) {
            None => 0,
            Some(c) => parse_content_length(c.first_slice()),
        };
        let remaining = bytes_len(bytes);
        if content_length < remaining {
            return Err(ParsingError::BodyLongerThanStream);
        } else if content_length > remaining {
            return Err(ParsingError::BodyShorterThanStream);
        }
        let ghost rem = contents(*bytes);
        let body = bytes_split_to(bytes, content_length);
        proof {
            assert(rem.take(rem.len() as int) =~= rem);
        }
        Ok(
            Request {
                method: start_line.method,
                path: start_line.path,
                version: start_line.version,
                headers,
                body,
                trailers: Fields::new(),
            },
        )
    }

    /// Append the request's wire form to a buffer.
    pub fn write_to_buffer(&self, buffer: &mut Vec<u8>)
        requires
            self.wf(),
        ensures
            final(buffer)@ == old(buffer)@ + ser_request(self@),
    {
        vec_push_slice(buffer, self.method.as_bytes());
        buffer.push(SP);
        vec_push_slice(buffer, bytes_as_slice(&self.path));
        buffer.push(SP);
        self.version.write_to_buffer(buffer);
        vec_push_slice(buffer, &[CR, LF]);
        self.headers.write_to_buffer(buffer);
        vec_push_slice(buffer, bytes_as_slice(&self.body));
        self.trailers.write_to_buffer(buffer);
        proof {
            assert(buffer@ =~= old(buffer)@ + ser_request(self@));
        }
    }

    /// The request's wire form as a fresh buffer.
    pub fn to_buffer(&self) -> (r: Vec<u8>)
        requires
            self.wf(),
        ensures
            r@ == ser_request(self@),
    {
        let mut buffer: Vec<u8> = Vec::new();
        self.write_to_buffer(&mut buffer);
        proof {
            assert(Seq::<u8>::empty() + ser_request(self@) =~= ser_request(self@));
        }
        buffer
    }
}

/// The media type `text/plain`.
pub open spec fn text_plain() -> Seq<u8> {
    seq![116u8, 101u8, 120u8, 116u8, 47u8, 112u8, 108u8, 97u8, 105u8, 110u8]
}

/// Builds a request incrementally, starting from the host, method and path.
pub struct Builder {
    request: Request,
}

impl View for Builder {
    type V = RequestView;

    closed spec fn view(&self) -> RequestView {
        self.request@
    }
}

impl Builder {
    pub closed spec fn wf(&self) -> bool {
        self.request.wf()
    }

    pub fn new(host: bytes::Bytes, method: Method, path: bytes::Bytes) -> (r: Self)
        ensures
            r@ == Request::new_view(contents(host), method, contents(path)),
            r.wf(),
    {
        Builder { request: Request::new(host, method, path) }
    }

    pub fn add_header_value(self, name: bytes::Bytes, value: bytes::Bytes) -> (r: Self)
        requires
            self.wf(),
        ensures
            r.wf(),
            r@ == (RequestView {
                headers: upsert(self@.headers, contents(name), seq![contents(value)]),
                ..self@
            }),
    {
        let mut this = self;
        this.request.add_header_value(name, value);
        this
    }

    pub fn body(self, body: String) -> (r: Self)
        requires
            self.wf(),
        ensures
            r.wf(),
            r@ == (RequestView {
                headers: upsert(
                    upsert(
                        self@.headers,
                        content_length_name(),
                        seq![decimal_of(encode_utf8(body@).len() as int)],
                    ),
                    content_type_name(),
                    seq![text_plain()],
                ),
                body: encode_utf8(body@),
                ..self@
            }),
    {
        let mut this = self;
        this.request.body(body);
        this
    }

    pub fn no_body(self, body: &str) -> (r: Self)
        requires
            self.wf(),
        ensures
            r.wf(),
            r@ == (RequestView {
                headers: upsert(
                    upsert(
                        self@.headers,
                        content_length_name(),
                        seq![decimal_of(body.spec_bytes().len() as int)],
                    ),
                    content_type_name(),
                    seq![text_plain()],
                ),
                ..self@
            }),
    {
        let mut this = self;
        this.request.no_body(body);
        this
    }

    pub fn body_of_type(self, body: bytes::Bytes, content_type: bytes::Bytes) -> (r: Self)
        requires
            self.wf(),
        ensures
            r.wf(),
            r@ == (RequestView {
                headers: upsert(
                    upsert(
                        self@.headers,
                        content_length_name(),
                        seq![decimal_of(contents(body).len() as int)],
                    ),
                    content_type_name(),
                    seq![contents(content_type)],
                ),
                body: contents(body),
                ..self@
            }),
    {
        let mut this = self;
        this.request.body_of_type(body, content_type);
        this
    }

    pub fn no_body_of_type(self, body: &[u8], content_type: bytes::Bytes) -> (r: Self)
        requires
            self.wf(),
        ensures
            r.wf(),
            r@ == (RequestView {
                headers: upsert(
                    upsert(
                        self@.headers,
                        content_length_name(),
                        seq![decimal_of(body@.len() as int)],
                    ),
                    content_type_name(),
                    seq![contents(content_type)],
                ),
                ..self@
            }),
    {
        let mut this = self;
        this.request.no_body_of_type(body, content_type);
        this
    }

    pub fn as_mut_ref(&mut self) -> (r: &mut Request)
        ensures
            (*r)@ == old(self)@,
            old(self).wf() ==> (*r).wf(),
            final(self)@ == (*final(r))@,
            final(self).wf() == (*final(r)).wf(),
    {
        &mut self.request
    }

    pub fn finish(self) -> (r: Request)
        ensures
            r@ == self@,
            self.wf() ==> r.wf(),
    {
        self.request
    }
}

} // verus!
