//! Request methods: a closed enumeration with canonical wire names, parsed
//! by testing literal prefixes in order of expected frequency. No method
//! name is a prefix of another, so first-match is unambiguous.

use vstd::prelude::*;

use crate::advance::Advance;
use crate::buffer::contents;

verus! {

#[derive(Clone, Copy, PartialEq, Eq, Structural, Debug)]
pub enum Method {
    Head,
    Get,
    Post,
    Put,
    Delete,
    Patch,
    Options,
    Connect,
    Trace,
}

/// A method's canonical wire name.
pub open spec fn method_name(m: Method) -> Seq<u8> {
    match m {
        Method::Get => seq![71u8, 69u8, 84u8],
        Method::Head => seq![72u8, 69u8, 65u8, 68u8],
        Method::Post => seq![80u8, 79u8, 83u8, 84u8],
        Method::Put => seq![80u8, 85u8, 84u8],
        Method::Delete => seq![68u8, 69u8, 76u8, 69u8, 84u8, 69u8],
        Method::Patch => seq![80u8, 65u8, 84u8, 67u8, 72u8],
        Method::Options => seq![79u8, 80u8, 84u8, 73u8, 79u8, 78u8, 83u8],
        Method::Connect => seq![67u8, 79u8, 78u8, 78u8, 69u8, 67u8, 84u8],
        Method::Trace => seq![84u8, 82u8, 65u8, 67u8, 69u8],
    }
}

/// A method's name as characters, for display.
pub open spec fn method_chars(m: Method) -> Seq<char> {
    match m {
        Method::Get => "GET"@,
        Method::Head => "HEAD"@,
        Method::Post => "POST"@,
        Method::Put => "PUT"@,
        Method::Delete => "DELETE"@,
        Method::Patch => "PATCH"@,
        Method::Options => "OPTIONS"@,
        Method::Connect => "CONNECT"@,
        Method::Trace => "TRACE"@,
    }
}

/// Whether `s` starts with `p`.
pub open spec fn has_prefix(s: Seq<u8>, p: Seq<u8>) -> bool {
    s.len() >= p.len() && s.take(p.len() as int) == p
}

/// The method named by a prefix of `s`, tried in the order the parser uses,
/// and the rest of `s`.
pub open spec fn parse_method(s: Seq<u8>) -> Option<(Method, Seq<u8>)> {
    if has_prefix(s, method_name(Method::Get)) {
        Some((Method::Get, s.skip(method_name(Method::Get).len() as int)))
    } else if has_prefix(s, method_name(Method::Head)) {
        Some((Method::Head, s.skip(method_name(Method::Head).len() as int)))
    } else if has_prefix(s, method_name(Method::Post)) {
        Some((Method::Post, s.skip(method_name(Method::Post).len() as int)))
    } else if has_prefix(s, method_name(Method::Put)) {
        Some((Method::Put, s.skip(method_name(Method::Put).len() as int)))
    } else if has_prefix(s, method_name(Method::Delete)) {
        Some((Method::Delete, s.skip(method_name(Method::Delete).len() as int)))
    } else if has_prefix(s, method_name(Method::Patch)) {
        Some((Method::Patch, s.skip(method_name(Method::Patch).len() as int)))
    } else if has_prefix(s, method_name(Method::Options)) {
        Some((Method::Options, s.skip(method_name(Method::Options).len() as int)))
    } else if has_prefix(s, method_name(Method::Connect)) {
        Some((Method::Connect, s.skip(method_name(Method::Connect).len() as int)))
    } else if has_prefix(s, method_name(Method::Trace)) {
        Some((Method::Trace, s.skip(method_name(Method::Trace).len() as int)))
    } else {
        None
    }
}

impl Method {
    pub fn as_str(self) -> (r: &'static str)
        ensures
            r@ == method_chars(self),
    {
        match self {
            Method::Get => "GET",
            Method::Head => "HEAD",
            Method::Post => "POST",
            Method::Put => "PUT",
            Method::Delete => "DELETE",
            Method::Patch => "PATCH",
            Method::Options => "OPTIONS",
            Method::Connect => "CONNECT",
            Method::Trace => "TRACE",
        }
    }

    pub fn as_bytes(self) -> (r: &'static [u8])
        ensures
            r@ == method_name(self),
    {
        match self {
            Method::Get => &[71u8, 69u8, 84u8],
            Method::Head => &[72u8, 69u8, 65u8, 68u8],
            Method::Post => &[80u8, 79u8, 83u8, 84u8],
            Method::Put => &[80u8, 85u8, 84u8],
            Method::Delete => &[68u8, 69u8, 76u8, 69u8, 84u8, 69u8],
            Method::Patch => &[80u8, 65u8, 84u8, 67u8, 72u8],
            Method::Options => &[79u8, 80u8, 84u8, 73u8, 79u8, 78u8, 83u8],
            Method::Connect => &[67u8, 79u8, 78u8, 78u8, 69u8, 67u8, 84u8],
            Method::Trace => &[84u8, 82u8, 65u8, 67u8, 69u8],
        }
    }

    /// Consume a method name off the front of the buffer; on no match the
    /// buffer is unchanged.
    pub fn from_bytes(bytes: &mut bytes::Bytes) -> (r: Option<Self>)
        ensures
            match r {
                Some(m) => parse_method(contents(*old(bytes))) == Some(
                    (m, contents(*final(bytes))),
                ),
                None => parse_method(contents(*old(bytes))) is None && contents(*final(bytes))
                    == contents(*old(bytes)),
            },
    {
        if bytes.advance_bytes(Method::Get.as_bytes()) {
            Some(Method::Get)
        } else if bytes.advance_bytes(Method::Head.as_bytes()) {
            Some(Method::Head)
        } else if bytes.advance_bytes(Method::Post.as_bytes()) {
            Some(Method::Post)
        } else if bytes.advance_bytes(Method::Put.as_bytes()) {
            Some(Method::Put)
        } else if bytes.advance_bytes(Method::Delete.as_bytes()) {
            Some(Method::Delete)
        } else if bytes.advance_bytes(Method::Patch.as_bytes()) {
            Some(Method::Patch)
        } else if bytes.advance_bytes(Method::Options.as_bytes()) {
            Some(Method::Options)
        } else if bytes.advance_bytes(Method::Connect.as_bytes()) {
            Some(Method::Connect)
        } else if bytes.advance_bytes(Method::Trace.as_bytes()) {
            Some(Method::Trace)
        } else {
            None
        }
    }
}

} // verus!
