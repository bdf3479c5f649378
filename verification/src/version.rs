//! The HTTP version token: `HTTP/` followed by one digit, or by
//! `major.minor`. Serialization omits `.0`.

use vstd::prelude::*;

use crate::advance::Advance;
use crate::buffer::{bytes_advance, bytes_at, bytes_len, contents};
use crate::field::vec_push_slice;

verus! {

/// The version token did not have the expected shape.
#[derive(Clone, Copy, PartialEq, Eq, Structural, Debug)]
pub struct Malformed;

impl Malformed {
    pub fn description() -> &'static str {
        "version malformed"
    }
}

/// An HTTP version: major and minor number, each a single digit.
#[derive(Clone, Copy, PartialEq, Eq, Structural, Debug)]
pub struct Version(pub u8, pub u8);

/// The literal `HTTP/`.
pub open spec fn http_slash() -> Seq<u8> {
    seq![72u8, 84u8, 84u8, 80u8, 47u8]
}

/// Whether a byte is an ASCII decimal digit: only `'0'` through `'9'`
/// count as version digits.
pub open spec fn is_digit(b: u8) -> bool {
    48 <= b <= 57
}

/// The value of an ASCII decimal digit.
pub open spec fn digit_val(b: u8) -> u8 {
    (b - 48) as u8
}

/// Parse a version token off the front of `s`: `HTTP/` (with at least one
/// byte after it), then either `d.d` when a dot stands one byte further and
/// three bytes remain, or a single digit with the minor defaulting to zero.
/// On failure the parse may have consumed the `HTTP/` prefix.
pub open spec fn parse_version(s: Seq<u8>) -> Result<(Version, Seq<u8>), Malformed> {
    if s.len() < 6 || s.take(5) != http_slash() {
        Err(Malformed)
    } else {
        let t = s.skip(5);
        if t.len() >= 3 && t[1] == 46 {
            if is_digit(t[0]) && is_digit(t[2]) {
                Ok((Version(digit_val(t[0]), digit_val(t[2])), t.skip(3)))
            } else {
                Err(Malformed)
            }
        } else {
            if is_digit(t[0]) {
                Ok((Version(digit_val(t[0]), 0), t.skip(1)))
            } else {
                Err(Malformed)
            }
        }
    }
}

/// A version's wire form: `HTTP/` and the major digit, then `.` and the
/// minor digit unless the minor is zero.
pub open spec fn ser_version(v: Version) -> Seq<u8> {
    if v.1 == 0 {
        http_slash() + seq![(v.0 + 48) as u8]
    } else {
        http_slash() + seq![(v.0 + 48) as u8, 46u8, (v.1 + 48) as u8]
    }
}

impl Version {
    /// Consume a version token off the front of the buffer.
    pub fn from_bytes(bytes: &mut bytes::Bytes) -> (r: Result<Self, Malformed>)
        ensures
            match r {
                Ok(v) => parse_version(contents(*old(bytes))) == Ok::<(Version, Seq<u8>), Malformed>(
                    (v, contents(*final(bytes))),
                ) && v.0 < 10 && v.1 < 10,
                Err(e) => parse_version(contents(*old(bytes))) == Err::<
                    (Version, Seq<u8>),
                    Malformed,
                >(e),
            },
    {
        let ghost s = contents(*bytes);
        if bytes_len(bytes) < 6 {
            return Err(Malformed);
        }
        if !bytes.advance_bytes(&[72u8, 84u8, 84u8, 80u8, 47u8]) {
            return Err(Malformed);
        }
        let len = bytes_len(bytes);
        if len >= 3 && bytes_at(bytes, 1) == 46 {
            let major = bytes_at(bytes, 0);
            let minor = bytes_at(bytes, 2);
            if 48 <= major && major <= 57 && 48 <= minor && minor <= 57 {
                proof {
                    assert(s.skip(5).skip(3) =~= s.skip(8));
                }
                bytes_advance(bytes, 3);
                Ok(Version(major - 48, minor - 48))
            } else {
                Err(Malformed)
            }
        } else {
            let major = bytes_at(bytes, 0);
            if 48 <= major && major <= 57 {
                proof {
                    assert(s.skip(5).skip(1) =~= s.skip(6));
                }
                bytes_advance(bytes, 1);
                Ok(Version(major - 48, 0))
            } else {
                Err(Malformed)
            }
        }
    }

    /// Append the version's wire form to a buffer. The digits must be
    /// single decimal digits, as every parsed version's are.
    pub fn write_to_buffer(self, buffer: &mut Vec<u8>)
        requires
            self.0 < 10,
            self.1 < 10,
        ensures
            final(buffer)@ == old(buffer)@ + ser_version(self),
    {
        let Version(major, minor) = self;
        vec_push_slice(buffer, &[72u8, 84u8, 84u8, 80u8, 47u8]);
        buffer.push(major + 48);
        if minor != 0 {
            buffer.push(46);
            buffer.push(minor + 48);
        }
        proof {
            assert(buffer@ =~= old(buffer)@ + ser_version(self));
        }
    }

    /// The version's wire form as a fresh buffer.
    pub fn to_buffer(self) -> (r: Vec<u8>)
        requires
            self.0 < 10,
            self.1 < 10,
        ensures
            r@ == ser_version(self),
    {
        let mut buffer: Vec<u8> = Vec::new();
        self.write_to_buffer(&mut buffer);
        proof {
            assert(Seq::<u8>::empty() + ser_version(self) =~= ser_version(self));
        }
        buffer
    }
}

} // verus!
