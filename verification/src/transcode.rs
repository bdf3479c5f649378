//! Byte transcoding helpers: the digit mask used by the version parser, and
//! percent-decoding of URI bytes.

use vstd::prelude::*;

verus! {

/// A percent escape was truncated or held a non-hexadecimal digit.
#[derive(Debug)]
pub struct TranscodeError;

/// Strip the high nibble bits that distinguish an ASCII digit from its
/// value. The mask alone does not detect digits: a caller must check the
/// byte range itself.
pub fn ascii_digit_to_u8(byte: u8) -> (r: u8)
    ensures
        r == byte & 0xcf,
{
    byte & 0xcf
}

/// The value of one hexadecimal digit.
pub open spec fn hex_val(b: u8) -> Option<u8> {
    if 48 <= b && b <= 57 {
        Some((b - 48) as u8)
    } else if 65 <= b && b <= 70 {
        Some((b - 55) as u8)
    } else if 97 <= b && b <= 102 {
        Some((b - 87) as u8)
    } else {
        None
    }
}

fn hex_digit(b: u8) -> (r: Option<u8>)
    ensures
        r == hex_val(b),
{
    if 48 <= b && b <= 57 {
        Some(b - 48)
    } else if 65 <= b && b <= 70 {
        Some(b - 55)
    } else if 97 <= b && b <= 102 {
        Some(b - 87)
    } else {
        None
    }
}

fn escape_byte(a: u8, b: u8) -> (r: Option<u8>)
    ensures
        r == escape_val(a, b),
{
    match (hex_digit(a), hex_digit(b)) {
        (Some(h), Some(l)) => Some(16 * h + l),
        (_, Some(l)) => if a == 43 {
            Some(l)
        } else {
            None
        },
        _ => None,
    }
}

/// The byte two escape bytes decode to: what the base-sixteen number parser
/// reads from them. Two hexadecimal digits give `16 * high + low`; the
/// parser also tolerates an optional plus sign, so `+` and one digit give
/// that digit. Nothing else is accepted.
pub open spec fn escape_val(a: u8, b: u8) -> Option<u8> {
    if hex_val(a) is Some && hex_val(b) is Some {
        Some((16 * hex_val(a)->Some_0 + hex_val(b)->Some_0) as u8)
    } else if a == 43 && hex_val(b) is Some {
        Some(hex_val(b)->Some_0)
    } else {
        None
    }
}

/// Percent-decoding: every `%` must be followed by two bytes the
/// base-sixteen number parser accepts — two hexadecimal digits, or a plus
/// sign and one digit (see [`escape_val`]) — which decode to one byte;
/// every other byte passes through unchanged.
pub open spec fn percent_decode_spec(s: Seq<u8>) -> Result<Seq<u8>, ()>
    decreases s.len(),
{
    if s.len() == 0 {
        Ok(Seq::empty())
    } else if s[0] != 37 {
        match percent_decode_spec(s.skip(1)) {
            Ok(r) => Ok(seq![s[0]] + r),
            Err(()) => Err(()),
        }
    } else if s.len() < 3 {
        Err(())
    } else {
        match escape_val(s[1], s[2]) {
            Some(d) => match percent_decode_spec(s.skip(3)) {
                Ok(r) => Ok(seq![d] + r),
                Err(()) => Err(()),
            },
            None => Err(()),
        }
    }
}

pub fn percent_decode(bytes: &[u8]) -> (r: Result<Vec<u8>, TranscodeError>)
    ensures
        match r {
            Ok(out) => percent_decode_spec(bytes@) == Ok::<Seq<u8>, ()>(out@),
            Err(_) => percent_decode_spec(bytes@) == Err::<Seq<u8>, ()>(()),
        },
{
    let ghost s = bytes@;
    let mut out: Vec<u8> = Vec::new();
    let mut i: usize = 0;
    proof {
        assert(s.skip(0) =~= s);
        match percent_decode_spec(s) {
            Ok(r) => {
                assert(out@ + r =~= r);
            },
            Err(()) => {},
        }
    }
    while i < bytes.len()
        invariant
            i <= s.len(),
            s == bytes@,
            match percent_decode_spec(s.skip(i as int)) {
                Ok(r) => percent_decode_spec(s) == Ok::<Seq<u8>, ()>(out@ + r),
                Err(()) => percent_decode_spec(s) == Err::<Seq<u8>, ()>(()),
            },
        decreases s.len() - i,
    {
        let b = bytes[i];
        let ghost pre = out@;
        if b != 37 {
            out.push(b);
            proof {
                assert(s.skip(i as int).skip(1) =~= s.skip(i + 1));
                assert(s.skip(i as int)[0] == s[i as int]);
                match percent_decode_spec(s.skip(i + 1)) {
                    Ok(r2) => {
                        assert(out@ + r2 =~= pre + (seq![s[i as int]] + r2));
                    },
                    Err(()) => {},
                }
            }
            i = i + 1;
        } else {
            if bytes.len() - i < 3 {
                return Err(TranscodeError);
            }
            let d = match escape_byte(bytes[i + 1], bytes[i + 2]) {
                Some(d) => d,
                None => {
                    proof {
                        assert(s.skip(i as int)[1] == s[i + 1] && s.skip(i as int)[2] == s[i + 2]);
                    }
                    return Err(TranscodeError);
                },
            };
            out.push(d);
            proof {
                assert(s.skip(i as int).skip(3) =~= s.skip(i + 3));
                assert(s.skip(i as int)[1] == s[i + 1] && s.skip(i as int)[2] == s[i + 2]);
                match percent_decode_spec(s.skip(i + 3)) {
                    Ok(r2) => {
                        assert(out@ + r2 =~= pre + (seq![escape_val(s[i + 1], s[i + 2])->Some_0]
                            + r2));
                    },
                    Err(()) => {},
                }
            }
            i = i + 3;
        }
    }
    proof {
        assert(s.skip(s.len() as int) =~= Seq::<u8>::empty());
        assert(out@ + Seq::<u8>::empty() =~= out@);
    }
    Ok(out)
}

/// The number the decimal digits of `s` denote, read left to right.
pub open spec fn digits_val(s: Seq<u8>) -> int
    decreases s.len(),
{
    if s.len() == 0 {
        0
    } else {
        digits_val(s.take(s.len() - 1)) * 10 + (s.last() - 48)
    }
}

pub open spec fn all_digits(s: Seq<u8>) -> bool {
    forall|i: int| 0 <= i < s.len() ==> 48 <= #[trigger] s[i] <= 57
}

/// A longer digit string never denotes a smaller number.
pub proof fn lemma_digits_val_monotone(s: Seq<u8>, j: int)
    requires
        all_digits(s),
        0 <= j <= s.len(),
    ensures
        digits_val(s.take(j)) <= digits_val(s),
        digits_val(s) >= 0,
    decreases s.len() - j,
{
    if j == s.len() {
        assert(s.take(j) =~= s);
        lemma_digits_val_nonneg(s);
    } else {
        lemma_digits_val_monotone(s, j + 1);
        assert(s.take(j + 1).take(j) =~= s.take(j));
        assert(all_digits(s.take(j + 1)));
        lemma_digits_val_nonneg(s.take(j));
        assert(digits_val(s.take(j + 1)) == digits_val(s.take(j)) * 10 + (s.take(j + 1).last()
            - 48));
        assert(48 <= s[j] <= 57);
        assert(digits_val(s.take(j)) <= digits_val(s.take(j + 1)));
    }
}

pub proof fn lemma_digits_val_nonneg(s: Seq<u8>)
    requires
        all_digits(s),
    ensures
        digits_val(s) >= 0,
    decreases s.len(),
{
    if s.len() > 0 {
        assert(all_digits(s.take(s.len() - 1)));
        lemma_digits_val_nonneg(s.take(s.len() - 1));
        assert(48 <= s.last() <= 57);
    }
}

/// How a `Content-Length` value reads as a number: an optional plus sign,
/// then at least one decimal digit, denoting a number that fits the
/// machine; anything else counts as zero.
pub open spec fn content_length_spec(v: Seq<u8>) -> int {
    let d = if v.len() > 0 && v[0] == 43 {
        v.skip(1)
    } else {
        v
    };
    if d.len() >= 1 && all_digits(d) && digits_val(d) <= usize::MAX {
        digits_val(d)
    } else {
        0
    }
}

/// Read a `Content-Length` value; malformed or oversized values count as
/// zero, as the message parsers treat them.
pub fn parse_content_length(v: &[u8]) -> (r: usize)
    ensures
        r == content_length_spec(v@),
{
    let ghost whole = v@;
    let mut i: usize = 0;
    if v.len() > 0 && v[0] == 43 {
        i = 1;
    }
    let ghost d = if whole.len() > 0 && whole[0] == 43 {
        whole.skip(1)
    } else {
        whole
    };
    if i >= v.len() {
        proof {
            assert(d.len() == 0);
        }
        return 0;
    }
    let start = i;
    let mut acc: usize = 0;
    while i < v.len()
        invariant
            start <= i <= whole.len(),
            whole == v@,
            start == whole.len() - d.len(),
            d == whole.skip(start as int),
            start == if whole.len() > 0 && whole[0] == 43 {
                1int
            } else {
                0int
            },
            d == (if whole.len() > 0 && whole[0] == 43 {
                whole.skip(1)
            } else {
                whole
            }),
            d.len() >= 1,
            all_digits(d.take(i - start)),
            acc == digits_val(d.take(i - start)),
        decreases whole.len() - i,
    {
        let b = v[i];
        if b < 48 || b > 57 {
            proof {
                assert(d[i - start] == whole[i as int]);
                assert(!all_digits(d));
            }
            return 0;
        }
        let dd = (b - 48) as usize;
        proof {
            assert(d.take(i - start + 1) =~= d.take(i - start).push(whole[i as int]));
            assert(d.take(i - start + 1).take(i - start) =~= d.take(i - start));
            assert(all_digits(d.take(i - start + 1)));
        }
        if acc > (usize::MAX - dd) / 10 {
            proof {
                assert(acc * 10 + dd > usize::MAX) by (nonlinear_arith)
                    requires
                        acc > (usize::MAX - dd) / 10,
                        dd <= usize::MAX,
                ;
                if all_digits(d) {
                    assert(digits_val(d.take(i - start + 1)) == acc * 10 + dd);
                    lemma_digits_val_monotone(d, i - start + 1);
                    assert(digits_val(d) >= digits_val(d.take(i - start + 1)));
                    assert(digits_val(d) > usize::MAX);
                }
            }
            return 0;
        }
        proof {
            assert(acc * 10 + dd <= usize::MAX) by (nonlinear_arith)
                requires
                    acc <= (usize::MAX - dd) / 10,
                    acc >= 0,
                    dd <= usize::MAX,
            ;
        }
        acc = acc * 10 + dd;
        i = i + 1;
    }
    proof {
        assert(d.take(d.len() as int) =~= d);
    }
    acc
}

/// The decimal digits of `n`, most significant first.
pub open spec fn decimal_of(n: int) -> Seq<u8>
    decreases n,
{
    if n < 10 {
        seq![(n % 10 + 48) as u8]
    } else {
        decimal_of(n / 10) + seq![(n % 10 + 48) as u8]
    }
}

/// Append the decimal form of `n` to a buffer.
pub fn push_decimal(n: usize, out: &mut Vec<u8>)
    ensures
        final(out)@ == old(out)@ + decimal_of(n as int),
    decreases n,
{
    if n < 10 {
        out.push((n % 10) as u8 + 48);
        proof {
            assert(out@ =~= old(out)@ + decimal_of(n as int));
        }
    } else {
        push_decimal(n / 10, out);
        out.push((n % 10) as u8 + 48);
        proof {
            assert(out@ =~= old(out)@ + decimal_of(n as int));
        }
    }
}

} // verus!
