//! Byte classification for the HTTP field grammar: one class per grammar
//! context (URI characters, tokens, generic values, dates, comment text,
//! quoted text), each as a spec predicate with an executable counterpart.

use vstd::prelude::*;

verus! {

pub const CR: u8 = 13;
pub const LF: u8 = 10;
pub const SP: u8 = 32;
pub const DQUOTE: u8 = 34;
pub const LPAREN: u8 = 40;
pub const RPAREN: u8 = 41;
pub const COMMA: u8 = 44;
pub const COLON: u8 = 58;
pub const BACKSLASH: u8 = 92;

/// The two-byte line terminator `\r\n`.
pub open spec fn crlf() -> Seq<u8> {
    seq![CR, LF]
}

/// ASCII letters and digits.
pub open spec fn is_alnum(b: u8) -> bool {
    (48 <= b && b <= 57) || (65 <= b && b <= 90) || (97 <= b && b <= 122)
}

/// `tchar` of RFC 9110: the bytes allowed in field names and unquoted
/// tokens: alphanumerics and `! # $ % & ' * + - . ^ _ ` | ~`.
pub open spec fn is_tchar(b: u8) -> bool {
    is_alnum(b) || b == 33 || b == 35 || b == 36 || b == 37 || b == 38 || b == 39 || b == 42
        || b == 43 || b == 45 || b == 46 || b == 94 || b == 95 || b == 96 || b == 124 || b == 126
}

/// Bytes allowed in a request path: alphanumerics and
/// `: | ? # [ ] @ ! $ & ' ( ) * + , ; = % - . _ ~ /`.
pub open spec fn is_uri_char(b: u8) -> bool {
    is_alnum(b) || b == 58 || b == 124 || b == 63 || b == 35 || b == 91 || b == 93 || b == 64
        || b == 33 || b == 36 || b == 38 || b == 39 || b == 40 || b == 41 || b == 42 || b == 43
        || b == 44 || b == 59 || b == 61 || b == 37 || b == 45 || b == 46 || b == 95 || b == 126
        || b == 47
}

/// Bytes allowed unquoted in a generic field value: `tchar` plus the
/// delimiters `) / : ; < = > ? @ [ ] { }` and the space character. The
/// comma, the double quote and the opening parenthesis stay out: they
/// separate list items and open quoted strings and comments.
pub open spec fn is_token_char(b: u8) -> bool {
    is_tchar(b) || b == 41 || b == 47 || b == 58 || b == 59 || b == 60 || b == 61 || b == 62
        || b == 63 || b == 64 || b == 91 || b == 93 || b == 123 || b == 125 || b == 32
}

/// Bytes allowed in a date field value: alphanumerics, space, comma and
/// colon, so that a whole date reads as one value.
pub open spec fn is_date_char(b: u8) -> bool {
    is_alnum(b) || b == 32 || b == 44 || b == 58
}

/// Comment text: horizontal tab, space, `! " # $ % & '`, `* .. [`,
/// `] .. ~`, and every byte at or above 0x80.
pub open spec fn is_ctext(b: u8) -> bool {
    b == 9 || b == 32 || (33 <= b && b <= 39) || (42 <= b && b <= 91) || (93 <= b && b <= 126)
        || b >= 128
}

/// Quoted text: horizontal tab, space, `!`, `# .. [`, `] .. ~`, and every
/// byte at or above 0x80. The double quote and the backslash stay out.
pub open spec fn is_qtext(b: u8) -> bool {
    b == 9 || b == 32 || b == 33 || (35 <= b && b <= 91) || (93 <= b && b <= 126) || b >= 128
}

/// A byte at or above 0x80: tolerated raw inside quoted strings and
/// comments without grammar validation.
pub open spec fn is_opaque_spec(b: u8) -> bool {
    b >= 128
}

pub fn is_opaque(b: u8) -> (r: bool)
    ensures
        r == is_opaque_spec(b),
{
    b >= 128
}

pub fn alnum(b: u8) -> (r: bool)
    ensures
        r == is_alnum(b),
{
    (48 <= b && b <= 57) || (65 <= b && b <= 90) || (97 <= b && b <= 122)
}

pub fn tchar(b: u8) -> (r: bool)
    ensures
        r == is_tchar(b),
{
    alnum(b) || b == 33 || b == 35 || b == 36 || b == 37 || b == 38 || b == 39 || b == 42
        || b == 43 || b == 45 || b == 46 || b == 94 || b == 95 || b == 96 || b == 124 || b == 126
}

pub fn uri_char(b: u8) -> (r: bool)
    ensures
        r == is_uri_char(b),
{
    alnum(b) || b == 58 || b == 124 || b == 63 || b == 35 || b == 91 || b == 93 || b == 64
        || b == 33 || b == 36 || b == 38 || b == 39 || b == 40 || b == 41 || b == 42 || b == 43
        || b == 44 || b == 59 || b == 61 || b == 37 || b == 45 || b == 46 || b == 95 || b == 126
        || b == 47
}

pub fn token_char(b: u8) -> (r: bool)
    ensures
        r == is_token_char(b),
{
    tchar(b) || b == 41 || b == 47 || b == 58 || b == 59 || b == 60 || b == 61 || b == 62
        || b == 63 || b == 64 || b == 91 || b == 93 || b == 123 || b == 125 || b == 32
}

pub fn date_char(b: u8) -> (r: bool)
    ensures
        r == is_date_char(b),
{
    alnum(b) || b == 32 || b == 44 || b == 58
}

pub fn ctext(b: u8) -> (r: bool)
    ensures
        r == is_ctext(b),
{
    b == 9 || b == 32 || (33 <= b && b <= 39) || (42 <= b && b <= 91) || (93 <= b && b <= 126)
        || b >= 128
}

pub fn qtext(b: u8) -> (r: bool)
    ensures
        r == is_qtext(b),
{
    b == 9 || b == 32 || b == 33 || (35 <= b && b <= 91) || (93 <= b && b <= 126) || b >= 128
}

/// The base character class a validator configuration starts from.
#[derive(Clone, Copy, PartialEq, Eq, Structural, Debug)]
pub enum CharMap {
    Uri,
    Tchar,
    Token,
    Date,
    Ctext,
    Qtext,
}

/// Whether a byte belongs to the given class.
pub open spec fn map_allows(m: CharMap, b: u8) -> bool {
    match m {
        CharMap::Uri => is_uri_char(b),
        CharMap::Tchar => is_tchar(b),
        CharMap::Token => is_token_char(b),
        CharMap::Date => is_date_char(b),
        CharMap::Ctext => is_ctext(b),
        CharMap::Qtext => is_qtext(b),
    }
}

pub fn map_lookup(m: CharMap, b: u8) -> (r: bool)
    ensures
        r == map_allows(m, b),
{
    match m {
        CharMap::Uri => uri_char(b),
        CharMap::Tchar => tchar(b),
        CharMap::Token => token_char(b),
        CharMap::Date => date_char(b),
        CharMap::Ctext => ctext(b),
        CharMap::Qtext => qtext(b),
    }
}

} // verus!
