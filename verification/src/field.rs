//! Field values: a validated single value, the ordered list of values one
//! field name maps to, and the ordered name-to-values mapping used for both
//! headers and trailers.
//!
//! Every parse result is pinned to a spec-level parse function over byte
//! sequences ([`value_parse`], [`parse_values_from`], [`parse_fields_from`]),
//! and every serializer to a spec-level one, so the round-trip laws can be
//! stated and proved over those functions alone.

use vstd::prelude::*;
use vstd::string::StringSliceAdditionalSpecFns;

use crate::advance::Advance;
use crate::buffer::{bytes_advance, bytes_as_slice, bytes_at, bytes_copy_from_slice,
    bytes_from_vec, bytes_len, bytes_split_to, contents};
use crate::chars::{alnum, crlf, is_alnum, is_tchar, map_allows, map_lookup, tchar, CharMap,
    BACKSLASH, COLON, COMMA, CR, DQUOTE, LF, SP};
use crate::slices::slices_equal;
use crate::scan::{init_state, step, ByteClass, Config, Step, ValidationError, Validator, VState};

verus! {

/// Why a value, or a block of fields, failed to parse.
#[derive(Clone, Copy, PartialEq, Eq, Structural, Debug)]
pub enum ParsingError {
    Malformed,
    IncorrectlyTerminated,
    NameMissing,
    ValueTooLong,
    ValueInvalidToken,
    ValueInvalidQuotedText,
    InvalidCommentCharacter,
}

impl ParsingError {
    pub fn as_str(self) -> &'static str {
        match self {
            ParsingError::Malformed => "malformed",
            ParsingError::IncorrectlyTerminated => "incorrectly terminated",
            ParsingError::NameMissing => "name missing",
            ParsingError::ValueTooLong => "value too long",
            ParsingError::ValueInvalidToken => "value contains an invalid token character",
            ParsingError::ValueInvalidQuotedText => "value contains invalid quoted text",
            ParsingError::InvalidCommentCharacter => "comment contains an invalid character",
        }
    }
}

/// A stored value failed re-validation during unquoting.
#[derive(Debug)]
pub struct InvalidData;

/// The hard ceiling on a single value's length: a value of exactly this many
/// bytes still parses, one more byte fails with `ValueTooLong`.
pub const MAX_VALUE_LEN: usize = 100000;

/// The outcome of scanning a value's bytes from position `i`.
pub enum ScanResult {
    /// A terminator (unquoted comma of a list, or carriage return) was found
    /// at position `len`: the value is `s[..len]`.
    Found { len: int },
    /// More than [`MAX_VALUE_LEN`] bytes were accepted without a terminator.
    TooLong,
    /// A byte violated the grammar.
    Fail { err: ValidationError },
    /// The input ended before any terminator.
    Incomplete,
}

/// Scan `s` from position `i` in state `st`, byte by byte per
/// [`step`], until a terminator, an error, the length ceiling, or the end of
/// the input.
pub open spec fn scan(cfg: Config, s: Seq<u8>, st: VState, i: int) -> ScanResult
    decreases s.len() - i,
{
    if i < 0 || i >= s.len() {
        ScanResult::Incomplete
    } else {
        match step(cfg, st, s[i]) {
            Step::End => ScanResult::Found { len: i },
            Step::Reject { err } => ScanResult::Fail { err },
            Step::Accept { class, next } => if i >= MAX_VALUE_LEN as int {
                ScanResult::TooLong
            } else {
                scan(cfg, s, next, i + 1)
            },
        }
    }
}

/// Parsing one value off the front of `s`: the value's bytes and the rest of
/// the input (still starting with the terminator), or the reason it failed.
/// `IncorrectlyTerminated` comes exactly when the input ends before a
/// terminator; `ValueTooLong` exactly when more than [`MAX_VALUE_LEN`] bytes
/// are accepted first.
pub open spec fn value_parse(cfg: Config, s: Seq<u8>) -> Result<(Seq<u8>, Seq<u8>), ParsingError> {
    match scan(cfg, s, init_state(), 0) {
        ScanResult::Found { len } => Ok((s.take(len), s.skip(len))),
        ScanResult::TooLong => Err(ParsingError::ValueTooLong),
        ScanResult::Fail { err } => Err(
            match err {
                ValidationError::Token => ParsingError::ValueInvalidToken,
                ValidationError::Comment => ParsingError::InvalidCommentCharacter,
                ValidationError::Quote => ParsingError::ValueInvalidQuotedText,
                // `step` never rejects with `Terminated`; it signals `End`.
                ValidationError::Terminated => ParsingError::IncorrectlyTerminated,
            },
        ),
        ScanResult::Incomplete => Err(ParsingError::IncorrectlyTerminated),
    }
}

pub open spec fn all_ascii(s: Seq<u8>) -> bool {
    forall|i: int| 0 <= i < s.len() ==> s[i] < 128
}

/// Every byte of `s` belongs to the configuration's base class, so the value
/// can be stored and emitted unquoted, as it is.
pub open spec fn plain_value(cfg: Config, s: Seq<u8>) -> bool {
    forall|i: int| 0 <= i < s.len() ==> map_allows(cfg.map, s[i])
}

/// Whether `s[i..]`, walked from state `st`, is representable unquoted under
/// Root rules: the machine accepts every byte — plain content or comment
/// syntax, but no quote mark, escape, opaque byte or terminator — and ends
/// back in the root state.
pub open spec fn representable_unquoted(cfg: Config, s: Seq<u8>, st: VState, i: int) -> bool
    decreases s.len() - i,
{
    if i < 0 || i >= s.len() {
        !st.quoted && st.depth == 0
    } else {
        match step(cfg, st, s[i]) {
            Step::Accept { class, next } => (class is Visible || (class is Syntax && s[i]
                != DQUOTE && s[i] != BACKSLASH)) && representable_unquoted(cfg, s, next, i + 1),
            _ => false,
        }
    }
}

/// One byte of escaped output: the byte itself if the class allows it, else
/// the escape byte followed by it.
pub open spec fn esc_byte(b: u8, m: CharMap, e: u8) -> Seq<u8> {
    if map_allows(m, b) {
        seq![b]
    } else {
        seq![e, b]
    }
}

/// `s` with every byte outside the class `m` preceded by the escape byte.
pub open spec fn esc_seq(s: Seq<u8>, m: CharMap, e: u8) -> Seq<u8>
    decreases s.len(),
{
    if s.len() == 0 {
        Seq::empty()
    } else {
        esc_byte(s[0], m, e) + esc_seq(s.skip(1), m, e)
    }
}

/// `s` wrapped in double quotes, with every byte the quoted-text class
/// rejects escaped by a backslash.
pub open spec fn quote_escape(s: Seq<u8>) -> Seq<u8> {
    seq![DQUOTE] + esc_seq(s, CharMap::Qtext, BACKSLASH) + seq![DQUOTE]
}

/// Re-walking a stored value from position `i` in state `st`: syntax bytes
/// are dropped, visible and opaque bytes are kept in order; `None` if a byte
/// is rejected or terminates the value early.
pub open spec fn unquote_from(cfg: Config, s: Seq<u8>, st: VState, i: int) -> Option<Seq<u8>>
    decreases s.len() - i,
{
    if i < 0 || i >= s.len() {
        Some(Seq::empty())
    } else {
        match step(cfg, st, s[i]) {
            Step::Accept { class, next } => match unquote_from(cfg, s, next, i + 1) {
                Some(rest) => Some(
                    if class is Syntax {
                        rest
                    } else {
                        seq![s[i]] + rest
                    },
                ),
                None => None,
            },
            _ => None,
        }
    }
}

/// The unquoted content of a whole stored value.
pub open spec fn unquote_spec(cfg: Config, s: Seq<u8>) -> Option<Seq<u8>> {
    unquote_from(cfg, s, init_state(), 0)
}

pub proof fn lemma_all_ascii_concat(a: Seq<u8>, b: Seq<u8>)
    requires
        all_ascii(a),
        all_ascii(b),
    ensures
        all_ascii(a + b),
{
    assert forall|i: int| 0 <= i < (a + b).len() implies (a + b)[i] < 128 by {
        if i < a.len() {
            assert((a + b)[i] == a[i]);
        } else {
            assert((a + b)[i] == b[i - a.len()]);
        }
    }
}

pub proof fn lemma_all_ascii_take(s: Seq<u8>, i: int)
    requires
        0 <= i <= s.len(),
    ensures
        all_ascii(s.take(i)) == (forall|j: int| 0 <= j < i ==> s[j] < 128),
{
    if forall|j: int| 0 <= j < i ==> s[j] < 128 {
        assert forall|j: int| 0 <= j < s.take(i).len() implies s.take(i)[j] < 128 by {
            assert(s.take(i)[j] == s[j]);
        }
    } else {
        let w = choose|j: int| 0 <= j < i && !(s[j] < 128);
        assert(s.take(i)[w] == s[w]);
    }
}

pub proof fn lemma_esc_seq_ascii(s: Seq<u8>, m: CharMap, e: u8)
    requires
        all_ascii(s),
        e < 128,
    ensures
        all_ascii(esc_seq(s, m, e)),
    decreases s.len(),
{
    if s.len() == 0 {
    } else {
        assert(all_ascii(s.skip(1)));
        lemma_esc_seq_ascii(s.skip(1), m, e);
        assert(all_ascii(esc_byte(s[0], m, e)));
        lemma_all_ascii_concat(esc_byte(s[0], m, e), esc_seq(s.skip(1), m, e));
    }
}

pub proof fn lemma_esc_seq_snoc(s: Seq<u8>, b: u8, m: CharMap, e: u8)
    ensures
        esc_seq(s.push(b), m, e) == esc_seq(s, m, e) + esc_byte(b, m, e),
    decreases s.len(),
{
    if s.len() == 0 {
        assert(s.push(b).skip(1) =~= Seq::<u8>::empty());
        assert(s.push(b)[0] == b);
        assert(esc_seq(s.push(b), m, e) == esc_byte(b, m, e) + esc_seq(
            Seq::<u8>::empty(),
            m,
            e,
        ));
        assert(esc_seq(s.push(b), m, e) =~= esc_seq(s, m, e) + esc_byte(b, m, e));
    } else {
        assert(s.push(b).skip(1) =~= s.skip(1).push(b));
        lemma_esc_seq_snoc(s.skip(1), b, m, e);
        assert(esc_seq(s.push(b), m, e) =~= esc_seq(s, m, e) + esc_byte(b, m, e));
    }
}

/// Append to `dest` a copy of `src` in which every byte outside the class
/// `map` is preceded by `escape`.
pub fn write_escaped_bytes(dest: &mut Vec<u8>, src: &[u8], map: CharMap, escape: u8)
    ensures
        final(dest)@ == old(dest)@ + esc_seq(src@, map, escape),
{
    let ghost base = dest@;
    let mut i: usize = 0;
    while i < src.len()
        invariant
            i <= src@.len(),
            dest@ == base + esc_seq(src@.take(i as int), map, escape),
        decreases src@.len() - i,
    {
        let b = src[i];
        proof {
            assert(src@.take(i + 1) =~= src@.take(i as int).push(src@[i as int]));
            lemma_esc_seq_snoc(src@.take(i as int), src@[i as int], map, escape);
        }
        if map_lookup(map, b) {
            dest.push(b);
        } else {
            dest.push(escape);
            dest.push(b);
        }
        proof {
            assert(dest@ =~= base + esc_seq(src@.take(i + 1), map, escape));
        }
        i = i + 1;
    }
    proof {
        assert(src@.take(src@.len() as int) =~= src@);
    }
}

/// Relies on `std::str::from_utf8`: succeeds exactly on valid UTF-8, and a
/// purely ASCII slice is valid UTF-8 whose string holds the same bytes.
#[verifier::external_body]
fn ascii_to_str(v: &[u8]) -> (r: Option<&str>)
    ensures
        all_ascii(v@) ==> r is Some,
        r is Some ==> r.unwrap().spec_bytes() == v@,
{
    std::str::from_utf8(v).ok()
}

/// One validated field value: a zero-copy view of wire bytes, or an owned
/// buffer when building it forced a rewrite, plus a flag recording whether
/// every stored byte is ASCII.
#[derive(Debug)]
pub struct Value {
    value: bytes::Bytes,
    is_valid_ascii: bool,
}

impl View for Value {
    type V = Seq<u8>;

    closed spec fn view(&self) -> Seq<u8> {
        contents(self.value)
    }
}

impl Value {
    pub closed spec fn ascii_flag(&self) -> bool {
        self.is_valid_ascii
    }

    /// The stored flag never claims ASCII of a value that is not.
    pub open spec fn wf(&self) -> bool {
        self.ascii_flag() ==> all_ascii(self@)
    }

    /// Build a value from arbitrary in-memory bytes: stored as they are when
    /// the validator accepts every byte and walks back to the root state —
    /// plain content or balanced comments, but no quote mark, escape, opaque
    /// byte or terminator — else wrapped in a quoted string with every byte
    /// the quoted-text class rejects escaped.
    pub fn from_unquoted(src: &[u8], config: Config) -> (r: Self)
        ensures
            representable_unquoted(config, src@, init_state(), 0) ==> r@ == src@,
            !representable_unquoted(config, src@, init_state(), 0) ==> r@ == quote_escape(src@),
            r.ascii_flag() == all_ascii(src@),
            r.wf(),
    {
        let ghost s = src@;
        let mut validator = Validator::new(config);
        let mut eligible = true;
        let mut flag = true;
        let mut i: usize = 0;
        while i < src.len()
            invariant
                i <= s.len(),
                s == src@,
                validator.cfg() == config,
                flag == (forall|j: int| 0 <= j < i ==> s[j] < 128),
                eligible ==> validator.err() is None && validator.state().depth <= i
                    && representable_unquoted(config, s, init_state(), 0)
                    == representable_unquoted(config, s, validator.state(), i as int),
                !eligible ==> !representable_unquoted(config, s, init_state(), 0),
            decreases s.len() - i,
        {
            let b = src[i];
            flag = flag && b < 128;
            if eligible {
                match validator.advance(b) {
                    Ok(class) => {
                        let bad = match class {
                            ByteClass::Visible => false,
                            ByteClass::Opaque => true,
                            ByteClass::Syntax => b == DQUOTE || b == BACKSLASH,
                        };
                        if bad {
                            eligible = false;
                        }
                    },
                    Err(_) => {
                        eligible = false;
                    },
                }
            }
            i = i + 1;
        }
        proof {
            lemma_all_ascii_take(s, s.len() as int);
            assert(s.take(s.len() as int) =~= s);
        }
        let verbatim = eligible && validator.in_root_scope();
        if verbatim {
            Value { value: bytes_copy_from_slice(src), is_valid_ascii: flag }
        } else {
            let mut out: Vec<u8> = Vec::new();
            out.push(DQUOTE);
            let ghost opened = out@;
            write_escaped_bytes(&mut out, src, CharMap::Qtext, BACKSLASH);
            out.push(DQUOTE);
            proof {
                assert(out@ =~= quote_escape(src@));
                if flag {
                    lemma_esc_seq_ascii(src@, CharMap::Qtext, BACKSLASH);
                    lemma_all_ascii_concat(seq![DQUOTE], esc_seq(src@, CharMap::Qtext, BACKSLASH));
                    lemma_all_ascii_concat(
                        seq![DQUOTE] + esc_seq(src@, CharMap::Qtext, BACKSLASH),
                        seq![DQUOTE],
                    );
                    assert(all_ascii(quote_escape(src@)));
                }
            }
            Value { value: bytes_from_vec(out), is_valid_ascii: flag }
        }
    }

    /// Parse one value off the front of the buffer, leaving the terminator
    /// unconsumed; on failure the buffer is left as it was.
    pub(crate) fn from_bytes(bytes: &mut bytes::Bytes, config: Config) -> (r: Result<
        Self,
        ParsingError,
    >)
        ensures
            match r {
                Ok(v) => value_parse(config, contents(*old(bytes))) == Ok::<
                    (Seq<u8>, Seq<u8>),
                    ParsingError,
                >((v@, contents(*final(bytes)))) && v.ascii_flag() == all_ascii(v@) && v.wf(),
                Err(e) => value_parse(config, contents(*old(bytes))) == Err::<
                    (Seq<u8>, Seq<u8>),
                    ParsingError,
                >(e) && contents(*final(bytes)) == contents(*old(bytes)),
            },
    {
        let ghost s = contents(*bytes);
        let len = bytes_len(bytes);
        let mut validator = Validator::new(config);
        let mut flag = true;
        let mut i: usize = 0;
        while i < len
            invariant
                i <= len == s.len(),
                s == contents(*bytes),
                s == contents(*old(bytes)),
                i <= MAX_VALUE_LEN,
                validator.cfg() == config,
                validator.err() is None,
                validator.state().depth <= i,
                scan(config, s, init_state(), 0) == scan(config, s, validator.state(), i as int),
                flag == (forall|j: int| 0 <= j < i ==> s[j] < 128),
            decreases len - i,
        {
            let b = bytes_at(bytes, i);
            match validator.advance(b) {
                Ok(_) => {
                    if i >= MAX_VALUE_LEN {
                        return Err(ParsingError::ValueTooLong);
                    }
                    flag = flag && b < 128;
                    i = i + 1;
                },
                Err(e) => match e {
                    ValidationError::Terminated => {
                        proof {
                            lemma_all_ascii_take(s, i as int);
                        }
                        let val = bytes_split_to(bytes, i);
                        return Ok(Value { value: val, is_valid_ascii: flag });
                    },
                    ValidationError::Token => {
                        return Err(ParsingError::ValueInvalidToken);
                    },
                    ValidationError::Comment => {
                        return Err(ParsingError::InvalidCommentCharacter);
                    },
                    ValidationError::Quote => {
                        return Err(ParsingError::ValueInvalidQuotedText);
                    },
                },
            }
        }
        Err(ParsingError::IncorrectlyTerminated)
    }

    /// Wrap already-validated bytes, recording whether every byte is valid
    /// under the configuration. The configuration's classes must be ASCII,
    /// as the header configurations are, so the flag stays truthful.
    pub(crate) fn new(value: bytes::Bytes, config: &Config) -> (r: Self)
        requires
            forall|b: u8| config.byte_valid(b) ==> b < 128,
        ensures
            r@ == contents(value),
            r.ascii_flag() == (forall|i: int| 0 <= i < contents(value).len() ==> config.byte_valid(
                contents(value)[i],
            )),
            r.wf(),
    {
        let s = bytes_as_slice(&value);
        let mut flag = true;
        let mut i: usize = 0;
        while i < s.len()
            invariant
                i <= s@.len(),
                s@ == contents(value),
                flag == (forall|j: int| 0 <= j < i ==> config.byte_valid(s@[j])),
            decreases s@.len() - i,
        {
            flag = flag && config.validate_byte(s[i]);
            i = i + 1;
        }
        let is_valid_ascii = flag;
        Value { value, is_valid_ascii }
    }

    pub fn as_slice(&self) -> (r: &[u8])
        ensures
            r@ == self@,
    {
        bytes_as_slice(&self.value)
    }

    /// The value as a string slice, when every stored byte is ASCII.
    pub fn as_str(&self) -> (r: Option<&str>)
        requires
            self.wf(),
        ensures
            r is Some <==> self.ascii_flag(),
            r is Some ==> r.unwrap().spec_bytes() == self@,
    {
        if self.is_valid_ascii {
            let r = ascii_to_str(bytes_as_slice(&self.value));
            r
        } else {
            None
        }
    }

    /// Strip the value's syntax: quote marks, backslashes and comment
    /// parentheses are dropped, everything else is kept in order. Fails when
    /// the stored bytes do not satisfy the grammar.
    pub fn unquote(&self, config: Config) -> (r: Result<Vec<u8>, InvalidData>)
        ensures
            match r {
                Ok(out) => unquote_spec(config, self@) == Some(out@),
                Err(_) => unquote_spec(config, self@) is None,
            },
    {
        let ghost s = contents(self.value);
        let slice = bytes_as_slice(&self.value);
        let mut out: Vec<u8> = Vec::new();
        let mut validator = Validator::new(config);
        let mut i: usize = 0;
        while i < slice.len()
            invariant
                i <= slice@.len(),
                slice@ == s,
                s == contents(self.value),
                validator.cfg() == config,
                validator.err() is None,
                validator.state().depth <= i,
                unquote_from(config, s, validator.state(), i as int) is Some
                    ==> unquote_spec(config, s) == Some(
                    out@ + unquote_from(config, s, validator.state(), i as int).unwrap(),
                ),
                unquote_from(config, s, validator.state(), i as int) is None ==> unquote_spec(
                    config,
                    s,
                ) is None,
            decreases slice@.len() - i,
        {
            let b = slice[i];
            match validator.advance(b) {
                Ok(class) => {
                    match class {
                        ByteClass::Syntax => {},
                        _ => {
                            out.push(b);
                        },
                    }
                    i = i + 1;
                },
                Err(_) => {
                    return Err(InvalidData);
                },
            }
        }
        proof {
            assert(out@ + Seq::<u8>::empty() =~= out@);
        }
        Ok(out)
    }
}

// ---------------------------------------------------------------------------
// Lists of values under one field name
// ---------------------------------------------------------------------------

/// In a `Found` scan, the terminator's position lies inside the input and at
/// or after the start.
pub proof fn lemma_scan_found_bounds(cfg: Config, s: Seq<u8>, st: VState, i: int)
    ensures
        match scan(cfg, s, st, i) {
            ScanResult::Found { len } => i <= len < s.len() && 0 <= len,
            _ => true,
        },
    decreases s.len() - i,
{
    if i < 0 || i >= s.len() {
    } else {
        match step(cfg, st, s[i]) {
            Step::Accept { class, next } => {
                if i < MAX_VALUE_LEN as int {
                    lemma_scan_found_bounds(cfg, s, next, i + 1);
                }
            },
            _ => {},
        }
    }
}

/// Parse a comma-separated list of values off the front of `s`, appending
/// them to `acc`: spaces before each value are skipped, each value is parsed
/// per [`value_parse`], and a comma right after a value continues the list.
/// The rest still starts with the carriage return that ended the last value.
pub open spec fn parse_values_from(cfg: Config, s: Seq<u8>, acc: Seq<Seq<u8>>) -> Result<
    (Seq<Seq<u8>>, Seq<u8>),
    ParsingError,
>
    decreases s.len(),
    via parse_values_from_dec
{
    if s.len() > 0 && s[0] == SP {
        parse_values_from(cfg, s.skip(1), acc)
    } else {
        match value_parse(cfg, s) {
            Err(e) => Err(e),
            Ok((v, rest)) => if rest.len() > 0 && rest[0] == COMMA {
                parse_values_from(cfg, rest.skip(1), acc.push(v))
            } else {
                Ok((acc.push(v), rest))
            },
        }
    }
}

#[via_fn]
proof fn parse_values_from_dec(cfg: Config, s: Seq<u8>, acc: Seq<Seq<u8>>) {
    if !(s.len() > 0 && s[0] == SP) {
        lemma_scan_found_bounds(cfg, s, init_state(), 0);
    }
}

/// Skipping leading spaces does not change what the list parses to.
pub proof fn lemma_values_skip_spaces(cfg: Config, s: Seq<u8>, acc: Seq<Seq<u8>>, k: int)
    requires
        0 <= k <= s.len(),
        forall|j: int| 0 <= j < k ==> s[j] == SP,
    ensures
        parse_values_from(cfg, s, acc) == parse_values_from(cfg, s.skip(k), acc),
    decreases k,
{
    if k == 0 {
        assert(s.skip(0) =~= s);
    } else {
        assert(s[0] == SP);
        lemma_values_skip_spaces(cfg, s.skip(1), acc, k - 1);
        assert(s.skip(1).skip(k - 1) =~= s.skip(k));
    }
}

/// The serialized tail of a value list from position `i`: `", "` before each
/// value.
pub open spec fn ser_values_rest(vals: Seq<Seq<u8>>, i: int) -> Seq<u8>
    decreases vals.len() - i,
{
    if i < 0 || i >= vals.len() {
        Seq::empty()
    } else {
        seq![COMMA, SP] + vals[i] + ser_values_rest(vals, i + 1)
    }
}

/// A value list on the wire: the values verbatim, joined by `", "`.
pub open spec fn ser_values(vals: Seq<Seq<u8>>) -> Seq<u8> {
    if vals.len() == 0 {
        Seq::empty()
    } else {
        vals[0] + ser_values_rest(vals, 1)
    }
}

/// Append a whole slice to a byte vector.
pub fn vec_push_slice(dest: &mut Vec<u8>, src: &[u8])
    ensures
        final(dest)@ == old(dest)@ + src@,
{
    let ghost base = dest@;
    let mut i: usize = 0;
    while i < src.len()
        invariant
            i <= src@.len(),
            dest@ == base + src@.take(i as int),
        decreases src@.len() - i,
    {
        dest.push(src[i]);
        proof {
            assert(base + src@.take(i + 1) =~= (base + src@.take(i as int)).push(src@[i as int]));
        }
        i = i + 1;
    }
    proof {
        assert(base + src@.take(src@.len() as int) =~= base + src@);
    }
}

/// One or more values sharing a field name, in the order encountered, with
/// the validation configuration they were checked under.
#[derive(Debug)]
pub struct Values {
    first: Value,
    extra: Vec<Value>,
    config: Config,
}

impl View for Values {
    type V = Seq<Seq<u8>>;

    closed spec fn view(&self) -> Seq<Seq<u8>> {
        seq![self.first@] + self.extra@.map(|i: int, v: Value| v@)
    }
}

impl Values {
    pub closed spec fn cfg(&self) -> Config {
        self.config
    }

    pub closed spec fn first_val(&self) -> Value {
        self.first
    }

    /// Each stored value's ASCII flag is truthful, and the stored
    /// configuration only admits ASCII bytes, so pushed values stay so.
    pub open spec fn wf(&self) -> bool {
        &&& self.first_val().wf()
        &&& (forall|i: int| 0 <= i < self@.len() - 1 ==> #[trigger] self.extra_val(i).wf())
        &&& (forall|b: u8| self.cfg().byte_valid(b) ==> b < 128)
    }

    pub closed spec fn extra_val(&self, i: int) -> Value {
        self.extra@[i]
    }

    /// A single-value list, validating the value under the configuration.
    pub fn new(first: bytes::Bytes, config: Config) -> (r: Self)
        requires
            forall|b: u8| config.byte_valid(b) ==> b < 128,
        ensures
            r@ == seq![contents(first)],
            r.cfg() == config,
            r.wf(),
    {
        let r = Values { first: Value::new(first, &config), extra: Vec::new(), config };
        proof {
            assert(r@ =~= seq![contents(first)]);
        }
        r
    }

    /// Validate one more value under the stored configuration and append it.
    pub fn push(&mut self, value: bytes::Bytes)
        requires
            old(self).wf(),
        ensures
            final(self)@ == old(self)@.push(contents(value)),
            final(self).cfg() == old(self).cfg(),
            final(self).wf(),
    {
        let v = Value::new(value, &self.config);
        let ghost gv = v;
        self.extra.push(v);
        proof {
            assert(self@ =~= old(self)@.push(contents(value)));
            assert forall|i: int| 0 <= i < self@.len() - 1 implies #[trigger] self.extra_val(
                i,
            ).wf() by {
                if i < old(self)@.len() - 1 {
                    assert(old(self).extra_val(i).wf());
                    assert(self.extra_val(i) == old(self).extra_val(i));
                } else {
                    assert(self.extra_val(i) == gv);
                }
            }
        }
    }

    /// Parse values off the front of the buffer and append them, until no
    /// comma follows a value; the final carriage return stays unconsumed.
    pub(crate) fn extend_from_bytes(&mut self, bytes: &mut bytes::Bytes) -> (r: Result<
        (),
        ParsingError,
    >)
        requires
            old(self).wf(),
        ensures
            final(self).cfg() == old(self).cfg(),
            match r {
                Ok(()) => parse_values_from(old(self).cfg(), contents(*old(bytes)), old(self)@)
                    == Ok::<(Seq<Seq<u8>>, Seq<u8>), ParsingError>(
                    (final(self)@, contents(*final(bytes))),
                ) && final(self).wf(),
                Err(e) => parse_values_from(old(self).cfg(), contents(*old(bytes)), old(self)@)
                    == Err::<(Seq<Seq<u8>>, Seq<u8>), ParsingError>(e),
            },
    {
        let ghost cfg = self.config;
        let ghost target = parse_values_from(cfg, contents(*bytes), self@);
        loop
            invariant
                self.wf(),
                self.config == cfg,
                old(self).cfg() == cfg,
                parse_values_from(cfg, contents(*bytes), self@) == target,
                target == parse_values_from(old(self).cfg(), contents(*old(bytes)), old(self)@),
            decreases contents(*bytes).len(),
        {
            let ghost s0 = contents(*bytes);
            let ghost acc = self@;
            let k = bytes.advance_while(SP);
            proof {
                lemma_values_skip_spaces(cfg, s0, acc, k as int);
            }
            let ghost s1 = contents(*bytes);
            match Value::from_bytes(bytes, self.config) {
                Err(e) => {
                    return Err(e);
                },
                Ok(v) => {
                    let ghost gv = v;
                    let ghost pre = *self;
                    proof {
                        lemma_scan_found_bounds(cfg, s1, init_state(), 0);
                    }
                    self.extra.push(v);
                    proof {
                        assert(self@ =~= acc.push(gv@));
                        assert forall|i: int| 0 <= i < self@.len() - 1 implies #[trigger] self
                            .extra_val(i).wf() by {
                            if i < pre@.len() - 1 {
                                assert(pre.extra_val(i).wf());
                                assert(self.extra_val(i) == pre.extra_val(i));
                            } else {
                                assert(self.extra_val(i) == gv);
                            }
                        }
                    }
                },
            }
            if !bytes.advance_byte(COMMA) {
                proof {
                    assert(target == Ok::<(Seq<Seq<u8>>, Seq<u8>), ParsingError>(
                        (self@, contents(*bytes)),
                    ));
                }
                return Ok(());
            }
        }
    }

    /// Parse a fresh value list off the front of the buffer.
    pub(crate) fn from_bytes(bytes: &mut bytes::Bytes, config: Config) -> (r: Result<
        Self,
        ParsingError,
    >)
        requires
            forall|b: u8| config.byte_valid(b) ==> b < 128,
        ensures
            match r {
                Ok(vs) => parse_values_from(config, contents(*old(bytes)), Seq::empty()) == Ok::<
                    (Seq<Seq<u8>>, Seq<u8>),
                    ParsingError,
                >((vs@, contents(*final(bytes)))) && vs.wf() && vs.cfg() == config,
                Err(e) => parse_values_from(config, contents(*old(bytes)), Seq::empty()) == Err::<
                    (Seq<Seq<u8>>, Seq<u8>),
                    ParsingError,
                >(e),
            },
    {
        let ghost s0 = contents(*bytes);
        let k = bytes.advance_while(SP);
        proof {
            lemma_values_skip_spaces(config, s0, Seq::empty(), k as int);
        }
        let ghost s1 = contents(*bytes);
        let first = match Value::from_bytes(bytes, config) {
            Err(e) => {
                return Err(e);
            },
            Ok(v) => v,
        };
        proof {
            lemma_scan_found_bounds(config, s1, init_state(), 0);
        }
        let mut vals = Values { first, extra: Vec::new(), config };
        proof {
            assert(vals@ =~= Seq::<Seq<u8>>::empty().push(first@));
        }
        if bytes.advance_byte(COMMA) {
            match vals.extend_from_bytes(bytes) {
                Err(e) => {
                    return Err(e);
                },
                Ok(()) => {},
            }
        }
        Ok(vals)
    }

    pub fn first(&self) -> (r: &Value)
        ensures
            r@ == self@[0],
            self.wf() ==> r.wf(),
            r == self.first_val(),
    {
        &self.first
    }

    pub fn first_slice(&self) -> (r: &[u8])
        ensures
            r@ == self@[0],
    {
        self.first.as_slice()
    }

    pub fn extra(&self) -> (r: &[Value])
        ensures
            r@.len() == self@.len() - 1,
            forall|i: int| 0 <= i < r@.len() ==> #[trigger] r@[i]@ == self@[i + 1],
    {
        self.extra.as_slice()
    }

    pub fn extra_slice(&self) -> (r: Vec<&[u8]>)
        ensures
            r@.len() == self@.len() - 1,
            forall|i: int| 0 <= i < r@.len() ==> #[trigger] r@[i]@ == self@[i + 1],
    {
        let mut out: Vec<&[u8]> = Vec::new();
        let mut i: usize = 0;
        while i < self.extra.len()
            invariant
                i <= self.extra@.len(),
                self@.len() - 1 == self.extra@.len(),
                out@.len() == i,
                forall|j: int| 0 <= j < i ==> #[trigger] out@[j]@ == self@[j + 1],
            decreases self.extra@.len() - i,
        {
            out.push(self.extra[i].as_slice());
            i = i + 1;
        }
        out
    }

    pub fn is_single(&self) -> (r: bool)
        ensures
            r == (self@.len() == 1),
    {
        self.extra.is_empty()
    }

    pub fn get_refs(&self) -> (r: (&Value, &[Value]))
        ensures
            r.0@ == self@[0],
            r.1@.len() == self@.len() - 1,
            forall|i: int| 0 <= i < r.1@.len() ==> #[trigger] r.1@[i]@ == self@[i + 1],
    {
        (self.first(), self.extra())
    }

    pub fn get_slices(&self) -> (r: (&[u8], Vec<&[u8]>))
        ensures
            r.0@ == self@[0],
            r.1@.len() == self@.len() - 1,
            forall|i: int| 0 <= i < r.1@.len() ==> #[trigger] r.1@[i]@ == self@[i + 1],
    {
        (self.first_slice(), self.extra_slice())
    }

    /// How many values the list holds; always at least one.
    pub fn count(&self) -> (r: usize)
        requires
            self@.len() <= usize::MAX,
        ensures
            r == self@.len(),
    {
        self.extra.len() + 1
    }

    /// Append the wire form of the list to a buffer.
    pub fn write_to_buffer(&self, buffer: &mut Vec<u8>)
        ensures
            final(buffer)@ == old(buffer)@ + ser_values(self@),
    {
        let ghost base = buffer@;
        let ghost vals = self@;
        vec_push_slice(buffer, self.first.as_slice());
        let mut j: usize = 0;
        while j < self.extra.len()
            invariant
                j <= self.extra@.len(),
                vals == self@,
                vals.len() == self.extra@.len() + 1,
                base + ser_values(vals) == buffer@ + ser_values_rest(vals, j + 1),
            decreases self.extra@.len() - j,
        {
            let ghost before = buffer@;
            vec_push_slice(buffer, &[COMMA, SP]);
            vec_push_slice(buffer, self.extra[j].as_slice());
            proof {
                assert(self.extra@[j as int]@ == vals[j + 1]);
                assert(buffer@ =~= before + (seq![COMMA, SP] + vals[j + 1]));
                assert(before + (seq![COMMA, SP] + vals[j + 1]) + ser_values_rest(vals, j + 2)
                    =~= before + (seq![COMMA, SP] + vals[j + 1] + ser_values_rest(vals, j + 2)));
            }
            j = j + 1;
        }
        proof {
            assert(ser_values_rest(vals, vals.len() as int) =~= Seq::<u8>::empty());
            assert(buffer@ + Seq::<u8>::empty() =~= buffer@);
        }
    }

    /// The wire form of the list as a fresh buffer.
    pub fn to_buffer(&self) -> (r: Vec<u8>)
        ensures
            r@ == ser_values(self@),
    {
        let mut vec: Vec<u8> = Vec::new();
        self.write_to_buffer(&mut vec);
        vec
    }
}

// ---------------------------------------------------------------------------
// The ordered mapping from field names to value lists
// ---------------------------------------------------------------------------

/// A field entry as the specs see it: the name's bytes and the values' bytes.
pub type FieldsView = Seq<(Seq<u8>, Seq<Seq<u8>>)>;

pub open spec fn date_name() -> Seq<u8> {
    seq![68u8, 97u8, 116u8, 101u8]
}

pub open spec fn last_modified_name() -> Seq<u8> {
    seq![76u8, 97u8, 115u8, 116u8, 45u8, 77u8, 111u8, 100u8, 105u8, 102u8, 105u8, 101u8, 100u8]
}

pub open spec fn expires_name() -> Seq<u8> {
    seq![69u8, 120u8, 112u8, 105u8, 114u8, 101u8, 115u8]
}

/// Exactly `Date`, `Last-Modified` and `Expires` take date-shaped values.
pub open spec fn is_date_field_name(n: Seq<u8>) -> bool {
    n == date_name() || n == last_modified_name() || n == expires_name()
}

/// The validation configuration a field's name selects: the date class for
/// the three date fields, the generic token class for every other field;
/// comments, quotes and comma lists are always recognized.
pub open spec fn spec_config_for_name(n: Seq<u8>) -> Config {
    Config {
        map: if is_date_field_name(n) {
            CharMap::Date
        } else {
            CharMap::Token
        },
        comments: true,
        quotes: true,
        commas: true,
    }
}

/// Every byte a field configuration can validate is ASCII.
pub proof fn lemma_field_config_ascii(n: Seq<u8>)
    ensures
        forall|b: u8| #[trigger] spec_config_for_name(n).byte_valid(b) ==> b < 128,
{
}

pub fn config_for_name(name: &[u8]) -> (r: Config)
    ensures
        r == spec_config_for_name(name@),
{
    let is_date = slices_equal(name, &[68u8, 97u8, 116u8, 101u8]) || slices_equal(
        name,
        &[76u8, 97u8, 115u8, 116u8, 45u8, 77u8, 111u8, 100u8, 105u8, 102u8, 105u8, 101u8, 100u8],
    ) || slices_equal(name, &[69u8, 120u8, 112u8, 105u8, 114u8, 101u8, 115u8]);
    Config {
        map: if is_date {
            CharMap::Date
        } else {
            CharMap::Token
        },
        comments: true,
        quotes: true,
        commas: true,
    }
}

/// The length of the leading run of token characters, capped.
pub open spec fn token_prefix_len(s: Seq<u8>, cap: int) -> int
    decreases cap,
{
    if cap <= 0 || s.len() == 0 || !is_tchar(s[0]) {
        0
    } else {
        1 + token_prefix_len(s.skip(1), cap - 1)
    }
}

pub proof fn lemma_token_prefix(s: Seq<u8>, cap: int)
    requires
        cap >= 0,
    ensures
        0 <= token_prefix_len(s, cap) <= cap,
        token_prefix_len(s, cap) <= s.len(),
        forall|j: int| 0 <= j < token_prefix_len(s, cap) ==> is_tchar(s[j]),
        token_prefix_len(s, cap) < s.len() && token_prefix_len(s, cap) < cap ==> !is_tchar(
            s[token_prefix_len(s, cap)],
        ),
    decreases cap,
{
    if cap <= 0 || s.len() == 0 || !is_tchar(s[0]) {
    } else {
        lemma_token_prefix(s.skip(1), cap - 1);
        let k = token_prefix_len(s, cap);
        assert forall|j: int| 0 <= j < k implies is_tchar(s[j]) by {
            if j > 0 {
                assert(is_tchar(s.skip(1)[j - 1]));
            }
        }
        if k < s.len() && k < cap {
            assert(!is_tchar(s.skip(1)[k - 1]));
        }
    }
}

/// The first index at or after `i` whose entry bears `name`, or the length
/// if none does.
pub open spec fn find_name(fv: FieldsView, name: Seq<u8>, i: int) -> int
    decreases fv.len() - i,
{
    if i < 0 || i >= fv.len() {
        fv.len() as int
    } else if fv[i].0 == name {
        i
    } else {
        find_name(fv, name, i + 1)
    }
}

pub proof fn lemma_find_name(fv: FieldsView, name: Seq<u8>, i: int)
    requires
        0 <= i <= fv.len(),
    ensures
        i <= find_name(fv, name, i) <= fv.len(),
        find_name(fv, name, i) < fv.len() ==> fv[find_name(fv, name, i)].0 == name,
        forall|j: int| i <= j < find_name(fv, name, i) ==> fv[j].0 != name,
    decreases fv.len() - i,
{
    if i < fv.len() && fv[i].0 != name {
        lemma_find_name(fv, name, i + 1);
    }
}

/// Append `vals` to the entry bearing `name` if one exists, else add a new
/// entry at the end.
pub open spec fn upsert(fv: FieldsView, name: Seq<u8>, vals: Seq<Seq<u8>>) -> FieldsView {
    let k = find_name(fv, name, 0);
    if k < fv.len() {
        fv.update(k, (name, fv[k].1 + vals))
    } else {
        fv.push((name, vals))
    }
}

/// Replace the values of the entry bearing `name`, keeping its place, or
/// add a new entry at the end.
pub open spec fn replace_entry(fv: FieldsView, name: Seq<u8>, vals: Seq<Seq<u8>>) -> FieldsView {
    let k = find_name(fv, name, 0);
    if k < fv.len() {
        fv.update(k, (name, vals))
    } else {
        fv.push((name, vals))
    }
}

/// A field entry read from in-memory strings: the name's bytes and each
/// value's bytes.
pub open spec fn str_entry_view(e: (&str, &[&str])) -> (Seq<u8>, Seq<Seq<u8>>) {
    (e.0.spec_bytes(), e.1@.map(|j: int, v: &str| v.spec_bytes()))
}

/// The block the first `i` string entries build, entry by entry: a repeated
/// name keeps its place and its values are replaced by the later entry's.
pub open spec fn copied_fields(raw: Seq<(&str, &[&str])>, i: int) -> FieldsView
    decreases i,
{
    if i <= 0 {
        Seq::empty()
    } else {
        replace_entry(
            copied_fields(raw, i - 1),
            str_entry_view(raw[i - 1]).0,
            str_entry_view(raw[i - 1]).1,
        )
    }
}

/// A successful list parse consumes bytes, never conjures them.
pub proof fn lemma_parse_values_len(cfg: Config, s: Seq<u8>, acc: Seq<Seq<u8>>)
    ensures
        match parse_values_from(cfg, s, acc) {
            Ok((vs, rest)) => rest.len() <= s.len(),
            Err(e) => true,
        },
    decreases s.len(),
{
    if s.len() > 0 && s[0] == SP {
        lemma_parse_values_len(cfg, s.skip(1), acc);
    } else {
        lemma_scan_found_bounds(cfg, s, init_state(), 0);
        match value_parse(cfg, s) {
            Ok((v, rest)) => {
                if rest.len() > 0 && rest[0] == COMMA {
                    lemma_parse_values_len(cfg, rest.skip(1), acc.push(v));
                }
            },
            Err(e) => {},
        }
    }
}

/// The accumulator rides along: parsing with any accumulator yields that
/// accumulator followed by what an empty start would yield.
pub proof fn lemma_parse_values_acc(cfg: Config, s: Seq<u8>, acc: Seq<Seq<u8>>)
    ensures
        parse_values_from(cfg, s, acc) == match parse_values_from(cfg, s, Seq::empty()) {
            Ok((vs, rest)) => Ok::<(Seq<Seq<u8>>, Seq<u8>), ParsingError>((acc + vs, rest)),
            Err(e) => Err::<(Seq<Seq<u8>>, Seq<u8>), ParsingError>(e),
        },
    decreases s.len(),
{
    if s.len() > 0 && s[0] == SP {
        lemma_parse_values_acc(cfg, s.skip(1), acc);
    } else {
        lemma_scan_found_bounds(cfg, s, init_state(), 0);
        match value_parse(cfg, s) {
            Ok((v, rest)) => {
                if rest.len() > 0 && rest[0] == COMMA {
                    lemma_parse_values_acc(cfg, rest.skip(1), acc.push(v));
                    lemma_parse_values_acc(cfg, rest.skip(1), Seq::empty().push(v));
                    match parse_values_from(cfg, rest.skip(1), Seq::empty()) {
                        Ok((vs2, rest2)) => {
                            assert(Seq::empty().push(v) + vs2 =~= seq![v] + vs2);
                            assert(acc.push(v) + vs2 =~= acc + (seq![v] + vs2));
                        },
                        Err(e) => {},
                    }
                } else {
                    assert(acc.push(v) =~= acc + Seq::empty().push(v));
                }
            },
            Err(e) => {},
        }
    }
}

/// Parse header or trailer lines off the front of `s` into an ordered
/// mapping, merging repeated names, until the blank line that ends the
/// block; the rest is what follows that blank line.
pub open spec fn parse_fields_from(s: Seq<u8>, acc: FieldsView) -> Result<
    (FieldsView, Seq<u8>),
    ParsingError,
>
    decreases s.len(),
    via parse_fields_from_dec
{
    if s.len() >= 2 && s[0] == CR && s[1] == LF {
        Ok((acc, s.skip(2)))
    } else if s.len() == 0 || !is_alnum(s[0]) {
        Err(ParsingError::IncorrectlyTerminated)
    } else {
        let nlen = token_prefix_len(s, 1024);
        let name = s.take(nlen);
        let s2 = s.skip(nlen);
        if s2.len() == 0 || s2[0] != COLON {
            Err(ParsingError::Malformed)
        } else {
            let s3 = if s2.len() >= 2 && s2[1] == SP {
                s2.skip(2)
            } else {
                s2.skip(1)
            };
            match parse_values_from(spec_config_for_name(name), s3, Seq::empty()) {
                Err(e) => Err(e),
                Ok((vs, rest)) => if rest.len() >= 2 && rest[0] == CR && rest[1] == LF {
                    parse_fields_from(rest.skip(2), upsert(acc, name, vs))
                } else {
                    Err(ParsingError::Malformed)
                },
            }
        }
    }
}

#[via_fn]
proof fn parse_fields_from_dec(s: Seq<u8>, acc: FieldsView) {
    if !(s.len() >= 2 && s[0] == CR && s[1] == LF) && !(s.len() == 0 || !is_alnum(s[0])) {
        lemma_token_prefix(s, 1024);
        let nlen = token_prefix_len(s, 1024);
        let name = s.take(nlen);
        let s2 = s.skip(nlen);
        if !(s2.len() == 0 || s2[0] != COLON) {
            let s3 = if s2.len() >= 2 && s2[1] == SP {
                s2.skip(2)
            } else {
                s2.skip(1)
            };
            lemma_parse_values_len(spec_config_for_name(name), s3, Seq::empty());
        }
    }
}

/// One field line on the wire: `name: values` and the line terminator.
pub open spec fn ser_field(name: Seq<u8>, vals: Seq<Seq<u8>>) -> Seq<u8> {
    name + seq![COLON, SP] + ser_values(vals) + crlf()
}

pub open spec fn ser_fields_rest(fv: FieldsView, i: int) -> Seq<u8>
    decreases fv.len() - i,
{
    if i < 0 || i >= fv.len() {
        Seq::empty()
    } else {
        ser_field(fv[i].0, fv[i].1) + ser_fields_rest(fv, i + 1)
    }
}

/// A whole block of fields on the wire: each entry's line in insertion
/// order, then a blank line — or nothing at all when the block is empty.
pub open spec fn ser_fields(fv: FieldsView) -> Seq<u8> {
    if fv.len() == 0 {
        Seq::empty()
    } else {
        ser_fields_rest(fv, 0) + crlf()
    }
}

/// Split a field name — the leading token characters, at most 1024 — off
/// the front of the buffer, as a zero-copy view.
pub(crate) fn field_name_from_bytes(bytes: &mut bytes::Bytes) -> (r: bytes::Bytes)
    ensures
        contents(r) == contents(*old(bytes)).take(token_prefix_len(contents(*old(bytes)), 1024)),
        contents(*final(bytes)) == contents(*old(bytes)).skip(
            token_prefix_len(contents(*old(bytes)), 1024),
        ),
{
    let ghost s = contents(*bytes);
    let len = bytes_len(bytes);
    let mut i: usize = 0;
    while i < len && i < 1024 && tchar(bytes_at(bytes, i))
        invariant
            i <= len == s.len(),
            i <= 1024,
            s == contents(*bytes),
            forall|j: int| 0 <= j < i ==> is_tchar(s[j]),
        decreases len - i,
    {
        i = i + 1;
    }
    proof {
        lemma_token_prefix(s, 1024);
    }
    bytes_split_to(bytes, i)
}

/// Append one field line to a buffer.
pub(crate) fn write_field_to_buffer(buffer: &mut Vec<u8>, name: &[u8], values: &Values)
    ensures
        final(buffer)@ == old(buffer)@ + name@ + seq![COLON, SP] + ser_values(values@),
{
    vec_push_slice(buffer, name);
    vec_push_slice(buffer, &[COLON, SP]);
    values.write_to_buffer(buffer);
}

/// An ordered mapping from field names to their values: insertion order is
/// kept and reproduced by serialization, names are compared byte-exact.
#[derive(Debug)]
pub struct Fields {
    entries: Vec<(bytes::Bytes, Values)>,
}

impl View for Fields {
    type V = FieldsView;

    closed spec fn view(&self) -> FieldsView {
        self.entries@.map(|i: int, e: (bytes::Bytes, Values)| (contents(e.0), e.1@))
    }
}

impl Fields {
    pub closed spec fn entry_vals(&self, i: int) -> Values {
        self.entries@[i].1
    }

    /// Names are unique; every value list is well formed and was validated
    /// under the configuration its name selects.
    pub open spec fn wf(&self) -> bool {
        &&& (forall|i: int, j: int| 0 <= i < j < self@.len() ==> self@[i].0 != self@[j].0)
        &&& (forall|i: int|
            0 <= i < self@.len() ==> (#[trigger] self.entry_vals(i)).wf() && self.entry_vals(
                i,
            ).cfg() == spec_config_for_name(self@[i].0))
    }

    pub fn new() -> (r: Self)
        ensures
            r@ == Seq::<(Seq<u8>, Seq<Seq<u8>>)>::empty(),
            r.wf(),
    {
        let r = Fields { entries: Vec::new() };
        proof {
            assert(r@ =~= Seq::<(Seq<u8>, Seq<Seq<u8>>)>::empty());
        }
        r
    }

    pub fn with_capacity(capacity: usize) -> (r: Self)
        ensures
            r@ == Seq::<(Seq<u8>, Seq<Seq<u8>>)>::empty(),
            r.wf(),
    {
        let r = Fields { entries: Vec::with_capacity(capacity) };
        proof {
            assert(r@ =~= Seq::<(Seq<u8>, Seq<Seq<u8>>)>::empty());
        }
        r
    }

    /// Build a block of fields from in-memory name and value strings, each
    /// value validated under the configuration its name selects. Every name
    /// must bring at least one value; a repeated name keeps its place and
    /// its values are replaced by the later entry's.
    pub fn copy_from_str<const N: usize>(raw_fields: [(&str, &[&str]); N]) -> (r: Self)
        requires
            forall|i: int| 0 <= i < N ==> (#[trigger] raw_fields@[i]).1@.len() >= 1,
        ensures
            r@ == copied_fields(raw_fields@, N as int),
            r.wf(),
    {
        let mut fields = Fields::new();
        let mut i: usize = 0;
        while i < N
            invariant
                i <= N,
                forall|t: int| 0 <= t < N ==> (#[trigger] raw_fields@[t]).1@.len() >= 1,
                fields.wf(),
                fields@ == copied_fields(raw_fields@, i as int),
            decreases N - i,
        {
            let (n, vs) = raw_fields[i];
            let name_bytes = n.as_bytes();
            let config = config_for_name(name_bytes);
            proof {
                lemma_field_config_ascii(n.spec_bytes());
            }
            let mut values = Values::new(bytes_copy_from_slice(vs[0].as_bytes()), config);
            let mut j: usize = 1;
            while j < vs.len()
                invariant
                    1 <= j <= vs@.len(),
                    values.wf(),
                    values.cfg() == config,
                    config == spec_config_for_name(n.spec_bytes()),
                    values@.len() == j,
                    forall|u: int|
                        0 <= u < j ==> (#[trigger] values@[u]) == vs@[u].spec_bytes(),
                decreases vs@.len() - j,
            {
                values.push(bytes_copy_from_slice(vs[j].as_bytes()));
                j = j + 1;
            }
            proof {
                assert(values@ =~= str_entry_view(raw_fields@[i as int]).1);
            }
            fields.set_values(bytes_copy_from_slice(name_bytes), values);
            i = i + 1;
        }
        fields
    }

    /// Store `values` under `name`, replacing an existing entry's values in
    /// place or adding a new entry at the end.
    fn set_values(&mut self, name: bytes::Bytes, values: Values)
        requires
            old(self).wf(),
            values.wf(),
            values.cfg() == spec_config_for_name(contents(name)),
        ensures
            final(self).wf(),
            final(self)@ == replace_entry(old(self)@, contents(name), values@),
    {
        proof {
            lemma_find_name(self@, contents(name), 0);
        }
        let idx = self.find_index(bytes_as_slice(&name));
        let ghost gvals = values;
        if idx < self.entries.len() {
            let _replaced = self.entries.remove(idx);
            self.entries.insert(idx, (name, values));
            proof {
                assert(self@ =~~= replace_entry(old(self)@, contents(name), gvals@));
                assert forall|i: int| 0 <= i < self@.len() implies (#[trigger] self.entry_vals(
                    i,
                )).wf() && self.entry_vals(i).cfg() == spec_config_for_name(self@[i].0) by {
                    if i != idx {
                        assert(self.entry_vals(i) == old(self).entry_vals(i));
                    }
                }
            }
        } else {
            self.entries.push((name, values));
            proof {
                assert(self@ =~~= replace_entry(old(self)@, contents(name), gvals@));
                assert forall|i: int| 0 <= i < self@.len() implies (#[trigger] self.entry_vals(
                    i,
                )).wf() && self.entry_vals(i).cfg() == spec_config_for_name(self@[i].0) by {
                    if i < self@.len() - 1 {
                        assert(self.entry_vals(i) == old(self).entry_vals(i));
                    }
                }
            }
        }
    }

    /// The index of the entry bearing `name`, or the number of entries if
    /// none does.
    fn find_index(&self, name: &[u8]) -> (r: usize)
        ensures
            r == find_name(self@, name@, 0),
    {
        let mut i: usize = 0;
        let n = self.entries.len();
        while i < n
            invariant
                i <= n == self@.len(),
                find_name(self@, name@, 0) == find_name(self@, name@, i as int),
            decreases n - i,
        {
            if slices_equal(bytes_as_slice(&self.entries[i].0), name) {
                return i;
            }
            i = i + 1;
        }
        n
    }

    /// Parse a block of header or trailer lines, consuming the blank line
    /// that ends it.
    pub fn from_bytes(bytes: &mut bytes::Bytes) -> (r: Result<Self, ParsingError>)
        ensures
            match r {
                Ok(f) => parse_fields_from(contents(*old(bytes)), Seq::empty()) == Ok::<
                    (FieldsView, Seq<u8>),
                    ParsingError,
                >((f@, contents(*final(bytes)))) && f.wf(),
                Err(e) => parse_fields_from(contents(*old(bytes)), Seq::empty()) == Err::<
                    (FieldsView, Seq<u8>),
                    ParsingError,
                >(e),
            },
    {
        let ghost target = parse_fields_from(contents(*bytes), Seq::empty());
        let mut fields = Fields { entries: Vec::new() };
        proof {
            assert(fields@ =~= Seq::<(Seq<u8>, Seq<Seq<u8>>)>::empty());
        }
        loop
            invariant
                fields.wf(),
                parse_fields_from(contents(*bytes), fields@) == target,
                target == parse_fields_from(contents(*old(bytes)), Seq::empty()),
            decreases contents(*bytes).len(),
        {
            let ghost s = contents(*bytes);
            let ghost acc = fields@;
            let len = bytes_len(bytes);
            if len >= 2 && bytes_at(bytes, 0) == CR && bytes_at(bytes, 1) == LF {
                bytes_advance(bytes, 2);
                return Ok(fields);
            }
            if len == 0 || !alnum(bytes_at(bytes, 0)) {
                return Err(ParsingError::IncorrectlyTerminated);
            }
            proof {
                lemma_token_prefix(s, 1024);
                lemma_token_prefix(s.skip(1), 1023);
                assert(token_prefix_len(s, 1024) >= 1);
            }
            let name = field_name_from_bytes(bytes);
            let ghost gname = s.take(token_prefix_len(s, 1024));
            if bytes_len(&name) == 0 {
                return Err(ParsingError::NameMissing);
            }
            if !bytes.advance_byte(COLON) {
                return Err(ParsingError::Malformed);
            }
            bytes.advance_byte(SP);
            proof {
                let s2 = s.skip(token_prefix_len(s, 1024));
                if s2.len() >= 2 {
                    assert(s2.skip(1).skip(1) =~= s2.skip(2));
                }
            }
            let ghost s3 = contents(*bytes);
            let config = config_for_name(bytes_as_slice(&name));
            proof {
                lemma_field_config_ascii(gname);
                lemma_find_name(fields@, gname, 0);
            }
            let idx = fields.find_index(bytes_as_slice(&name));
            let ghost pre = fields;
            if idx < fields.entries.len() {
                proof {
                    assert(pre.entry_vals(idx as int).wf());
                    assert(pre@[idx as int].0 == gname);
                    assert(pre.entry_vals(idx as int).cfg() == spec_config_for_name(gname));
                }
                let mut entry = fields.entries.remove(idx);
                let ghost old_vals = entry.1@;
                proof {
                    assert(entry.1 == pre.entry_vals(idx as int));
                    lemma_parse_values_acc(spec_config_for_name(gname), s3, old_vals);
                }
                match entry.1.extend_from_bytes(bytes) {
                    Err(e) => {
                        return Err(e);
                    },
                    Ok(()) => {},
                }
                let ghost gentry = entry;
                proof {
                    lemma_parse_values_len(spec_config_for_name(gname), s3, old_vals);
                }
                fields.entries.insert(idx, entry);
                proof {
                    assert(fields@ =~~= upsert(acc, gname, parse_values_from(
                        spec_config_for_name(gname),
                        s3,
                        Seq::empty(),
                    )->Ok_0.0));
                    assert forall|i: int| 0 <= i < fields@.len() implies (
                    #[trigger] fields.entry_vals(i)).wf() && fields.entry_vals(i).cfg()
                        == spec_config_for_name(fields@[i].0) by {
                        if i < idx {
                            assert(fields.entry_vals(i) == pre.entry_vals(i));
                        } else if i == idx {
                        } else {
                            assert(fields.entry_vals(i) == pre.entry_vals(i));
                        }
                    }
                }
            } else {
                proof {
                    lemma_parse_values_len(spec_config_for_name(gname), s3, Seq::empty());
                }
                match Values::from_bytes(bytes, config) {
                    Err(e) => {
                        return Err(e);
                    },
                    Ok(vs) => {
                        let ghost gvs = vs;
                        fields.entries.push((name, vs));
                        proof {
                            assert(fields@ =~~= acc.push((gname, gvs@)));
                            assert(upsert(acc, gname, gvs@) =~~= acc.push((gname, gvs@)));
                            assert forall|i: int| 0 <= i < fields@.len() implies (
                            #[trigger] fields.entry_vals(i)).wf() && fields.entry_vals(i).cfg()
                                == spec_config_for_name(fields@[i].0) by {
                                if i < fields@.len() - 1 {
                                    assert(fields.entry_vals(i) == pre.entry_vals(i));
                                }
                            }
                        }
                    },
                }
            }
            let ghost rest = contents(*bytes);
            if !bytes.advance_bytes(&[CR, LF]) {
                proof {
                    if rest.len() >= 2 && rest[0] == CR && rest[1] == LF {
                        assert(rest.take(2) =~= seq![CR, LF]);
                    }
                }
                return Err(ParsingError::Malformed);
            }
            proof {
                assert(rest[0] == rest.take(2)[0] && rest[1] == rest.take(2)[1]);
            }
        }
    }

    /// Validate one more value for `name`, appending to its entry or adding
    /// a new one.
    pub fn add_header_value(&mut self, name: bytes::Bytes, value: bytes::Bytes)
        requires
            old(self).wf(),
        ensures
            final(self)@ == upsert(old(self)@, contents(name), seq![contents(value)]),
            final(self).wf(),
    {
        proof {
            lemma_find_name(self@, contents(name), 0);
            lemma_field_config_ascii(contents(name));
        }
        let idx = self.find_index(bytes_as_slice(&name));
        if idx < self.entries.len() {
            proof {
                assert(old(self).entry_vals(idx as int).wf());
            }
            let mut entry = self.entries.remove(idx);
            proof {
                assert(entry.1 == old(self).entry_vals(idx as int));
            }
            entry.1.push(value);
            let ghost gentry = entry;
            self.entries.insert(idx, entry);
            proof {
                assert(old(self)@[idx as int].1.push(contents(value)) =~= old(
                    self,
                )@[idx as int].1 + seq![contents(value)]);
                assert(self@ =~~= upsert(old(self)@, contents(name), seq![contents(value)]));
                assert forall|i: int| 0 <= i < self@.len() implies (#[trigger] self.entry_vals(
                    i,
                )).wf() && self.entry_vals(i).cfg() == spec_config_for_name(self@[i].0) by {
                    if i != idx {
                        assert(self.entry_vals(i) == old(self).entry_vals(i));
                    }
                }
            }
        } else {
            let config = config_for_name(bytes_as_slice(&name));
            let vs = Values::new(value, config);
            let ghost gvs = vs;
            self.entries.push((name, vs));
            proof {
                assert(self@ =~~= old(self)@.push((contents(name), gvs@)));
                assert(upsert(old(self)@, contents(name), seq![contents(value)]) =~~= old(
                    self,
                )@.push((contents(name), gvs@)));
                assert forall|i: int| 0 <= i < self@.len() implies (#[trigger] self.entry_vals(
                    i,
                )).wf() && self.entry_vals(i).cfg() == spec_config_for_name(self@[i].0) by {
                    if i < self@.len() - 1 {
                        assert(self.entry_vals(i) == old(self).entry_vals(i));
                    }
                }
            }
        }
    }

    /// The values stored under `name`, if any.
    pub fn get(&self, name: &[u8]) -> (r: Option<&Values>)
        ensures
            match r {
                Some(vs) => find_name(self@, name@, 0) < self@.len() && vs@ == self@[find_name(
                    self@,
                    name@,
                    0,
                )].1 && (self.wf() ==> vs.wf()),
                None => find_name(self@, name@, 0) == self@.len(),
            },
    {
        proof {
            lemma_find_name(self@, name@, 0);
        }
        let idx = self.find_index(name);
        if idx < self.entries.len() {
            proof {
                assert(self@[idx as int].1 == self.entries@[idx as int].1@);
                if self.wf() {
                    assert(self.entry_vals(idx as int).wf());
                }
            }
            Some(&self.entries[idx].1)
        } else {
            None
        }
    }

    /// The single value stored under `name`: `None` when the name is absent
    /// or holds more than one value.
    pub fn get_single(&self, name: &[u8]) -> (r: Option<&[u8]>)
        ensures
            match r {
                Some(sl) => find_name(self@, name@, 0) < self@.len() && self@[find_name(
                    self@,
                    name@,
                    0,
                )].1.len() == 1 && sl@ == self@[find_name(self@, name@, 0)].1[0],
                None => find_name(self@, name@, 0) == self@.len() || self@[find_name(
                    self@,
                    name@,
                    0,
                )].1.len() != 1,
            },
    {
        if let Some(values) = self.get(name) {
            if values.is_single() {
                Some(values.first_slice())
            } else {
                None
            }
        } else {
            None
        }
    }

    pub fn contains_name(&self, name: &[u8]) -> (r: bool)
        ensures
            r == (find_name(self@, name@, 0) < self@.len()),
    {
        proof {
            lemma_find_name(self@, name@, 0);
        }
        let idx = self.find_index(name);
        idx < self.entries.len()
    }

    /// Whether some value under `name` equals `value` byte for byte.
    pub fn contains_value(&self, name: &[u8], value: &[u8]) -> (r: bool)
        ensures
            r == (find_name(self@, name@, 0) < self@.len() && self@[find_name(
                self@,
                name@,
                0,
            )].1.contains(value@)),
    {
        match self.get(name) {
            None => false,
            Some(vs) => {
                let ghost vals = vs@;
                if slices_equal(vs.first_slice(), value) {
                    proof {
                        assert(0 <= 0 < vals.len() && vals[0] == value@);
                    }
                    return true;
                }
                let extra = vs.extra();
                let mut i: usize = 0;
                while i < extra.len()
                    invariant
                        i <= extra@.len(),
                        extra@.len() == vals.len() - 1,
                        find_name(self@, name@, 0) < self@.len(),
                        vals == self@[find_name(self@, name@, 0)].1,
                        forall|j: int| 0 <= j < extra@.len() ==> #[trigger] extra@[j]@ == vals[j
                            + 1],
                        forall|j: int| 0 <= j < i + 1 ==> vals[j] != value@,
                    decreases extra@.len() - i,
                {
                    if slices_equal(extra[i].as_slice(), value) {
                        proof {
                            assert(0 <= i + 1 < vals.len() && vals[i + 1] == value@);
                        }
                        return true;
                    }
                    i = i + 1;
                }
                proof {
                    assert(forall|j: int| 0 <= j < vals.len() ==> vals[j] != value@);
                }
                false
            },
        }
    }

    /// Whether `name` holds exactly one value, equal to `value`.
    pub fn contains_value_exact(&self, name: &[u8], value: &[u8]) -> (r: bool)
        ensures
            r == (find_name(self@, name@, 0) < self@.len() && self@[find_name(self@, name@, 0)].1
                =~= seq![value@]),
    {
        match self.get(name) {
            None => false,
            Some(vs) => {
                let r = vs.is_single() && slices_equal(vs.first_slice(), value);
                proof {
                    if r {
                        assert(vs@ =~= seq![value@]);
                    }
                }
                r
            },
        }
    }

    /// Whether every one of `values` occurs under `name`.
    pub fn contains_values<const N: usize>(&self, name: &[u8], values: [&[u8]; N]) -> (r: bool)
        ensures
            r == (find_name(self@, name@, 0) < self@.len() && forall|j: int|
                0 <= j < N ==> self@[find_name(self@, name@, 0)].1.contains(#[trigger] values@[j]@)),
    {
        if !self.contains_name(name) {
            return false;
        }
        let mut j: usize = 0;
        while j < N
            invariant
                j <= N,
                find_name(self@, name@, 0) < self@.len(),
                forall|t: int| 0 <= t < j ==> self@[find_name(self@, name@, 0)].1.contains(
                    #[trigger] values@[t]@,
                ),
            decreases N - j,
        {
            if !self.contains_value(name, values[j]) {
                return false;
            }
            j = j + 1;
        }
        true
    }

    /// Whether `name` holds exactly the values of `values`, as a set with
    /// multiplicity ignored: same count and every given value occurs.
    pub fn contains_values_exact<const N: usize>(&self, name: &[u8], values: [&[u8]; N]) -> (r:
        bool)
        ensures
            r == (find_name(self@, name@, 0) < self@.len() && self@[find_name(
                self@,
                name@,
                0,
            )].1.len() == N && forall|j: int|
                0 <= j < N ==> self@[find_name(self@, name@, 0)].1.contains(#[trigger] values@[j]@)),
    {
        let count_matches = match self.get(name) {
            None => false,
            Some(vs) => {
                if vs.extra().len() == usize::MAX {
                    proof {
                        assert(vs@.len() == usize::MAX + 1int);
                    }
                    false
                } else {
                    vs.count() == N
                }
            },
        };
        if !count_matches {
            return false;
        }
        self.contains_values(name, values)
    }

    /// The first value and the remaining values under `name`, as slices.
    pub fn get_slices(&self, name: &[u8]) -> (r: Option<(&[u8], Vec<&[u8]>)>)
        ensures
            match r {
                Some(p) => find_name(self@, name@, 0) < self@.len() && p.0@ == self@[find_name(
                    self@,
                    name@,
                    0,
                )].1[0] && p.1@.len() == self@[find_name(self@, name@, 0)].1.len() - 1 && forall|
                    i: int,
                |
                    0 <= i < p.1@.len() ==> #[trigger] p.1@[i]@ == self@[find_name(
                        self@,
                        name@,
                        0,
                    )].1[i + 1],
                None => find_name(self@, name@, 0) == self@.len(),
            },
    {
        match self.get(name) {
            None => None,
            Some(vs) => Some(vs.get_slices()),
        }
    }

    /// Wrap an entry list directly; the entries must already satisfy the
    /// mapping's invariant.
    pub fn from_inner(inner: Vec<(bytes::Bytes, Values)>) -> (r: Self)
        requires
            forall|i: int, j: int|
                0 <= i < j < inner@.len() ==> contents(inner@[i].0) != contents(inner@[j].0),
            forall|i: int|
                0 <= i < inner@.len() ==> (#[trigger] inner@[i].1).wf() && inner@[i].1.cfg()
                    == spec_config_for_name(contents(inner@[i].0)),
        ensures
            r@ == inner@.map(|i: int, e: (bytes::Bytes, Values)| (contents(e.0), e.1@)),
            r.wf(),
    {
        let r = Fields { entries: inner };
        proof {
            assert forall|i: int| 0 <= i < r@.len() implies (#[trigger] r.entry_vals(i)).wf()
                && r.entry_vals(i).cfg() == spec_config_for_name(r@[i].0) by {
                assert(r.entries@[i].1.wf());
            }
        }
        r
    }

    pub fn as_inner(&self) -> (r: &Vec<(bytes::Bytes, Values)>)
        ensures
            r@.map(|i: int, e: (bytes::Bytes, Values)| (contents(e.0), e.1@)) == self@,
    {
        &self.entries
    }

    pub fn into_inner(self) -> (r: Vec<(bytes::Bytes, Values)>)
        ensures
            r@.map(|i: int, e: (bytes::Bytes, Values)| (contents(e.0), e.1@)) == self@,
    {
        self.entries
    }

    pub fn len(&self) -> (r: usize)
        ensures
            r == self@.len(),
    {
        self.entries.len()
    }

    pub fn is_empty(&self) -> (r: bool)
        ensures
            r == (self@.len() == 0),
    {
        self.entries.is_empty()
    }

    /// Append the block's wire form: each entry's line in insertion order,
    /// then a blank line iff the block is not empty.
    pub fn write_to_buffer(&self, buffer: &mut Vec<u8>)
        ensures
            final(buffer)@ == old(buffer)@ + ser_fields(self@),
    {
        let ghost base = buffer@;
        let ghost fv = self@;
        let n = self.entries.len();
        let mut i: usize = 0;
        while i < n
            invariant
                i <= n == fv.len(),
                fv == self@,
                base + ser_fields_rest(fv, 0) == buffer@ + ser_fields_rest(fv, i as int),
            decreases n - i,
        {
            let ghost before = buffer@;
            write_field_to_buffer(buffer, bytes_as_slice(&self.entries[i].0), &self.entries[i].1);
            vec_push_slice(buffer, &[CR, LF]);
            proof {
                assert(crlf() =~= seq![CR, LF]);
                assert(buffer@ =~= before + ser_field(fv[i as int].0, fv[i as int].1));
                assert(before + ser_field(fv[i as int].0, fv[i as int].1) + ser_fields_rest(
                    fv,
                    i + 1,
                ) =~= before + (ser_field(fv[i as int].0, fv[i as int].1) + ser_fields_rest(
                    fv,
                    i + 1,
                )));
            }
            i = i + 1;
        }
        proof {
            assert(ser_fields_rest(fv, n as int) =~= Seq::<u8>::empty());
            assert(buffer@ + Seq::<u8>::empty() =~= buffer@);
        }
        if !self.entries.is_empty() {
            vec_push_slice(buffer, &[CR, LF]);
            proof {
                assert(crlf() =~= seq![CR, LF]);
            }
        } else {
            proof {
                assert(base + ser_fields(fv) =~= buffer@);
            }
        }
    }

    /// The block's wire form as a fresh buffer.
    pub fn to_buffer(&self) -> (r: Vec<u8>)
        ensures
            r@ == ser_fields(self@),
    {
        let mut buffer: Vec<u8> = Vec::new();
        self.write_to_buffer(&mut buffer);
        buffer
    }
}

impl Default for Fields {
    fn default() -> (r: Self)
        ensures
            r@ == Seq::<(Seq<u8>, Seq<Seq<u8>>)>::empty(),
            r.wf(),
    {
        Self::new()
    }
}

} // verus!
