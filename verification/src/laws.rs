//! The library's laws: quoting and unquoting invert each other, status
//! codes round-trip through their wire form, and a well-formed block of
//! fields survives a serialize-then-parse round trip byte for byte.

use vstd::prelude::*;

use crate::chars::{crlf, is_alnum, is_qtext, is_tchar, map_allows, CharMap, BACKSLASH, COLON,
    COMMA, CR, DQUOTE, LF, SP};
use crate::field::{esc_byte, esc_seq, find_name, lemma_find_name, lemma_token_prefix,
    parse_fields_from, parse_values_from, quote_escape, scan, ser_field, ser_fields,
    ser_fields_rest, ser_values, ser_values_rest, token_prefix_len, unquote_from, unquote_spec,
    upsert, value_parse, FieldsView, ScanResult, MAX_VALUE_LEN,
    spec_config_for_name,
};
use crate::scan::{init_state, step, walk, ByteClass, Config, Step, VState};
use crate::advance::{class_prefix_len, lemma_class_prefix};
use crate::chars::is_uri_char;
use crate::method::{has_prefix, method_name, parse_method, Method};
use crate::request::{declared_length, parse_request, parse_start_line, ser_request, RequestView};
use crate::response::code::{code_num, code_phrase, from_raw_spec, parse_code, Code};
use crate::response::{parse_response, ser_response, ResponseView};
use crate::version::{digit_val, http_slash, is_digit, parse_version, ser_version, Version};

verus! {

// ---------------------------------------------------------------------------
// Quoting: unquoting a quoted-escaped value recovers the original content
// ---------------------------------------------------------------------------

/// Unquoting inside a quoted string consumes an escaped run and the closing
/// quote, yielding exactly the escaped content.
proof fn lemma_unquote_escaped_run(cfg: Config, full: Seq<u8>, i: int, s: Seq<u8>, d: nat)
    requires
        cfg.quotes,
        0 <= i <= full.len(),
        full.skip(i) == esc_seq(s, CharMap::Qtext, BACKSLASH) + seq![DQUOTE],
    ensures
        unquote_from(cfg, full, VState { quoted: true, backslash: false, depth: d }, i) == Some(s),
    decreases s.len(),
{
    let st = VState { quoted: true, backslash: false, depth: d };
    let tail = full.skip(i);
    assert(tail.len() >= 1);
    assert(i < full.len());
    assert(full[i] == tail[0]);
    if s.len() == 0 {
        assert(tail =~= seq![DQUOTE]);
        assert(full[i] == DQUOTE);
        assert(i + 1 == full.len());
        assert(unquote_from(cfg, full, VState { quoted: false, backslash: false, depth: d }, i + 1)
            == Some(Seq::<u8>::empty()));
    } else {
        assert(esc_seq(s, CharMap::Qtext, BACKSLASH) == esc_byte(s[0], CharMap::Qtext, BACKSLASH)
            + esc_seq(s.skip(1), CharMap::Qtext, BACKSLASH));
        if is_qtext(s[0]) {
            assert(esc_byte(s[0], CharMap::Qtext, BACKSLASH) =~= seq![s[0]]);
            assert(tail =~= seq![s[0]] + (esc_seq(s.skip(1), CharMap::Qtext, BACKSLASH) + seq![
                DQUOTE]));
            assert(full[i] == s[0]);
            assert(s[0] != DQUOTE && s[0] != BACKSLASH);
            assert(full.skip(i + 1) =~= tail.skip(1));
            assert(tail.skip(1) =~= esc_seq(s.skip(1), CharMap::Qtext, BACKSLASH)
                + seq![DQUOTE]);
            lemma_unquote_escaped_run(cfg, full, i + 1, s.skip(1), d);
            match step(cfg, st, full[i]) {
                Step::Accept { class, next } => {
                    assert(next == st);
                    assert(class != ByteClass::Syntax);
                    assert(seq![s[0]] + s.skip(1) =~= s);
                },
                _ => {
                    assert(false);
                },
            }
        } else {
            assert(esc_byte(s[0], CharMap::Qtext, BACKSLASH) =~= seq![BACKSLASH, s[0]]);
            assert(tail =~= seq![BACKSLASH, s[0]] + (esc_seq(s.skip(1), CharMap::Qtext, BACKSLASH)
                + seq![DQUOTE]));
            assert(tail[0] == BACKSLASH);
            assert(tail[1] == s[0]);
            assert(full[i] == BACKSLASH);
            assert(i + 1 < full.len());
            assert(full[i + 1] == tail[1]);
            assert(full.skip(i + 2) =~= tail.skip(2));
            assert(tail.skip(2) =~= esc_seq(s.skip(1), CharMap::Qtext, BACKSLASH)
                + seq![DQUOTE]);
            lemma_unquote_escaped_run(cfg, full, i + 2, s.skip(1), d);
            let pending = VState { quoted: true, backslash: true, depth: d };
            assert(step(cfg, st, full[i]) == (Step::Accept {
                class: ByteClass::Syntax,
                next: pending,
            }));
            assert(step(cfg, pending, full[i + 1]) == (Step::Accept {
                class: ByteClass::Visible,
                next: st,
            }));
            assert(unquote_from(cfg, full, pending, i + 1) == Some(seq![s[0]] + s.skip(1)));
            assert(seq![s[0]] + s.skip(1) =~= s);
        }
    }
}

/// Unquoting a quoted-escaped value recovers the original content, with the
/// quote marks and escape backslashes stripped.
pub proof fn lemma_unquote_quote_escape(cfg: Config, s: Seq<u8>)
    requires
        cfg.quotes,
        !map_allows(cfg.map, DQUOTE),
    ensures
        unquote_spec(cfg, quote_escape(s)) == Some(s),
{
    let full = quote_escape(s);
    assert(full[0] == DQUOTE);
    assert(full.skip(1) =~= esc_seq(s, CharMap::Qtext, BACKSLASH) + seq![DQUOTE]);
    lemma_unquote_escaped_run(cfg, full, 1, s, 0);
    let entered = VState { quoted: true, backslash: false, depth: 0 };
    match step(cfg, init_state(), full[0]) {
        Step::Accept { class, next } => {
            assert(next == entered);
            assert(class == ByteClass::Syntax);
        },
        _ => {},
    }
}

/// A value whose every byte sits in the base class reads back unchanged:
/// every byte is plain content, nothing is stripped.
proof fn lemma_unquote_plain_from(cfg: Config, s: Seq<u8>, i: int)
    requires
        0 <= i <= s.len(),
        forall|j: int| 0 <= j < s.len() ==> map_allows(cfg.map, #[trigger] s[j]),
    ensures
        unquote_from(cfg, s, init_state(), i) == Some(s.skip(i)),
    decreases s.len() - i,
{
    if i == s.len() {
        assert(s.skip(i) =~= Seq::<u8>::empty());
    } else {
        assert(map_allows(cfg.map, s[i]));
        lemma_unquote_plain_from(cfg, s, i + 1);
        assert(seq![s[i]] + s.skip(i + 1) =~= s.skip(i));
    }
}

/// What building a value from arbitrary bytes stores: the bytes themselves
/// when the validator walks them back to the root state with nothing to
/// strip, else the quoted-escaped form.
pub open spec fn built_value(cfg: Config, s: Seq<u8>) -> Seq<u8> {
    if crate::field::representable_unquoted(cfg, s, init_state(), 0) {
        s
    } else {
        quote_escape(s)
    }
}

/// Quoting idempotence: whichever form building a value stores — plain or
/// quoted-escaped — unquoting it recovers the original content exactly.
/// Content kept verbatim only thanks to comment syntax is excluded: it is
/// stored as it is, but unquoting strips its parentheses.
pub proof fn lemma_built_value_unquotes(cfg: Config, s: Seq<u8>)
    requires
        cfg.quotes,
        !map_allows(cfg.map, DQUOTE),
        crate::field::plain_value(cfg, s) || !crate::field::representable_unquoted(
            cfg,
            s,
            init_state(),
            0,
        ),
    ensures
        unquote_spec(cfg, built_value(cfg, s)) == Some(s),
{
    if crate::field::representable_unquoted(cfg, s, init_state(), 0) {
        lemma_unquote_plain_from(cfg, s, 0);
        assert(s.skip(0) =~= s);
    } else {
        lemma_unquote_quote_escape(cfg, s);
    }
}

/// Escaping the recovered content reproduces the original quoted wire form.
pub proof fn lemma_requote(cfg: Config, v: Seq<u8>, s: Seq<u8>)
    requires
        cfg.quotes,
        !map_allows(cfg.map, DQUOTE),
        v == quote_escape(s),
    ensures
        unquote_spec(cfg, v) == Some(s),
        quote_escape(unquote_spec(cfg, v)->Some_0) == v,
{
    lemma_unquote_quote_escape(cfg, s);
}

// ---------------------------------------------------------------------------
// Status codes: every code round-trips through its wire form
// ---------------------------------------------------------------------------


/// Each code's phrase opens with its own three decimal digits, a space and
/// at least one phrase byte, and its number maps back to it.
proof fn lemma_code_phrase_facts(c: Code)
    ensures
        code_phrase(c).len() >= 5,
        100 <= code_num(c) < 600,
        code_phrase(c)[0] == code_num(c) / 100 + 48,
        code_phrase(c)[1] == code_num(c) / 10 % 10 + 48,
        code_phrase(c)[2] == code_num(c) % 10 + 48,
        from_raw_spec(code_num(c)) == Some(c),
{
}

/// Every code in the enumerated set round-trips: its wire form, followed by
/// anything, parses back to the same code with the rest untouched.
pub proof fn lemma_code_round_trip(c: Code, rest: Seq<u8>)
    ensures
        parse_code(code_phrase(c) + rest) == Ok::<(Code, Seq<u8>), crate::response::code::ParsingError>(
            (c, rest),
        ),
{
    lemma_code_phrase_facts(c);
    let p = code_phrase(c);
    let s = p + rest;
    assert(s.len() >= 5);
    assert(s[0] == p[0] && s[1] == p[1] && s[2] == p[2]);
    assert(48 <= s[0] <= 57 && 48 <= s[1] <= 57 && 48 <= s[2] <= 57);
    let n = code_num(c);
    assert((s[0] - 48) * 100 + (s[1] - 48) * 10 + (s[2] - 48) == n);
    assert(((s[0] - 48) * 100 + (s[1] - 48) * 10 + (s[2] - 48)) as u16 == n);
    assert(s.take(p.len() as int) =~= p);
    assert(s.skip(p.len() as int) =~= rest);
}

// ---------------------------------------------------------------------------
// Fields: serialize-then-parse is the identity on well-formed fields
// ---------------------------------------------------------------------------

/// A value that can stand on a wire under configuration `cfg`: within the
/// length ceiling, no leading space (the parser strips those), and the
/// validator walks it from root back to root without an error or an early
/// terminator.
pub open spec fn value_rt_wf(cfg: Config, v: Seq<u8>) -> bool {
    &&& v.len() <= MAX_VALUE_LEN
    &&& (v.len() > 0 ==> v[0] != SP)
    &&& walk(cfg, v, init_state(), 0) == Some(init_state())
}

/// A name the parser reads back whole: non-empty, within the name cap,
/// starting with a letter or digit, all token characters.
pub open spec fn name_rt_wf(n: Seq<u8>) -> bool {
    &&& 1 <= n.len() <= 1024
    &&& is_alnum(n[0])
    &&& (forall|j: int| 0 <= j < n.len() ==> is_tchar(#[trigger] n[j]))
}

/// A block of fields built from well-formed names and values: names unique
/// and well formed, every entry holding at least one value, every value
/// well formed under the configuration its field name selects.
pub open spec fn fields_rt_wf(fv: FieldsView) -> bool {
    &&& (forall|i: int, j: int| 0 <= i < j < fv.len() ==> fv[i].0 != fv[j].0)
    &&& (forall|i: int| 0 <= i < fv.len() ==> name_rt_wf((#[trigger] fv[i]).0))
    &&& (forall|i: int| 0 <= i < fv.len() ==> (#[trigger] fv[i]).1.len() >= 1)
    &&& (forall|i: int, j: int|
        0 <= i < fv.len() && 0 <= j < fv[i].1.len() ==> value_rt_wf(
            spec_config_for_name(fv[i].0),
            #[trigger] fv[i].1[j],
        ))
    &&& (forall|i: int|
        0 <= i < fv.len() && crate::field::is_date_field_name((#[trigger] fv[i]).0) ==> fv[i].1.len()
            == 1)
}

/// Scanning a walked value inside a longer input reaches the value's end in
/// the state the walk ends in.
proof fn lemma_walk_scan(cfg: Config, v: Seq<u8>, rest: Seq<u8>, st: VState, i: int)
    requires
        0 <= i <= v.len() <= MAX_VALUE_LEN,
        walk(cfg, v, st, i) is Some,
    ensures
        scan(cfg, v + rest, st, i) == scan(cfg, v + rest, walk(cfg, v, st, i)->Some_0, v.len() as int),
    decreases v.len() - i,
{
    if i == v.len() {
    } else {
        assert((v + rest)[i] == v[i]);
        match step(cfg, st, v[i]) {
            Step::Accept { class, next } => {
                lemma_walk_scan(cfg, v, rest, next, i + 1);
            },
            _ => {
                assert(false);
            },
        }
    }
}

/// A well-formed value followed by a terminator parses off the wire as
/// itself, leaving the terminator.
proof fn lemma_value_round_trip(cfg: Config, v: Seq<u8>, rest: Seq<u8>)
    requires
        value_rt_wf(cfg, v),
        rest.len() > 0,
        step(cfg, init_state(), rest[0]) == Step::End,
    ensures
        value_parse(cfg, v + rest) == Ok::<(Seq<u8>, Seq<u8>), crate::field::ParsingError>(
            (v, rest),
        ),
{
    lemma_walk_scan(cfg, v, rest, init_state(), 0);
    let s = v + rest;
    assert(s[v.len() as int] == rest[0]);
    assert(v.len() < s.len());
    assert(scan(cfg, s, init_state(), v.len() as int) == (ScanResult::Found {
        len: v.len() as int,
    }));
    assert(s.take(v.len() as int) =~= v);
    assert(s.skip(v.len() as int) =~= rest);
}

/// A configuration under which an unquoted comma separates list items and a
/// carriage return ends the value. The date class keeps the comma as value
/// text instead, so a date-shaped field reads a whole comma-joined list back
/// as one value.
pub open spec fn list_cfg(cfg: Config) -> bool {
    &&& cfg.commas
    &&& !map_allows(cfg.map, COMMA)
    &&& !map_allows(cfg.map, CR)
}

proof fn lemma_terminator_step(cfg: Config, b: u8)
    requires
        b == CR || (cfg.commas && b == COMMA),
        !map_allows(cfg.map, b),
    ensures
        step(cfg, init_state(), b) == Step::End,
{
}

/// The tail of a serialized list, starting at the space after a comma,
/// parses back to the remaining values.
proof fn lemma_values_round_trip_rest(
    cfg: Config,
    vals: Seq<Seq<u8>>,
    i: int,
    acc: Seq<Seq<u8>>,
    tail: Seq<u8>,
)
    requires
        list_cfg(cfg),
        0 <= i < vals.len(),
        forall|j: int| i <= j < vals.len() ==> value_rt_wf(cfg, #[trigger] vals[j]),
        tail.len() > 0,
        tail[0] == CR,
    ensures
        parse_values_from(cfg, seq![SP] + vals[i] + ser_values_rest(vals, i + 1) + tail, acc)
            == Ok::<(Seq<Seq<u8>>, Seq<u8>), crate::field::ParsingError>((acc + vals.skip(i), tail)),
    decreases vals.len() - i,
{
    let s = seq![SP] + vals[i] + ser_values_rest(vals, i + 1) + tail;
    assert(s[0] == SP);
    let s1 = s.skip(1);
    assert(s1 =~= vals[i] + (ser_values_rest(vals, i + 1) + tail));
    let rest = ser_values_rest(vals, i + 1) + tail;
    if i + 1 < vals.len() {
        assert(ser_values_rest(vals, i + 1) == seq![COMMA, SP] + vals[i + 1] + ser_values_rest(
            vals,
            i + 2,
        ));
        assert(rest[0] == COMMA);
    } else {
        assert(ser_values_rest(vals, i + 1) =~= Seq::<u8>::empty());
        assert(rest =~= tail);
        assert(rest[0] == CR);
    }
    assert(!map_allows(cfg.map, rest[0]));
    lemma_terminator_step(cfg, rest[0]);
    lemma_value_round_trip(cfg, vals[i], rest);
    assert(value_parse(cfg, s1) == Ok::<(Seq<u8>, Seq<u8>), crate::field::ParsingError>(
        (vals[i], rest),
    ));
    if s1.len() > 0 && s1[0] == SP {
        assert(vals[i].len() > 0 ==> s1[0] == vals[i][0]);
        assert(vals[i].len() == 0 ==> s1[0] == rest[0]);
        assert(false);
    }
    assert(parse_values_from(cfg, s, acc) == parse_values_from(cfg, s1, acc));
    if i + 1 < vals.len() {
        assert(rest.skip(1) =~= seq![SP] + vals[i + 1] + ser_values_rest(vals, i + 2) + tail);
        lemma_values_round_trip_rest(cfg, vals, i + 1, acc.push(vals[i]), tail);
        assert(acc.push(vals[i]) + vals.skip(i + 1) =~= acc + vals.skip(i));
        assert(parse_values_from(cfg, s1, acc) == parse_values_from(
            cfg,
            rest.skip(1),
            acc.push(vals[i]),
        ));
    } else {
        assert(rest[0] != COMMA);
        assert(acc.push(vals[i]) =~= acc + vals.skip(i));
        assert(parse_values_from(cfg, s1, acc) == Ok::<
            (Seq<Seq<u8>>, Seq<u8>),
            crate::field::ParsingError,
        >((acc.push(vals[i]), rest)));
    }
}

/// A serialized value list followed by a carriage return parses back to the
/// same list, leaving the terminator.
proof fn lemma_values_round_trip(cfg: Config, vals: Seq<Seq<u8>>, tail: Seq<u8>)
    requires
        cfg.commas,
        !map_allows(cfg.map, CR),
        vals.len() > 1 ==> !map_allows(cfg.map, COMMA),
        vals.len() >= 1,
        forall|j: int| 0 <= j < vals.len() ==> value_rt_wf(cfg, #[trigger] vals[j]),
        tail.len() > 0,
        tail[0] == CR,
    ensures
        parse_values_from(cfg, ser_values(vals) + tail, Seq::empty()) == Ok::<
            (Seq<Seq<u8>>, Seq<u8>),
            crate::field::ParsingError,
        >((vals, tail)),
{
    let s = ser_values(vals) + tail;
    assert(s =~= vals[0] + (ser_values_rest(vals, 1) + tail));
    let rest = ser_values_rest(vals, 1) + tail;
    if 1 < vals.len() {
        assert(ser_values_rest(vals, 1) == seq![COMMA, SP] + vals[1] + ser_values_rest(vals, 2));
        assert(rest[0] == COMMA);
    } else {
        assert(ser_values_rest(vals, 1) =~= Seq::<u8>::empty());
        assert(rest =~= tail);
    }
    assert(!map_allows(cfg.map, rest[0]));
    lemma_terminator_step(cfg, rest[0]);
    lemma_value_round_trip(cfg, vals[0], rest);
    if s.len() > 0 && s[0] == SP {
        assert(vals[0].len() > 0 ==> s[0] == vals[0][0]);
        assert(vals[0].len() == 0 ==> s[0] == rest[0]);
        assert(false);
    }
    if 1 < vals.len() {
        assert(rest.skip(1) =~= seq![SP] + vals[1] + ser_values_rest(vals, 2) + tail);
        lemma_values_round_trip_rest(cfg, vals, 1, Seq::empty().push(vals[0]), tail);
        assert(Seq::empty().push(vals[0]) + vals.skip(1) =~= vals);
    } else {
        assert(rest[0] != COMMA);
        assert(Seq::<Seq<u8>>::empty().push(vals[0]) =~= vals);
    }
}

/// Every field configuration separates lists on commas and ends values on a
/// carriage return, except that the three date fields keep the comma as
/// value text.
proof fn lemma_field_config_props(n: Seq<u8>)
    ensures
        spec_config_for_name(n).commas,
        !map_allows(spec_config_for_name(n).map, CR),
        !crate::field::is_date_field_name(n) ==> !map_allows(spec_config_for_name(n).map, COMMA),
{
}

/// The serialized entries from position `i` on, followed by the closing
/// blank line and whatever comes after the block, parse back onto the first
/// `i` entries to give the whole block, leaving what came after.
proof fn lemma_fields_round_trip_rest(fv: FieldsView, i: int, extra: Seq<u8>)
    requires
        fields_rt_wf(fv),
        0 <= i <= fv.len(),
    ensures
        parse_fields_from(ser_fields_rest(fv, i) + crlf() + extra, fv.take(i)) == Ok::<
            (FieldsView, Seq<u8>),
            crate::field::ParsingError,
        >((fv, extra)),
    decreases fv.len() - i,
{
    if i == fv.len() {
        let s = ser_fields_rest(fv, i) + crlf() + extra;
        assert(s =~= crlf() + extra);
        assert(s[0] == CR && s[1] == LF);
        assert(fv.take(i) =~= fv);
        assert(s.skip(2) =~= extra);
    } else {
        let name = fv[i].0;
        let vals = fv[i].1;
        let cfg = spec_config_for_name(name);
        lemma_field_config_props(name);
        let after = ser_fields_rest(fv, i + 1) + crlf() + extra;
        let s = ser_fields_rest(fv, i) + crlf() + extra;
        assert(ser_fields_rest(fv, i) == ser_field(name, vals) + ser_fields_rest(fv, i + 1));
        let valtail = crlf() + after;
        assert(s =~= name + (seq![COLON, SP] + (ser_values(vals) + valtail)));
        // the line opens with the name, which starts alphanumeric
        assert(s[0] == name[0]);
        assert(is_alnum(s[0]));
        assert(s[0] != CR);
        // the name is read back whole
        lemma_token_prefix(s, 1024);
        let k = token_prefix_len(s, 1024);
        assert forall|j: int| 0 <= j < name.len() implies is_tchar(s[j]) by {
            assert(s[j] == name[j]);
        }
        assert(s[name.len() as int] == COLON);
        assert(!is_tchar(COLON));
        if k < name.len() {
            assert(is_tchar(s[k]));
            assert(!is_tchar(s[k]));
        }
        if k > name.len() {
            assert(is_tchar(s[name.len() as int]));
        }
        assert(k == name.len());
        assert(s.take(k) =~= name);
        let s2 = s.skip(k);
        assert(s2 =~= seq![COLON, SP] + (ser_values(vals) + valtail));
        assert(s2[0] == COLON && s2[1] == SP && s2.len() >= 2);
        let s3 = s2.skip(2);
        assert(s3 =~= ser_values(vals) + valtail);
        assert(valtail[0] == CR);
        lemma_values_round_trip(cfg, vals, valtail);
        // the line ends in the blank-line terminator or the next entry
        assert(valtail[1] == LF && valtail.len() >= 2);
        assert(valtail.skip(2) =~= after);
        // a fresh name lands at the end of the accumulator
        let acc = fv.take(i);
        lemma_find_name(acc, name, 0);
        let f = find_name(acc, name, 0);
        if f < acc.len() {
            assert(acc[f].0 == fv[i].0);
            assert(fv[f].0 != fv[i].0);
            assert(false);
        }
        assert((name, vals) == fv[i as int]);
        assert(upsert(acc, name, vals) =~~= fv.take(i + 1));
        lemma_fields_round_trip_rest(fv, i + 1, extra);
        assert(parse_fields_from(after, fv.take(i + 1)) == Ok::<
            (FieldsView, Seq<u8>),
            crate::field::ParsingError,
        >((fv, extra)));
        assert(parse_values_from(cfg, s3, Seq::empty()) == Ok::<
            (Seq<Seq<u8>>, Seq<u8>),
            crate::field::ParsingError,
        >((vals, valtail)));
        assert(parse_fields_from(s, acc) == parse_fields_from(
            valtail.skip(2),
            upsert(acc, name, vals),
        ));
    }
}

/// A non-empty block of fields parses back from its own wire form followed
/// by anything, leaving exactly that remainder — as the body bytes of a
/// message follow its headers.
pub proof fn lemma_fields_parse_back(fv: FieldsView, extra: Seq<u8>)
    requires
        fields_rt_wf(fv),
        fv.len() >= 1,
    ensures
        parse_fields_from(ser_fields(fv) + extra, Seq::empty()) == Ok::<
            (FieldsView, Seq<u8>),
            crate::field::ParsingError,
        >((fv, extra)),
{
    assert(fv.take(0) =~= Seq::<(Seq<u8>, Seq<Seq<u8>>)>::empty());
    lemma_fields_round_trip_rest(fv, 0, extra);
    assert(ser_fields(fv) + extra =~= ser_fields_rest(fv, 0) + crlf() + extra);
}

/// Round trip: a non-empty block of fields built from well-formed names and
/// values parses back from its own wire form, byte for byte, with nothing
/// left over.
pub proof fn lemma_fields_round_trip(fv: FieldsView)
    requires
        fields_rt_wf(fv),
        fv.len() >= 1,
    ensures
        parse_fields_from(ser_fields(fv), Seq::empty()) == Ok::<
            (FieldsView, Seq<u8>),
            crate::field::ParsingError,
        >((fv, Seq::empty())),
{
    lemma_fields_parse_back(fv, Seq::empty());
    assert(ser_fields(fv) + Seq::<u8>::empty() =~= ser_fields(fv));
}

/// The converse round trip: wire bytes already in canonical form — the
/// serialization of some well-formed block — serialize back unchanged after
/// parsing.
pub proof fn lemma_fields_canonical_wire(wire: Seq<u8>, fv: FieldsView)
    requires
        fields_rt_wf(fv),
        fv.len() >= 1,
        wire == ser_fields(fv),
    ensures
        parse_fields_from(wire, Seq::empty()) is Ok,
        ser_fields(parse_fields_from(wire, Seq::empty())->Ok_0.0) == wire,
{
    lemma_fields_round_trip(fv);
}

// ---------------------------------------------------------------------------
// Messages: a well-formed request or response parses back from its own wire
// form
// ---------------------------------------------------------------------------


/// No method's wire name is a prefix of another's, so a serialized method
/// followed by anything parses back to itself.
pub proof fn lemma_method_round_trip(m: Method, rest: Seq<u8>)
    ensures
        parse_method(method_name(m) + rest) == Some((m, rest)),
{
    let s = method_name(m) + rest;
    assert(s.take(method_name(m).len() as int) =~= method_name(m));
    assert(s.skip(method_name(m).len() as int) =~= rest);
    assert forall|k: Method| k != m implies !has_prefix(s, method_name(k)) by {
        let nk = method_name(k);
        let nm = method_name(m);
        if s.len() >= nk.len() && s.take(nk.len() as int) == nk {
            if nk.len() <= nm.len() {
                assert(forall|j: int|
                    0 <= j < nk.len() ==> s.take(nk.len() as int)[j] == #[trigger] s[j]);
                assert(forall|j: int| 0 <= j < nk.len() ==> s[j] == nm[j]);
                assert(forall|j: int| 0 <= j < nk.len() ==> nk[j] == nm[j]);
                assert(false);
            } else {
                assert(forall|j: int|
                    0 <= j < nm.len() ==> s.take(nk.len() as int)[j] == #[trigger] s[j]);
                assert(forall|j: int| 0 <= j < nm.len() ==> s[j] == nm[j]);
                assert(forall|j: int| 0 <= j < nm.len() ==> nk[j] == nm[j]);
                assert(false);
            }
        }
    }
}

/// A serialized version, followed by anything that cannot read as a dot one
/// byte in, parses back to itself.
pub proof fn lemma_version_round_trip(v: Version, rest: Seq<u8>)
    requires
        v.0 < 10,
        v.1 < 10,
        rest.len() > 0,
        rest[0] != 46,
    ensures
        parse_version(ser_version(v) + rest) == Ok::<(Version, Seq<u8>), crate::version::Malformed>(
            (v, rest),
        ),
{
    let s = ser_version(v) + rest;
    assert(is_digit((v.0 + 48) as u8) && digit_val((v.0 + 48) as u8) == v.0);
    assert(is_digit((v.1 + 48) as u8) && digit_val((v.1 + 48) as u8) == v.1);
    if v.1 == 0 {
        assert(s.take(5) =~= http_slash());
        assert(s.len() >= 6);
        let t = s.skip(5);
        assert(t =~= seq![(v.0 + 48) as u8] + rest);
        assert(t[0] == (v.0 + 48) as u8);
        assert(t.len() >= 3 ==> t[1] == rest[0] && t[1] != 46);
        assert(t.skip(1) =~= rest);
    } else {
        assert(s.take(5) =~= http_slash());
        assert(s.len() >= 6);
        let t = s.skip(5);
        assert(t =~= seq![(v.0 + 48) as u8, 46u8, (v.1 + 48) as u8] + rest);
        assert(t.len() >= 3 && t[1] == 46);
        assert(t[0] == (v.0 + 48) as u8 && t[2] == (v.1 + 48) as u8);
        assert(t.skip(3) =~= rest);
    }
}

/// A serialized request start line, followed by anything, parses back to
/// its method, path and version.
#[verifier::rlimit(100)]
proof fn lemma_start_line_round_trip(m: Method, path: Seq<u8>, v: Version, rest: Seq<u8>)
    requires
        path.len() >= 1,
        forall|j: int| 0 <= j < path.len() ==> is_uri_char(#[trigger] path[j]),
        v.0 < 10,
        v.1 < 10,
    ensures
        parse_start_line(
            method_name(m) + seq![SP] + path + seq![SP] + ser_version(v) + crlf() + rest,
        ) == Ok::<((Method, Seq<u8>, Version), Seq<u8>), crate::request::ParsingError>(
            ((m, path, v), rest),
        ),
{
    let s = method_name(m) + seq![SP] + path + seq![SP] + ser_version(v) + crlf() + rest;
    let after_method = seq![SP] + path + seq![SP] + ser_version(v) + crlf() + rest;
    assert(s =~= method_name(m) + after_method);
    lemma_method_round_trip(m, after_method);
    assert(after_method[0] == SP);
    let s2 = after_method.skip(1);
    assert(s2 =~= path + (seq![SP] + ser_version(v) + crlf() + rest));
    lemma_class_prefix(s2, CharMap::Uri);
    let k = class_prefix_len(s2, CharMap::Uri);
    assert forall|j: int| 0 <= j < path.len() implies map_allows(CharMap::Uri, s2[j]) by {
        assert(s2[j] == path[j]);
    }
    assert(s2[path.len() as int] == SP);
    assert(!is_uri_char(SP));
    if k < path.len() {
        assert(map_allows(CharMap::Uri, s2[k]));
        assert(is_uri_char(path[k]));
        assert(false);
    }
    if k > path.len() {
        assert(map_allows(CharMap::Uri, s2[path.len() as int]));
        assert(false);
    }
    assert(k == path.len());
    assert(s2.take(k) =~= path);
    let s3 = s2.skip(k);
    assert(s3 =~= seq![SP] + (ser_version(v) + (crlf() + rest)));
    assert(s3[0] == SP);
    let s4 = s3.skip(1);
    assert(s4 =~= ser_version(v) + (crlf() + rest));
    assert((crlf() + rest)[0] == CR);
    assert(CR != 46);
    lemma_version_round_trip(v, crlf() + rest);
    let s5 = crlf() + rest;
    assert(s5.len() >= 2 && s5[0] == CR && s5[1] == LF);
    assert(s5.skip(2) =~= rest);
}

/// A request built from a well-formed view — well-formed non-empty headers
/// whose declared `Content-Length` matches the body, a well-formed path and
/// version, and no trailers — parses back from its own wire form.
pub proof fn lemma_request_round_trip(rv: RequestView)
    requires
        rv.path.len() >= 1,
        forall|j: int| 0 <= j < rv.path.len() ==> is_uri_char(#[trigger] rv.path[j]),
        rv.version.0 < 10,
        rv.version.1 < 10,
        fields_rt_wf(rv.headers),
        rv.headers.len() >= 1,
        declared_length(rv.headers) == rv.body.len(),
        rv.trailers == Seq::<(Seq<u8>, Seq<Seq<u8>>)>::empty(),
    ensures
        parse_request(ser_request(rv)) == Ok::<RequestView, crate::request::ParsingError>(rv),
{
    let s = ser_request(rv);
    let after_line = ser_fields(rv.headers) + rv.body;
    assert(ser_fields(rv.trailers) =~= Seq::<u8>::empty());
    assert(s =~= method_name(rv.method) + seq![SP] + rv.path + seq![SP] + ser_version(rv.version)
        + crlf() + after_line);
    lemma_start_line_round_trip(rv.method, rv.path, rv.version, after_line);
    lemma_fields_parse_back(rv.headers, rv.body);
    assert(parse_fields_from(after_line, Seq::empty()) == Ok::<
        (FieldsView, Seq<u8>),
        crate::field::ParsingError,
    >((rv.headers, rv.body)));
}

/// A response built from a well-formed view parses back from its own wire
/// form.
#[verifier::rlimit(100)]
pub proof fn lemma_response_round_trip(rv: ResponseView)
    requires
        rv.version.0 < 10,
        rv.version.1 < 10,
        fields_rt_wf(rv.headers),
        rv.headers.len() >= 1,
        declared_length(rv.headers) == rv.body.len(),
        rv.trailers == Seq::<(Seq<u8>, Seq<Seq<u8>>)>::empty(),
    ensures
        parse_response(ser_response(rv)) == Ok::<ResponseView, crate::response::ParsingError>(rv),
{
    let s = ser_response(rv);
    let after_line = ser_fields(rv.headers) + rv.body;
    assert(ser_fields(rv.trailers) =~= Seq::<u8>::empty());
    let after_version = seq![SP] + code_phrase(rv.code) + crlf() + after_line;
    assert(s =~= ser_version(rv.version) + after_version);
    assert(after_version[0] == SP);
    assert(SP != 46);
    lemma_version_round_trip(rv.version, after_version);
    let s1 = after_version.skip(1);
    assert(s1 =~= code_phrase(rv.code) + (crlf() + after_line));
    lemma_code_round_trip(rv.code, crlf() + after_line);
    let s2 = crlf() + after_line;
    assert(s2.len() >= 2 && s2[0] == CR && s2[1] == LF);
    assert(s2.skip(2) =~= after_line);
    lemma_fields_parse_back(rv.headers, rv.body);
}

} // verus!
