use http_lib::chars::CharMap;
use http_lib::field::{Fields, Value};
use http_lib::scan::Config;

fn token_config() -> Config {
    Config { map: CharMap::Token, comments: true, quotes: true, commas: true }
}

fn date_config() -> Config {
    Config { map: CharMap::Date, comments: true, quotes: true, commas: true }
}

#[test]
fn quoting_idempotence_date() {
    let mut bytes: bytes::Bytes = "Example-Dates: \"Sat, 04 May 1996\"\r\n\r\n".into();
    let fields = Fields::from_bytes(&mut bytes).unwrap();
    let values = fields.get(b"Example-Dates").unwrap();
    assert_eq!(values.first_slice(), b"\"Sat, 04 May 1996\"");
    let content = values.first().unquote(date_config()).unwrap();
    assert_eq!(content, b"Sat, 04 May 1996".to_vec());
    // under the date class the commas are plain value text, so the content
    // needs no quoting there; under the generic class it does, and escaping
    // it reproduces the original quoted wire form
    let plain = Value::from_unquoted(&content, date_config());
    assert_eq!(plain.as_slice(), b"Sat, 04 May 1996");
    let requoted = Value::from_unquoted(&content, token_config());
    assert_eq!(requoted.as_slice(), b"\"Sat, 04 May 1996\"");
}

#[test]
fn quoting_idempotence_backslash() {
    let wire = b"\"with a \\\\ backslash and a \\\" quote\"";
    let mut bytes = bytes::Bytes::copy_from_slice(b"N: \"with a \\\\ backslash and a \\\" quote\"\r\n\r\n");
    let fields = Fields::from_bytes(&mut bytes).unwrap();
    let values = fields.get(b"N").unwrap();
    assert_eq!(values.first_slice(), wire.as_slice());
    let content = values.first().unquote(token_config()).unwrap();
    assert_eq!(content, b"with a \\ backslash and a \" quote".to_vec());
    let requoted = Value::from_unquoted(&content, token_config());
    assert_eq!(requoted.as_slice(), wire.as_slice());
}

#[test]
fn from_unquoted_plain_stays_plain() {
    let value = Value::from_unquoted(b"curl/8.1.2", token_config());
    assert_eq!(value.as_slice(), b"curl/8.1.2");
    assert_eq!(value.as_str().unwrap(), "curl/8.1.2");
}

#[test]
fn from_unquoted_wraps_and_escapes() {
    let value = Value::from_unquoted(b"a,b", token_config());
    assert_eq!(value.as_slice(), b"\"a,b\"");
    let back = value.unquote(token_config()).unwrap();
    assert_eq!(back, b"a,b".to_vec());
}

#[test]
fn from_unquoted_keeps_balanced_comments() {
    let value = Value::from_unquoted(b"a (small note) b", token_config());
    assert_eq!(value.as_slice(), b"a (small note) b");
    let unbalanced = Value::from_unquoted(b"(abc", token_config());
    assert_eq!(unbalanced.as_slice(), b"\"(abc\"");
}

#[test]
fn as_str_rejects_non_ascii() {
    let value = Value::from_unquoted(&[0xc3, 0xa9], token_config());
    assert!(value.as_str().is_none());
    let ascii = Value::from_unquoted(b"plain", token_config());
    assert_eq!(ascii.as_str(), Some("plain"));
}

#[test]
fn unquote_rejects_invalid_data() {
    let mut bytes: bytes::Bytes = "N: ok\r\n\r\n".into();
    let fields = Fields::from_bytes(&mut bytes).unwrap();
    let value = fields.get(b"N").unwrap().first();
    // under the bare token-character class, `/` is no longer grammatical
    let narrow = Config { map: CharMap::Tchar, comments: false, quotes: false, commas: false };
    let mut wide_bytes: bytes::Bytes = "M: a/b\r\n\r\n".into();
    let wide = Fields::from_bytes(&mut wide_bytes).unwrap();
    assert!(wide.get(b"M").unwrap().first().unquote(narrow).is_err());
    assert!(value.unquote(token_config()).is_ok());
}

#[test]
fn date_field_keeps_commas_whole() {
    let mut bytes: bytes::Bytes = "Date: Fri, 09 Jun 2023 18:36:58 GMT\r\n\r\n".into();
    let fields = Fields::from_bytes(&mut bytes).unwrap();
    let values = fields.get(b"Date").unwrap();
    assert_eq!(values.count(), 1);
    assert_eq!(values.first_slice(), b"Fri, 09 Jun 2023 18:36:58 GMT");
}
