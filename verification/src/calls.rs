//! Trusted bridges to functions of std and of outside crates. Verus believes
//! the contracts written here; each doc comment says what is claimed.
use vstd::prelude::*;

verus! {

/// `std::io::Error`, carried opaquely.
#[verifier::external_type_specification]
#[verifier::external_body]
pub struct ExIoError(std::io::Error);

/// What `serde_json` finds at `text[outer][inner]`: `Some` of that string
/// when `text` parses as JSON and the value there is a string, `None`
/// otherwise.
pub uninterp spec fn json_nested_str_of(text: Seq<char>, outer: Seq<char>, inner: Seq<char>) -> Option<
    Seq<char>,
>;

/// Parses `text` with `serde_json::from_str` into a `serde_json::Value` and
/// reads the string at `value[outer][inner]` (`Index` by key, then
/// `Value::as_str`). The result is `json_nested_str_of` of the three
/// arguments' characters.
#[verifier::external_body]
pub(crate) fn json_nested_str(text: &str, outer: &str, inner: &str) -> (r: Option<String>)
    ensures
        r matches Some(m) ==> json_nested_str_of(text@, outer@, inner@) == Some(m@),
        r is None ==> json_nested_str_of(text@, outer@, inner@) is None,
{
    serde_json::from_str::<serde_json::Value>(text)
        .ok()
        .and_then(|v| v[outer][inner].as_str().map(String::from))
}

/// A hexadecimal digit as `serde_json` writes it (lower case).
pub open spec fn hex_digit(n: int) -> char {
    if n < 10 {
        (('0' as int) + n) as char
    } else {
        (('a' as int) + n - 10) as char
    }
}

/// How `serde_json` writes one character inside a string: `"` and `\` and
/// the control characters `\b \t \n \f \r` with a backslash, the other
/// characters below U+0020 as `\u00XX`, everything else as it is.
pub open spec fn json_escape_char(c: char) -> Seq<char> {
    if c == '"' {
        seq!['\\', '"']
    } else if c == '\\' {
        seq!['\\', '\\']
    } else if c == '\u{8}' {
        seq!['\\', 'b']
    } else if c == '\t' {
        seq!['\\', 't']
    } else if c == '\n' {
        seq!['\\', 'n']
    } else if c == '\u{c}' {
        seq!['\\', 'f']
    } else if c == '\r' {
        seq!['\\', 'r']
    } else if (c as int) < 0x20 {
        seq!['\\', 'u', '0', '0', hex_digit((c as int) / 16), hex_digit((c as int) % 16)]
    } else {
        seq![c]
    }
}

/// The characters of a string escaped for JSON.
pub open spec fn json_escaped(s: Seq<char>) -> Seq<char>
    decreases s.len(),
{
    if s.len() == 0 {
        seq![]
    } else {
        json_escaped(s.drop_last()) + json_escape_char(s.last())
    }
}

/// The JSON text `serde_json` writes for a string value: the string quoted,
/// with the characters JSON requires escaped.
pub open spec fn json_string_literal(s: Seq<char>) -> Seq<char> {
    seq!['"'] + json_escaped(s) + seq!['"']
}

/// `serde_json::to_string` of a string slice (`format_escaped_str` with
/// its escape table). Claimed: its result is `json_string_literal` of the
/// slice's characters. Serializing a `str`
/// cannot fail; the empty string stands in for the impossible error.
#[verifier::external_body]
pub(crate) fn json_quote(s: &str) -> (r: String)
    ensures
        r@ == json_string_literal(s@),
{
    serde_json::to_string(s).unwrap_or_default()
}

/// What `serde_json` finds under `key` when it parses `text`: `None` when the
/// text is not JSON; `Some(Some(v))` when the text is a JSON object whose
/// `key` holds the string `v`; `Some(None)` otherwise.
pub uninterp spec fn json_str_field_of(text: Seq<char>, key: Seq<char>) -> Option<Option<Seq<char>>>;

/// Parses `text` with `serde_json::from_str` into a `serde_json::Value` and
/// reads the string under `key` (`Value::as_str` of `value[key]`). The result
/// is `json_str_field_of` of the two arguments' characters.
#[verifier::external_body]
pub(crate) fn json_str_field(text: &str, key: &str) -> (r: Option<Option<String>>)
    ensures
        match r {
            None => json_str_field_of(text@, key@) is None,
            Some(None) => json_str_field_of(text@, key@) == Some(None::<Seq<char>>),
            Some(Some(v)) => json_str_field_of(text@, key@) == Some(Some(v@)),
        },
{
    match serde_json::from_str::<serde_json::Value>(text) {
        Ok(v) => Some(v[key].as_str().map(String::from)),
        Err(_) => None,
    }
}

/// The local date and time as `chrono` formats it with
/// `%Y-%m-%d %H:%M:%S %z`. Nothing is claimed of the text: it depends on the
/// clock and the machine's time zone.
#[verifier::external_body]
pub(crate) fn local_timestamp() -> String {
    chrono::Local::now().format("%Y-%m-%d %H:%M:%S %z").to_string()
}

/// The current UTC time in RFC 3339 form (`chrono::Utc::now().to_rfc3339()`).
/// Nothing is claimed of the text: it depends on the clock.
#[verifier::external_body]
pub(crate) fn utc_now_rfc3339() -> String {
    chrono::Utc::now().to_rfc3339()
}

/// A fresh random identifier (`uuid::Uuid::new_v4().to_string()`, the
/// hyphenated form). Claimed: it is 36 characters long; which ones is random.
#[verifier::external_body]
pub(crate) fn new_uuid() -> (r: String)
    ensures
        r@.len() == 36,
{
    uuid::Uuid::new_v4().to_string()
}

/// The platform's data directory (`dirs::data_dir`), as a lossy string.
/// Nothing is claimed: it depends on the platform and the environment.
#[verifier::external_body]
pub(crate) fn platform_data_dir() -> Option<String> {
    dirs::data_dir().map(|p| p.to_string_lossy().into_owned())
}

/// The user's home directory (`dirs::home_dir`), as a lossy string. Nothing
/// is claimed: it depends on the environment.
#[verifier::external_body]
pub(crate) fn home_dir() -> Option<String> {
    dirs::home_dir().map(|p| p.to_string_lossy().into_owned())
}

/// What `serde_json` finds under `key` when it parses `text`: `None` when
/// the text is not JSON; `Some(None)` when that value is not an array;
/// `Some(Some(items))` with each array item as a string, or `None` for an
/// item that is not a string.
pub uninterp spec fn json_str_array_of(text: Seq<char>, key: Seq<char>) -> Option<Option<Seq<Option<Seq<char>>>>>;

/// Parses `text` with `serde_json::from_str` into a `serde_json::Value` and
/// reads the array under `key` (`Value::as_array`), each item by
/// `Value::as_str`. The result is `json_str_array_of` of the arguments.
#[verifier::external_body]
pub(crate) fn json_str_array(text: &str, key: &str) -> (r: Option<Option<Vec<Option<String>>>>)
    ensures
        match r {
            None => json_str_array_of(text@, key@) is None,
            Some(None) => json_str_array_of(text@, key@) == Some(None::<Seq<Option<Seq<char>>>>),
            Some(Some(items)) => json_str_array_of(text@, key@) == Some(
                Some(items@.map_values(|o: Option<String>| match o {
                    Some(s) => Some(s@),
                    None => None,
                })),
            ),
        },
{
    match serde_json::from_str::<serde_json::Value>(text) {
        Err(_) => None,
        Ok(v) => Some(v[key].as_array().map(|a| a.iter().map(|x| x.as_str().map(String::from)).collect())),
    }
}

} // verus!
