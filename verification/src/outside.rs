//! The calls this crate makes into std and outside crates where vstd gives no
//! specification. Each item states what the called function's source or
//! documentation shows, and nothing is proved of it here.
use vstd::prelude::*;
use base64::Engine;
use vstd::utf8::encode_utf8;
use crate::percent::{url_decoded, url_encoded};
use crate::json::{nesting, JsonValue};
use crate::text::ascii_upper;

verus! {

/// `String::push`: appends one character at the end.
#[verifier::external_body]
pub(crate) fn push_char(s: &mut String, c: char)
    ensures
        final(s)@ == old(s)@.push(c),
{
    s.push(c);
}

/// `urlencoding::encode`: every UTF-8 byte of `s` except ASCII letters, digits and
/// `-` `.` `_` `~` becomes `%` and two upper-case hex digits (see `encode_into` and
/// `to_hex_digit` in the crate's `enc.rs`).
#[verifier::external_body]
pub(crate) fn url_encode(s: &str) -> (r: String)
    ensures
        r@ == url_encoded(s@),
{
    urlencoding::encode(s).into_owned()
}

/// `urlencoding::decode`: `%` and two hex digits become the byte they name, any other byte
/// stays (see `decode_binary` in the crate's `dec.rs`); the result is `Ok` exactly when the
/// bytes so obtained are valid UTF-8, and then it is the text they encode.
#[verifier::external_body]
pub(crate) fn url_decode(s: &str) -> (r: Option<String>)
    ensures
        match r {
            Some(t) => url_decoded(s@) == Some(t@),
            None => url_decoded(s@) is None,
        },
{
    urlencoding::decode(s).ok().map(|c| c.into_owned())
}

/// What `std::path::Path::extension` gives for a path: the part of the file name after its
/// last `.` (none when there is no file name, no `.` in it, or only a leading one), as text.
pub uninterp spec fn spec_path_extension(path: Seq<char>) -> Option<Seq<char>>;

/// `Path::new(path).extension()`, read back as text (`to_string_lossy`, which changes nothing
/// in a path made from a `&str`).
#[verifier::external_body]
pub(crate) fn path_extension(path: &str) -> (r: Option<String>)
    ensures
        match r {
            Some(e) => spec_path_extension(path@) == Some(e@),
            None => spec_path_extension(path@) is None,
        },
{
    std::path::Path::new(path).extension().map(|e| e.to_string_lossy().into_owned())
}

/// `serde_json::Value`, carried only inside the JSON wrappers below.
#[verifier::external_type_specification]
#[verifier::external_body]
pub struct ExSerdeJsonValue(serde_json::Value);

/// What `serde_json::from_str::<serde_json::Value>` gives for a text: the value (objects with
/// their keys in the order the map iterates them, numbers as the text they print as), or the
/// error's message.
pub uninterp spec fn spec_json_from_str(text: Seq<char>) -> Result<JsonValue, Seq<char>>;

/// What `serde_json::to_string_pretty` gives for a value (`None` when it reports an error).
pub uninterp spec fn spec_json_to_string_pretty(v: JsonValue) -> Option<Seq<char>>;

/// What `serde_json::to_string` gives for a value (`None` when it reports an error).
pub uninterp spec fn spec_json_to_string(v: JsonValue) -> Option<Seq<char>>;

/// Conversion used by the JSON wrappers: a `serde_json::Value` as a `JsonValue`, variant by
/// variant, a number by the text it prints as.
#[verifier::external_body]
fn json_value_of(v: &serde_json::Value) -> JsonValue {
    match v {
        serde_json::Value::Null => JsonValue::Null,
        serde_json::Value::Bool(b) => JsonValue::Bool(*b),
        serde_json::Value::Number(n) => JsonValue::Number(n.to_string()),
        serde_json::Value::String(s) => JsonValue::Str(s.clone()),
        serde_json::Value::Array(a) => JsonValue::Array(a.iter().map(json_value_of).collect()),
        serde_json::Value::Object(m) => JsonValue::Object(
            m.iter().map(|(k, x)| (k.clone(), json_value_of(x))).collect(),
        ),
    }
}

/// Conversion used by the JSON wrappers: a `JsonValue` back as a `serde_json::Value`.
#[verifier::external_body]
fn serde_value_of(v: &JsonValue) -> serde_json::Value {
    match v {
        JsonValue::Null => serde_json::Value::Null,
        JsonValue::Bool(b) => serde_json::Value::Bool(*b),
        JsonValue::Number(n) => serde_json::from_str(n).unwrap_or(serde_json::Value::Null),
        JsonValue::Str(s) => serde_json::Value::String(s.clone()),
        JsonValue::Array(a) => serde_json::Value::Array(a.iter().map(serde_value_of).collect()),
        JsonValue::Object(m) => serde_json::Value::Object(
            m.iter().map(|(k, x)| (k.clone(), serde_value_of(x))).collect(),
        ),
    }
}

/// `serde_json::from_str::<serde_json::Value>`: the parsed value or the error's message,
/// a function of the text alone. A parsed value nests at most 128 levels deep: the parser
/// starts with `remaining_depth: 128` and fails when entering a container brings it to 0
/// (`check_recursion!` in the crate's `de.rs`).
#[verifier::external_body]
pub(crate) fn json_from_str(text: &str) -> (r: Result<JsonValue, String>)
    ensures
        match r {
            Ok(v) => spec_json_from_str(text@) == Ok::<JsonValue, Seq<char>>(v) && nesting(v) <= 128,
            Err(e) => spec_json_from_str(text@) == Err::<JsonValue, Seq<char>>(e@),
        },
{
    match serde_json::from_str::<serde_json::Value>(text) {
        Ok(v) => Ok(json_value_of(&v)),
        Err(e) => Err(e.to_string()),
    }
}

/// `serde_json::to_string_pretty` of a value, a function of the value alone.
#[verifier::external_body]
pub(crate) fn json_to_string_pretty(v: &JsonValue) -> (r: Option<String>)
    ensures
        match r {
            Some(t) => spec_json_to_string_pretty(*v) == Some(t@),
            None => spec_json_to_string_pretty(*v) is None,
        },
{
    serde_json::to_string_pretty(&serde_value_of(v)).ok()
}

/// `serde_json::to_string` of a value, a function of the value alone.
#[verifier::external_body]
pub(crate) fn json_to_string(v: &JsonValue) -> (r: Option<String>)
    ensures
        match r {
            Some(t) => spec_json_to_string(*v) == Some(t@),
            None => spec_json_to_string(*v) is None,
        },
{
    serde_json::to_string(&serde_value_of(v)).ok()
}

/// The character of a 6-bit value in the standard base64 alphabet.
pub open spec fn base64_char(v: int) -> char {
    if v < 26 {
        ((65 + v) as u32) as char
    } else if v < 52 {
        ((97 + v - 26) as u32) as char
    } else if v < 62 {
        ((48 + v - 52) as u32) as char
    } else if v == 62 {
        '+'
    } else {
        '/'
    }
}

/// Standard base64 with `=` padding: every 3 bytes become 4 characters, a last group of 1 or
/// 2 bytes is padded to 4 characters.
pub open spec fn base64_text(bs: Seq<u8>) -> Seq<char>
    decreases bs.len(),
{
    if bs.len() == 0 {
        Seq::empty()
    } else if bs.len() == 1 {
        seq![base64_char((bs[0] / 4) as int), base64_char((bs[0] % 4) as int * 16), '=', '=']
    } else if bs.len() == 2 {
        seq![
            base64_char((bs[0] / 4) as int),
            base64_char((bs[0] % 4) as int * 16 + (bs[1] / 16) as int),
            base64_char((bs[1] % 16) as int * 4),
            '=',
        ]
    } else {
        seq![
            base64_char((bs[0] / 4) as int),
            base64_char((bs[0] % 4) as int * 16 + (bs[1] / 16) as int),
            base64_char((bs[1] % 16) as int * 4 + (bs[2] / 64) as int),
            base64_char((bs[2] % 64) as int),
        ] + base64_text(bs.skip(3))
    }
}

/// `base64::engine::general_purpose::STANDARD.encode` of the UTF-8 bytes of `text`: standard
/// alphabet with `=` padding (RFC 4648). The crate panics when the output length overflows
/// `usize`, which no text of at most `usize::MAX / 2` bytes reaches.
#[verifier::external_body]
pub(crate) fn base64_encode(text: &str) -> (r: String)
    requires
        encode_utf8(text@).len() <= usize::MAX / 2,
    ensures
        r@ == base64_text(encode_utf8(text@)),
{
    base64::engine::general_purpose::STANDARD.encode(text)
}

/// What `str::to_uppercase` gives for a text (Unicode upper-casing, which may turn one
/// character into several).
pub uninterp spec fn spec_to_uppercase(s: Seq<char>) -> Seq<char>;

/// `str::to_uppercase`. On text of ASCII characters only it upper-cases the ASCII letters
/// and leaves the rest, as `str::to_ascii_uppercase` does (the Unicode upper-case mapping of an
/// ASCII character is that character's ASCII upper case).
#[verifier::external_body]
pub(crate) fn to_uppercase(s: &str) -> (r: String)
    ensures
        r@ == spec_to_uppercase(s@),
        vstd::utf8::is_ascii_chars(s@) ==> r@ == ascii_upper(s@),
{
    s.to_uppercase()
}

} // verus!
