//! What the crate takes from `std`, `serde_json` and `sha2` on trust.
use vstd::prelude::*;
use vstd::utf8::{decode_utf8, valid_utf8};

use crate::text::{is_control, is_space};

verus! {

/// The contents of a JSON value.
pub enum Json {
    Null,
    Bool(bool),
    /// A number, by the text that is printed for it.
    Number(Seq<char>),
    Text(Seq<char>),
    Array(Seq<Json>),
    Object(Map<Seq<char>, Json>),
}

impl Json {
    /// The member of an object under `key`; null where there is none.
    pub open spec fn member(self, key: Seq<char>) -> Json {
        match self {
            Json::Object(members) => if members.contains_key(key) {
                members[key]
            } else {
                Json::Null
            },
            _ => Json::Null,
        }
    }
}

/// Whether a number is printed without a fraction and an exponent.
pub open spec fn is_whole_number(text: Seq<char>) -> bool {
    !text.contains('.') && !text.contains('e')
}

impl Json {
    /// Whether no number in the value has a fraction or an exponent.
    pub open spec fn is_whole(self) -> bool
        decreases self,
    {
        match self {
            Json::Number(text) => is_whole_number(text),
            Json::Array(items) => forall|i: int|
                0 <= i < items.len() ==> (#[trigger] items[i]).is_whole(),
            Json::Object(members) => forall|key: Seq<char>| #[trigger]
                members.contains_key(key) ==> members[key].is_whole(),
            _ => true,
        }
    }

    /// Whether the two values are the same, but for numbers that have a fraction or an exponent in
    /// both.
    pub open spec fn is_like(self, other: Json) -> bool
        decreases self,
    {
        match self {
            Json::Number(text) => other matches Json::Number(found) && (text == found || (
            !is_whole_number(text) && !is_whole_number(found))),
            Json::Array(items) => other matches Json::Array(found) && items.len() == found.len() && (
            forall|i: int| 0 <= i < items.len() ==> (#[trigger] items[i]).is_like(found[i])),
            Json::Object(members) => other matches Json::Object(found) && members.dom()
                == found.dom() && (forall|key: Seq<char>| #[trigger]
                members.contains_key(key) ==> members[key].is_like(found[key])),
            _ => self == other,
        }
    }
}

/// `serde_json::Value`, carried as an opaque value.
#[verifier::external_type_specification]
#[verifier::external_body]
pub struct ExValue(serde_json::Value);

/// `serde_json::Error`, carried as an opaque value.
#[verifier::external_type_specification]
#[verifier::external_body]
pub struct ExJsonError(serde_json::Error);

/// What the tree of a `serde_json::Value` holds.
pub uninterp spec fn json_contents(value: serde_json::Value) -> Json;

/// What `serde_json::from_str` reads from a text, or the error it reports.
pub uninterp spec fn json_parsed(text: Seq<char>) -> Result<Json, serde_json::Error>;

/// What `serde_json::to_string_pretty` prints for a value, or the error it reports.
pub uninterp spec fn json_pretty(value: Json) -> Result<Seq<char>, serde_json::Error>;

/// Whether some text is read as `value`.
pub open spec fn is_readable(value: Json) -> bool {
    exists|text: Seq<char>| #[trigger]
        json_parsed(text) == Ok::<Json, serde_json::Error>(value)
}

/// `serde_json::from_str` into a `Value`: what the value holds, or which error there is, depends on
/// the text alone.
#[verifier::external_body]
pub(crate) fn parse_json(text: &str) -> (r: Result<serde_json::Value, serde_json::Error>)
    ensures
        match r {
            Ok(value) => json_parsed(text@) == Ok::<Json, serde_json::Error>(json_contents(value)),
            Err(error) => json_parsed(text@) == Err::<Json, serde_json::Error>(error),
        },
{
    serde_json::from_str(text)
}

/// `serde_json::to_string_pretty` of a `Value`: the text, or the error, depends on what the value
/// holds alone. A value that can be read from a text at all, and so is not nested too deeply, is
/// read back from the text that is printed for it, unless a number in it has a fraction or an
/// exponent: those are read with a rounding error where `serde_json` is built without its
/// `float_roundtrip` feature. Even then, what is read differs in such numbers only.
#[verifier::external_body]
pub(crate) fn print_json(value: &serde_json::Value) -> (r: Result<String, serde_json::Error>)
    ensures
        match r {
            Ok(text) => json_pretty(json_contents(*value)) == Ok::<Seq<char>, serde_json::Error>(
                text@,
            ) && (is_readable(json_contents(*value)) && json_contents(*value).is_whole()
                ==> json_parsed(text@) == Ok::<Json, serde_json::Error>(json_contents(*value))) && (
            is_readable(json_contents(*value)) ==> (json_parsed(text@) matches Ok(found)
                ==> json_contents(*value).is_like(found))),
            Err(error) => json_pretty(json_contents(*value)) == Err::<Seq<char>, serde_json::Error>(
                error,
            ),
        },
{
    serde_json::to_string_pretty(value)
}

/// `serde_json::Value`'s index by a string: the member of an object under that key, and null where
/// the value is no object or has no such member.
#[verifier::external_body]
pub(crate) fn json_member<'a>(value: &'a serde_json::Value, key: &str) -> (r: &'a serde_json::Value)
    ensures
        json_contents(*r) == json_contents(*value).member(key@),
{
    &value[key]
}

/// `serde_json::Value::as_array`: the items of an array in order, and `None` for anything else.
#[verifier::external_body]
pub(crate) fn json_array(value: &serde_json::Value) -> (r: Option<&Vec<serde_json::Value>>)
    ensures
        match json_contents(*value) {
            Json::Array(items) => r matches Some(found) && found@.len() == items.len() && (forall|
                i: int,
            |
                0 <= i < items.len() ==> json_contents(#[trigger] found@[i]) == items[i]),
            _ => r is None,
        },
{
    value.as_array()
}

/// `serde_json::Value::as_str`: the text of a string, and `None` for anything else.
#[verifier::external_body]
pub(crate) fn json_text(value: &serde_json::Value) -> (r: Option<&str>)
    ensures
        match json_contents(*value) {
            Json::Text(text) => r matches Some(found) && found@ == text,
            _ => r is None,
        },
{
    value.as_str()
}

/// What `String::from_utf8_lossy` makes of bytes that are not valid UTF-8.
pub uninterp spec fn utf8_lossy(bytes: Seq<u8>) -> Seq<char>;

/// The text that stands for some bytes: the one they encode where they are valid UTF-8, and what
/// `String::from_utf8_lossy` makes of them elsewhere.
pub open spec fn lossy_of(bytes: Seq<u8>) -> Seq<char> {
    if valid_utf8(bytes) {
        decode_utf8(bytes)
    } else {
        utf8_lossy(bytes)
    }
}

/// `String::from_utf8_lossy`: the text that the bytes encode where they are valid UTF-8, and a text
/// that depends on the bytes alone elsewhere.
#[verifier::external_body]
pub(crate) fn lossy_text(bytes: &[u8]) -> (r: String)
    ensures
        valid_utf8(bytes@) ==> r@ == decode_utf8(bytes@),
        !valid_utf8(bytes@) ==> r@ == utf8_lossy(bytes@),
{
    String::from_utf8_lossy(bytes).into_owned()
}

/// What the `Debug` form of a `std::path::Path` with this text is.
pub uninterp spec fn path_debug(path: Seq<char>) -> Seq<char>;

/// The `Debug` form of a `std::path::Path`, a quoted and escaped text that depends on the path
/// alone.
#[verifier::external_body]
pub(crate) fn path_literal(path: &str) -> (r: String)
    ensures
        r@ == path_debug(path@),
{
    format!("{:?}", std::path::Path::new(path))
}

/// `String::push` appends one character.
pub assume_specification[ String::push ](s: &mut String, ch: char)
    ensures
        final(s)@ == old(s)@.push(ch),
;

/// Whether `char::is_alphanumeric` holds of a character outside ASCII that is neither white space
/// nor a control character.
pub uninterp spec fn unicode_alphanumeric(c: char) -> bool;

/// Whether `c` is an ASCII letter or digit.
pub open spec fn ascii_alphanumeric(c: char) -> bool {
    ||| '0' <= c <= '9'
    ||| 'A' <= c <= 'Z'
    ||| 'a' <= c <= 'z'
}

/// Whether `c` is a letter or a digit.
pub open spec fn alphanumeric(c: char) -> bool {
    if c <= '\u{7f}' {
        ascii_alphanumeric(c)
    } else {
        !is_space(c) && !is_control(c) && unicode_alphanumeric(c)
    }
}

/// `char::is_alphanumeric`: of the ASCII characters the letters and digits have the property and no
/// others, white space and control characters do not have it, being neither alphabetic nor numeric,
/// and elsewhere it depends on the character alone.
#[verifier::external_body]
pub(crate) fn is_alphanumeric(c: char) -> (r: bool)
    ensures
        c <= '\u{7f}' ==> r == ascii_alphanumeric(c),
        is_space(c) || is_control(c) ==> !r,
        c > '\u{7f}' && !is_space(c) && !is_control(c) ==> r == unicode_alphanumeric(c),
{
    c.is_alphanumeric()
}

/// The SHA-256 digest that `sha2` computes of some bytes.
pub uninterp spec fn sha256_of(data: Seq<u8>) -> Seq<u8>;

/// `sha2::Sha256` fed with `data` and finalised: 32 bytes that depend on the data alone.
#[verifier::external_body]
pub(crate) fn sha256(data: &[u8]) -> (r: Vec<u8>)
    ensures
        r@ == sha256_of(data@),
        r@.len() == 32,
{
    let mut hasher = <sha2::Sha256 as sha2::Digest>::new();
    sha2::Digest::update(&mut hasher, data);
    sha2::Digest::finalize(hasher).to_vec()
}

} // verus!
