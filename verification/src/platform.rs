//! The calls this library makes into the standard library and outside crates, each
//! with the contract that the library relies on.

use vstd::prelude::*;

verus! {

/// Draws one uniformly random byte from the thread-local generator (`rand::random::<u8>`).
/// Nothing is promised of the value.
#[verifier::external_body]
pub(crate) fn random_byte() -> u8 {
    rand::random::<u8>()
}

/// Reads the wall clock (`std::time::SystemTime::now`) and gives the instant as signed
/// nanoseconds relative to the Unix epoch. Nothing is promised of the value.
#[verifier::external_body]
pub(crate) fn now_nanos() -> i128 {
    match std::time::SystemTime::now().duration_since(std::time::UNIX_EPOCH) {
        Ok(d) => d.as_nanos() as i128,
        Err(e) => -(e.duration().as_nanos() as i128),
    }
}

/// Whether `std::path::Path` considers the two paths equal (component-wise comparison).
pub uninterp spec fn path_components_equal(a: Seq<char>, b: Seq<char>) -> bool;

/// The final component of a path as `std::path::Path::file_name` gives it, if any.
pub uninterp spec fn path_file_name_of(p: Seq<char>) -> Option<Seq<char>>;

/// `Path::new(a) == Path::new(b)`: the result is the named path equality of the two
/// strings; the comparison is reflexive, so identical strings compare equal.
#[verifier::external_body]
pub(crate) fn path_eq(a: &str, b: &str) -> (r: bool)
    ensures
        r == path_components_equal(a@, b@),
        a@ == b@ ==> r,
{
    std::path::Path::new(a) == std::path::Path::new(b)
}

/// `Path::new(p).file_name()`, converted to an owned string. The path is valid UTF-8,
/// so the conversion loses nothing; the result is the named final component.
#[verifier::external_body]
pub(crate) fn path_file_name(p: &str) -> (r: Option<String>)
    ensures
        r.deep_view() == path_file_name_of(p@),
{
    match std::path::Path::new(p).file_name() {
        Some(n) => Some(n.to_string_lossy().into_owned()),
        None => None,
    }
}

/// A character allowed in an HTTP header name (an RFC 7230 `tchar`).
pub open spec fn is_token_char(c: char) -> bool {
    ||| ('0' <= c && c <= '9')
    ||| ('a' <= c && c <= 'z')
    ||| ('A' <= c && c <= 'Z')
    ||| c == '!' || c == '#' || c == '$' || c == '%' || c == '&' || c == '\''
    ||| c == '*' || c == '+' || c == '-' || c == '.' || c == '^' || c == '_'
    ||| c == '`' || c == '|' || c == '~'
}

/// ASCII lowercase of one character.
pub open spec fn ascii_lower(c: char) -> char {
    if 'A' <= c && c <= 'Z' {
        ((c as u32) + 32) as char
    } else {
        c
    }
}

/// The normalized header name for `key`: its ASCII lowercase when `key` is a non-empty
/// token of at most 65535 characters, and nothing otherwise.
pub open spec fn header_name_text(key: Seq<char>) -> Option<Seq<char>> {
    if 0 < key.len() <= 65535 && forall|i: int| 0 <= i < key.len() ==> is_token_char(#[trigger] key[i]) {
        Some(key.map_values(|c: char| ascii_lower(c)))
    } else {
        None
    }
}

/// A character whose UTF-8 bytes are all allowed in an HTTP header value: a visible
/// character, a space, a tab, or any non-ASCII character; control characters and DEL are not.
pub open spec fn is_header_value_char(c: char) -> bool {
    ((c as u32) >= 32 && (c as u32) != 127) || (c as u32) == 9
}

/// `HeaderName::from_str(key)` (http, re-exported by reqwest), giving the normalized name
/// as text. Per the crate's source: accepted exactly when `key` is a non-empty run of at
/// most 65535 token characters, and the name is then `key` in ASCII lowercase.
#[verifier::external_body]
pub(crate) fn header_name_from_str(key: &str) -> (r: Option<String>)
    ensures
        r.deep_view() == header_name_text(key@),
{
    match <reqwest::header::HeaderName as std::str::FromStr>::from_str(key) {
        Ok(name) => Some(name.as_str().to_owned()),
        Err(_) => None,
    }
}

/// Whether `HeaderValue::from_str(value)` (http, re-exported by reqwest) succeeds. Per
/// the crate's source it succeeds exactly when every byte is at least 32 and not 127, or
/// is a tab; on characters that is `is_header_value_char` for each of them.
#[verifier::external_body]
pub(crate) fn header_value_accepted(value: &str) -> (r: bool)
    ensures
        r == (forall|i: int| 0 <= i < value@.len() ==> is_header_value_char(#[trigger] value@[i])),
{
    reqwest::header::HeaderValue::from_str(value).is_ok()
}

} // verus!
