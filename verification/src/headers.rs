//! HTTP headers: the map that holds them, and the text of a header's value.

use axum::http::header::{InvalidHeaderValue, ToStrError};
use axum::http::{HeaderMap, HeaderValue};
use vstd::prelude::*;

verus! {

/// The map of headers of the `http` crate, as `axum` gives it on.
#[verifier::external_type_specification]
#[verifier::external_body]
#[verifier::reject_recursive_types(T)]
pub struct ExHeaderMap<T>(axum::http::HeaderMap<T>);

/// The value of a header, of the `http` crate.
#[verifier::external_type_specification]
#[verifier::external_body]
pub struct ExHeaderValue(axum::http::HeaderValue);

/// What the `http` crate says of a text that cannot be the value of a header.
#[verifier::external_type_specification]
#[verifier::external_body]
pub struct ExInvalidHeaderValue(axum::http::header::InvalidHeaderValue);

/// What the `http` crate says of a value that cannot be read as text.
#[verifier::external_type_specification]
#[verifier::external_body]
pub struct ExToStrError(axum::http::header::ToStrError);

/// The bytes of a header's value.
pub uninterp spec fn value_bytes(value: HeaderValue) -> Seq<u8>;

/// The values that a map holds, as bytes: for each name, in small letters, its values in the order
/// in which they were added.
pub uninterp spec fn header_values(headers: HeaderMap<HeaderValue>) -> Map<
    Seq<char>,
    Seq<Seq<u8>>,
>;

/// The values of a map that holds none.
pub open spec fn no_values() -> Map<Seq<char>, Seq<Seq<u8>>> {
    Map::empty()
}

/// The values of a map once `value` has been added under `name`.
pub open spec fn with_value(
    headers: Map<Seq<char>, Seq<Seq<u8>>>,
    name: Seq<char>,
    value: Seq<u8>,
) -> Map<Seq<char>, Seq<Seq<u8>>> {
    let before = if headers.dom().contains(name) {
        headers[name]
    } else {
        Seq::empty()
    };
    headers.insert(name, before.push(value))
}

/// The bytes that may stand in a value that is read as text.
pub open spec fn is_visible(byte: u8) -> bool {
    32 <= byte < 127 || byte == 9
}

/// Whether the bytes of a value can be read as text.
pub open spec fn all_visible(bytes: Seq<u8>) -> bool {
    forall|i: int| 0 <= i < bytes.len() ==> is_visible(bytes[i])
}

/// The text whose characters have the bytes as their codes.
pub open spec fn ascii_text(bytes: Seq<u8>) -> Seq<char> {
    bytes.map_values(|byte: u8| byte as char)
}

/// The characters that may stand in a text that becomes the value of a header.
pub open spec fn is_header_char(c: char) -> bool {
    c as u32 == 9 || (c as u32 >= 32 && c as u32 != 127)
}

/// Whether a text can be the value of a header.
pub open spec fn is_header_text(text: Seq<char>) -> bool {
    forall|i: int| 0 <= i < text.len() ==> is_header_char(text[i])
}

/// `http::HeaderValue::to_str`: reads the value as text, which succeeds exactly where its bytes are
/// the visible characters of ASCII, spaces and tabs.
pub assume_specification[ HeaderValue::to_str ](value: &HeaderValue) -> (text: Result<
    &str,
    ToStrError,
>)
    ensures
        text is Ok <==> all_visible(value_bytes(*value)),
        text matches Ok(read) ==> read@ == ascii_text(value_bytes(*value)),
;

/// `http::HeaderValue::from_str`: makes a value of the UTF-8 bytes of the text, which succeeds
/// exactly where the text has no control characters but tabs.
pub assume_specification[ HeaderValue::from_str ](src: &str) -> (value: Result<
    HeaderValue,
    InvalidHeaderValue,
>)
    ensures
        value is Ok <==> is_header_text(src@),
        value matches Ok(made) ==> value_bytes(made) == vstd::utf8::encode_utf8(src@),
;

/// Calls `http::HeaderMap::get` for the header `Cookie`. Claims that it gives the first of the
/// values that the map holds under that name, and none exactly where it holds none.
#[verifier::external_body]
pub(crate) fn cookie_header(headers: &HeaderMap<HeaderValue>) -> (value: Option<&HeaderValue>)
    ensures
        value is Some <==> header_values(*headers).dom().contains("cookie"@),
        value matches Some(first) ==> header_values(*headers)["cookie"@].len() > 0
            && value_bytes(*first) == header_values(*headers)["cookie"@][0],
{
    headers.get(axum::http::header::COOKIE)
}

/// The number of names up to which a map is sure to have room for one more.
pub const ROOMY_NAMES: usize = 6553;

/// Calls `http::HeaderMap::append` for the header `Set-Cookie`. Claims that the value becomes the
/// last under that name and that nothing else changes. A map that nears its capacity of names may
/// panic, so it may hold `ROOMY_NAMES` at most.
#[verifier::external_body]
pub(crate) fn append_set_cookie(headers: &mut HeaderMap<HeaderValue>, value: HeaderValue)
    requires
        header_values(*old(headers)).dom().len() <= ROOMY_NAMES,
    ensures
        header_values(*final(headers)) == with_value(
            header_values(*old(headers)),
            "set-cookie"@,
            value_bytes(value),
        ),
{
    headers.append(axum::http::header::SET_COOKIE, value);
}

/// Calls `http::HeaderMap::new`. Claims that the map is empty.
#[verifier::external_body]
pub(crate) fn no_headers() -> (headers: HeaderMap<HeaderValue>)
    ensures
        header_values(headers) == no_values(),
{
    HeaderMap::new()
}

} // verus!
