//! HTTP headers, as the `http` crate holds them on the agent's side and the `genai` crate on the
//! chat client's side.

use http::{HeaderMap, HeaderValue};
use vstd::prelude::*;

verus! {

/// The header map of the `http` crate.
#[verifier::external_type_specification]
#[verifier::external_body]
#[verifier::reject_recursive_types(T)]
pub struct ExHeaderMap<T>(http::HeaderMap<T>);

/// The header value of the `http` crate.
#[verifier::external_type_specification]
#[verifier::external_body]
pub struct ExHeaderValue(http::HeaderValue);

/// The error of the `http` crate for a header value that is no text.
#[verifier::external_type_specification]
#[verifier::external_body]
pub struct ExToStrError(http::header::ToStrError);

/// The headers of the `genai` crate.
#[verifier::external_type_specification]
#[verifier::external_body]
pub struct ExHeaders(genai::Headers);

/// The entries of a header map: a lower-case name and the bytes of a value each, in the order in
/// which the map is walked. A name that has several values stands once for each of them.
pub uninterp spec fn header_entries(map: http::HeaderMap) -> Seq<(Seq<char>, Seq<u8>)>;

/// The bytes of a header value.
pub uninterp spec fn header_bytes(value: http::HeaderValue) -> Seq<u8>;

/// The contents of the chat client's headers: one value for each name.
pub uninterp spec fn headers_map(headers: genai::Headers) -> Map<Seq<char>, Seq<char>>;

/// Whether every byte is visible ASCII, a space or a tab.
pub open spec fn is_visible(bytes: Seq<u8>) -> bool {
    forall|i: int| 0 <= i < bytes.len() ==> 32 <= #[trigger] bytes[i] < 127 || bytes[i] == 9
}

/// ASCII bytes as text.
pub open spec fn ascii_text(bytes: Seq<u8>) -> Seq<char> {
    Seq::new(bytes.len(), |i: int| bytes[i] as char)
}

/// The text of a header value; nothing where it holds a byte that is not visible ASCII.
pub open spec fn value_text(bytes: Seq<u8>) -> Option<Seq<char>> {
    if is_visible(bytes) {
        Some(ascii_text(bytes))
    } else {
        None
    }
}

/// `http::HeaderValue::to_str`: the value as text where all its bytes are visible ASCII, spaces or
/// tabs, an error otherwise.
pub assume_specification[ http::HeaderValue::to_str ](value: &http::HeaderValue) -> (text: Result<&str, http::header::ToStrError>)
    ensures
        text is Ok <==> is_visible(header_bytes(*value)),
        text matches Ok(t) ==> t@ == ascii_text(header_bytes(*value)),
;

/// `http::HeaderMap::iter`: all entries of the map, a name with several values once for each.
#[verifier::external_body]
pub(crate) fn header_list(map: &HeaderMap) -> (list: Vec<(String, HeaderValue)>)
    ensures
        list@.len() == header_entries(*map).len(),
        forall|i: int|
            0 <= i < list@.len() ==> (#[trigger] list@[i]).0@ == header_entries(*map)[i].0
                && header_bytes(list@[i].1) == header_entries(*map)[i].1,
{
    map.iter().map(|(name, value)| (name.as_str().to_string(), value.clone())).collect()
}

/// Whether a text can be a header name as the map writes it: letters in lower case and dashes.
pub open spec fn is_plain_name(name: Seq<char>) -> bool {
    forall|i: int| 0 <= i < name.len() ==> 'a' <= #[trigger] name[i] <= 'z' || name[i] == '-'
}

/// The first value that stands with `name` in a list of entries.
pub open spec fn first_value(entries: Seq<(Seq<char>, Seq<u8>)>, name: Seq<char>) -> Option<Seq<u8>>
    decreases entries.len(),
{
    if entries.len() == 0 {
        None
    } else if entries[0].0 == name {
        Some(entries[0].1)
    } else {
        first_value(entries.drop_first(), name)
    }
}

/// `http::HeaderMap::get`: the first value of the header `name`, nothing where the map has no
/// such header.
#[verifier::external_body]
pub(crate) fn header_get<'a>(map: &'a HeaderMap, name: &str) -> (value: Option<&'a HeaderValue>)
    requires
        is_plain_name(name@),
    ensures
        value is Some <==> first_value(header_entries(*map), name@) is Some,
        value matches Some(v) ==> first_value(header_entries(*map), name@) == Some(
            header_bytes(*v),
        ),
{
    map.get(name)
}

/// The header names of a list of pairs, each with the last value that stands with it.
pub open spec fn last_values(pairs: Seq<(Seq<char>, Seq<char>)>) -> Map<Seq<char>, Seq<char>>
    decreases pairs.len(),
{
    if pairs.len() == 0 {
        Map::empty()
    } else {
        last_values(pairs.drop_last()).insert(pairs.last().0, pairs.last().1)
    }
}

/// `genai::Headers::from` on a list of pairs: one value for each name, a later pair overriding an
/// earlier one.
#[verifier::external_body]
pub(crate) fn headers_from_pairs(pairs: Vec<(String, String)>) -> (headers: genai::Headers)
    ensures
        headers_map(headers) == last_values(pairs.deep_view()),
{
    genai::Headers::from(pairs)
}

} // verus!
