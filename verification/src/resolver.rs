//! Where requests are sent, with which credentials and headers.

use genai::adapter::AdapterKind;
use http::{HeaderMap, HeaderValue};
use vstd::prelude::*;
use vstd::string::*;

use crate::headers::{
    ascii_text, first_value, header_bytes, header_entries, header_get, header_list,
    headers_from_pairs, headers_map, is_plain_name, is_visible, last_values, value_text,
};
use crate::protocol::Provider;

verus! {

/// The kind of provider that the `genai` crate adapts to.
#[verifier::external_type_specification]
#[verifier::external_body]
pub struct ExAdapterKind(genai::adapter::AdapterKind);

/// What a chat client is made with.
pub struct ClientSettings {
    pub adapter_kind: AdapterKind,
    /// The endpoint, in place of the adapter's own.
    pub base_url: String,
    /// The key for the endpoint's authorization, where there is one.
    pub auth_key: Option<String>,
}

/// The text of the header `name`; nothing where there is no such header or its value is no text.
pub open spec fn header_text(entries: Seq<(Seq<char>, Seq<u8>)>, name: Seq<char>) -> Option<
    Seq<char>,
> {
    match first_value(entries, name) {
        Some(bytes) => value_text(bytes),
        None => None,
    }
}

/// The key that auth headers give: the `authorization` header as it stands, or else the `api-key`
/// header as a bearer token.
pub open spec fn auth_key(entries: Seq<(Seq<char>, Seq<u8>)>) -> Option<Seq<char>> {
    match header_text(entries, "authorization"@) {
        Some(text) => Some(text),
        None => match header_text(entries, "api-key"@) {
            Some(text) => Some("Bearer "@ + text),
            None => None,
        },
    }
}

/// The headers with a value that is text, in order.
pub open spec fn text_headers(entries: Seq<(Seq<char>, Seq<u8>)>) -> Seq<(Seq<char>, Seq<char>)> {
    entries.filter_map(|entry: (Seq<char>, Seq<u8>)| text_header(entry))
}

/// A header whose value is text.
pub open spec fn text_header(entry: (Seq<char>, Seq<u8>)) -> Option<(Seq<char>, Seq<char>)> {
    match value_text(entry.1) {
        Some(text) => Some((entry.0, text)),
        None => None,
    }
}

/// The headers of a request: those of the provider first, then the auth headers, then the extra
/// headers, a later one overriding an earlier one of the same name. A header whose value is no
/// text is left out.
pub open spec fn request_headers(
    provider: Seq<(Seq<char>, Seq<u8>)>,
    auth: Seq<(Seq<char>, Seq<u8>)>,
    extra: Seq<(Seq<char>, Seq<u8>)>,
) -> Map<Seq<char>, Seq<char>> {
    last_values(text_headers(provider) + text_headers(auth) + text_headers(extra))
}

/// The settings of a chat client with the agent's auth and endpoint routing.
///
/// - Auth: the key that the auth headers give.
/// - Endpoint: overrides the adapter default with the configured `base_url`.
/// - Custom headers are passed per request via `ChatOptions.extra_headers`.
pub fn client_settings(
    api_provider: &Provider,
    auth_headers: &HeaderMap,
    adapter_kind: AdapterKind,
) -> (settings: ClientSettings)
    ensures
        settings.adapter_kind == adapter_kind,
        settings.base_url@ == api_provider.base_url@,
        settings.auth_key.deep_view() == auth_key(header_entries(*auth_headers)),
{
    ClientSettings {
        adapter_kind,
        base_url: api_provider.base_url.clone(),
        auth_key: resolve_auth_key(auth_headers),
    }
}

/// The key that auth headers give.
pub fn resolve_auth_key(auth_headers: &HeaderMap) -> (key: Option<String>)
    ensures
        key.deep_view() == auth_key(header_entries(*auth_headers)),
{
    proof {
        reveal_strlit("authorization");
        reveal_strlit("api-key");
        assert(is_plain_name("authorization"@));
        assert(is_plain_name("api-key"@));
    }
    match get_text(auth_headers, "authorization") {
        Some(text) => Some(text),
        None => match get_text(auth_headers, "api-key") {
            Some(text) => {
                let mut key: String = "Bearer ".to_owned();
                key.append(text.as_str());
                Some(key)
            },
            None => None,
        },
    }
}

/// The text of the header `name`.
fn get_text(headers: &HeaderMap, name: &str) -> (text: Option<String>)
    requires
        is_plain_name(name@),
    ensures
        text.deep_view() == header_text(header_entries(*headers), name@),
{
    match header_get(headers, name) {
        Some(value) => match value.to_str() {
            Ok(text) => Some(text.to_owned()),
            Err(_) => None,
        },
        None => None,
    }
}

/// Builds the chat client's headers from the provider, auth and extra headers.
pub fn build_extra_headers(
    api_provider: &Provider,
    auth_headers: &HeaderMap,
    extra_headers: &HeaderMap,
) -> (headers: genai::Headers)
    ensures
        headers_map(headers) == request_headers(
            header_entries(api_provider.headers),
            header_entries(*auth_headers),
            header_entries(*extra_headers),
        ),
{
    let mut pairs: Vec<(String, String)> = Vec::new();
    push_text_headers(&mut pairs, &api_provider.headers);
    push_text_headers(&mut pairs, auth_headers);
    push_text_headers(&mut pairs, extra_headers);
    proof {
        assert(pairs.deep_view() =~= text_headers(header_entries(api_provider.headers))
            + text_headers(header_entries(*auth_headers)) + text_headers(
            header_entries(*extra_headers),
        ));
    }
    headers_from_pairs(pairs)
}

/// Adds the headers with a value that is text, in order.
fn push_text_headers(pairs: &mut Vec<(String, String)>, headers: &HeaderMap)
    ensures
        final(pairs).deep_view() == old(pairs).deep_view() + text_headers(header_entries(*headers)),
{
    let list: Vec<(String, HeaderValue)> = header_list(headers);
    let ghost before = pairs.deep_view();
    let ghost entries = header_entries(*headers);
    let ghost keep = |entry: (Seq<char>, Seq<u8>)| text_header(entry);
    let mut i: usize = 0;
    proof {
        assert(entries.take(0).filter_map(keep) =~= Seq::empty());
        assert(before + Seq::empty() =~= before);
    }
    while i < list.len()
        invariant
            i <= list@.len(),
            entries == header_entries(*headers),
            list@.len() == entries.len(),
            forall|j: int|
                0 <= j < list@.len() ==> (#[trigger] list@[j]).0@ == entries[j].0
                    && header_bytes(list@[j].1) == entries[j].1,
            keep == (|entry: (Seq<char>, Seq<u8>)| text_header(entry)),
            pairs.deep_view() == before + entries.take(i as int).filter_map(keep),
        decreases list@.len() - i,
    {
        let ghost so_far = pairs.deep_view();
        proof {
            entries.lemma_filter_map_take_succ(keep, i as int);
        }
        if let Ok(text) = list[i].1.to_str() {
            pairs.push((list[i].0.clone(), text.to_owned()));
            proof {
                assert(keep(entries[i as int]) == Some((entries[i as int].0, text@)));
                assert(pairs.deep_view() =~= so_far.push((entries[i as int].0, text@)));
                assert(pairs.deep_view() =~= before + entries.take(i + 1).filter_map(keep));
            }
        } else {
            proof {
                assert(keep(entries[i as int]) is None);
                assert(pairs.deep_view() =~= before + entries.take(i + 1).filter_map(keep));
            }
        }
        i = i + 1;
    }
    proof {
        assert(entries.take(i as int) =~= entries);
    }
}

/// A header of a request has the value that the extra headers give it; or else the value that the
/// auth headers give it; or else the value that the provider gives it.
pub proof fn law_header_precedence(
    provider: Seq<(Seq<char>, Seq<u8>)>,
    auth: Seq<(Seq<char>, Seq<u8>)>,
    extra: Seq<(Seq<char>, Seq<u8>)>,
)
    ensures
        request_headers(provider, auth, extra) == last_values(
            text_headers(provider),
        ).union_prefer_right(last_values(text_headers(auth))).union_prefer_right(
            last_values(text_headers(extra)),
        ),
{
    lemma_last_values_add(text_headers(provider), text_headers(auth));
    lemma_last_values_add(text_headers(provider) + text_headers(auth), text_headers(extra));
}

proof fn lemma_last_values_add(
    a: Seq<(Seq<char>, Seq<char>)>,
    b: Seq<(Seq<char>, Seq<char>)>,
)
    ensures
        last_values(a + b) == last_values(a).union_prefer_right(last_values(b)),
    decreases b.len(),
{
    if b.len() == 0 {
        assert(a + b =~= a);
        assert(last_values(a).union_prefer_right(Map::empty()) =~= last_values(a));
    } else {
        assert((a + b).drop_last() =~= a + b.drop_last());
        assert((a + b).last() == b.last());
        lemma_last_values_add(a, b.drop_last());
        assert(last_values(a + b) =~= last_values(a).union_prefer_right(last_values(b)));
    }
}

/// Whether the header at position `i` is the last one of its name with a value that is text.
pub open spec fn is_last_text(entries: Seq<(Seq<char>, Seq<u8>)>, i: int) -> bool {
    &&& 0 <= i < entries.len()
    &&& is_visible(entries[i].1)
    &&& forall|j: int|
        i < j < entries.len() && is_visible((#[trigger] entries[j]).1) ==> entries[j].0
            != entries[i].0
}

/// Whether a text is made of these bytes, one character for each.
pub open spec fn spells(text: Seq<char>, bytes: Seq<u8>) -> bool {
    &&& text.len() == bytes.len()
    &&& forall|i: int| 0 <= i < bytes.len() ==> #[trigger] text[i] == bytes[i] as char
}

/// With the headers of the provider, the auth headers and the extra headers in one row, the headers
/// of a request have for each name the value of the last header of that name whose value is text,
/// and no header for a name without such a value.
pub proof fn law_header_values(
    provider: Seq<(Seq<char>, Seq<u8>)>,
    auth: Seq<(Seq<char>, Seq<u8>)>,
    extra: Seq<(Seq<char>, Seq<u8>)>,
)
    ensures
        ({
            let row = provider + auth + extra;
            let headers = request_headers(provider, auth, extra);
            &&& forall|i: int| #[trigger]
                is_last_text(row, i) ==> headers.contains_key(row[i].0) && spells(
                    headers[row[i].0],
                    row[i].1,
                )
            &&& forall|name: Seq<char>| #[trigger]
                headers.contains_key(name) ==> exists|i: int|
                    is_last_text(row, i) && (#[trigger] row[i]).0 == name
        }),
{
    let row = provider + auth + extra;
    lemma_text_headers_add(provider, auth);
    lemma_text_headers_add(provider + auth, extra);
    assert(request_headers(provider, auth, extra) == last_values(text_headers(row)));
    lemma_last_texts(row);
}

/// The headers with a value that is text, in two parts.
proof fn lemma_text_headers_add(a: Seq<(Seq<char>, Seq<u8>)>, b: Seq<(Seq<char>, Seq<u8>)>)
    ensures
        text_headers(a + b) == text_headers(a) + text_headers(b),
    decreases b.len(),
{
    if b.len() == 0 {
        assert(a + b =~= a);
        assert(text_headers(a) + Seq::empty() =~= text_headers(a));
    } else {
        assert((a + b).drop_last() =~= a + b.drop_last());
        assert((a + b).last() == b.last());
        lemma_text_headers_add(a, b.drop_last());
        assert(text_headers(a + b) =~= text_headers(a) + text_headers(b));
    }
}

proof fn lemma_last_texts(row: Seq<(Seq<char>, Seq<u8>)>)
    ensures
        ({
            let headers = last_values(text_headers(row));
            &&& forall|i: int| #[trigger]
                is_last_text(row, i) ==> headers.contains_key(row[i].0) && spells(
                    headers[row[i].0],
                    row[i].1,
                )
            &&& forall|name: Seq<char>| #[trigger]
                headers.contains_key(name) ==> exists|i: int|
                    is_last_text(row, i) && (#[trigger] row[i]).0 == name
        }),
    decreases row.len(),
{
    let headers = last_values(text_headers(row));
    if row.len() > 0 {
        let before = row.drop_last();
        let n = row.len() - 1;
        let earlier = last_values(text_headers(before));
        lemma_last_texts(before);
        assert(row.last() == row[n]);
        if is_visible(row[n].1) {
            let pair = (row[n].0, ascii_text(row[n].1));
            assert(text_headers(row) == text_headers(before) + seq![pair]);
            assert(text_headers(row).drop_last() =~= text_headers(before));
            assert(headers == earlier.insert(pair.0, pair.1));
            assert(is_last_text(row, n));
        } else {
            assert(headers == earlier);
        }
        assert forall|i: int| #[trigger] is_last_text(row, i) implies headers.contains_key(row[i].0)
            && spells(headers[row[i].0], row[i].1) by {
            if i < n {
                assert(row[i] == before[i]);
                assert(is_last_text(before, i)) by {
                    assert forall|j: int|
                        i < j < before.len() && is_visible(
                            (#[trigger] before[j]).1,
                        ) implies before[j].0 != before[i].0 by {
                        assert(row[j] == before[j]);
                    }
                }
            }
        }
        assert forall|name: Seq<char>| #[trigger] headers.contains_key(name) implies exists|i: int|
            is_last_text(row, i) && (#[trigger] row[i]).0 == name by {
            if is_visible(row[n].1) && row[n].0 == name {
                assert(is_last_text(row, n) && row[n].0 == name);
            } else {
                assert(earlier.contains_key(name));
                let i = choose|i: int|
                    is_last_text(before, i) && (#[trigger] before[i]).0 == name;
                assert(row[i] == before[i]);
                assert forall|j: int|
                    i < j < row.len() && is_visible((#[trigger] row[j]).1) implies row[j].0
                    != row[i].0 by {
                    if j < n {
                        assert(row[j] == before[j]);
                    }
                }
                assert(is_last_text(row, i) && row[i].0 == name);
            }
        }
    } else {
        assert(headers =~= Map::empty());
    }
}

/// Whether the header at position `i` is the first one of this name; `i` is the number of headers
/// where there is none.
pub open spec fn stands_first(
    entries: Seq<(Seq<char>, Seq<u8>)>,
    name: Seq<char>,
    i: int,
) -> bool {
    &&& 0 <= i <= entries.len()
    &&& i < entries.len() ==> entries[i].0 == name
    &&& forall|j: int| 0 <= j < i ==> (#[trigger] entries[j]).0 != name
}

/// The key is the first `authorization` header as it stands, where there is one and its value is
/// text; or else the first `api-key` header as a bearer token, where there is one and its value is
/// text; or else there is none.
pub proof fn law_auth_key(entries: Seq<(Seq<char>, Seq<u8>)>, i: int, j: int)
    requires
        stands_first(entries, "authorization"@, i),
        stands_first(entries, "api-key"@, j),
    ensures
        ({
            let key = auth_key(entries);
            if i < entries.len() && is_visible(entries[i].1) {
                key matches Some(text) && spells(text, entries[i].1)
            } else if j < entries.len() && is_visible(entries[j].1) {
                &&& key matches Some(text)
                &&& text.len() == 7 + entries[j].1.len()
                &&& text.take(7) == "Bearer "@
                &&& spells(text.skip(7), entries[j].1)
            } else {
                key is None
            }
        }),
{
    lemma_first_value(entries, "authorization"@, i);
    lemma_first_value(entries, "api-key"@, j);
    reveal_strlit("Bearer ");
    if j < entries.len() {
        let text = "Bearer "@ + ascii_text(entries[j].1);
        assert(text.take(7) =~= "Bearer "@);
        assert(text.skip(7) =~= ascii_text(entries[j].1));
    }
}

proof fn lemma_first_value(entries: Seq<(Seq<char>, Seq<u8>)>, name: Seq<char>, i: int)
    requires
        stands_first(entries, name, i),
    ensures
        first_value(entries, name) == (if i < entries.len() {
            Some(entries[i].1)
        } else {
            None
        }),
    decreases entries.len(),
{
    if entries.len() > 0 && i > 0 {
        let rest = entries.drop_first();
        assert(entries[0].0 != name);
        assert forall|j: int| 0 <= j < i - 1 implies (#[trigger] rest[j]).0 != name by {
            assert(rest[j] == entries[j + 1]);
        }
        lemma_first_value(rest, name, i - 1);
    }
}

} // verus!
