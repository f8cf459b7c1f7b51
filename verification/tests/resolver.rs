use genai::adapter::AdapterKind;
use genai_bridge::protocol::Provider;
use genai_bridge::resolver::{build_extra_headers, client_settings, resolve_auth_key};
use http::{HeaderMap, HeaderName, HeaderValue};

fn headers(pairs: &[(&'static str, &str)]) -> HeaderMap {
    let mut map = HeaderMap::new();
    for (name, value) in pairs {
        let value = HeaderValue::from_bytes(value.as_bytes()).unwrap();
        map.append(HeaderName::from_bytes(name.as_bytes()).unwrap(), value);
    }
    map
}

fn sorted(headers: genai::Headers) -> Vec<(String, String)> {
    let mut pairs: Vec<(String, String)> = headers.into_iter().collect();
    pairs.sort();
    pairs
}

fn pair(name: &str, value: &str) -> (String, String) {
    (name.to_string(), value.to_string())
}

fn provider(pairs: &[(&'static str, &str)]) -> Provider {
    Provider { base_url: "https://example.com/v1/".into(), headers: headers(pairs) }
}

#[test]
fn authorization_header_is_the_key() {
    let map = headers(&[("Authorization", "Bearer abc"), ("api-key", "xyz")]);
    assert_eq!(resolve_auth_key(&map), Some("Bearer abc".into()));
}

#[test]
fn api_key_becomes_a_bearer_token() {
    let map = headers(&[("api-key", "xyz"), ("api-key", "second")]);
    assert_eq!(resolve_auth_key(&map), Some("Bearer xyz".into()));
}

#[test]
fn authorization_that_is_no_text_is_passed_over() {
    let map = headers(&[("authorization", "Bearer \u{e9}"), ("api-key", "xyz")]);
    assert_eq!(resolve_auth_key(&map), Some("Bearer xyz".into()));
}

#[test]
fn no_key() {
    assert_eq!(resolve_auth_key(&HeaderMap::new()), None);
    assert_eq!(resolve_auth_key(&headers(&[("api-key", "\u{e9}")])), None);
    assert_eq!(resolve_auth_key(&headers(&[("x-other", "1")])), None);
}

#[test]
fn settings_of_a_client() {
    let settings =
        client_settings(&provider(&[]), &headers(&[("api-key", "k")]), AdapterKind::DeepSeek);
    assert_eq!(settings.adapter_kind, AdapterKind::DeepSeek);
    assert_eq!(settings.base_url, "https://example.com/v1/");
    assert_eq!(settings.auth_key, Some("Bearer k".into()));
}

#[test]
fn later_headers_override_earlier_ones() {
    let made = build_extra_headers(
        &provider(&[("a", "provider"), ("b", "provider"), ("c", "provider")]),
        &headers(&[("b", "auth"), ("c", "auth"), ("d", "auth")]),
        &headers(&[("C", "extra"), ("e", "one"), ("e", "two")]),
    );
    assert_eq!(
        sorted(made),
        vec![
            pair("a", "provider"),
            pair("b", "auth"),
            pair("c", "extra"),
            pair("d", "auth"),
            pair("e", "two"),
        ]
    );
}

#[test]
fn headers_that_are_no_text_are_left_out() {
    let made = build_extra_headers(
        &provider(&[("a", "tab\there")]),
        &headers(&[("a", "\u{e9}")]),
        &headers(&[("b", "\u{e9}")]),
    );
    assert_eq!(sorted(made), vec![pair("a", "tab\there")]);
}
