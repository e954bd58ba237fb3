use axum::http::HeaderMap;

use schoolcbb::headers::{authorization_text, extract_jwt_from_cookie};

#[test]
fn test_extract_jwt_from_cookie_returns_none_for_empty_headers() {
    let headers = HeaderMap::new();
    assert!(extract_jwt_from_cookie(&headers).is_none());
}

#[test]
fn test_extract_jwt_from_cookie_returns_none_for_no_cookie_header() {
    let mut headers = HeaderMap::new();
    headers.insert("content-type", "application/json".parse().unwrap());
    assert!(extract_jwt_from_cookie(&headers).is_none());
}

#[test]
fn test_extract_jwt_from_cookie_returns_token_when_present() {
    let mut headers = HeaderMap::new();
    headers.insert(
        "cookie",
        "jwt_token=eyJhbGciOiJIUzI1NiJ9.eyJzdWIiOiIxMjM0NTY3ODkwIn0.dummy; other=val"
            .parse()
            .unwrap(),
    );
    let token = extract_jwt_from_cookie(&headers);
    assert_eq!(
        token.as_deref(),
        Some("eyJhbGciOiJIUzI1NiJ9.eyJzdWIiOiIxMjM0NTY3ODkwIn0.dummy")
    );
}

#[test]
fn test_extract_jwt_from_cookie_returns_none_for_wrong_cookie_name() {
    let mut headers = HeaderMap::new();
    headers.insert("cookie", "session_id=abc123".parse().unwrap());
    assert!(extract_jwt_from_cookie(&headers).is_none());
}

#[test]
fn cookie_header_token_after_other_pieces_and_spaces() {
    let mut headers = HeaderMap::new();
    headers.insert("cookie", "a=1;   jwt_token=abc  ; jwt_token=def".parse().unwrap());
    assert_eq!(extract_jwt_from_cookie(&headers).as_deref(), Some("abc"));
}

#[test]
fn cookie_header_name_is_case_insensitive_in_the_map() {
    let mut headers = HeaderMap::new();
    headers.insert("Cookie", "jwt_token=xyz".parse().unwrap());
    assert_eq!(extract_jwt_from_cookie(&headers).as_deref(), Some("xyz"));
}

#[test]
fn cookie_header_first_value_is_read() {
    let mut headers = HeaderMap::new();
    headers.append("cookie", "other=1".parse().unwrap());
    headers.append("cookie", "jwt_token=second".parse().unwrap());
    assert!(extract_jwt_from_cookie(&headers).is_none());
}

#[test]
fn cookie_header_with_non_ascii_bytes_is_not_read() {
    let mut headers = HeaderMap::new();
    let value = axum::http::HeaderValue::from_bytes(b"jwt_token=\xc3\xb1").unwrap();
    headers.insert("cookie", value);
    assert!(extract_jwt_from_cookie(&headers).is_none());
}

#[test]
fn cookie_header_with_empty_token_gives_empty_text() {
    let mut headers = HeaderMap::new();
    headers.insert("cookie", "jwt_token=".parse().unwrap());
    assert_eq!(extract_jwt_from_cookie(&headers).as_deref(), Some(""));
}

#[test]
fn authorization_header_is_passed_on() {
    let mut headers = HeaderMap::new();
    headers.insert("Authorization", "Bearer abc.def".parse().unwrap());
    assert_eq!(authorization_text(&headers).as_deref(), Some("Bearer abc.def"));
    assert!(authorization_text(&HeaderMap::new()).is_none());
}
