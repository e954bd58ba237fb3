use schoolcbb::cookie::{has_jwt_token, jwt_from_cookie, session_cookie};

#[test]
fn jwt_from_cookie_reads_first_named_piece() {
    assert_eq!(jwt_from_cookie("x=1; jwt_token=t1; jwt_token=t2").as_deref(), Some("t1"));
    assert_eq!(jwt_from_cookie("jwt_token"), None);
    assert_eq!(jwt_from_cookie(""), None);
    assert_eq!(jwt_from_cookie("\u{3000}jwt_token=z\u{A0}"), Some("z".to_string()));
}

#[test]
fn has_jwt_token_needs_a_non_empty_token() {
    assert!(has_jwt_token("a=b; jwt_token=abc"));
    assert!(!has_jwt_token("jwt_token="));
    assert!(!has_jwt_token("jwt_token=  "));
    assert!(!has_jwt_token("session=1"));
    assert!(has_jwt_token("jwt_token=; jwt_token=x"));
}

#[test]
fn presence_and_extraction_agree() {
    for c in ["jwt_token=a", "b=2; jwt_token=ccc", "jwt_token=", "none", "jwt_token=; jwt_token=x"] {
        if has_jwt_token(c) {
            assert!(jwt_from_cookie(c).is_some());
        }
        if let Some(t) = jwt_from_cookie(c) {
            if !t.is_empty() {
                assert!(has_jwt_token(c));
            }
        }
    }
}

#[test]
fn session_cookie_is_read_back() {
    let c = session_cookie("tok.en-1");
    assert_eq!(c, "jwt_token=tok.en-1; Path=/; SameSite=Lax; Max-Age=43200");
    assert_eq!(jwt_from_cookie(&c).as_deref(), Some("tok.en-1"));
    assert!(has_jwt_token(&c));
    assert!(!has_jwt_token(&session_cookie("")));
}
