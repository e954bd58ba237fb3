use schoolcbb::gateway::{
    forward_response_header, graphql_query_text, graphql_variables, unavailable_message,
    upstream_url, ws_upstream_url, ProxyError, ServiceUrls,
};
use schoolcbb::json::Json;

fn urls() -> ServiceUrls {
    ServiceUrls {
        identity_url: "http://id:3001".to_string(),
        sis_url: "http://sis:3002".to_string(),
        academic_url: "http://ac:3003".to_string(),
        attendance_url: "http://at:3004".to_string(),
        notifications_url: "http://no:3005".to_string(),
        finance_url: "http://fi:3006".to_string(),
        reporting_url: "http://re:3007".to_string(),
        frontend_url: "http://fe:8080".to_string(),
    }
}

#[test]
fn proxy_target_for_each_service() {
    let u = urls();
    let cases = [
        ("identity", "http://id:3001"),
        ("sis", "http://sis:3002"),
        ("academic", "http://ac:3003"),
        ("attendance", "http://at:3004"),
        ("notifications", "http://no:3005"),
        ("finance", "http://fi:3006"),
        ("reporting", "http://re:3007"),
    ];
    for (service, base) in cases {
        match u.proxy_target(service, "/api/x", None) {
            Ok(t) => assert_eq!(t, format!("{}/api/x", base)),
            Err(_) => panic!("service {} should be known", service),
        }
    }
}

#[test]
fn proxy_target_with_query_and_unknown_service() {
    let u = urls();
    match u.proxy_target("sis", "/api/students", Some("page=2&q=a")) {
        Ok(t) => assert_eq!(t, "http://sis:3002/api/students?page=2&q=a"),
        Err(_) => panic!("sis is known"),
    }
    assert!(matches!(u.proxy_target("frontend", "/", None), Err(ProxyError::UnknownService)));
    assert!(matches!(u.proxy_target("SIS", "/", None), Err(ProxyError::UnknownService)));
    assert_eq!(upstream_url("b", "/p", Some("")), "b/p?");
}

#[test]
fn hop_headers_are_not_forwarded() {
    assert!(!forward_response_header("host"));
    assert!(!forward_response_header("transfer-encoding"));
    assert!(forward_response_header("content-type"));
    assert!(forward_response_header("set-cookie"));
}

#[test]
fn unavailable_message_names_the_service() {
    assert_eq!(unavailable_message("finance"), "Service finance unavailable");
}

#[test]
fn ws_url_follows_the_http_base() {
    assert_eq!(ws_upstream_url("http://localhost:3005"), "ws://localhost:3005/ws");
    assert_eq!(ws_upstream_url("https://notify.example//"), "wss://notify.example/ws");
    assert_eq!(ws_upstream_url("notify"), "notify/ws");
    assert_eq!(ws_upstream_url(""), "/ws");
}

#[test]
fn graphql_body_parts() {
    let vars = Json::Object(vec![("id".to_string(), Json::Number("3".to_string()))]);
    let body = Json::Object(vec![
        ("query".to_string(), Json::Str("{ subjects { id } }".to_string())),
        ("variables".to_string(), vars),
    ]);
    assert_eq!(graphql_query_text(&body), "{ subjects { id } }");
    assert!(matches!(graphql_variables(&body), Some(Json::Object(m)) if m.len() == 1));
    let bare = Json::Object(vec![
        ("query".to_string(), Json::Number("1".to_string())),
        ("variables".to_string(), Json::Array(vec![])),
    ]);
    assert_eq!(graphql_query_text(&bare), "");
    assert!(graphql_variables(&bare).is_none());
    assert_eq!(graphql_query_text(&Json::Null), "");
}
