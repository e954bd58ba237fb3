use schoolcbb::complaints::{complainant_label, complaint_body, complaint_can_submit, complaint_status};
use schoolcbb::json::Json;

fn s(t: &str) -> Json {
    Json::Str(t.to_string())
}

fn obj(members: Vec<(&str, Json)>) -> Json {
    Json::Object(members.into_iter().map(|(k, v)| (k.to_string(), v)).collect())
}

#[test]
fn anonymous_complaints_carry_no_name() {
    let body = complaint_body(true, "Ana", "ana@x.cl", "1-9", "Acoso Laboral", "Hechos");
    match &body {
        Json::Object(ms) => {
            assert_eq!(ms.len(), 5);
            assert!(matches!(ms[0].1, Json::Null));
            assert!(matches!(ms[1].1, Json::Null));
            assert!(matches!(&ms[4].1, Json::Str(t) if t == "Hechos"));
        }
        _ => panic!("not an object"),
    }
    assert_eq!(complainant_label(&body), "Anonimo");
    let named = complaint_body(false, "Ana", "ana@x.cl", "1-9", "Acoso Laboral", "Hechos");
    assert_eq!(complainant_label(&named), "Ana");
}

#[test]
fn complaint_list_labels() {
    assert_eq!(complainant_label(&obj(vec![])), "Anonimo");
    assert_eq!(complainant_label(&obj(vec![("complainant_name", Json::Number("3".to_string()))])), "");
    assert_eq!(complaint_status(&obj(vec![])), ("Pendiente".to_string(), "status-pending".to_string()));
    assert_eq!(complaint_status(&obj(vec![("status", s("Resuelto"))])).1, "status-active");
    assert_eq!(complaint_status(&obj(vec![("status", s("En curso"))])), ("En curso".to_string(), "status-inactive".to_string()));
    assert!(!complaint_can_submit("  \n"));
    assert!(complaint_can_submit(" x "));
}
