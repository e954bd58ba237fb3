use schoolcbb::json::Json;
use schoolcbb::leave::{leave_can_request, leave_request_body, leave_requests_url, leave_row};

fn s(t: &str) -> Json {
    Json::Str(t.to_string())
}

fn obj(members: Vec<(&str, Json)>) -> Json {
    Json::Object(members.into_iter().map(|(k, v)| (k.to_string(), v)).collect())
}

#[test]
fn leave_request_form() {
    assert_eq!(leave_requests_url("e7"), "/api/hr/employees/e7/leave-requests");
    assert!(!leave_can_request("2026-01-05", " "));
    assert!(leave_can_request("2026-01-05", "2026-01-09"));
    match leave_request_body("e7", "Vacaciones", "2026-01-05", "2026-01-09", "") {
        Json::Object(ms) => {
            let keys: Vec<&str> = ms.iter().map(|(k, _)| k.as_str()).collect();
            assert_eq!(keys, vec!["employee_id", "leave_type", "start_date", "end_date", "reason"]);
            assert!(matches!(&ms[1].1, Json::Str(t) if t == "Vacaciones"));
        }
        _ => panic!("not an object"),
    }
}

#[test]
fn leave_rows() {
    let row = leave_row(&obj(vec![("leave_type", s("Permiso")), ("status", s("Aprobado")), ("approved_by", s("Jefa"))]));
    assert_eq!((row.status.as_str(), row.status_class.as_str(), row.approved_by.as_str()), ("Aprobado", "status-active", "Jefa"));
    let rejected = leave_row(&obj(vec![("status", s("Rechazado")), ("approved_by", s(""))]));
    assert_eq!((rejected.status_class.as_str(), rejected.approved_by.as_str()), ("status-inactive", "-"));
    let other = leave_row(&obj(vec![("status", s("En revisión"))]));
    assert_eq!((other.status.as_str(), other.status_class.as_str()), ("Pendiente", "status-pending"));
    let bare = leave_row(&Json::Null);
    assert_eq!((bare.kind.as_str(), bare.status.as_str(), bare.approved_by.as_str()), ("", "Pendiente", "-"));
}
