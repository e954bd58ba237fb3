use schoolcbb::employees::{
    clock_entry_body, contract_end, document_body, employee_option_label, employee_profile, filled,
    payroll_row,
};
use schoolcbb::json::Json;

fn s(t: &str) -> Json {
    Json::Str(t.to_string())
}

fn obj(members: Vec<(&str, Json)>) -> Json {
    Json::Object(members.into_iter().map(|(k, v)| (k.to_string(), v)).collect())
}

fn keys_of(v: &Json) -> Vec<String> {
    match v {
        Json::Object(ms) => ms.iter().map(|(k, _)| k.clone()).collect(),
        _ => vec![],
    }
}

#[test]
fn employee_profiles() {
    let data = obj(vec![
        ("employee", obj(vec![("first_name", s("Ana")), ("last_name", s("Rojas")), ("rut", s("1-9"))])),
        ("supervisor", obj(vec![("first_name", s("Luis"))])),
    ]);
    let p = employee_profile(&data);
    assert_eq!(p.name, "Ana Rojas");
    assert_eq!(p.rut, "1-9");
    assert_eq!(p.email, "-");
    assert_eq!(p.supervisor, "Luis ");
    let none = employee_profile(&obj(vec![("supervisor", Json::Null)]));
    assert_eq!((none.name.as_str(), none.supervisor.as_str(), none.hire_date.as_str()), (" ", "-", "-"));
    assert_eq!(employee_profile(&Json::Null).supervisor, "-");
}

#[test]
fn clock_entries_and_documents() {
    assert!(!filled("  "));
    assert!(filled("2026-03-01T08:00"));
    assert_eq!(keys_of(&clock_entry_body("e1", "2026-03-01T08:00", "Entrada")), vec!["employee_id", "timestamp", "entry_type"]);
    assert_eq!(keys_of(&document_body("certificado", "cert.pdf")), vec!["doc_type", "file_name"]);
    assert_eq!(contract_end(&obj(vec![("end_date", s("2026-12-31"))])), "2026-12-31");
    assert_eq!(contract_end(&Json::Null), "Indefinido");
}

#[test]
fn payroll_list() {
    let emp = obj(vec![("first_name", s("Ana")), ("last_name", s("Rojas")), ("rut", s("1-9"))]);
    assert_eq!(employee_option_label(&emp), "Ana Rojas - 1-9");
    assert_eq!(employee_option_label(&Json::Null), "  - ");
    let row = payroll_row(&obj(vec![("employee_name", s("Ángela Soto")), ("lre_exported", Json::Bool(true))]));
    assert_eq!((row.avatar.as_str(), row.lre_exported, row.previred_exported), ("Á", true, false));
    assert_eq!(payroll_row(&Json::Null).avatar, "?");
}
