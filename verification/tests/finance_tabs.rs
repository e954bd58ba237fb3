use schoolcbb::finance::{
    default_payment_method, fee_form_ready, fee_row, online_payment_outcome, payment_form_ready,
    payment_row, scholarship_form_ready, scholarship_row, student_search_asks, OnlinePayment,
};
use schoolcbb::json::Json;

fn s(t: &str) -> Json {
    Json::Str(t.to_string())
}

fn obj(members: Vec<(&str, Json)>) -> Json {
    Json::Object(members.into_iter().map(|(k, v)| (k.to_string(), v)).collect())
}

#[test]
fn forms_ready() {
    assert!(!student_search_asks("a"));
    assert!(student_search_asks("ab"));
    assert!(student_search_asks("é"));
    assert!(fee_form_ready(true, "Matrícula", "1000"));
    assert!(!fee_form_ready(false, "Matrícula", "1000"));
    assert!(!fee_form_ready(true, "", "1000"));
    assert!(!payment_form_ready(true, ""));
    assert!(payment_form_ready(true, "5"));
    assert!(!scholarship_form_ready(true, "Beca", ""));
    assert!(scholarship_form_ready(true, "Beca", "50"));
    assert_eq!(default_payment_method(), "Efectivo");
}

#[test]
fn rows() {
    let f = fee_row(&obj(vec![("id", s("f1")), ("paid", Json::Bool(true)), ("due_date", s("2026-03-10"))]));
    assert_eq!((f.id.as_str(), f.student.as_str(), f.due.as_str(), f.paid), ("f1", "-", "2026-03-10", true));
    let p = payment_row(&obj(vec![("payment_method", s("Transferencia"))]));
    assert_eq!((p.student.as_str(), p.method.as_str(), p.reference.as_str()), ("-", "Transferencia", "-"));
    let b = scholarship_row(&obj(vec![("name", s("Beca Deportiva")), ("student_id", s("s9"))]));
    assert_eq!((b.name.as_str(), b.student.as_str(), b.approved), ("Beca Deportiva", "s9", false));
}

#[test]
fn online_payments() {
    assert!(matches!(online_payment_outcome(&Ok(obj(vec![("url", s("https://pago.cl/x"))]))), OnlinePayment::Redirect(u) if u == "https://pago.cl/x"));
    assert!(matches!(online_payment_outcome(&Ok(Json::Null)), OnlinePayment::Stay));
    assert!(matches!(online_payment_outcome(&Err("HTTP 500".to_string())), OnlinePayment::Alert(m) if m == "Error: HTTP 500"));
}
