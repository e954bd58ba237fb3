use schoolcbb::json::Json;
use schoolcbb::reports::{
    cell_text, certificate_of, export_table, final_record_counts, promotion_badge,
    subject_option_label, period_url, promotion_class, sige_attendance_url, sige_export,
    student_report, SigeExport, StudentReport,
};

fn s(t: &str) -> Json {
    Json::Str(t.to_string())
}

fn obj(members: Vec<(&str, Json)>) -> Json {
    Json::Object(members.into_iter().map(|(k, v)| (k.to_string(), v)).collect())
}

#[test]
fn report_kinds() {
    assert!(matches!(student_report("certificate", "s1", 2026), Ok(StudentReport::Certificate { student_id }) if student_id == "s1"));
    assert!(matches!(student_report("concentration", "s1", 2025), Ok(StudentReport::Concentration { year: 2025, .. })));
    assert!(matches!(student_report("otro", "s1", 2025), Err(e) if e == "Tipo no válido"));
    assert!(matches!(sige_export("students", 2026, 5), Ok(SigeExport::Students)));
    assert!(matches!(sige_export("attendance", 2026, 5), Ok(SigeExport::Attendance { year: 2026, month: 5 })));
    assert!(sige_export("", 2026, 5).is_err());
}

#[test]
fn export_tables() {
    let answer = obj(vec![
        ("total", Json::Number("2".to_string())),
        (
            "rows",
            Json::Array(vec![
                obj(vec![("rut", s("1-9")), ("edad", Json::Number("12".to_string())), ("activo", Json::Bool(true)), ("nota", Json::Null)]),
                Json::Null,
                obj(vec![("rut", s("2-7"))]),
            ]),
        ),
    ]);
    let t = export_table(&answer);
    assert_eq!(t.total, 2);
    assert_eq!(t.header, vec!["rut", "edad", "activo", "nota"]);
    assert_eq!(t.rows, vec![vec!["1-9".to_string(), "12".to_string(), "true".to_string(), String::new()], vec![], vec!["2-7".to_string()]]);
    let empty = export_table(&Json::Null);
    assert_eq!((empty.total, empty.header.len(), empty.rows.len()), (0, 0, 0));
    assert_eq!(cell_text(&Json::Bool(false)), "false");
    assert_eq!(cell_text(&Json::Array(vec![])), "");
}

#[test]
fn report_addresses() {
    assert_eq!(period_url("/api/hr/payroll", 5, 2026), "/api/hr/payroll?month=5&year=2026");
    assert_eq!(period_url("/api/hr/payroll/export/lre", 12, 2025), "/api/hr/payroll/export/lre?month=12&year=2025");
    assert_eq!(sige_attendance_url(2026, 3), "/api/reports/sige/attendance/2026/3");
    assert_eq!(promotion_class("Reprobado"), "grade-bad");
    assert_eq!(promotion_class("Promovido"), "grade-good");
}

#[test]
fn promotion_badges() {
    assert_eq!(promotion_badge(&obj(vec![("final_promotion", s("Promovido"))])), ("Promovido".to_string(), "status-active".to_string()));
    assert_eq!(promotion_badge(&obj(vec![("final_promotion", s("Reprobado"))])).1, "status-inactive");
    assert_eq!(promotion_badge(&Json::Null), ("Pendiente".to_string(), "pct-warning".to_string()));
}

#[test]
fn certificates_records_and_subjects() {
    let data = obj(vec![("certificate", obj(vec![("student_name", s("Ana")), ("year", Json::Number("2026".to_string())), ("issuer_name", s("Dirección"))]))]);
    let c = certificate_of(&data);
    assert_eq!((c.student_name.as_str(), c.year, c.issuer.as_str(), c.rut.as_str()), ("Ana", 2026, "Dirección", ""));
    assert_eq!(certificate_of(&Json::Null).year, 0);
    let rec = obj(vec![("final_record", obj(vec![("summary", obj(vec![("promoted", Json::Number("28".to_string())), ("failed", Json::Number("2".to_string()))]))]))]);
    assert_eq!(final_record_counts(&rec), (28, 2));
    assert_eq!(final_record_counts(&Json::Null), (0, 0));
    assert_eq!(subject_option_label(&obj(vec![("name", s("Lenguaje")), ("code", s("LEN"))])), "Lenguaje (LEN)");
    assert_eq!(subject_option_label(&Json::Null), " ()");
}
