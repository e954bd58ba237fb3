use schoolcbb::attendance::{
    attendance_class, attendance_row, attendance_summary, course_info, course_results_shown,
    course_search_url, iso_date, status_badge,
};
use schoolcbb::client::parse_i32_text;
use schoolcbb::json::{int_field_or, Json};
use schoolcbb::text::zero_padded_i64;

fn s(t: &str) -> Json {
    Json::Str(t.to_string())
}

fn n(t: &str) -> Json {
    Json::Number(t.to_string())
}

fn obj(members: Vec<(&str, Json)>) -> Json {
    Json::Object(members.into_iter().map(|(k, v)| (k.to_string(), v)).collect())
}

#[test]
fn attendance_thresholds() {
    assert_eq!(attendance_class(74, 100), "pct-danger");
    assert_eq!(attendance_class(3, 4), "pct-warning");
    assert_eq!(attendance_class(84, 100), "pct-warning");
    assert_eq!(attendance_class(17, 20), "pct-good");
    assert_eq!(attendance_class(20, 20), "pct-good");
    assert_eq!(attendance_class(0, 0), "pct-good");
    assert_eq!(attendance_class(-1, 10), "pct-danger");
    assert_eq!(attendance_class(i64::MAX, i64::MAX), "pct-good");
}

#[test]
fn record_badges() {
    assert_eq!(status_badge("presente"), "badge badge-success");
    assert_eq!(status_badge("Ausente"), "badge badge-warning");
    assert_eq!(status_badge("atraso"), "badge badge-info");
    assert_eq!(status_badge("justificado"), "");
}

#[test]
fn summary_and_rows() {
    let report = obj(vec![(
        "summary",
        obj(vec![("total_students", n("30")), ("below_general_threshold", n("4")), ("below_nee_threshold", s("2"))]),
    )]);
    assert_eq!(attendance_summary(&report), (30, 4, 0));
    assert_eq!(attendance_summary(&obj(vec![("summary", n("3"))])), (0, 0, 0));
    assert_eq!(attendance_summary(&Json::Null), (0, 0, 0));
    let student = obj(vec![
        ("student_name", s("Ana Rojas")),
        ("total_days", n("20")),
        ("present", n("14")),
        ("absent", n("6")),
        ("late", n("1.5")),
    ]);
    let row = attendance_row(&student);
    assert_eq!(row.name, "Ana Rojas");
    assert_eq!(row.rut, "-");
    assert_eq!((row.total_days, row.present, row.absent, row.late, row.justified), (20, 14, 6, 0, 0));
    assert_eq!(row.class, "pct-danger");
}

#[test]
fn numbers_read_as_integers() {
    let v = obj(vec![
        ("a", n("-42")),
        ("b", n("9223372036854775807")),
        ("c", n("9223372036854775808")),
        ("d", n("-9223372036854775808")),
        ("e", n("1e3")),
        ("f", n("-")),
        ("g", s("7")),
    ]);
    assert_eq!(int_field_or(&v, "a", 0), -42);
    assert_eq!(int_field_or(&v, "b", 0), i64::MAX);
    assert_eq!(int_field_or(&v, "c", 5), 5);
    assert_eq!(int_field_or(&v, "d", 0), i64::MIN);
    assert_eq!(int_field_or(&v, "e", 1), 1);
    assert_eq!(int_field_or(&v, "f", 2), 2);
    assert_eq!(int_field_or(&v, "g", 3), 3);
    assert_eq!(int_field_or(&v, "h", 4), 4);
    assert_eq!(n("12").as_i64(), Some(12));
}

#[test]
fn course_search() {
    assert_eq!(course_search_url("3 medio A"), "/api/courses?search=3%20medio%20A");
    assert_eq!(course_search_url(""), "/api/courses?search=");
    assert!(course_results_shown("3m", 2));
    assert!(!course_results_shown("3", 2));
    assert!(course_results_shown("ñ", 1));
    assert!(!course_results_shown("3m", 0));
    let c = obj(vec![("grade_level", s("1° Medio")), ("section", s("B"))]);
    assert_eq!(course_info(&c), "1° Medio - B");
    assert_eq!(course_info(&Json::Null), " - ");
}

#[test]
fn dates_and_years() {
    assert_eq!(iso_date(2026, 5, 7), "2026-05-07");
    assert_eq!(iso_date(987, 12, 31), "0987-12-31");
    assert_eq!(iso_date(-5, 1, 1), "-005-01-01");
    assert_eq!(zero_padded_i64(123456, 2), "123456");
    assert_eq!(zero_padded_i64(i64::MIN, 1), "-9223372036854775808");
    assert_eq!(parse_i32_text("2026"), Some(2026));
    assert_eq!(parse_i32_text("+7"), Some(7));
    assert_eq!(parse_i32_text("-2147483648"), Some(i32::MIN));
    assert_eq!(parse_i32_text("2147483648"), None);
    assert_eq!(parse_i32_text("-"), None);
    assert_eq!(parse_i32_text("20x6"), None);
    assert_eq!(parse_i32_text(""), None);
    for t in ["0", "-0", "+12", "99999999999", "12a", " 1"] {
        assert_eq!(parse_i32_text(t), t.parse::<i32>().ok());
    }
}
