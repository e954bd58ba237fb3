use schoolcbb::graphql::{
    bearer_authorization, student_report_from_response, students_from_response,
    subjects_from_response, QueryRoot, ServicesConfig,
};
use schoolcbb::json::Json;

fn s(t: &str) -> Json {
    Json::Str(t.to_string())
}

fn obj(members: Vec<(&str, Json)>) -> Json {
    Json::Object(members.into_iter().map(|(k, v)| (k.to_string(), v)).collect())
}

fn config() -> ServicesConfig {
    ServicesConfig { sis_url: "http://sis:3002".to_string(), academic_url: "http://ac:3003".to_string() }
}

#[test]
fn students_url_encodes_the_search() {
    let c = config();
    assert_eq!(c.students_url(None), "http://sis:3002/api/students");
    assert_eq!(c.students_url(Some("Ana María")), "http://sis:3002/api/students?search=Ana%20Mar%C3%ADa");
}

#[test]
fn subjects_and_report_urls() {
    let c = config();
    assert_eq!(c.subjects_url(), "http://ac:3003/api/grades/subjects");
    assert_eq!(c.student_report_url("s-1", 2025), "http://ac:3003/api/grades/reports/student/s-1/2025");
    assert_eq!(c.student_report_url("x", -7), "http://ac:3003/api/grades/reports/student/x/-7");
    assert_eq!(c.student_report_url("x", 0), "http://ac:3003/api/grades/reports/student/x/0");
    assert_eq!(
        c.student_report_url("x", i32::MIN),
        "http://ac:3003/api/grades/reports/student/x/-2147483648"
    );
}

#[test]
fn bearer_header_value() {
    assert_eq!(bearer_authorization("abc"), "Bearer abc");
}

#[test]
fn students_are_read_field_by_field() {
    let data = obj(vec![(
        "students",
        Json::Array(vec![
            obj(vec![
                ("id", s("1")),
                ("rut", s("11.111.111-1")),
                ("first_name", s("Ana")),
                ("last_name", s("Soto")),
                ("grade_level", s("1° Básico")),
                ("section", s("A")),
            ]),
            obj(vec![("id", Json::Number("2".to_string())), ("first_name", s("Luis"))]),
            Json::Null,
        ]),
    )]);
    let st = students_from_response(&data);
    assert_eq!(st.len(), 3);
    assert_eq!(st[0].rut, "11.111.111-1");
    assert_eq!(st[0].grade_level, "1° Básico");
    assert_eq!(st[1].id, "");
    assert_eq!(st[1].first_name, "Luis");
    assert_eq!(st[2].section, "");
    assert!(students_from_response(&obj(vec![("students", s("none"))])).is_empty());
    assert!(students_from_response(&Json::Null).is_empty());
}

#[test]
fn subjects_are_read_field_by_field() {
    let data = obj(vec![(
        "subjects",
        Json::Array(vec![obj(vec![("id", s("m")), ("code", s("MAT")), ("name", s("Matemática")), ("level", s("1M"))])]),
    )]);
    let sj = subjects_from_response(&data);
    assert_eq!(sj.len(), 1);
    assert_eq!(sj[0].code, "MAT");
    assert_eq!(sj[0].name, "Matemática");
    assert!(subjects_from_response(&obj(vec![])).is_empty());
}

#[test]
fn report_is_read_with_defaults() {
    let r = student_report_from_response(&obj(vec![("student_name", s("Ana")), ("final_promotion", s("Promovida"))]), 2024);
    assert_eq!(r.student_name, "Ana");
    assert_eq!(r.year, 2024);
    assert_eq!(r.final_promotion, "Promovida");
    let empty = student_report_from_response(&Json::Array(vec![]), 1999);
    assert_eq!(empty.student_name, "");
    assert_eq!(empty.final_promotion, "");
    let _root = QueryRoot::default();
}
