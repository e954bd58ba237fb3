use schoolcbb::dashboard::{activity_rows, alert_row, audit_row, distribution_points, platform_kpis};
use schoolcbb::json::Json;

fn s(t: &str) -> Json {
    Json::Str(t.to_string())
}

fn n(t: &str) -> Json {
    Json::Number(t.to_string())
}

fn obj(members: Vec<(&str, Json)>) -> Json {
    Json::Object(members.into_iter().map(|(k, v)| (k.to_string(), v)).collect())
}

#[test]
fn kpi_counts() {
    let summary = Some(Ok(obj(vec![("total_schools", n("12")), ("expiring_licenses", n("2")), ("total_students", s("9"))])));
    let k = platform_kpis(&summary).expect("summary arrived");
    assert_eq!((k.active_corporations, k.schools, k.students, k.expiring_licenses), (0, 12, 0, 2));
    assert!(platform_kpis(&None).is_none());
    assert!(platform_kpis(&Some(Err("x".to_string()))).is_none());
}

#[test]
fn distribution_chart_points() {
    let data = obj(vec![("distribution", Json::Array(vec![Json::Array(vec![s("Pro"), n("4")]), Json::Array(vec![s("Basic")]), s("x")]))]);
    let pts = distribution_points(&data);
    assert_eq!(pts.len(), 3);
    match &pts[0] {
        Json::Object(ms) => {
            assert_eq!(ms[0].0, "name");
            assert!(matches!(&ms[0].1, Json::Str(t) if t == "Pro"));
            assert!(matches!(&ms[1].1, Json::Number(t) if t == "4"));
        }
        _ => panic!("not an object"),
    }
    match &pts[1] {
        Json::Object(ms) => assert!(matches!(ms[1].1, Json::Null)),
        _ => panic!("not an object"),
    }
    match &pts[2] {
        Json::Object(ms) => assert!(matches!(ms[0].1, Json::Null) && matches!(ms[1].1, Json::Null)),
        _ => panic!("not an object"),
    }
    assert!(distribution_points(&Json::Null).is_empty());
}

#[test]
fn activity_and_alerts() {
    let data = obj(vec![("activity_log", Json::Array(vec![obj(vec![("admin", s("root")), ("action", s("crear"))]), Json::Null]))]);
    let rows = activity_rows(&data);
    assert_eq!(rows.len(), 2);
    assert_eq!((rows[0].admin.as_str(), rows[0].action.as_str(), rows[0].entity.as_str()), ("root", "crear", ""));
    assert_eq!(rows[1].admin, "");
    let a = alert_row(&obj(vec![("total_absences", n("7")), ("severity", s("Alto"))]));
    assert_eq!((a.name.as_str(), a.absences, a.severity.as_str()), ("--", 7, "Alto"));
    let b = alert_row(&Json::Null);
    assert_eq!((b.name.as_str(), b.absences, b.severity.as_str()), ("--", 0, "Bajo"));
}

#[test]
fn audit_entries() {
    let r = audit_row(&obj(vec![("entity_type", s("student")), ("action", s("update")), ("entity_id", s("s1"))]));
    assert_eq!((r.entity_type.as_str(), r.action.as_str(), r.entity_id.as_str(), r.user.as_str()), ("student", "update", "s1", "-"));
}
