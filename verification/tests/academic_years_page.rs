use schoolcbb::academic_years::{academic_year_body, copy_message, year_copy_body, year_row};
use schoolcbb::json::Json;

fn s(t: &str) -> Json {
    Json::Str(t.to_string())
}

fn obj(members: Vec<(&str, Json)>) -> Json {
    Json::Object(members.into_iter().map(|(k, v)| (k.to_string(), v)).collect())
}

#[test]
fn year_bodies() {
    match academic_year_body(2026, "Año 2026", true) {
        Json::Object(ms) => {
            let keys: Vec<&str> = ms.iter().map(|(k, _)| k.as_str()).collect();
            assert_eq!(keys, vec!["year", "name", "is_active"]);
            assert!(matches!(&ms[0].1, Json::Number(t) if t == "2026"));
            assert!(matches!(&ms[1].1, Json::Str(t) if t == "Año 2026"));
            assert!(matches!(ms[2].1, Json::Bool(true)));
        }
        _ => panic!("not an object"),
    }
    match year_copy_body(2025, -1) {
        Json::Object(ms) => {
            assert_eq!(ms[0].0, "from_year");
            assert!(matches!(&ms[0].1, Json::Number(t) if t == "2025"));
            assert!(matches!(&ms[1].1, Json::Number(t) if t == "-1"));
        }
        _ => panic!("not an object"),
    }
}

#[test]
fn copy_messages() {
    assert_eq!(copy_message(&Ok(obj(vec![("message", s("Copiado: 12 cursos"))]))), "Copiado: 12 cursos");
    assert_eq!(copy_message(&Ok(Json::Null)), "OK");
    assert_eq!(copy_message(&Err("HTTP 500".to_string())), "Error: HTTP 500");
}

#[test]
fn year_rows() {
    let row = year_row(&obj(vec![("id", s("y1")), ("year", Json::Number("2026".to_string())), ("is_active", Json::Bool(true))]));
    assert_eq!((row.id.as_str(), row.year, row.name.as_str(), row.active), ("y1", 2026, "", true));
    let bare = year_row(&Json::Null);
    assert_eq!((bare.year, bare.active), (0, false));
}
