use schoolcbb::json::Json;
use schoolcbb::portal::{
    classroom_body, enabled_module_count, global_admin_body, rep_offers_admin, school_count, message_body, message_can_send, message_row,
    owner_profile, school_admin_body, school_admin_can_create,
};

fn s(t: &str) -> Json {
    Json::Str(t.to_string())
}

fn obj(members: Vec<(&str, Json)>) -> Json {
    Json::Object(members.into_iter().map(|(k, v)| (k.to_string(), v)).collect())
}

fn text_at<'a>(v: &'a Json, key: &str) -> Option<&'a Json> {
    match v {
        Json::Object(ms) => ms.iter().find(|(k, _)| k == key).map(|(_, v)| v),
        _ => None,
    }
}

#[test]
fn owner_profiles() {
    let p = owner_profile(&obj(vec![("user", obj(vec![("name", s("Rosa")), ("school_id", s("k1")), ("corporation_id", s(""))]))]));
    assert_eq!(p.name, "Rosa");
    assert_eq!(p.school_id.as_deref(), Some("k1"));
    assert!(p.corporation_id.is_none());
    assert!(p.is_individual);
    let flat = owner_profile(&obj(vec![("user", s("x")), ("corporation_id", s("c1")), ("school_id", s("k1"))]));
    assert_eq!(flat.name, "Usuario");
    assert!(!flat.is_individual);
    let none = owner_profile(&Json::Null);
    assert!(!none.is_individual && none.role.is_empty());
}

#[test]
fn license_module_count() {
    let data = obj(vec![(
        "modules",
        Json::Array(vec![obj(vec![("included", Json::Bool(true))]), obj(vec![("included", Json::Bool(false))]), obj(vec![("included", Json::Bool(true))]), Json::Null]),
    )]);
    assert_eq!(enabled_module_count(&data), 2);
    assert_eq!(enabled_module_count(&Json::Null), 0);
}

#[test]
fn school_admin_registration() {
    assert!(!school_admin_can_create("Ana", "  "));
    assert!(school_admin_can_create("Ana", "1-9"));
    let body = school_admin_body("Ana", "ana@sol.cl", "1-9", "k1");
    assert!(matches!(text_at(&body, "password"), Some(Json::Str(p)) if p == "1-9"));
    assert!(matches!(text_at(&body, "role"), Some(Json::Str(r)) if r == "Administrador"));
    assert!(matches!(text_at(&body, "admin_type"), Some(Json::Str(t)) if t == "school"));
    assert!(matches!(text_at(&body, "school_id"), Some(Json::Str(t)) if t == "k1"));
}

#[test]
fn messages_and_classrooms() {
    let unread = message_row(&obj(vec![("read", Json::Bool(false))]));
    assert_eq!((unread.subject.as_str(), unread.read, unread.row_class.as_str()), ("Sin asunto", false, "unread"));
    let read = message_row(&obj(vec![("subject", s("Reunión")), ("created_at", s("2026-03-01"))]));
    assert_eq!((read.subject.as_str(), read.read, read.row_class.as_str(), read.created.as_str()), ("Reunión", true, "", "2026-03-01"));
    assert!(!message_can_send("", "hola"));
    assert!(message_can_send(" ", " "));
    assert!(matches!(text_at(&message_body("u1", "A", "B"), "receiver_id"), Some(Json::Str(r)) if r == "u1"));
    let room = classroom_body("Sala 101", 30, "");
    assert!(matches!(text_at(&room, "capacity"), Some(Json::Number(n)) if n == "30"));
    assert!(matches!(text_at(&room, "location"), Some(Json::Null)));
    assert!(matches!(text_at(&classroom_body("S", 1, "Piso 2"), "location"), Some(Json::Str(l)) if l == "Piso 2"));
}

#[test]
fn legal_representative_accounts() {
    let rep = obj(vec![("rut", s("1-9")), ("first_name", s("Eva")), ("last_name", s("Paz")), ("email", s("eva@x.cl"))]);
    assert!(rep_offers_admin(&rep));
    assert!(rep_offers_admin(&obj(vec![])));
    assert!(!rep_offers_admin(&obj(vec![("email", s(""))])));
    assert!(!rep_offers_admin(&obj(vec![("active", Json::Bool(false))])));
    let body = global_admin_body(&rep, "c1");
    assert!(matches!(text_at(&body, "password"), Some(Json::Str(p)) if p == "1-9"));
    assert!(matches!(text_at(&body, "name"), Some(Json::Str(n)) if n == "Eva Paz"));
    assert!(matches!(text_at(&body, "admin_type"), Some(Json::Str(t)) if t == "global"));
    let bare = global_admin_body(&obj(vec![]), "c1");
    assert!(matches!(text_at(&bare, "rut"), Some(Json::Null)));
    assert!(matches!(text_at(&bare, "password"), Some(Json::Str(p)) if p.is_empty()));
    assert_eq!(school_count(&obj(vec![("schools", Json::Array(vec![Json::Null, Json::Null]))])), 2);
    assert_eq!(school_count(&Json::Null), 0);
}
