use schoolcbb::json::Json;
use schoolcbb::pages::{
    event_type_class, favorite_toggle, home_view, kpi_value_class, module_listed_lower,
    visible_modules, login_form_error, login_outcome, password_login_outcome,
    search_request_url, HomeView, LoginOutcome, PasswordLogin, Route,
};

#[test]
fn guarded_routes() {
    assert!(!Route::Login {}.guarded());
    assert!(!Route::SessionLogin {}.guarded());
    assert!(!Route::Import {}.guarded());
    assert!(!Route::RootDashboard {}.guarded());
    assert!(!Route::StudentDetailPage { student_id: "1".to_string() }.guarded());
    assert!(Route::Dashboard {}.guarded());
    assert!(Route::HrDetail { employee_id: "9".to_string() }.guarded());
    assert!(Route::AdminSystem {}.guarded());
}

#[test]
fn route_titles() {
    assert_eq!(Route::Login {}.title(), Some("Iniciar Sesion"));
    assert_eq!(Route::Curriculum {}.title(), Some("Currículum Nacional"));
    assert_eq!(Route::RootDashboard {}.title(), None);
    assert_eq!(Route::StudentDetailPage { student_id: "1".to_string() }.title(), None);
}

fn prefs(show: Option<bool>) -> Option<Result<Json, String>> {
    let members = match show {
        Some(b) => vec![("show_module_manager".to_string(), Json::Bool(b))],
        None => vec![],
    };
    Some(Ok(Json::Object(members)))
}

#[test]
fn home_view_choices() {
    assert!(matches!(home_view(&None, false), HomeView::Loading));
    assert!(matches!(home_view(&Some(Err("x".to_string())), false), HomeView::Loading));
    assert!(matches!(home_view(&prefs(None), false), HomeView::Modules));
    assert!(matches!(home_view(&prefs(Some(true)), true), HomeView::Modules));
    assert!(matches!(home_view(&prefs(Some(false)), false), HomeView::Redirect));
    assert!(matches!(home_view(&prefs(Some(false)), true), HomeView::Redirecting));
}

#[test]
fn login_outcomes() {
    let ok = Ok(Some(Json::Object(vec![("token".to_string(), Json::Str("abc".to_string()))])));
    match login_outcome(&ok) {
        LoginOutcome::SignIn(c) => assert_eq!(c, "jwt_token=abc; Path=/; SameSite=Lax; Max-Age=43200"),
        _ => panic!("a token signs in"),
    }
    let no_token = Ok(Some(Json::Object(vec![("token".to_string(), Json::Null)])));
    assert!(matches!(login_outcome(&no_token), LoginOutcome::Stay));
    assert!(matches!(login_outcome(&Ok(None)), LoginOutcome::Fail));
    assert!(matches!(login_outcome(&Err("bad".to_string())), LoginOutcome::Fail));
}

#[test]
fn search_urls() {
    assert_eq!(search_request_url("/api/students", ""), None);
    assert_eq!(search_request_url("/api/students", "ana"), Some("/api/students?search=ana".to_string()));
    assert_eq!(search_request_url("/api/x?active=1", "b c"), Some("/api/x?active=1&search=b c".to_string()));
}

#[test]
fn kpi_card_classes() {
    assert_eq!(kpi_value_class(&Some("#66bb6a".to_string())), "kpi-value success");
    assert_eq!(kpi_value_class(&Some("#ffa726".to_string())), "kpi-value warning");
    assert_eq!(kpi_value_class(&Some("#26c6da".to_string())), "kpi-value info");
    assert_eq!(kpi_value_class(&Some("#000000".to_string())), "kpi-value primary");
    assert_eq!(kpi_value_class(&None), "kpi-value primary");
}

#[test]
fn password_login() {
    assert_eq!(login_form_error("", "x").as_deref(), Some("Email y contraseña son obligatorios"));
    assert!(login_form_error("a@b.cl", "x").is_none());
    let tok = Json::Object(vec![("token".to_string(), Json::Null)]);
    assert!(matches!(password_login_outcome(&Ok(tok)), PasswordLogin::Enter));
    let err = Json::Object(vec![("error".to_string(), Json::Str("Usuario bloqueado".to_string()))]);
    assert!(matches!(password_login_outcome(&Ok(err)), PasswordLogin::Error(m) if m == "Usuario bloqueado"));
    assert!(matches!(password_login_outcome(&Ok(Json::Null)), PasswordLogin::Error(m) if m == "Credenciales inválidas"));
    assert!(matches!(password_login_outcome(&Err("sin red".to_string())), PasswordLogin::Error(m) if m == "sin red"));
}

fn names(v: &[Json]) -> Vec<String> {
    v.iter()
        .map(|m| match m {
            Json::Object(ms) => ms.iter().find(|(k, _)| k == "name").map(|(_, v)| match v {
                Json::Str(t) => t.clone(),
                _ => String::new(),
            }).unwrap_or_default(),
            _ => String::new(),
        })
        .collect()
}

#[test]
fn module_grid_search() {
    let module = |n: &str| Json::Object(vec![("name".to_string(), Json::Str(n.to_string()))]);
    let data = Json::Object(vec![(
        "modules".to_string(),
        Json::Array(vec![module("Asistencia"), module("Notas"), module("ASISTENTE SOCIAL"), Json::Null]),
    )]);
    assert_eq!(names(&visible_modules(&data, "asist")), vec!["Asistencia", "ASISTENTE SOCIAL"]);
    assert_eq!(visible_modules(&data, "").len(), 4);
    assert!(visible_modules(&data, "zzz").is_empty());
    assert!(visible_modules(&Json::Null, "").is_empty());
    assert!(module_listed_lower("notas", "ota"));
    assert!(module_listed_lower("notas", ""));
    assert!(!module_listed_lower("notas", "notass"));
}

#[test]
fn favorites_and_agenda_classes() {
    let m = Json::Object(vec![("id".to_string(), Json::Str("m1".to_string())), ("is_favorite".to_string(), Json::Bool(true))]);
    let (url, body) = favorite_toggle(&m);
    assert_eq!(url, "/api/user/favorites/m1");
    match body {
        Json::Object(ms) => {
            assert_eq!(ms[0].0, "module_id");
            assert!(matches!(ms[1].1, Json::Bool(false)));
        }
        _ => panic!("not an object"),
    }
    let evt = Json::Object(vec![("event_type".to_string(), Json::Str("Reunión".to_string()))]);
    assert_eq!(event_type_class(&evt), "event-type-reunión");
    assert_eq!(event_type_class(&Json::Null), "event-type-evento");
}
