use schoolcbb::forms::{
    new_school_body, school_can_create, school_edit_values, school_update_body,
    corporation_can_create, new_corporation_body, row_is_open, toggle_open_row,
    cleared_employee_form, employee_can_create, employee_form_keys, employee_search_reloads,
    new_employee_form,
    blank_form, corporation_form_keys, corporation_row, course_endpoint, course_form_keys,
    course_payload, form_from_record, form_payload, legal_rep_can_save, legal_rep_form_keys,
    grade_level_payload, grade_level_row, grade_level_update_id, legal_rep_payload, plan_display,
    RecordForm,
};
use schoolcbb::json::Json;

fn s(t: &str) -> Json {
    Json::Str(t.to_string())
}

fn obj(members: Vec<(&str, Json)>) -> Json {
    Json::Object(members.into_iter().map(|(k, v)| (k.to_string(), v)).collect())
}

fn keys_of(v: &Json) -> Vec<String> {
    match v {
        Json::Object(ms) => ms.iter().map(|(k, _)| k.clone()).collect(),
        _ => vec![],
    }
}

fn text_at(v: &Json, key: &str) -> Option<String> {
    match v {
        Json::Object(ms) => ms.iter().find(|(k, _)| k == key).and_then(|(_, v)| match v {
            Json::Str(t) => Some(t.clone()),
            _ => None,
        }),
        _ => None,
    }
}

#[test]
fn blank_forms_edit_nothing() {
    let f = blank_form(5);
    assert_eq!(f.values, vec![String::new(); 5]);
    assert!(f.editing.is_none());
}

#[test]
fn loaded_corporation_saves_its_fields() {
    let corp = obj(vec![
        ("id", s("c1")),
        ("name", s("Fundación Sol")),
        ("rut", s("76.000.000-1")),
        ("legal_representative_email", s("rep@sol.cl")),
        ("active", Json::Bool(false)),
    ]);
    let keys = corporation_form_keys();
    let form = form_from_record(&corp, &keys);
    assert_eq!(form.editing.as_deref(), Some("c1"));
    let body = form_payload(&keys, &form);
    assert_eq!(keys_of(&body), keys);
    for k in &keys {
        let expected = text_at(&corp, k).unwrap_or_default();
        assert_eq!(text_at(&body, k), Some(expected));
    }
    let no_id = form_from_record(&obj(vec![("id", Json::Number("3".to_string()))]), &keys);
    assert!(no_id.editing.is_none());
}

#[test]
fn legal_representative_form() {
    let keys = legal_rep_form_keys();
    assert_eq!(keys, vec!["rut", "first_name", "last_name", "email", "phone", "address"]);
    let rep = obj(vec![("id", s("r9")), ("rut", s("  ")), ("first_name", s("Eva"))]);
    let form = form_from_record(&rep, &keys);
    assert!(!legal_rep_can_save(&form, false));
    let mut filled = form;
    filled.values[0] = " 1-9 ".to_string();
    assert!(legal_rep_can_save(&filled, false));
    assert!(!legal_rep_can_save(&filled, true));
    let body = legal_rep_payload("c1", &filled);
    assert_eq!(keys_of(&body), vec!["corporation_id", "rut", "first_name", "last_name", "email", "phone", "address"]);
    assert_eq!(text_at(&body, "corporation_id").as_deref(), Some("c1"));
    assert_eq!(text_at(&body, "first_name").as_deref(), Some("Eva"));
}

#[test]
fn course_form_saves_the_plan_only_for_upper_levels() {
    let keys = course_form_keys();
    let course = obj(vec![
        ("id", s("k7")),
        ("name", s("3° A")),
        ("grade_level", s("3° Medio")),
        ("plan", s("Humanista")),
        ("section", s("A")),
    ]);
    let form = form_from_record(&course, &keys);
    let body = course_payload(&form);
    assert_eq!(keys_of(&body), vec!["name", "subject", "grade_level", "section", "teacher_id", "plan"]);
    assert_eq!(text_at(&body, "plan").as_deref(), Some("Humanista"));
    assert_eq!(course_endpoint(&form), "/api/courses/k7");
    let mut lower = form_from_record(&course, &keys);
    lower.values[2] = "2° Medio".to_string();
    assert_eq!(keys_of(&course_payload(&lower)), vec!["name", "subject", "grade_level", "section", "teacher_id"]);
    let mut no_plan = form_from_record(&course, &keys);
    no_plan.values[3] = String::new();
    assert!(text_at(&course_payload(&no_plan), "plan").is_none());
    let fresh = RecordForm { values: vec![String::new(); 6], editing: None };
    assert_eq!(course_endpoint(&fresh), "/api/courses");
    assert_eq!(plan_display(&course), "Humanista");
    assert_eq!(plan_display(&Json::Null), "-");
}

#[test]
fn corporation_rows() {
    let row = corporation_row(&obj(vec![
        ("id", s("c1")),
        ("name", s("Fundación Sol")),
        ("total_schools", Json::Number("3".to_string())),
    ]));
    assert_eq!(row.rut, "-");
    assert_eq!(row.plan, "-");
    assert!(row.active);
    assert_eq!(row.toggle_label, "Deshabilitar");
    assert_eq!((row.schools, row.students), (3, 0));
    let off = corporation_row(&obj(vec![("active", Json::Bool(false)), ("plan_name", s("Pro"))]));
    assert_eq!(off.toggle_label, "Habilitar");
    assert_eq!(off.plan, "Pro");
}

#[test]
fn grade_levels() {
    let body = grade_level_payload("3M", "3° Medio", "", -2);
    assert_eq!(keys_of(&body), vec!["code", "name", "plan", "sort_order"]);
    match &body {
        Json::Object(ms) => {
            assert!(matches!(ms[2].1, Json::Null));
            assert!(matches!(&ms[3].1, Json::Number(t) if t == "-2"));
        }
        _ => panic!("not an object"),
    }
    assert_eq!(text_at(&grade_level_payload("3M", "3° Medio", "HC", 3), "plan").as_deref(), Some("HC"));
    assert_eq!(grade_level_update_id("g-12"), "g-12");
    assert_eq!(grade_level_update_id("x/api/academic/grade-levels/y"), "xy");
    let row = grade_level_row(&obj(vec![("code", s("1B")), ("sort_order", Json::Number("4294967297".to_string()))]));
    assert_eq!((row.code.as_str(), row.plan.as_str(), row.sort_order), ("1B", "", 1));
}

#[test]
fn employee_form() {
    let keys = employee_form_keys();
    assert_eq!(keys.len(), 8);
    let mut f = new_employee_form();
    assert_eq!(f.values[6], "Docente");
    assert!(!employee_can_create(&f));
    f.values[0] = "1-9".to_string();
    f.values[1] = "Ana".to_string();
    f.values[2] = "  ".to_string();
    assert!(!employee_can_create(&f));
    f.values[2] = "Rojas".to_string();
    f.values[6] = "Asistente".to_string();
    assert!(employee_can_create(&f));
    let body = form_payload(&keys, &f);
    assert_eq!(text_at(&body, "category").as_deref(), Some("Asistente"));
    let cleared = cleared_employee_form(&f);
    assert_eq!(cleared.values[6], "Asistente");
    assert!(cleared.values.iter().enumerate().all(|(i, v)| i == 6 || v.is_empty()));
    assert!(employee_search_reloads(""));
    assert!(!employee_search_reloads("a"));
    assert!(employee_search_reloads("ab"));
    assert!(employee_search_reloads("é"));
}

#[test]
fn corporation_list_rows() {
    let open = toggle_open_row(&None, "c1");
    assert_eq!(open.as_deref(), Some("c1"));
    assert_eq!(toggle_open_row(&open, "c1"), None);
    assert_eq!(toggle_open_row(&open, "c2").as_deref(), Some("c2"));
    let twice = toggle_open_row(&toggle_open_row(&Some("c2".to_string()), "c1"), "c1");
    assert_eq!(twice, None);
    assert!(row_is_open(&Some("c1".to_string()), &obj(vec![("id", s("c1"))])));
    assert!(!row_is_open(&None, &obj(vec![("id", s("c1"))])));
    assert!(row_is_open(&None, &obj(vec![])));
    assert!(!row_is_open(&Some("c1".to_string()), &obj(vec![])));
    assert!(!corporation_can_create("Fundación", " "));
    assert!(corporation_can_create("Fundación", "76.1-1"));
    assert_eq!(keys_of(&new_corporation_body("F", "1-9")), vec!["name", "rut"]);
}

#[test]
fn school_rows() {
    assert!(!school_can_create(" "));
    assert!(school_can_create("Colegio Sol"));
    assert_eq!(keys_of(&new_school_body("c1", "Colegio Sol")), vec!["corporation_id", "name"]);
    let (n, a, p) = school_edit_values(&obj(vec![("name", s("Sol")), ("phone", s("-"))]));
    assert_eq!((n.as_str(), a.as_str(), p.as_str()), ("Sol", "", ""));
    let (_, _, p2) = school_edit_values(&obj(vec![("phone", s("+56 2 1234"))]));
    assert_eq!(p2, "+56 2 1234");
    let body = school_update_body("Sol", "Av. 1", "");
    assert_eq!(keys_of(&body), vec!["name", "address", "phone"]);
    assert_eq!(text_at(&body, "address").as_deref(), Some("Av. 1"));
}
