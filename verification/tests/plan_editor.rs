use schoolcbb::json::Json;
use schoolcbb::plans::{
    client_license, license_row, license_toggle_body, license_toggle_prompt,
    empty_selection, enabled_modules, module_catalog, plan_modules_body, selection_from_plan,
    toggle_module, toggle_sub_module,
};

fn s(t: &str) -> Json {
    Json::Str(t.to_string())
}

fn obj(members: Vec<(&str, Json)>) -> Json {
    Json::Object(members.into_iter().map(|(k, v)| (k.to_string(), v)).collect())
}

fn member<'a>(v: &'a Json, key: &str) -> Option<&'a Json> {
    match v {
        Json::Object(ms) => ms.iter().find(|(k, _)| k == key).map(|(_, v)| v),
        _ => None,
    }
}

#[test]
fn catalog_has_the_plan_modules() {
    let c = module_catalog();
    assert_eq!(c.len(), 25);
    assert_eq!(c[0].key, "dashboard");
    assert!(c[0].subs.is_empty());
    assert_eq!(c[1].name, "Gestión de Alumnos");
    assert_eq!(c[1].subs, vec!["view", "create", "edit", "delete", "import", "export"]);
    assert_eq!(c[24].key, "my-portal");
    for i in 0..c.len() {
        for j in (i + 1)..c.len() {
            assert_ne!(c[i].key, c[j].key);
        }
    }
}

#[test]
fn opening_a_plan_checks_its_modules() {
    let c = module_catalog();
    let plan = obj(vec![(
        "modules",
        Json::Array(vec![
            obj(vec![("module_key", s("students")), ("sub_modules", Json::Array(vec![s("edit"), s("nope"), Json::Null, s("view")]))]),
            obj(vec![("module_key", s("unknown"))]),
            obj(vec![("module_key", s("audit"))]),
            obj(vec![("module_key", Json::Bool(true))]),
        ]),
    )]);
    let sel = selection_from_plan(&c, &plan);
    assert_eq!(sel.modules.len(), 25);
    assert!(sel.modules[1]);
    assert!(sel.modules[23]);
    assert_eq!(sel.modules.iter().filter(|b| **b).count(), 2);
    assert_eq!(sel.sub_modules[1], vec![true, false, true, false, false, false]);
    assert!(sel.sub_modules[23].iter().all(|b| !*b));
    let none = selection_from_plan(&c, &Json::Null);
    assert!(none.modules.iter().all(|b| !*b));
}

#[test]
fn switching_a_module_off_clears_its_sub_modules() {
    let c = module_catalog();
    let mut sel = empty_selection(&c);
    toggle_module(&mut sel, 2);
    toggle_sub_module(&mut sel, 2, 1);
    toggle_sub_module(&mut sel, 2, 99);
    toggle_sub_module(&mut sel, 99, 0);
    assert_eq!(sel.sub_modules[2], vec![false, true, false, false]);
    toggle_module(&mut sel, 2);
    assert!(!sel.modules[2]);
    assert_eq!(sel.sub_modules[2], vec![false, false, false, false]);
}

#[test]
fn saving_writes_checked_modules_in_order() {
    let c = module_catalog();
    let mut sel = empty_selection(&c);
    toggle_module(&mut sel, 6);
    toggle_module(&mut sel, 0);
    toggle_sub_module(&mut sel, 6, 2);
    let list = enabled_modules(&c, &sel);
    assert_eq!(list.len(), 2);
    assert!(matches!(member(&list[0], "module_key"), Some(Json::Str(k)) if k == "dashboard"));
    assert!(member(&list[0], "sub_modules").is_none());
    assert!(matches!(member(&list[1], "module_name"), Some(Json::Str(n)) if n == "Finanzas"));
    match member(&list[1], "sub_modules") {
        Some(Json::Array(subs)) => {
            assert_eq!(subs.len(), 1);
            assert!(matches!(&subs[0], Json::Str(x) if x == "scholarships"));
        }
        _ => panic!("finance lists its checked sub-module"),
    }
}

#[test]
fn saved_plan_reopens_with_the_same_boxes() {
    let c = module_catalog();
    let mut sel = empty_selection(&c);
    for (m, subs) in [(1usize, vec![0usize, 5]), (4, vec![]), (20, vec![4]), (24, vec![0])] {
        toggle_module(&mut sel, m);
        for si in subs {
            toggle_sub_module(&mut sel, m, si);
        }
    }
    let body = plan_modules_body(&c, &sel);
    let again = selection_from_plan(&c, &body);
    assert_eq!(again.modules, sel.modules);
    assert_eq!(again.sub_modules, sel.sub_modules);
}

#[test]
fn license_list() {
    let lic = obj(vec![("id", s("l1")), ("school_name", s("Colegio Sol")), ("active", Json::Bool(true))]);
    let row = license_row(&lic, &None);
    assert_eq!(row.school, "Colegio Sol");
    assert_eq!(row.plan, "\u{2014}");
    assert_eq!(row.max_students, 0);
    assert!(row.active && !row.toggling);
    assert_eq!(row.button_label, "Desactivar");
    let busy = license_row(&lic, &Some("l1".to_string()));
    assert_eq!(busy.button_label, "...");
    let other = license_row(&obj(vec![("id", s("l2"))]), &Some("l1".to_string()));
    assert_eq!(other.button_label, "Activar");
    assert_eq!(license_toggle_prompt(true), "\u{00BF}Desactivar esta licencia?");
    assert_eq!(license_toggle_prompt(false), "¿Activar esta licencia?");
    match license_toggle_body(true) {
        Json::Object(ms) => {
            assert_eq!(ms.len(), 1);
            assert_eq!(ms[0].0, "active");
            assert!(matches!(ms[0].1, Json::Bool(false)));
        }
        _ => panic!("not an object"),
    }
}

#[test]
fn client_portal_license() {
    let data = obj(vec![
        ("license", obj(vec![("days_remaining", Json::Number("12".to_string())), ("status", s("active")), ("plan_name", s("Pro"))])),
        ("modules", Json::Array(vec![obj(vec![("name", s("Asistencia")), ("included", Json::Bool(true))]), obj(vec![("name", s("SIGE"))])])),
    ]);
    let l = client_license(&data);
    assert_eq!(l.days_remaining, 12);
    assert_eq!(l.status_class, "badge-success");
    assert_eq!(l.days_class, "text-warning");
    assert_eq!(l.plan, "Pro");
    assert_eq!(l.modules, vec![("Asistencia".to_string(), true), ("SIGE".to_string(), false)]);
    let empty = client_license(&Json::Null);
    assert_eq!((empty.days_remaining, empty.status.as_str(), empty.status_class.as_str(), empty.days_class.as_str()), (0, "", "badge-warning", "text-warning"));
    assert!(empty.modules.is_empty());
    let long = client_license(&obj(vec![("license", obj(vec![("days_remaining", Json::Number("30".to_string()))]))]));
    assert_eq!(long.days_class, "text-success");
}
