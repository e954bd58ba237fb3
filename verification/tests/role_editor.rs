use schoolcbb::json::Json;
use schoolcbb::roles::{
    assigned_role_ids, build_perms_state, can_assign_roles, checkbox_ticked, compute_modules,
    find_role, new_role_body, permissions_body, role_assignments, school_short, toggle_permission,
    user_row,
    PermissionFlag,
};

fn s(t: &str) -> Json {
    Json::Str(t.to_string())
}

fn obj(members: Vec<(&str, Json)>) -> Json {
    Json::Object(members.into_iter().map(|(k, v)| (k.to_string(), v)).collect())
}

fn defs() -> Option<Result<Json, String>> {
    Some(Ok(obj(vec![(
        "definitions",
        Json::Array(vec![
            obj(vec![("id", s("p1")), ("module", s("students")), ("resource", s("view"))]),
            obj(vec![("id", s("p2")), ("module", s("grades")), ("resource", s("edit"))]),
            obj(vec![("id", s("p3")), ("module", s("students")), ("resource", s("create"))]),
            obj(vec![("id", s("p4"))]),
        ]),
    )])))
}

#[test]
fn modules_group_definitions_in_first_appearance_order() {
    let groups = compute_modules(&defs());
    assert_eq!(groups.len(), 3);
    assert_eq!(groups[0].0, "students");
    assert_eq!(groups[0].1, vec![0, 2]);
    assert_eq!(groups[1].0, "grades");
    assert_eq!(groups[1].1, vec![1]);
    assert_eq!(groups[2].0, "");
    assert_eq!(groups[2].1, vec![3]);
}

#[test]
fn modules_of_missing_definitions() {
    assert!(compute_modules(&None).is_empty());
    assert!(compute_modules(&Some(Err("down".to_string()))).is_empty());
    assert!(compute_modules(&Some(Ok(obj(vec![])))).is_empty());
}

#[test]
fn grouping_partitions_the_definitions() {
    let groups = compute_modules(&defs());
    let mut seen: Vec<usize> = groups.iter().flat_map(|g| g.1.clone()).collect();
    seen.sort();
    assert_eq!(seen, vec![0, 1, 2, 3]);
}

#[test]
fn permission_rows_take_flags_of_last_matching_permission() {
    let existing = vec![
        obj(vec![("permission_id", s("p1")), ("can_create", Json::Bool(true))]),
        obj(vec![("permission_id", s("p1")), ("can_delete", Json::Bool(true)), ("can_read", Json::Bool(false))]),
        obj(vec![("permission_id", s("p2")), ("can_update", s("yes"))]),
    ];
    let rows = build_perms_state(&defs(), &existing);
    assert_eq!(rows.len(), 4);
    assert_eq!(rows[0].permission_id, "p1");
    assert!(!rows[0].can_create);
    assert!(!rows[0].can_read);
    assert!(rows[0].can_delete);
    assert!(matches!(&rows[0].module, Json::Str(m) if m == "students"));
    assert!(matches!(&rows[1].resource, Json::Str(r) if r == "edit"));
    assert!(!rows[1].can_update);
    assert!(rows[1].can_read);
    assert!(!rows[2].can_create && rows[2].can_read && !rows[2].can_update && !rows[2].can_delete);
    assert!(matches!(rows[3].module, Json::Null));
    assert_eq!(rows[3].permission_id, "p4");
    assert!(build_perms_state(&None, &existing).is_empty());
}

#[test]
fn role_assignment_panel() {
    let held = obj(vec![("role_ids", Json::Array(vec![s("r2"), Json::Null, s("r9")]))]);
    assert_eq!(assigned_role_ids(&held), vec!["r2", "r9"]);
    assert!(assigned_role_ids(&Json::Null).is_empty());
    let roles = vec![
        obj(vec![("id", s("r1")), ("name", s("Docente"))]),
        obj(vec![("id", s("r2")), ("name", s("Director"))]),
        obj(vec![("name", s("Sin id"))]),
    ];
    let rows = role_assignments(&held, &roles);
    let flags: Vec<bool> = rows.iter().map(|r| r.has_role).collect();
    assert_eq!(flags, vec![false, true, false]);
    assert_eq!(rows[1].name, "Director");
    assert_eq!(rows[2].id, "");
    assert!(can_assign_roles(&Some(Ok(obj(vec![("can_assign_roles", Json::Bool(true))])))));
    assert!(!can_assign_roles(&Some(Ok(obj(vec![("can_assign_roles", s("true"))])))));
    assert!(!can_assign_roles(&Some(Err("x".to_string()))));
    assert!(!can_assign_roles(&None));
}

#[test]
fn permission_boxes() {
    let mut rows = build_perms_state(&defs(), &[]);
    assert!(rows.len() >= 2);
    assert!(rows[0].can_read && !rows[0].can_create);
    toggle_permission(&mut rows, 0, PermissionFlag::Read, false);
    assert!(!rows[0].can_read);
    toggle_permission(&mut rows, 0, PermissionFlag::Create, true);
    assert!(rows[0].can_create && rows[0].can_read);
    toggle_permission(&mut rows, 0, PermissionFlag::Create, false);
    assert!(!rows[0].can_create && rows[0].can_read);
    toggle_permission(&mut rows, 1, PermissionFlag::Delete, true);
    assert!(rows[1].can_delete && !rows[0].can_delete);
    match permissions_body(&rows) {
        Json::Object(ms) => {
            assert_eq!(ms[0].0, "permissions");
            match &ms[0].1 {
                Json::Array(items) => {
                    assert_eq!(items.len(), rows.len());
                    match &items[1] {
                        Json::Object(f) => {
                            let keys: Vec<&str> = f.iter().map(|(k, _)| k.as_str()).collect();
                            assert_eq!(keys, vec!["permission_id", "module", "resource", "can_create", "can_read", "can_update", "can_delete"]);
                            assert!(matches!(f[6].1, Json::Bool(true)));
                        }
                        _ => panic!("not an object"),
                    }
                }
                _ => panic!("not an array"),
            }
        }
        _ => panic!("not an object"),
    }
}

#[test]
fn role_list_helpers() {
    assert!(checkbox_ticked("on") && checkbox_ticked("true"));
    assert!(!checkbox_ticked("false") && !checkbox_ticked(""));
    match new_role_body("Inspector") {
        Json::Object(ms) => {
            assert_eq!(ms.len(), 2);
            assert!(matches!(&ms[1].1, Json::Str(d) if d.is_empty()));
        }
        _ => panic!("not an object"),
    }
    let roles = vec![obj(vec![("id", s("r1"))]), obj(vec![("id", s("r2"))]), obj(vec![("id", s("r2"))])];
    assert_eq!(find_role(&roles, "r2"), Some(1));
    assert_eq!(find_role(&roles, "r9"), None);
}

#[test]
fn user_list_rows() {
    assert_eq!(school_short(""), "\u{2014}");
    assert_eq!(school_short("abc"), "abc\u{2026}");
    assert_eq!(school_short("0123456789abcdef"), "01234567…");
    let row = user_row(&obj(vec![("name", s("Ana")), ("school_id", s("ñandú-colegio"))]), true);
    assert_eq!(row.school, "ñandú-co…");
    assert!(row.active);
    assert_eq!(row.row_class, "selected");
    let off = user_row(&obj(vec![("active", Json::Bool(false))]), false);
    assert!(!off.active);
    assert_eq!(off.row_class, "");
    assert_eq!(off.school, "—");
}
