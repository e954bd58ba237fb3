use schoolcbb::json::Json;
use schoolcbb::kanban::{
    longest_stage_count,    activity_icon, admission_columns, contract_can_activate, sales_columns, sales_row, stage_label,
};

fn s(t: &str) -> Json {
    Json::Str(t.to_string())
}

fn obj(members: Vec<(&str, Json)>) -> Json {
    Json::Object(members.into_iter().map(|(k, v)| (k.to_string(), v)).collect())
}

fn prospect(id: &str, first: &str, last: &str, stage: &str, rut: &str) -> Json {
    obj(vec![
        ("id", s(id)),
        ("first_name", s(first)),
        ("last_name", s(last)),
        ("current_stage_id", s(stage)),
        ("rut", s(rut)),
        ("company", s("Colegio Sol")),
    ])
}

fn stages() -> Vec<Json> {
    vec![
        obj(vec![("id", s("s1")), ("name", s("Contacto")), ("color", s("#FF0000"))]),
        obj(vec![("id", s("s2")), ("name", s("Matrícula")), ("is_final", Json::Bool(true))]),
    ]
}

#[test]
fn admission_board_groups_applicants_by_stage() {
    let stages_answer = obj(vec![("stages", Json::Array(stages()))]);
    let prospects_answer = obj(vec![(
        "prospects",
        Json::Array(vec![
            prospect("p1", "Ana", "Rojas", "s2", "1-9"),
            prospect("p2", "Luis", "Soto", "s1", "2-7"),
            prospect("p3", "Eva", "Paz", "s2", "3-5"),
            prospect("p4", "Sin", "Etapa", "s9", "4-3"),
        ]),
    )]);
    let cols = admission_columns(&stages_answer, &prospects_answer);
    assert_eq!(cols.len(), 2);
    assert_eq!(cols[0].stage_id, "s1");
    assert_eq!(cols[0].name, "Contacto");
    assert!(!cols[0].is_final);
    assert_eq!(cols[0].color, "#FF0000");
    assert_eq!(cols[0].cards.len(), 1);
    assert_eq!(cols[0].cards[0].id, "p2");
    assert_eq!(cols[0].cards[0].name, "Luis Soto");
    assert_eq!(cols[0].cards[0].detail, "2-7");
    assert!(cols[1].is_final);
    assert_eq!(cols[1].color, "#6B7280");
    let ids: Vec<&str> = cols[1].cards.iter().map(|c| c.id.as_str()).collect();
    assert_eq!(ids, vec!["p1", "p3"]);
    let total: usize = cols.iter().map(|c| c.cards.len()).sum();
    assert_eq!(total, 3);
}

#[test]
fn admission_board_without_answers_is_empty() {
    assert!(admission_columns(&Json::Null, &Json::Null).is_empty());
    let stages_answer = obj(vec![("stages", Json::Array(stages()))]);
    let cols = admission_columns(&stages_answer, &Json::Null);
    assert_eq!(cols.len(), 2);
    assert!(cols.iter().all(|c| c.cards.is_empty()));
}

#[test]
fn sales_board_shows_the_school() {
    let answer = Some(Ok(obj(vec![(
        "prospects",
        Json::Array(vec![prospect("p1", "Ana", "Rojas", "s1", "1-9"), obj(vec![("id", s("p2"))])]),
    )])));
    let cols = sales_columns(&stages(), &answer);
    assert_eq!(cols[0].cards.len(), 1);
    assert_eq!(cols[0].cards[0].detail, "Colegio Sol");
    assert!(cols[1].cards.is_empty());
    let stage_less = vec![obj(vec![("name", s("Sin id"))])];
    let cols = sales_columns(&stage_less, &answer);
    assert_eq!(cols[0].stage_id, "");
    assert_eq!(cols[0].cards.len(), 1);
    assert_eq!(cols[0].cards[0].id, "p2");
    assert_eq!(cols[0].cards[0].name, " ");
    let pending: Option<Result<Json, String>> = None;
    assert!(sales_columns(&stages(), &pending).iter().all(|c| c.cards.is_empty()));
    let failed: Option<Result<Json, String>> = Some(Err("x".to_string()));
    assert!(sales_columns(&stages(), &failed).iter().all(|c| c.cards.is_empty()));
}

#[test]
fn table_names_the_stage() {
    let mut st = stages();
    st.push(obj(vec![("id", s("s1")), ("name", s("Primer contacto"))]));
    st.push(obj(vec![("id", s("s2"))]));
    assert_eq!(stage_label(&st, "s1"), "Primer contacto");
    assert_eq!(stage_label(&st, "s2"), "Matrícula");
    assert_eq!(stage_label(&st, "s3"), "-");
    let row = sales_row(&prospect("p1", "Ana", "Rojas", "s2", "1-9"), &st);
    assert_eq!(row.name, "Ana Rojas");
    assert_eq!(row.rut, "1-9");
    assert_eq!(row.email, "-");
    assert_eq!(row.company, "Colegio Sol");
    assert_eq!(row.stage, "Matrícula");
    let bare = sales_row(&obj(vec![]), &st);
    assert_eq!((bare.name.as_str(), bare.company.as_str(), bare.stage.as_str()), (" ", "-", "-"));
}

#[test]
fn timeline_icons_and_activation() {
    assert_eq!(activity_icon("call"), "\u{260E}");
    assert_eq!(activity_icon("stage_change"), "\u{1F500}");
    assert_eq!(activity_icon("assign"), "\u{1F464}");
    assert_eq!(activity_icon("otra"), "\u{1F4CB}");
    assert!(contract_can_activate(&obj(vec![("status", s("verified"))])));
    assert!(!contract_can_activate(&obj(vec![("status", s("draft"))])));
    assert!(!contract_can_activate(&Json::Null));
}

#[test]
fn admission_metric_bars() {
    let count = |n: &str| obj(vec![("count", Json::Number(n.to_string()))]);
    assert_eq!(longest_stage_count(&vec![count("3"), count("9"), count("4")]), 9);
    assert_eq!(longest_stage_count(&vec![]), 1);
    assert_eq!(longest_stage_count(&vec![count("0"), obj(vec![])]), 1);
    assert_eq!(longest_stage_count(&vec![count("-5")]), 1);
}
