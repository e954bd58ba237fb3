use schoolcbb::client::{
    first_letter, format_date, needs_plan, page_description, page_title, parse_date, session_code,
    truncate,
};

#[test]
fn first_letter_of_names() {
    assert_eq!(first_letter("Ñandú"), "Ñ");
    assert_eq!(first_letter("ana"), "a");
    assert_eq!(first_letter(""), "?");
}

#[test]
fn truncate_by_bytes() {
    assert_eq!(truncate("hola", 4), "hola");
    assert_eq!(truncate("hola mundo", 4), "hola...");
    assert_eq!(truncate("año nuevo", 4), "año...");
    assert_eq!(truncate("", 0), "");
    assert_eq!(truncate("abc", 0), "...");
}

#[test]
fn needs_plan_for_last_two_years() {
    assert!(needs_plan("3° Medio"));
    assert!(needs_plan("4° Medio"));
    assert!(!needs_plan("2° Medio"));
    assert!(!needs_plan("3 Medio"));
}

#[test]
fn format_date_day_month_year() {
    assert_eq!(format_date("2025-03-14"), "14/03/2025");
    assert_eq!(format_date("2025-03-14T10:00:00Z"), "14/03/2025");
    assert_eq!(format_date("2025-03"), "2025-03");
    assert_eq!(format_date(""), "");
}

#[test]
fn parse_date_day_and_month_name() {
    assert_eq!(parse_date("2025-03-14"), ("14".to_string(), "Mar".to_string()));
    assert_eq!(parse_date("2025-12-01"), ("01".to_string(), "Dic".to_string()));
    assert_eq!(parse_date("2025-xx-01"), ("01".to_string(), "Ene".to_string()));
    assert_eq!(parse_date("2025-+7-09"), ("09".to_string(), "Jul".to_string()));
    assert_eq!(parse_date("2025-13-01"), ("01".to_string(), "---".to_string()));
    assert_eq!(parse_date("2025-99999999999-01"), ("01".to_string(), "Ene".to_string()));
    assert_eq!(parse_date("2025/03/14"), ("--".to_string(), "---".to_string()));
    assert_eq!(parse_date("2025-03-14-1"), ("--".to_string(), "---".to_string()));
}

#[test]
fn page_title_and_description() {
    let t = page_title("Cursos");
    assert_eq!(t, "Cursos | SchoolCBB");
    assert_eq!(page_description(&t), "SchoolCBB - Cursos | SchoolCBB");
}

#[test]
fn session_code_from_address() {
    assert_eq!(session_code("?code=abc%20d+e&x=1"), "abc d e");
    assert_eq!(session_code("??state=1&code=Z"), "Z");
    assert_eq!(session_code("?state=1"), "");
    assert_eq!(session_code(""), "");
    assert_eq!(session_code("?xcode=1&code=2"), "2");
}
