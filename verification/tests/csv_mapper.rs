use schoolcbb::csv::{
    auto_map, auto_map_lowered, csv_headers, field_for_lower_header, csv_lines, has_content, import_endpoint, join_texts, mapped_csv,
    remap_headers, set_mapping, system_fields_for,
};
use schoolcbb::json::{text_field_or, Json};

fn strings(xs: &[&str]) -> Vec<String> {
    xs.iter().map(|x| x.to_string()).collect()
}

#[test]
fn lines_of_pasted_text() {
    assert_eq!(csv_lines("a,b\r\nc,d\n"), strings(&["a,b", "c,d"]));
    assert_eq!(csv_lines("a\n\nb"), strings(&["a", "", "b"]));
    assert_eq!(csv_lines("x\r"), strings(&["x\r"]));
    assert_eq!(csv_lines(""), Vec::<String>::new());
    assert_eq!(csv_lines("\n"), strings(&[""]));
    let text = "rut,nombre\n1,Ana\r\n2,Luis\n";
    let expected: Vec<String> = text.lines().map(|l| l.to_string()).collect();
    assert_eq!(csv_lines(text), expected);
}

#[test]
fn header_names_are_trimmed_pieces() {
    assert_eq!(csv_headers(" RUT , \"First_Name\",email,"), strings(&["RUT", "\"First_Name\"", "email", ""]));
}

#[test]
fn fields_per_entity() {
    assert_eq!(system_fields_for("students").len(), 10);
    assert_eq!(system_fields_for("employees"), strings(&["rut", "first_name", "last_name", "email", "phone", "position", "category"]));
    assert_eq!(system_fields_for("anything").len(), 7);
}

#[test]
fn proposed_mapping_uses_lower_case_and_quotes() {
    let headers = strings(&["RUT", "\"First_Name\"", "Apellido", "EMAIL"]);
    let fields = system_fields_for("employees");
    let m = auto_map(&headers, &fields);
    assert_eq!(m, vec![
        ("RUT".to_string(), "rut".to_string()),
        ("\"First_Name\"".to_string(), "first_name".to_string()),
        ("EMAIL".to_string(), "email".to_string()),
    ]);
    let mut m2 = m.clone();
    set_mapping(&mut m2, "Apellido", "last_name");
    set_mapping(&mut m2, "RUT", "phone");
    assert_eq!(m2.len(), 4);
    assert_eq!(m2[0], ("RUT".to_string(), "phone".to_string()));
    let remapped = remap_headers(&headers, &m2);
    assert_eq!(remapped, strings(&["phone", "first_name", "last_name", "email"]));
    let unmapped = remap_headers(&strings(&["x"]), &m);
    assert_eq!(unmapped, strings(&["x"]));
}

#[test]
fn sent_csv_has_mapped_header_line() {
    let csv = mapped_csv(&strings(&["rut", "first_name"]), &strings(&["1,Ana", "2,Luis"]));
    assert_eq!(csv, "rut,first_name\n1,Ana\n2,Luis");
    assert_eq!(mapped_csv(&strings(&["rut"]), &Vec::new()), "rut");
    assert_eq!(join_texts(&Vec::new(), ','), "");
    let line = join_texts(&strings(&["a", "", "b"]), ',');
    let back: Vec<String> = line.split(',').map(|x| x.to_string()).collect();
    assert_eq!(back, strings(&["a", "", "b"]));
}

#[test]
fn import_endpoint_and_content() {
    assert_eq!(import_endpoint("students"), "/api/students/import/csv");
    assert_eq!(import_endpoint("employees"), "/api/hr/employees/import/csv");
    assert!(!has_content(" \n\t"));
    assert!(has_content(" a "));
}

#[test]
fn import_message_with_default() {
    let ok = Json::Object(vec![("message".to_string(), Json::Str("3 importados".to_string()))]);
    assert_eq!(text_field_or(&ok, "message", "Importado"), "3 importados");
    assert_eq!(text_field_or(&Json::Null, "message", "Importado"), "Importado");
}

#[test]
fn mapping_from_lowered_headers() {
    let fields = strings(&["rut", "first_name", "email"]);
    assert_eq!(field_for_lower_header(&fields, "\"email\"").as_deref(), Some("email"));
    assert_eq!(field_for_lower_header(&fields, "rut"), Some("rut".to_string()));
    assert!(field_for_lower_header(&fields, "RUT").is_none());
    let headers = strings(&["RUT", "Nombre"]);
    let lowered = strings(&["rut", "nombre"]);
    let m = auto_map_lowered(&headers, &lowered, &fields);
    assert_eq!(m, vec![("RUT".to_string(), "rut".to_string())]);
}

#[test]
fn a_set_column_reads_back() {
    let mut m: Vec<(String, String)> = Vec::new();
    set_mapping(&mut m, "RUT", "rut");
    set_mapping(&mut m, "Nombre", "first_name");
    set_mapping(&mut m, "RUT", "dni");
    assert_eq!(m.len(), 2);
    let headers = strings(&["RUT", "Nombre", "Otro"]);
    assert_eq!(remap_headers(&headers, &m), strings(&["dni", "first_name", "Otro"]));
}
