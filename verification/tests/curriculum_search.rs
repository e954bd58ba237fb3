use schoolcbb::curriculum::{new_search, receive_answer, submit_search};
use schoolcbb::json::Json;

fn s(t: &str) -> Json {
    Json::Str(t.to_string())
}

fn obj(members: Vec<(&str, Json)>) -> Json {
    Json::Object(members.into_iter().map(|(k, v)| (k.to_string(), v)).collect())
}

#[test]
fn one_search_at_a_time() {
    let mut st = new_search();
    assert!(submit_search(&mut st).is_none());
    assert!(!st.searched);
    st.query = "  fracciones  ".to_string();
    let body = submit_search(&mut st).expect("a search is sent");
    match &body {
        Json::Object(ms) => {
            assert_eq!(ms[0].0, "q");
            assert!(matches!(&ms[0].1, Json::Str(q) if q == "fracciones"));
            assert!(matches!(&ms[1].1, Json::Number(n) if n == "10"));
        }
        _ => panic!("not an object"),
    }
    assert!(st.loading && st.searched && st.query.is_empty());
    st.query = "otra".to_string();
    assert!(submit_search(&mut st).is_none());
    assert_eq!(st.query, "otra");
    let answer = obj(vec![(
        "results",
        Json::Array(vec![
            obj(vec![("text", s("Fracciones equivalentes")), ("fuente", s("Bases")), ("score", Json::Number("7".to_string()))]),
            obj(vec![("score", Json::Number("-3".to_string()))]),
        ]),
    )]);
    receive_answer(&mut st, &Ok(answer));
    assert!(!st.loading);
    assert_eq!(st.results.len(), 2);
    assert_eq!(st.results[0].text, "Fracciones equivalentes");
    assert_eq!(st.results[0].source, "Bases");
    assert_eq!(st.results[0].score, 7);
    assert_eq!(st.results[1].score, 0);
    assert!(submit_search(&mut st).is_some());
    receive_answer(&mut st, &Err("HTTP 502".to_string()));
    assert_eq!(st.results.len(), 1);
    assert_eq!(st.results[0].text, "Error al buscar: HTTP 502");
}

#[test]
fn naturals_read_from_numbers() {
    assert_eq!(Json::Number("18446744073709551615".to_string()).as_u64(), Some(u64::MAX));
    assert_eq!(Json::Number("18446744073709551616".to_string()).as_u64(), None);
    assert_eq!(Json::Number("-0".to_string()).as_u64(), Some(0));
    assert_eq!(Json::Number("-1".to_string()).as_u64(), None);
    assert_eq!(Json::Number("2.5".to_string()).as_u64(), None);
    assert_eq!(Json::Number("".to_string()).as_u64(), None);
    assert_eq!(s("4").as_u64(), None);
}
