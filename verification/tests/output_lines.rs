use s2_tracts::output::output_line;

fn serde_line(id: u64, vintage: u16, tract: &Option<String>) -> String {
    let mut m = serde_json::Map::new();
    m.insert("s2_cell_id".into(), serde_json::Value::String(id.to_string()));
    m.insert("vintage".into(), serde_json::Value::from(vintage));
    m.insert(
        "tract".into(),
        tract
            .clone()
            .map_or(serde_json::Value::Null, serde_json::Value::String),
    );
    serde_json::to_string(&serde_json::Value::Object(m)).unwrap()
}

#[test]
fn readme_example_line() {
    assert_eq!(
        output_line(9936721416563002943, 2020, &Some("09003502100".to_string())),
        r#"{"s2_cell_id":"9936721416563002943","tract":"09003502100","vintage":2020}"#
    );
    assert_eq!(
        output_line(1, 2019, &None),
        r#"{"s2_cell_id":"1","tract":null,"vintage":2019}"#
    );
}

#[test]
fn lines_match_serde_json() {
    let odd = "q\"b\\s\u{1}\u{8}\u{c}\n\r\t\u{1f}\u{7f}é\u{3000}".to_string();
    for tract in [None, Some("01001000100".to_string()), Some(odd), Some(String::new())] {
        for id in [0u64, 42, u64::MAX] {
            assert_eq!(output_line(id, 2025, &tract), serde_line(id, 2025, &tract));
        }
    }
}
