use viktor::response::{parse_final, res_format};

#[test]
fn well_formed_final_output_parses() {
    let text = "{\"tasks\":[{\"objective\":\"add logging\",\"affected_files\":[\"src/main.rs\",\"src/log.rs\"],\"changes\":{\"description\":\"wire a logger\"}}]}";
    let resp = parse_final(text).expect("schema-conforming text must parse");
    assert_eq!(resp.tasks.len(), 1);
    assert_eq!(resp.tasks[0].objective, "add logging");
    assert_eq!(resp.tasks[0].affected_files, vec!["src/main.rs", "src/log.rs"]);
    assert_eq!(resp.tasks[0].changes.description, "wire a logger");
}

#[test]
fn empty_task_list_parses() {
    let resp = parse_final("{\"tasks\":[]}").unwrap();
    assert!(resp.tasks.is_empty());
}

#[test]
fn non_json_text_is_an_error_carrying_the_text() {
    let raw = "Sorry, here is prose instead of JSON.";
    let err = parse_final(raw).err().expect("prose must not parse");
    assert_eq!(err.raw, raw);
}

#[test]
fn schema_mismatches_are_errors_carrying_the_text() {
    for bad in [
        "{}",
        "{\"tasks\":\"not an array\"}",
        "{\"tasks\":[{\"objective\":7,\"affected_files\":[],\"changes\":{\"description\":\"d\"}}]}",
        "{\"tasks\":[{\"objective\":\"o\",\"affected_files\":[1],\"changes\":{\"description\":\"d\"}}]}",
        "{\"tasks\":[{\"objective\":\"o\",\"affected_files\":[]}]}",
        "{\"tasks\":[{\"objective\":\"o\",\"affected_files\":[],\"changes\":{}}]}",
    ] {
        let err = parse_final(bad).err().expect("schema mismatch must not parse");
        assert_eq!(err.raw, bad);
    }
}

#[test]
fn output_format_schema_is_valid_json() {
    let schema: serde_json::Value = serde_json::from_str(&res_format()).unwrap();
    assert_eq!(schema.get("type").unwrap().as_str().unwrap(), "object");
    let required = schema.get("required").unwrap().as_array().unwrap();
    assert_eq!(required[0].as_str().unwrap(), "tasks");
    let items = schema
        .get("properties").unwrap()
        .get("tasks").unwrap()
        .get("items").unwrap();
    let fields = items.get("required").unwrap().as_array().unwrap();
    let names: Vec<&str> = fields.iter().map(|f| f.as_str().unwrap()).collect();
    assert_eq!(names, vec!["objective", "affected_files", "changes"]);
}
