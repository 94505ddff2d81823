use viktor::dispatcher::{
    dispatch, get_tool_defs, handle_tool_call, name_prefix, render_entries, render_file_results,
    render_search_results, FileRead,
};
use viktor::messages::{FunctionRef, ToolCall};
use viktor::rank::SearchResult;

fn call(name: &str, arguments: &str) -> ToolCall {
    ToolCall {
        function: FunctionRef { name: name.to_string(), arguments: arguments.to_string() },
    }
}

fn rt() -> tokio::runtime::Runtime {
    tokio::runtime::Builder::new_current_thread().build().unwrap()
}

#[test]
fn prefix_extraction() {
    assert_eq!(name_prefix("crawler.read_file_contents"), "crawler");
    assert_eq!(name_prefix("nodots"), "nodots");
    assert_eq!(name_prefix(".leading"), "");
    assert_eq!(name_prefix("a.b.c"), "a");
}

#[test]
fn unknown_prefix_degrades_to_error_object() {
    let out = dispatch(&call("weird.op", "{}"), &".".to_string());
    assert_eq!(out, "{\"error\":\"Unexpected tool call prefix: weird\"}");
    let parsed: serde_json::Value = serde_json::from_str(&out).unwrap();
    assert_eq!(
        parsed.get("error").unwrap().as_str().unwrap(),
        "Unexpected tool call prefix: weird"
    );
}

#[test]
fn delimiterless_name_takes_the_error_path_too() {
    let out = dispatch(&call("nodelimiter", "{}"), &".".to_string());
    assert_eq!(out, "{\"error\":\"Unexpected tool call prefix: nodelimiter\"}");
}

#[test]
fn unknown_crawler_operation_yields_empty_object() {
    let out = dispatch(&call("crawler.not_a_tool", "{}"), &".".to_string());
    assert_eq!(out, "{}");
}

#[test]
fn tool_catalogue_advertises_three_operations() {
    let defs = get_tool_defs();
    assert_eq!(defs.len(), 3);
    let names: Vec<&str> = defs.iter().map(|d| d.function.name.as_str()).collect();
    assert_eq!(
        names,
        vec![
            "crawler.fuzzy_search_paths",
            "crawler.read_file_contents",
            "crawler.list_directory_contents"
        ]
    );
    assert_eq!(
        defs[1].function.description,
        "Reads the textual content of specified file paths."
    );
    for d in &defs {
        assert_eq!(d.type_, "function");
        let schema: serde_json::Value = serde_json::from_str(&d.function.parameters).unwrap();
        assert_eq!(schema.get("type").unwrap().as_str().unwrap(), "object");
    }
}

#[test]
fn search_results_render_exactly() {
    let rs = vec![
        SearchResult { score: 42, path: "a/b.rs".to_string() },
        SearchResult { score: 7, path: "c \"d\".txt".to_string() },
    ];
    assert_eq!(
        render_search_results(&rs),
        "{\"results\":[{\"path\":\"a/b.rs\",\"score\":42},{\"path\":\"c \\\"d\\\".txt\",\"score\":7}]}"
    );
    assert_eq!(render_search_results(&Vec::new()), "{\"results\":[]}");
}

#[test]
fn file_results_render_exactly() {
    let rs = vec![FileRead { path: "a.txt".to_string(), content: "line1\nline2".to_string() }];
    assert_eq!(
        render_file_results(&rs),
        "{\"results\":[{\"path\":\"a.txt\",\"content\":\"line1\\nline2\"}]}"
    );
}

#[test]
fn entry_lists_render_exactly() {
    let es = vec!["a".to_string(), "a/b.txt".to_string()];
    assert_eq!(render_entries(&es), "{\"entries\":[\"a\",\"a/b.txt\"]}");
    assert_eq!(render_entries(&Vec::new()), "{\"entries\":[]}");
}

#[test]
fn read_operation_reads_inside_the_root() {
    let r = rt();
    let tmp = tempfile::tempdir().unwrap();
    let root = tmp.path().canonicalize().unwrap();
    r.block_on(tokio::fs::write(root.join("hello.txt"), "hi there")).unwrap();
    let out = handle_tool_call(
        &call("crawler.read_file_contents", "{\"paths\":[\"hello.txt\",\"missing.txt\"]}"),
        &root.to_str().unwrap().to_string(),
    );
    let parsed: serde_json::Value = serde_json::from_str(&out).unwrap();
    let results = parsed.get("results").unwrap().as_array().unwrap();
    assert_eq!(results.len(), 2);
    assert_eq!(results[0].get("path").unwrap().as_str().unwrap(), "hello.txt");
    assert_eq!(results[0].get("content").unwrap().as_str().unwrap(), "hi there");
    assert_eq!(results[1].get("content").unwrap().as_str().unwrap(), "");
}

#[test]
fn list_operation_defaults_to_cwd_and_depth_zero() {
    let r = rt();
    let tmp = tempfile::tempdir().unwrap();
    let root = tmp.path().canonicalize().unwrap();
    r.block_on(tokio::fs::create_dir_all(root.join("sub"))).unwrap();
    r.block_on(tokio::fs::write(root.join("sub/deep.txt"), "x")).unwrap();
    let out = handle_tool_call(
        &call("crawler.list_directory_contents", "{\"path\":\".\"}"),
        &root.to_str().unwrap().to_string(),
    );
    let parsed: serde_json::Value = serde_json::from_str(&out).unwrap();
    let entries = parsed.get("entries").unwrap().as_array().unwrap();
    let names: Vec<&str> = entries.iter().map(|e| e.as_str().unwrap()).collect();
    assert_eq!(names, vec!["sub"]);
}

#[test]
fn search_operation_returns_scored_paths() {
    let r = rt();
    let tmp = tempfile::tempdir().unwrap();
    let root = tmp.path().canonicalize().unwrap();
    r.block_on(tokio::fs::create_dir_all(root.join("tools/src/crawler"))).unwrap();
    r.block_on(tokio::fs::write(root.join("tools/src/crawler/tool.rs"), "x")).unwrap();
    let out = handle_tool_call(
        &call("crawler.fuzzy_search_paths", "{\"queries\":[\"crawl\"]}"),
        &root.to_str().unwrap().to_string(),
    );
    let parsed: serde_json::Value = serde_json::from_str(&out).unwrap();
    let results = parsed.get("results").unwrap().as_array().unwrap();
    assert!(results.iter().any(|e| {
        e.get("path").unwrap().as_str().unwrap() == "tools/src/crawler/tool.rs"
            && e.get("score").unwrap().as_i64().unwrap() > 0
    }));
}

#[test]
fn malformed_arguments_degrade_to_empty_results() {
    let out = handle_tool_call(&call("crawler.fuzzy_search_paths", "not json"), &".".to_string());
    assert_eq!(out, "{\"results\":[]}");
    let out2 = handle_tool_call(
        &call("crawler.read_file_contents", "{\"paths\":\"not an array\"}"),
        &".".to_string(),
    );
    assert_eq!(out2, "{\"results\":[]}");
}
