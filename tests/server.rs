use memorize_mcp::embedding::{ort_lib_name, TargetOs};
use memorize_mcp::hook::{recall_plan, RecallError};
use memorize_mcp::persistence::{
    delete_error, file_import_error, is_shared_file, json_path, knowledge_import_error, qa_import_error,
};
use memorize_mcp::server::{
    invalid_params_message, parse_knowledge_uri, tool_kind, unknown_tool_message, ToolKind, UriError,
    KNOWLEDGE_URI_TEMPLATE,
};
use memorize_mcp::transport::{quote_payload, text_preview};

#[test]
fn tool_names() {
    assert_eq!(tool_kind("store_qa"), Some(ToolKind::StoreQa));
    assert_eq!(tool_kind("query_qa"), Some(ToolKind::QueryQa));
    assert_eq!(tool_kind("merge_knowledge"), Some(ToolKind::MergeKnowledge));
    assert_eq!(tool_kind("store"), None);
    assert_eq!(unknown_tool_message("x"), "Unknown tool: x");
    assert_eq!(invalid_params_message("query_qa", "missing field"), "Invalid query_qa params: missing field");
}

#[test]
fn knowledge_uris() {
    assert!(KNOWLEDGE_URI_TEMPLATE.contains("knowledge://"));
    assert_eq!(parse_knowledge_uri("knowledge://Rust/ownership rules"), Ok(("Rust".to_string(), "ownership rules".to_string())));
    assert_eq!(parse_knowledge_uri("knowledge://a/b/c"), Ok(("a".to_string(), "b/c".to_string())));
    assert_eq!(parse_knowledge_uri("file://a/b"), Err(UriError::NotKnowledge));
    assert_eq!(parse_knowledge_uri("knowledge://abc"), Err(UriError::NoQuery));
    assert_eq!(parse_knowledge_uri("knowledge:///q"), Err(UriError::EmptyPart));
    assert_eq!(parse_knowledge_uri("knowledge://t/"), Err(UriError::EmptyPart));
    assert_eq!(UriError::NotKnowledge.message("x"), "Invalid knowledge URI: x");
    assert_eq!(UriError::NoQuery.message("knowledge://a"), "URI must have format knowledge://{topic}/{query}, got: knowledge://a");
    assert_eq!(UriError::EmptyPart.message("k"), "Topic and query must not be empty");
}

#[test]
fn payload_quotes() {
    let short = "x".repeat(200);
    assert_eq!(quote_payload(&short), short);
    let long = "a".repeat(250);
    assert_eq!(quote_payload(&long), format!("{}...", "a".repeat(200)));
    let wide = "é".repeat(150);
    assert_eq!(quote_payload(&wide), format!("{}...", "é".repeat(100)));
    let mixed = format!("{}€", "a".repeat(199));
    assert_eq!(quote_payload(&mixed), format!("{}...", "a".repeat(199)));
    assert_eq!(text_preview("héllo", 2), "h");
    assert_eq!(text_preview("héllo", 3), "hé");
}

#[test]
fn shared_files_and_paths() {
    assert!(is_shared_file("alice_shared.json"));
    assert!(is_shared_file("_shared.json"));
    assert!(!is_shared_file("memorize_data.json"));
    assert!(!is_shared_file("alice_shared.json.bak"));
    let p = json_path(std::path::Path::new("/tmp/memo"));
    assert_eq!(p, std::path::PathBuf::from("/tmp/memo/memorize_data.json"));
}

#[test]
fn import_error_lines() {
    assert_eq!(qa_import_error("f.json", "Q?", "boom"), "[f.json] QA 'Q?': boom");
    let long = "k".repeat(80);
    assert_eq!(knowledge_import_error("f.json", &long, "boom"), format!("[f.json] Knowledge '{}': boom", "k".repeat(50)));
    assert_eq!(file_import_error("f.json", "bad"), "[f.json] Import failed: bad");
    assert_eq!(delete_error("f.json", "denied"), "[f.json] Failed to delete after import: denied");
}

#[test]
fn recall_requests() {
    assert!(matches!(recall_plan(None, Some("q".to_string()), None), Err(RecallError::MissingContext)));
    assert!(matches!(recall_plan(Some(String::new()), None, None), Err(RecallError::MissingContext)));
    let p = recall_plan(Some("Rust".to_string()), Some(String::new()), None).unwrap();
    assert_eq!(p.context, "Rust");
    assert_eq!(p.question, None);
    assert_eq!(p.limit, 5);
    assert!(!p.searches_qa());
    assert_eq!(p.search_text(), "Rust");
    let p = recall_plan(Some("Rust".to_string()), Some("why".to_string()), Some(9)).unwrap();
    assert_eq!(p.question, Some("why".to_string()));
    assert_eq!(p.limit, 9);
    assert!(p.searches_qa());
    assert_eq!(p.search_text(), "why");
}

#[test]
fn library_names() {
    assert_eq!(ort_lib_name(TargetOs::Windows), "onnxruntime.dll");
    assert_eq!(ort_lib_name(TargetOs::MacOs), "libonnxruntime.dylib");
    assert_eq!(ort_lib_name(TargetOs::Other), "libonnxruntime.so");
}
