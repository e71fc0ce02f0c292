use memorize_mcp::engine::{
    recall_items, RecallKind, resolve_topic, similar_topic, unmerged_only, TopicChoice, TopicHit,
    NO_MATCHING_TOPIC,
};
use memorize_mcp::filter::unmerged_topic_filter;
use memorize_mcp::merge::mark_merged_filters;
use memorize_mcp::model::{
    KnowledgeRecord, MemorizeSnapshot, QaEntry, QaRecord, TopicEntry, DEFAULT_TOPIC_THRESHOLD,
};
use memorize_mcp::sync::{has_extra_rows, plan_sync};
use memorize_mcp::transport::{parse_error_reply, PARSE_ERROR_CODE};

fn qa(question: &str, answer: &str, topic: &str, merged: bool, score: u32) -> QaRecord {
    QaRecord {
        question: question.to_string(),
        answer: answer.to_string(),
        topic: topic.to_string(),
        merged,
        score,
    }
}

fn hit(name: &str, distance: u32) -> Option<TopicHit> {
    Some(TopicHit { topic_name: name.to_string(), distance })
}

#[test]
fn store_and_query_basic() {
    let stored = resolve_topic("Programming Languages".to_string(), None);
    let topic = stored.name().clone();
    assert!(matches!(stored, TopicChoice::Create(_)));
    assert_eq!(topic, "Programming Languages");

    let found = similar_topic(hit("Programming Languages", 0), DEFAULT_TOPIC_THRESHOLD);
    assert_eq!(found, Some("Programming Languages".to_string()));
    let rows = unmerged_only(vec![qa("What is Rust?", "A systems language", &topic, false, 310000)]);
    assert!(rows.iter().any(|r| r.answer.contains("systems language")));
}

#[test]
fn topic_dedup_cross_lingual() {
    let first = resolve_topic("Rust编程".to_string(), None);
    let second = resolve_topic("Rust开发".to_string(), hit("Rust编程", 120000));
    assert!(matches!(second, TopicChoice::Reuse(_)));
    assert_eq!(first.name(), second.name());
    assert_eq!(second.name(), "Rust编程");
}

#[test]
fn no_matching_topic() {
    let found = similar_topic(hit("Biology", 700000), DEFAULT_TOPIC_THRESHOLD);
    assert_eq!(found, None);
    assert_eq!(NO_MATCHING_TOPIC, "No matching topic found");
}

#[test]
fn topic_threshold_boundary() {
    assert_eq!(similar_topic(hit("T", 200000), DEFAULT_TOPIC_THRESHOLD), Some("T".to_string()));
    assert_eq!(similar_topic(hit("T", 200001), DEFAULT_TOPIC_THRESHOLD), None);
    assert!(matches!(resolve_topic("U".to_string(), hit("T", 200001)), TopicChoice::Create(_)));
}

#[test]
fn multiple_qa_same_topic() {
    let rows = unmerged_only(vec![
        qa("What is a variable in Python?", "A named reference to a value", "Python Basics", false, 500000),
        qa("What is a list in Python?", "An ordered mutable collection", "Python Basics", false, 300000),
        qa("What is a dictionary in Python?", "A key-value mapping data structure", "Python Basics", false, 320000),
    ]);
    assert!(rows.len() >= 2);
    assert_eq!(rows.len(), 3);
}

#[test]
fn merged_exclusion() {
    let marks = mark_merged_filters(&vec!["Q1".to_string()]);
    assert_eq!(marks, vec!["question = 'Q1'".to_string()]);
    assert_eq!(unmerged_topic_filter("topic1"), "topic = 'topic1' AND merged = false");
    let rows = unmerged_only(vec![qa("Q1", "A1", "topic1", true, 0), qa("Q2", "A2", "topic1", false, 10)]);
    assert_eq!(rows.len(), 1);
    assert_eq!(rows[0].question, "Q2");
    assert!(rows.iter().all(|r| !r.merged));
}

#[test]
fn malformed_frame() {
    let reply = parse_error_reply("{\"not json rpc", "EOF while parsing a string at line 1 column 14");
    assert_eq!(PARSE_ERROR_CODE, -32700);
    assert!(reply.id.is_none());
    assert_eq!(
        reply.message,
        "Failed to parse JSON-RPC message: EOF while parsing a string at line 1 column 14. \
         Ensure your request is valid JSON-RPC 2.0 conforming to the MCP protocol. \
         Raw input: {\"not json rpc"
    );
}

#[test]
fn malformed_frame_keeps_request_id() {
    let reply = parse_error_reply("{\"jsonrpc\":\"2.0\",\"id\":7,\"method\":3}", "invalid type");
    assert_eq!(reply.id, Some(serde_json::Value::from(7)));
    let reply = parse_error_reply("{\"id\":\"abc\"", "EOF");
    assert!(reply.id.is_none());
}

#[test]
fn cold_start_reconcile() {
    let snapshot = MemorizeSnapshot {
        version: 1,
        exported_at: "2025-01-01T00:00:00Z".to_string(),
        topics: vec![TopicEntry { topic_name: "Rust".to_string() }],
        qa_records: vec![QaEntry {
            question: "What is Rust?".to_string(),
            answer: "A systems language".to_string(),
            topic: "Rust".to_string(),
            merged: false,
            created_at: None,
        }],
        knowledge: vec![],
    };
    let plan = plan_sync(&snapshot, &vec![], &vec![], &vec![]);
    assert_eq!(plan.topics, vec![0]);
    assert_eq!(plan.qa, vec![0]);
    assert!(plan.knowledge.is_empty());
    let db_topics = vec![snapshot.topics[0].clone()];
    let db_qa = vec![snapshot.qa_records[0].clone()];
    assert!(!has_extra_rows(&snapshot, &db_topics, &db_qa, &vec![]));
    let again = plan_sync(&snapshot, &db_topics, &db_qa, &vec![]);
    assert!(again.topics.is_empty() && again.qa.is_empty());
}

#[test]
fn recall_sorted_by_score() {
    let items = recall_items(
        vec![qa("a", "x", "t", false, 30), qa("b", "y", "t", false, 10)],
        vec![KnowledgeRecord {
            knowledge_text: "k".to_string(),
            topic: "t".to_string(),
            source_questions: vec![],
            score: 20,
        }],
    );
    let scores: Vec<u32> = items.iter().map(|i| i.score).collect();
    assert_eq!(scores, vec![10, 20, 30]);
    assert_eq!(items[1].text, Some("k".to_string()));
}

#[test]
fn recall_puts_qa_rows_first_at_equal_score() {
    let k = |score| KnowledgeRecord { knowledge_text: "k".to_string(), topic: "t".to_string(), source_questions: vec![], score };
    let items = recall_items(vec![qa("a", "x", "t", false, 20)], vec![k(20), k(10)]);
    let kinds: Vec<RecallKind> = items.iter().map(|i| i.kind).collect();
    assert_eq!(kinds, vec![RecallKind::Knowledge, RecallKind::Qa, RecallKind::Knowledge]);
    assert_eq!(items.iter().map(|i| i.score).collect::<Vec<u32>>(), vec![10, 20, 20]);
}
