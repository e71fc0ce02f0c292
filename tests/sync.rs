use memorize_mcp::model::{KnowledgeEntry, KnowledgeRecord, MemorizeSnapshot, QaEntry, QaRecord, TopicEntry};
use memorize_mcp::sync::{
    export_snapshot, has_extra_rows, is_newer, knowledge_import_action, plan_sync,
    qa_import_action, stored_qa_time, ImportAction, SNAPSHOT_VERSION,
};

fn entry(q: &str, t: &str, at: Option<&str>) -> QaEntry {
    QaEntry {
        question: q.to_string(),
        answer: "a".to_string(),
        topic: t.to_string(),
        merged: false,
        created_at: at.map(|s| s.to_string()),
    }
}

fn near(q: &str, t: &str, score: u32) -> Option<QaRecord> {
    Some(QaRecord { question: q.to_string(), answer: "a".to_string(), topic: t.to_string(), merged: false, score })
}

fn snapshot(topics: Vec<&str>, qa: Vec<QaEntry>) -> MemorizeSnapshot {
    MemorizeSnapshot {
        version: 1,
        exported_at: "2025-01-01T00:00:00Z".to_string(),
        topics: topics.into_iter().map(|n| TopicEntry { topic_name: n.to_string() }).collect(),
        qa_records: qa,
        knowledge: vec![],
    }
}

#[test]
fn export_stamps_missing_times() {
    let snap = export_snapshot(
        "2025-06-01T12:00:00Z".to_string(),
        vec![TopicEntry { topic_name: "T".to_string() }],
        vec![entry("q1", "T", None), entry("q2", "T", Some("2024-01-01T00:00:00Z"))],
        vec![KnowledgeEntry { knowledge_text: "k".to_string(), topic: "T".to_string(), source_questions: vec!["q1".to_string()], created_at: None }],
    );
    assert_eq!(snap.version, SNAPSHOT_VERSION);
    assert_eq!(snap.exported_at, "2025-06-01T12:00:00Z");
    assert_eq!(snap.qa_records[0].created_at.as_deref(), Some("2025-06-01T12:00:00Z"));
    assert_eq!(snap.qa_records[1].created_at.as_deref(), Some("2024-01-01T00:00:00Z"));
    assert_eq!(snap.knowledge[0].created_at.as_deref(), Some("2025-06-01T12:00:00Z"));
    assert_eq!(snap.topics.len(), 1);
}

#[test]
fn plan_skips_present_and_repeated_keys() {
    let snap = snapshot(vec!["A", "B", "A"], vec![entry("q", "A", None), entry("q", "B", None), entry("q", "A", None)]);
    let plan = plan_sync(&snap, &vec![TopicEntry { topic_name: "B".to_string() }], &vec![entry("q", "B", None)], &vec![]);
    assert_eq!(plan.topics, vec![0]);
    assert_eq!(plan.qa, vec![0]);
}

#[test]
fn extra_rows_are_detected() {
    let snap = snapshot(vec!["A"], vec![entry("q", "A", None)]);
    assert!(!has_extra_rows(&snap, &vec![TopicEntry { topic_name: "A".to_string() }], &vec![], &vec![]));
    assert!(has_extra_rows(&snap, &vec![TopicEntry { topic_name: "Z".to_string() }], &vec![], &vec![]));
    assert!(has_extra_rows(&snap, &vec![], &vec![entry("q", "B", None)], &vec![]));
    assert!(has_extra_rows(
        &snap,
        &vec![],
        &vec![],
        &vec![KnowledgeEntry { knowledge_text: "k".to_string(), topic: "A".to_string(), source_questions: vec![], created_at: None }]
    ));
}

#[test]
fn timestamps_compare_as_text() {
    assert!(is_newer("2025-01-02T00:00:00Z", "2025-01-01T23:59:59Z"));
    assert!(!is_newer("2025-01-01T00:00:00Z", "2025-01-01T00:00:00Z"));
    assert!(!is_newer("2024-12-31T00:00:00Z", "2025-01-01T00:00:00Z"));
    assert!(is_newer("2025", ""));
    assert!(!is_newer("", ""));
    assert!(is_newer("2025-01-01T00:00:00Z", "2025-01-01"));
    for (a, b) in [("é", "z"), ("ab", "a"), ("a", "ab"), ("Z", "a")] {
        assert_eq!(is_newer(a, b), a > b);
    }
}

#[test]
fn stored_time_of_first_match() {
    let stored = vec![entry("q", "T", None), entry("q", "T", Some("x")), entry("r", "T", Some("y"))];
    assert_eq!(stored_qa_time(&stored, &"q".to_string(), &"T".to_string()), "");
    assert_eq!(stored_qa_time(&stored, &"r".to_string(), &"T".to_string()), "y");
    assert_eq!(stored_qa_time(&stored, &"s".to_string(), &"T".to_string()), "");
}

#[test]
fn last_writer_wins() {
    let fallback = "2025-01-01T00:00:00Z".to_string();
    let stored = vec![entry("q", "T", Some("2025-03-01T00:00:00Z"))];
    let newer = entry("q", "T", Some("2025-04-01T00:00:00Z"));
    let older = entry("q", "T", Some("2025-02-01T00:00:00Z"));
    assert_eq!(qa_import_action(&newer, &fallback, &near("q", "T", 100000), &stored), ImportAction::Replace);
    assert_eq!(qa_import_action(&older, &fallback, &near("q", "T", 100000), &stored), ImportAction::Keep);
    assert_eq!(qa_import_action(&newer, &fallback, &near("q", "T", 150001), &stored), ImportAction::Insert);
    assert_eq!(qa_import_action(&newer, &fallback, &None, &stored), ImportAction::Insert);
    let undated = entry("q", "T", None);
    assert_eq!(qa_import_action(&undated, &fallback, &near("q", "T", 150000), &stored), ImportAction::Keep);
    assert_eq!(qa_import_action(&undated, &fallback, &near("q", "T", 0), &vec![]), ImportAction::Replace);
}

#[test]
fn knowledge_last_writer_wins() {
    let fallback = "2025-01-01T00:00:00Z".to_string();
    let stored = vec![KnowledgeEntry { knowledge_text: "k".to_string(), topic: "T".to_string(), source_questions: vec![], created_at: Some("2025-05-01T00:00:00Z".to_string()) }];
    let incoming = KnowledgeEntry { knowledge_text: "k2".to_string(), topic: "T".to_string(), source_questions: vec![], created_at: None };
    let nearest = Some(KnowledgeRecord { knowledge_text: "k".to_string(), topic: "T".to_string(), source_questions: vec![], score: 10 });
    assert_eq!(knowledge_import_action(&incoming, &fallback, &nearest, &stored), ImportAction::Keep);
    assert_eq!(knowledge_import_action(&incoming, &"2025-06-01T00:00:00Z".to_string(), &nearest, &stored), ImportAction::Replace);
}

#[test]
fn snapshot_round_trip_concrete() {
    let topics = vec![TopicEntry { topic_name: "A".to_string() }, TopicEntry { topic_name: "B".to_string() }];
    let qa = vec![entry("q1", "A", None), entry("q2", "B", Some("2024-01-01T00:00:00Z"))];
    let kn = vec![KnowledgeEntry { knowledge_text: "k".to_string(), topic: "A".to_string(), source_questions: vec!["q1".to_string()], created_at: None }];
    let snap = export_snapshot("2025-06-01T00:00:00Z".to_string(), topics.clone(), qa.clone(), kn.clone());
    let plan = plan_sync(&snap, &vec![], &vec![], &vec![]);
    assert_eq!(plan.topics, vec![0, 1]);
    assert_eq!(plan.qa, vec![0, 1]);
    assert_eq!(plan.knowledge, vec![0]);
    for (a, b) in snap.qa_records.iter().zip(qa.iter()) {
        assert_eq!((&a.question, &a.answer, &a.topic, a.merged), (&b.question, &b.answer, &b.topic, b.merged));
    }
    assert!(!has_extra_rows(&snap, &topics, &qa, &kn));
    let again = export_snapshot("2025-07-01T00:00:00Z".to_string(), topics, qa, kn);
    assert_eq!(again.qa_records.len(), snap.qa_records.len());
    assert_eq!(again.knowledge[0].knowledge_text, snap.knowledge[0].knowledge_text);
}
