use memorize_mcp::engine::within_only;
use memorize_mcp::merge::{MergePass, MergeReport, MERGE_PROMPT_HEADER};
use memorize_mcp::model::{QaRecord, DEFAULT_MERGE_THRESHOLD};

fn qa(question: &str, answer: &str, score: u32) -> QaRecord {
    QaRecord {
        question: question.to_string(),
        answer: answer.to_string(),
        topic: "Rust".to_string(),
        merged: false,
        score,
    }
}

fn candidates() -> Vec<QaRecord> {
    vec![
        qa("What is ownership?", "A1", 0),
        qa("What is borrowing?", "A2", 0),
        qa("Explain ownership", "A3", 0),
        qa("What is a trait?", "A4", 0),
    ]
}

#[test]
fn cluster_takes_anchor_and_unclustered_matches() {
    let mut pass = MergePass::new("Rust".to_string(), candidates());
    assert_eq!(pass.len(), 4);
    assert!(!pass.is_clustered(0));
    let similar = vec![qa("What is ownership?", "A1", 0), qa("Explain ownership", "A3", 100000), qa("Unknown", "", 1)];
    let cluster = pass.form_cluster(0, &similar);
    assert_eq!(cluster, vec![0, 2]);
    assert!(pass.is_clustered(0) && pass.is_clustered(2));
    assert!(!pass.is_clustered(1) && !pass.is_clustered(3));

    assert_eq!(pass.next_anchor(0), Some(1));
    assert_eq!(pass.next_anchor(2), Some(3));
    let again = pass.form_cluster(1, &vec![qa("Explain ownership", "A3", 0), qa("What is borrowing?", "A2", 0)]);
    assert_eq!(again, vec![1]);
    assert_eq!(pass.next_anchor(0), Some(3));
    pass.form_cluster(3, &vec![]);
    assert_eq!(pass.next_anchor(0), None);
}

#[test]
fn duplicate_questions_join_once() {
    let mut pass = MergePass::new("Rust".to_string(), candidates());
    let similar = vec![qa("What is a trait?", "", 0), qa("What is a trait?", "", 0)];
    assert_eq!(pass.form_cluster(1, &similar), vec![1, 3]);
}

#[test]
fn prompt_lists_pairs_in_cluster_order() {
    let pass = MergePass::new("Rust".to_string(), candidates());
    let prompt = pass.merge_prompt(&vec![2, 0]);
    assert_eq!(
        prompt,
        format!(
            "{}QA 1:\nQ: Explain ownership\nA: A3\n\nQA 2:\nQ: What is ownership?\nA: A1\n\n",
            MERGE_PROMPT_HEADER
        )
    );
    assert!(prompt.starts_with("Merge the following QA pairs into a concise knowledge summary:\n\n"));
}

#[test]
fn draft_from_merged_text() {
    let pass = MergePass::new("Rust".to_string(), candidates());
    assert!(pass.knowledge_draft(&vec![0, 2], String::new()).is_none());
    assert!(pass.knowledge_draft(&vec![0], "Ownership rules".to_string()).is_none());
    assert!(!MergePass::mergeable(&vec![0]));
    assert!(MergePass::mergeable(&vec![0, 2]));
    let draft = pass.knowledge_draft(&vec![0, 2], "Ownership rules".to_string()).unwrap();
    assert_eq!(draft.knowledge_text, "Ownership rules");
    assert_eq!(draft.topic, "Rust");
    assert_eq!(draft.source_questions, vec!["What is ownership?".to_string(), "Explain ownership".to_string()]);
    assert!(draft.created_at.is_none());
}

#[test]
fn report_counts_merges() {
    let mut report = MergeReport::new();
    assert!(!report.merged_any());
    assert_eq!(report.status(), "no_merges");
    report.record("Rust", 3);
    report.record("Go", 2);
    assert!(report.merged_any());
    assert_eq!(report.status(), "merged");
    assert_eq!(report.total_merges, 2);
    assert_eq!(report.details, vec!["Topic 'Rust': merged 3 QA pairs".to_string(), "Topic 'Go': merged 2 QA pairs".to_string()]);
}

#[test]
fn similar_rows_within_threshold() {
    let rows = vec![qa("a", "", 150000), qa("b", "", 150001), qa("c", "", 0)];
    let kept = within_only(rows, DEFAULT_MERGE_THRESHOLD);
    let names: Vec<&str> = kept.iter().map(|r| r.question.as_str()).collect();
    assert_eq!(names, vec!["a", "c"]);
    assert_eq!(within_only(vec![qa("a", "", 0)], 1000001).len(), 0);
}

#[test]
fn sources_of_a_draft_are_marked() {
    let pass = MergePass::new("Rust".to_string(), candidates());
    let draft = pass.knowledge_draft(&vec![0, 2], "Ownership".to_string()).unwrap();
    let marks = memorize_mcp::merge::mark_merged_filters(&draft.source_questions);
    assert_eq!(marks, vec!["question = 'What is ownership?'".to_string(), "question = 'Explain ownership'".to_string()]);
}
