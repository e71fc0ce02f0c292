use memorize_mcp::filter::{
    escape_literal, knowledge_key_filter, qa_key_filter, question_filter, topic_filter,
    topic_name_filter, unmerged_topic_filter,
};

#[test]
fn quotes_are_doubled() {
    assert_eq!(escape_literal("O'Brien"), "O''Brien");
    assert_eq!(escape_literal("''"), "''''");
    assert_eq!(escape_literal(""), "");
    assert_eq!(escape_literal("a\"b\\c%"), "a\"b\\c%");
    assert_eq!(escape_literal("Rust编程'"), "Rust编程''");
}

#[test]
fn filter_texts() {
    assert_eq!(topic_filter("it's"), "topic = 'it''s'");
    assert_eq!(unmerged_topic_filter("Rust"), "topic = 'Rust' AND merged = false");
    assert_eq!(question_filter("Why's that?"), "question = 'Why''s that?'");
    assert_eq!(topic_name_filter("Rust编程"), "topic_name = 'Rust编程'");
    assert_eq!(qa_key_filter("Q'", "T"), "question = 'Q''' AND topic = 'T'");
    assert_eq!(knowledge_key_filter("K", "T'"), "knowledge_text = 'K' AND topic = 'T'''");
}
