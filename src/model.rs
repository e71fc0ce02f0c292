use vstd::prelude::*;

verus! {

/// Dimension of every stored vector.
pub const VECTOR_DIM: i32 = 384;

/// Similarities and distances are fixed-point numbers: this value stands for 1.
pub const SIMILARITY_SCALE: u32 = 1000000;

/// Cosine similarity (in millionths) above which two QA questions join one merge cluster.
pub const DEFAULT_MERGE_THRESHOLD: u32 = 850000;

/// Cosine similarity (in millionths) at which a topic counts as the same topic.
pub const DEFAULT_TOPIC_THRESHOLD: u32 = 800000;

/// Cosine similarity (in millionths) at which the recall endpoint accepts a topic.
pub const RECALL_TOPIC_THRESHOLD: u32 = 600000;

/// Distance (in millionths) up to which an imported entry is the same entry as a stored one.
pub const SHARED_IMPORT_DISTANCE: u32 = 150000;

/// Number of rows a search returns unless told otherwise.
pub const DEFAULT_SEARCH_LIMIT: usize = 5;

/// Number of unmerged QA rows of one topic that a merge pass scans.
pub const MERGE_SCAN_LIMIT: usize = 100;

/// Number of neighbours that a merge pass asks for around each anchor.
pub const SIMILAR_SCAN_LIMIT: usize = 50;

/// Arguments of the `store_qa` tool.
#[derive(Debug, Clone)]
pub struct StoreQaParams {
    pub question: String,
    pub answer: String,
    pub topic: String,
}

/// Arguments of the `query_qa` tool.
#[derive(Debug, Clone)]
pub struct QueryQaParams {
    pub question: String,
    pub context: String,
}

/// Arguments of the `merge_knowledge` tool; the threshold is a cosine similarity in millionths.
#[derive(Debug, Clone)]
pub struct MergeKnowledgeParams {
    pub topic: Option<String>,
    pub threshold: Option<u32>,
}

/// A QA row as a search returns it; `score` is the distance in millionths.
#[derive(Debug, Clone)]
pub struct QaRecord {
    pub question: String,
    pub answer: String,
    pub topic: String,
    pub merged: bool,
    pub score: u32,
}

/// A knowledge row as a search returns it; `score` is the distance in millionths.
#[derive(Debug, Clone)]
pub struct KnowledgeRecord {
    pub knowledge_text: String,
    pub topic: String,
    pub source_questions: Vec<String>,
    pub score: u32,
}

/// A topic of the snapshot.
#[derive(Debug, Clone)]
pub struct TopicEntry {
    pub topic_name: String,
}

/// A QA row of the snapshot.
#[derive(Debug, Clone)]
pub struct QaEntry {
    pub question: String,
    pub answer: String,
    pub topic: String,
    pub merged: bool,
    pub created_at: Option<String>,
}

/// A knowledge row of the snapshot.
#[derive(Debug, Clone)]
pub struct KnowledgeEntry {
    pub knowledge_text: String,
    pub topic: String,
    pub source_questions: Vec<String>,
    pub created_at: Option<String>,
}

/// The JSON snapshot of the whole store.
#[derive(Debug, Clone)]
pub struct MemorizeSnapshot {
    pub version: u32,
    pub exported_at: String,
    pub topics: Vec<TopicEntry>,
    pub qa_records: Vec<QaEntry>,
    pub knowledge: Vec<KnowledgeEntry>,
}

} // verus!
