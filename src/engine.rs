use vstd::prelude::*;

use crate::model::{
    KnowledgeRecord, QaRecord, DEFAULT_TOPIC_THRESHOLD, SIMILARITY_SCALE,
};

verus! {

/// A distance (in millionths) is within a cosine threshold (in millionths):
/// cosine >= t is taken as distance <= 1 - t.
pub open spec fn within(distance: int, threshold: int) -> bool {
    distance <= SIMILARITY_SCALE as int - threshold
}

/// Whether `distance` is close enough for cosine similarity `threshold`.
pub fn within_threshold(distance: u32, threshold: u32) -> (r: bool)
    ensures
        r == within(distance as int, threshold as int),
{
    if threshold > SIMILARITY_SCALE {
        false
    } else {
        distance <= SIMILARITY_SCALE - threshold
    }
}

/// The stored topic nearest to a query vector, with its distance in millionths.
#[derive(Debug, Clone)]
pub struct TopicHit {
    pub topic_name: String,
    pub distance: u32,
}

/// The topic that a nearest-topic search found, if it lies within `threshold`.
pub fn similar_topic(nearest: Option<TopicHit>, threshold: u32) -> (r: Option<String>)
    ensures
        match nearest {
            Some(h) => if within(h.distance as int, threshold as int) {
                r == Some(h.topic_name)
            } else {
                r is None
            },
            None => r is None,
        },
{
    match nearest {
        Some(h) => {
            if within_threshold(h.distance, threshold) {
                Some(h.topic_name)
            } else {
                None
            }
        },
        None => None,
    }
}

/// How a proposed topic name is resolved against the stored topics.
#[derive(Debug, Clone)]
pub enum TopicChoice {
    /// A stored topic is similar enough: its name is used.
    Reuse(String),
    /// No stored topic is similar enough: the proposed topic is created.
    Create(String),
}

impl TopicChoice {
    /// The resolved topic name.
    pub fn name(&self) -> (r: &String)
        ensures
            match self {
                TopicChoice::Reuse(n) => r == n,
                TopicChoice::Create(n) => r == n,
            },
    {
        match self {
            TopicChoice::Reuse(n) => n,
            TopicChoice::Create(n) => n,
        }
    }
}

/// Resolves the proposed topic given the stored topic nearest to it: reuse
/// that topic when it lies within the topic threshold, else create the
/// proposed one. A topic is only ever created when no stored topic is that
/// similar to it.
pub fn resolve_topic(proposed: String, nearest: Option<TopicHit>) -> (r: TopicChoice)
    ensures
        match r {
            TopicChoice::Create(n) => n == proposed && match nearest {
                Some(h) => !within(h.distance as int, DEFAULT_TOPIC_THRESHOLD as int),
                None => true,
            },
            TopicChoice::Reuse(n) => match nearest {
                Some(h) => within(h.distance as int, DEFAULT_TOPIC_THRESHOLD as int) && n == h.topic_name,
                None => false,
            },
        },
{
    match similar_topic(nearest, DEFAULT_TOPIC_THRESHOLD) {
        Some(name) => TopicChoice::Reuse(name),
        None => TopicChoice::Create(proposed),
    }
}

/// The text of the reply to a query whose context matches no topic.
pub const NO_MATCHING_TOPIC: &'static str = "No matching topic found";

pub open spec fn is_unmerged(r: QaRecord) -> bool {
    !r.merged
}

/// The rows of `rows` that are not merged, in order.
pub fn unmerged_only(rows: Vec<QaRecord>) -> (r: Vec<QaRecord>)
    ensures
        r@ == rows@.filter(|x: QaRecord| is_unmerged(x)),
        forall|i: int| 0 <= i < r.len() ==> !r[i].merged,
{
    let mut out: Vec<QaRecord> = Vec::new();
    let mut i: usize = 0;
    let ghost pred = |x: QaRecord| is_unmerged(x);
    while i < rows.len()
        invariant
            i <= rows.len(),
            pred == (|x: QaRecord| is_unmerged(x)),
            out@ == rows@.take(i as int).filter(pred),
        decreases rows.len() - i,
    {
        let ghost before = rows@.take(i as int);
        assert(rows@.take(i as int + 1) =~= before.push(rows@[i as int]));
        proof {
            before.lemma_filter_push(rows@[i as int], pred);
        }
        if !rows[i].merged {
            out.push(rows[i].clone_record());
        }
        i = i + 1;
    }
    assert(rows@.take(rows.len() as int) =~= rows@);
    proof {
        assert forall|k: int| 0 <= k < out.len() implies !out[k].merged by {
            rows@.lemma_filter_pred(pred, k);
        }
    }
    out
}

impl QaRecord {
    /// A copy of this row.
    pub fn clone_record(&self) -> (r: QaRecord)
        ensures
            r == *self,
    {
        QaRecord {
            question: self.question.clone(),
            answer: self.answer.clone(),
            topic: self.topic.clone(),
            merged: self.merged,
            score: self.score,
        }
    }
}

pub open spec fn close_enough(r: QaRecord, threshold: u32) -> bool {
    within(r.score as int, threshold as int)
}

/// The rows of `rows` within cosine `threshold`, in order.
pub fn within_only(rows: Vec<QaRecord>, threshold: u32) -> (r: Vec<QaRecord>)
    ensures
        r@ == rows@.filter(|x: QaRecord| close_enough(x, threshold)),
{
    let mut out: Vec<QaRecord> = Vec::new();
    let mut i: usize = 0;
    let ghost pred = |x: QaRecord| close_enough(x, threshold);
    while i < rows.len()
        invariant
            i <= rows.len(),
            pred == (|x: QaRecord| close_enough(x, threshold)),
            out@ == rows@.take(i as int).filter(pred),
        decreases rows.len() - i,
    {
        assert(rows@.take(i as int + 1) =~= rows@.take(i as int).push(rows@[i as int]));
        proof {
            rows@.take(i as int).lemma_filter_push(rows@[i as int], pred);
        }
        if within_threshold(rows[i].score, threshold) {
            out.push(rows[i].clone_record());
        }
        i = i + 1;
    }
    assert(rows@.take(rows.len() as int) =~= rows@);
    out
}

/// What a recall item holds.
#[derive(Debug, Clone, Copy, PartialEq, Eq, Structural)]
pub enum RecallKind {
    Qa,
    Knowledge,
}

/// One entry of a recall answer.
#[derive(Debug, Clone)]
pub struct RecallItem {
    pub kind: RecallKind,
    pub question: Option<String>,
    pub answer: Option<String>,
    pub text: Option<String>,
    pub topic: String,
    pub score: u32,
}

pub open spec fn qa_item(r: QaRecord) -> RecallItem {
    RecallItem {
        kind: RecallKind::Qa,
        question: Some(r.question),
        answer: Some(r.answer),
        text: None,
        topic: r.topic,
        score: r.score,
    }
}

pub open spec fn knowledge_item(r: KnowledgeRecord) -> RecallItem {
    RecallItem {
        kind: RecallKind::Knowledge,
        question: None,
        answer: None,
        text: Some(r.knowledge_text),
        topic: r.topic,
        score: r.score,
    }
}

pub open spec fn sorted_by_score(s: Seq<RecallItem>) -> bool {
    forall|i: int, j: int| 0 <= i < j < s.len() ==> s[i].score <= s[j].score
}

/// Inserts `item` after every element whose score is not above its own.
fn insert_by_score(out: &mut Vec<RecallItem>, item: RecallItem)
    requires
        sorted_by_score(old(out)@),
    ensures
        sorted_by_score(final(out)@),
        final(out)@.to_multiset() == old(out)@.to_multiset().insert(item),
        exists|p: int| 0 <= p <= old(out)@.len() && final(out)@ == old(out)@.insert(p, item)
            && (forall|k: int| 0 <= k < p ==> old(out)@[k].score <= item.score)
            && (forall|k: int| p <= k < old(out)@.len() ==> old(out)@[k].score > item.score),
{
    let mut p: usize = 0;
    while p < out.len() && out[p].score <= item.score
        invariant
            p <= out.len(),
            forall|k: int| 0 <= k < p ==> out[k].score <= item.score,
        decreases out.len() - p,
    {
        p = p + 1;
    }
    let ghost before = out@;
    out.insert(p, item);
    proof {
        vstd::seq_lib::to_multiset_insert(before, p as int, item);
    }
    assert forall|i: int, j: int| 0 <= i < j < out@.len() implies out@[i].score <= out@[j].score by {
        if j < p {
        } else if j == p {
        } else if i < p {
            assert(out@[j] == before[j - 1]);
            assert(before[p as int].score > item.score);
        } else if i == p {
            assert(before[p as int].score > item.score);
        } else {
        }
    }
    assert forall|k: int| p <= k < before.len() implies before[k].score > item.score by {
        assert(before[p as int].score > item.score);
    }
}

/// Among rows of equal score, every QA row comes before every knowledge row.
pub open spec fn qa_rows_first(s: Seq<RecallItem>) -> bool {
    forall|i: int, j: int| 0 <= i < j < s.len() && s[i].score == s[j].score && s[j].kind == RecallKind::Qa
        ==> s[i].kind == RecallKind::Qa
}

pub open spec fn recall_source(qas: Seq<QaRecord>, kns: Seq<KnowledgeRecord>) -> Seq<RecallItem> {
    qas.map_values(|x: QaRecord| qa_item(x)) + kns.map_values(|x: KnowledgeRecord| knowledge_item(x))
}

/// The QA rows and knowledge rows of a recall, tagged by kind and sorted by
/// ascending score; at equal score, QA rows come first.
pub fn recall_items(qas: Vec<QaRecord>, kns: Vec<KnowledgeRecord>) -> (r: Vec<RecallItem>)
    ensures
        sorted_by_score(r@),
        qa_rows_first(r@),
        r@.to_multiset() == recall_source(qas@, kns@).to_multiset(),
{
    let ghost all = recall_source(qas@, kns@);
    let ghost nq = qas.len() as int;
    assert(all.len() == qas.len() + kns.len());
    let mut out: Vec<RecallItem> = Vec::new();
    let mut i: usize = 0;
    assert(all.take(0) =~= out@);
    while i < qas.len()
        invariant
            i <= qas.len(),
            all == recall_source(qas@, kns@),
            all.len() == qas.len() + kns.len(),
            sorted_by_score(out@),
            forall|k: int| 0 <= k < out@.len() ==> (#[trigger] out@[k]).kind == RecallKind::Qa,
            out@.to_multiset() == all.take(i as int).to_multiset(),
        decreases qas.len() - i,
    {
        let r = qas[i].clone_record();
        let item = RecallItem {
            kind: RecallKind::Qa,
            question: Some(r.question),
            answer: Some(r.answer),
            text: None,
            topic: r.topic,
            score: r.score,
        };
        assert(item == all[i as int]);
        assert(all.take(i as int + 1) =~= all.take(i as int).push(item));
        proof {
            vstd::seq_lib::to_multiset_build(all.take(i as int), item);
        }
        let ghost before = out@;
        insert_by_score(&mut out, item);
        proof {
            let p = choose|p: int| 0 <= p <= before.len() && out@ == before.insert(p, item)
                && (forall|k: int| 0 <= k < p ==> before[k].score <= item.score)
                && (forall|k: int| p <= k < before.len() ==> before[k].score > item.score);
            assert forall|k: int| 0 <= k < out@.len() implies (#[trigger] out@[k]).kind == RecallKind::Qa by {
                if k < p {
                    assert(out@[k] == before[k]);
                } else if k > p {
                    assert(out@[k] == before[k - 1]);
                }
            }
        }
        i = i + 1;
    }
    let mut j: usize = 0;
    while j < kns.len()
        invariant
            j <= kns.len(),
            nq == qas.len(),
            all == recall_source(qas@, kns@),
            all.len() == qas.len() + kns.len(),
            sorted_by_score(out@),
            qa_rows_first(out@),
            out@.to_multiset() == all.take(nq + j).to_multiset(),
        decreases kns.len() - j,
    {
        let k = &kns[j];
        let item = RecallItem {
            kind: RecallKind::Knowledge,
            question: None,
            answer: None,
            text: Some(k.knowledge_text.clone()),
            topic: k.topic.clone(),
            score: k.score,
        };
        assert(item == all[nq + j]);
        assert(all.take(nq + j + 1) =~= all.take(nq + j).push(item));
        proof {
            vstd::seq_lib::to_multiset_build(all.take(nq + j), item);
        }
        let ghost before = out@;
        insert_by_score(&mut out, item);
        proof {
            let p = choose|p: int| 0 <= p <= before.len() && out@ == before.insert(p, item)
                && (forall|k: int| 0 <= k < p ==> before[k].score <= item.score)
                && (forall|k: int| p <= k < before.len() ==> before[k].score > item.score);
            assert forall|a: int, b: int| 0 <= a < b < out@.len() && out@[a].score == out@[b].score
                && out@[b].kind == RecallKind::Qa implies out@[a].kind == RecallKind::Qa by {
                if b == p {
                } else if a == p {
                    assert(out@[b] == before[b - 1]);
                } else {
                    let a0 = if a < p { a } else { a - 1 };
                    let b0 = if b < p { b } else { b - 1 };
                    assert(out@[a] == before[a0]);
                    assert(out@[b] == before[b0]);
                }
            }
        }
        j = j + 1;
    }
    assert(all.take(nq + kns.len()) =~= all);
    out
}

} // verus!
