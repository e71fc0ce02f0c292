use vstd::prelude::*;

use crate::filter::{escaped, lemma_escape_reversible, question_filter_text};
use crate::engine::{is_unmerged, within};
use crate::model::{
    KnowledgeEntry, QaEntry, QaRecord, TopicEntry, DEFAULT_TOPIC_THRESHOLD, SHARED_IMPORT_DISTANCE,
};
use crate::sync::{
    fresh_upto, import_decision, incoming_time, knowledge_key, qa_key, qa_times, stamped_knowledge,
    stamped_qa, stored_time, topic_key, ImportAction,
};

verus! {

/// The QA rows of the store after an import step: `inserted` is the row
/// written for the incoming entry, `existing` the key of the nearest stored row.
pub open spec fn after_import(
    rows: Seq<QaEntry>,
    action: ImportAction,
    existing: (Seq<char>, Seq<char>),
    inserted: QaEntry,
) -> Seq<QaEntry> {
    match action {
        ImportAction::Insert => rows.push(inserted),
        ImportAction::Replace => rows.filter(|r: QaEntry| qa_key(r) != existing).push(inserted),
        ImportAction::Keep => rows,
    }
}

/// Last writer wins on import: when the incoming entry duplicates the
/// nearest stored row and is strictly newer, the store afterwards holds the
/// incoming row and no other row under the older row's key; otherwise the
/// stored rows stay as they were.
pub proof fn lemma_last_writer_wins(
    rows: Seq<QaEntry>,
    entry: QaEntry,
    fallback: Seq<char>,
    nearest_question: Seq<char>,
    nearest_topic: Seq<char>,
    distance: u32,
    inserted: QaEntry,
)
    requires
        distance <= SHARED_IMPORT_DISTANCE,
    ensures
        ({
            let existing = (nearest_question, nearest_topic);
            let incoming = incoming_time(entry.created_at, fallback);
            let older = stored_time(qa_times(rows), existing);
            let after = after_import(rows, import_decision(incoming, Some(distance), older), existing, inserted);
            &&& crate::sync::text_after(incoming, older) ==> {
                &&& after.contains(inserted)
                &&& forall|i: int| 0 <= i < after.len() ==> after[i] == inserted || qa_key(#[trigger] after[i]) != existing
            }
            &&& !crate::sync::text_after(incoming, older) ==> after == rows
        }),
{
    let existing = (nearest_question, nearest_topic);
    let incoming = incoming_time(entry.created_at, fallback);
    let older = stored_time(qa_times(rows), existing);
    if crate::sync::text_after(incoming, older) {
        let pred = |r: QaEntry| qa_key(r) != existing;
        let kept = rows.filter(pred);
        let after = kept.push(inserted);
        assert(after[after.len() - 1] == inserted);
        assert forall|i: int| 0 <= i < after.len() implies after[i] == inserted || qa_key(#[trigger] after[i]) != existing by {
            if i < kept.len() {
                rows.lemma_filter_pred(pred, i);
            }
        }
    }
}

/// Every position below `n`, in order.
pub open spec fn all_positions(n: int) -> Seq<usize> {
    Seq::new(n as nat, |i: int| i as usize)
}

/// No key occurs twice in `keys`.
pub open spec fn distinct_keys(keys: Seq<(Seq<char>, Seq<char>)>) -> bool {
    forall|i: int, j: int| 0 <= i < j < keys.len() ==> keys[i] != keys[j]
}

proof fn lemma_fresh_into_empty(keys: Seq<(Seq<char>, Seq<char>)>, n: int)
    requires
        distinct_keys(keys),
        0 <= n <= keys.len(),
    ensures
        fresh_upto(keys, Seq::empty(), n) == all_positions(n),
    decreases n,
{
    if n > 0 {
        lemma_fresh_into_empty(keys, n - 1);
        assert(all_positions(n) =~= all_positions(n - 1).push((n - 1) as usize));
    } else {
        assert(all_positions(0) =~= Seq::<usize>::empty());
    }
}

/// A snapshot exported from a store whose rows have distinct keys reads back
/// whole: opening a fresh store and reading the snapshot inserts every topic,
/// QA row and knowledge row of it, each once and in order, and those rows
/// keep every field of the exported rows but the creation time.
pub proof fn lemma_snapshot_round_trip(
    topics: Seq<TopicEntry>,
    qa: Seq<QaEntry>,
    knowledge: Seq<KnowledgeEntry>,
    now: String,
)
    requires
        distinct_keys(topics.map_values(|e: TopicEntry| topic_key(e))),
        distinct_keys(qa.map_values(|e: QaEntry| qa_key(e))),
        distinct_keys(knowledge.map_values(|e: KnowledgeEntry| knowledge_key(e))),
    ensures
        ({
            let eq = qa.map_values(|e: QaEntry| stamped_qa(e, now));
            let ek = knowledge.map_values(|e: KnowledgeEntry| stamped_knowledge(e, now));
            let tkeys = topics.map_values(|e: TopicEntry| topic_key(e));
            let qkeys = eq.map_values(|e: QaEntry| qa_key(e));
            let kkeys = ek.map_values(|e: KnowledgeEntry| knowledge_key(e));
            &&& fresh_upto(tkeys, Seq::empty(), topics.len() as int) == all_positions(topics.len() as int)
            &&& fresh_upto(qkeys, Seq::empty(), eq.len() as int) == all_positions(eq.len() as int)
            &&& fresh_upto(kkeys, Seq::empty(), ek.len() as int) == all_positions(ek.len() as int)
            &&& forall|i: int| 0 <= i < eq.len() ==> {
                &&& (#[trigger] eq[i]).question == qa[i].question
                &&& eq[i].answer == qa[i].answer
                &&& eq[i].topic == qa[i].topic
                &&& eq[i].merged == qa[i].merged
            }
            &&& forall|i: int| 0 <= i < ek.len() ==> {
                &&& (#[trigger] ek[i]).knowledge_text == knowledge[i].knowledge_text
                &&& ek[i].topic == knowledge[i].topic
                &&& ek[i].source_questions == knowledge[i].source_questions
            }
        }),
{
    let eq = qa.map_values(|e: QaEntry| stamped_qa(e, now));
    let ek = knowledge.map_values(|e: KnowledgeEntry| stamped_knowledge(e, now));
    let tkeys = topics.map_values(|e: TopicEntry| topic_key(e));
    let qkeys = eq.map_values(|e: QaEntry| qa_key(e));
    let kkeys = ek.map_values(|e: KnowledgeEntry| knowledge_key(e));
    assert(qkeys =~= qa.map_values(|e: QaEntry| qa_key(e)));
    assert(kkeys =~= knowledge.map_values(|e: KnowledgeEntry| knowledge_key(e)));
    lemma_fresh_into_empty(tkeys, topics.len() as int);
    lemma_fresh_into_empty(qkeys, eq.len() as int);
    lemma_fresh_into_empty(kkeys, ek.len() as int);
}

/// Some filter of `filters` selects the rows holding question `q`.
pub open spec fn selected(q: Seq<char>, filters: Seq<Seq<char>>) -> bool {
    exists|j: int| 0 <= j < filters.len() && filters[j] == question_filter_text(q)
}

/// The QA rows after the updates `filters`, each setting `merged` on the rows it selects.
pub open spec fn after_marks(rows: Seq<QaEntry>, filters: Seq<Seq<char>>) -> Seq<QaEntry> {
    rows.map_values(|r: QaEntry| if selected(r.question@, filters) { QaEntry { merged: true, ..r } } else { r })
}

proof fn lemma_filter_text_injective(a: Seq<char>, b: Seq<char>)
    requires
        question_filter_text(a) == question_filter_text(b),
    ensures
        a == b,
{
    let p = "question = "@ + seq!['\''];
    let fa = question_filter_text(a);
    let ea = escaped(a);
    let eb = escaped(b);
    assert(fa =~= p + ea + seq!['\'']);
    assert(question_filter_text(b) =~= p + eb + seq!['\'']);
    assert(ea.len() == eb.len());
    assert(ea =~= fa.subrange(p.len() as int, (p.len() + ea.len()) as int));
    assert(eb =~= question_filter_text(b).subrange(p.len() as int, (p.len() + eb.len()) as int));
    lemma_escape_reversible(a);
    lemma_escape_reversible(b);
}

/// Marking the sources of a knowledge row: once the update filters written
/// for its source questions have run, every QA row holding one of those
/// questions is merged, and every other row is as it was.
pub proof fn lemma_sources_marked(rows: Seq<QaEntry>, sources: Seq<Seq<char>>, filters: Seq<Seq<char>>)
    requires
        filters.len() == sources.len(),
        forall|i: int| 0 <= i < filters.len() ==> #[trigger] filters[i] == question_filter_text(sources[i]),
    ensures
        after_marks(rows, filters).len() == rows.len(),
        forall|i: int| 0 <= i < rows.len() ==> (sources.contains((#[trigger] rows[i]).question@)
            ==> after_marks(rows, filters)[i].merged),
        forall|i: int| 0 <= i < rows.len() ==> (!sources.contains((#[trigger] rows[i]).question@)
            ==> after_marks(rows, filters)[i] == rows[i]),
{
    assert forall|i: int| 0 <= i < rows.len() implies (sources.contains((#[trigger] rows[i]).question@)
        ==> after_marks(rows, filters)[i].merged) by {
        if sources.contains(rows[i].question@) {
            let k = choose|k: int| 0 <= k < sources.len() && sources[k] == rows[i].question@;
            assert(filters[k] == question_filter_text(rows[i].question@));
            assert(selected(rows[i].question@, filters));
        }
    }
    assert forall|i: int| 0 <= i < rows.len() implies (!sources.contains((#[trigger] rows[i]).question@)
        ==> after_marks(rows, filters)[i] == rows[i]) by {
        if !sources.contains(rows[i].question@) && selected(rows[i].question@, filters) {
            let j = choose|j: int| 0 <= j < filters.len() && filters[j] == question_filter_text(rows[i].question@);
            lemma_filter_text_injective(sources[j], rows[i].question@);
            assert(sources[j] == rows[i].question@);
        }
    }
}

/// Cold start: reading a snapshot that holds one topic and one unmerged QA
/// row into a fresh store inserts both, with no vector needed from the
/// snapshot; a later query whose context lies at distance 0 from that topic
/// resolves to it; and the restored row, once the search returns it, passes
/// the merged-row filter of the query reply.
pub proof fn lemma_cold_start_query(topic: TopicEntry, row: QaEntry, found: QaRecord)
    requires
        !found.merged,
    ensures
        fresh_upto(seq![topic_key(topic)], Seq::empty(), 1) == seq![0usize],
        fresh_upto(seq![qa_key(row)], Seq::empty(), 1) == seq![0usize],
        within(0, DEFAULT_TOPIC_THRESHOLD as int),
        seq![found].filter(|x: QaRecord| is_unmerged(x)) == seq![found],
{
    assert(fresh_upto(seq![topic_key(topic)], Seq::empty(), 0) =~= Seq::<usize>::empty());
    assert(fresh_upto(seq![qa_key(row)], Seq::empty(), 0) =~= Seq::<usize>::empty());
    assert(seq![topic_key(topic)].take(0) =~= Seq::<(Seq<char>, Seq<char>)>::empty());
    assert(fresh_upto(seq![topic_key(topic)], Seq::empty(), 1) =~= seq![0usize]);
    assert(fresh_upto(seq![qa_key(row)], Seq::empty(), 1) =~= seq![0usize]);
    let pred = |x: QaRecord| is_unmerged(x);
    Seq::<QaRecord>::empty().lemma_filter_push(found, pred);
    assert(Seq::<QaRecord>::empty().push(found) =~= seq![found]);
    assert(Seq::<QaRecord>::empty().filter(pred) =~= Seq::<QaRecord>::empty());
    assert(Seq::<QaRecord>::empty().filter(pred).push(found) =~= seq![found]);
}

} // verus!
