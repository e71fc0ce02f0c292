use vstd::prelude::*;

use crate::model::{
    KnowledgeEntry, KnowledgeRecord, MemorizeSnapshot, QaEntry, QaRecord, TopicEntry,
    SHARED_IMPORT_DISTANCE,
};
use crate::text::chars_of;

verus! {

/// The name of the snapshot file inside the data directory.
pub const JSON_FILENAME: &'static str = "memorize_data.json";

/// The version written into every snapshot.
pub const SNAPSHOT_VERSION: u32 = 1;

/// What identifies a row: a topic's name, a QA row's question and topic, or a
/// knowledge row's text and topic. A topic's key has an empty second part.
#[derive(Debug, Clone)]
pub struct EntryKey {
    pub first: String,
    pub second: String,
}

impl View for EntryKey {
    type V = (Seq<char>, Seq<char>);

    open spec fn view(&self) -> (Seq<char>, Seq<char>) {
        (self.first@, self.second@)
    }
}

pub open spec fn topic_key(e: TopicEntry) -> (Seq<char>, Seq<char>) {
    (e.topic_name@, Seq::empty())
}

pub open spec fn qa_key(e: QaEntry) -> (Seq<char>, Seq<char>) {
    (e.question@, e.topic@)
}

pub open spec fn knowledge_key(e: KnowledgeEntry) -> (Seq<char>, Seq<char>) {
    (e.knowledge_text@, e.topic@)
}

pub open spec fn key_views(keys: Seq<EntryKey>) -> Seq<(Seq<char>, Seq<char>)> {
    keys.map_values(|k: EntryKey| k@)
}

/// The keys of the topics `entries`, in order.
pub fn topic_keys(entries: &Vec<TopicEntry>) -> (r: Vec<EntryKey>)
    ensures
        key_views(r@) == entries@.map_values(|e: TopicEntry| topic_key(e)),
{
    let mut out: Vec<EntryKey> = Vec::new();
    let mut i: usize = 0;
    while i < entries.len()
        invariant
            i <= entries.len(),
            out.len() == i,
            key_views(out@) == entries@.take(i as int).map_values(|e: TopicEntry| topic_key(e)),
        decreases entries.len() - i,
    {
        let ghost before = out@;
        let k = EntryKey { first: entries[i].topic_name.clone(), second: String::new() };
        assert(k@ == topic_key(entries@[i as int]));
        out.push(k);
        proof {
            let t = entries@.take(i + 1);
            assert forall|m: int| 0 <= m < i + 1 implies key_views(out@)[m] == t.map_values(|e: TopicEntry| topic_key(e))[m] by {
                if m < i {
                    assert(key_views(before)[m] == entries@.take(i as int).map_values(|e: TopicEntry| topic_key(e))[m]);
                }
            }
            assert(key_views(out@) =~= t.map_values(|e: TopicEntry| topic_key(e)));
        }
        i = i + 1;
    }
    assert(entries@.take(i as int) =~= entries@);
    out
}

/// The keys of the QA rows `entries`, in order.
pub fn qa_keys(entries: &Vec<QaEntry>) -> (r: Vec<EntryKey>)
    ensures
        key_views(r@) == entries@.map_values(|e: QaEntry| qa_key(e)),
{
    let mut out: Vec<EntryKey> = Vec::new();
    let mut i: usize = 0;
    while i < entries.len()
        invariant
            i <= entries.len(),
            out.len() == i,
            key_views(out@) == entries@.take(i as int).map_values(|e: QaEntry| qa_key(e)),
        decreases entries.len() - i,
    {
        let ghost before = out@;
        let k = EntryKey { first: entries[i].question.clone(), second: entries[i].topic.clone() };
        assert(k@ == qa_key(entries@[i as int]));
        out.push(k);
        proof {
            let t = entries@.take(i + 1);
            assert forall|m: int| 0 <= m < i + 1 implies key_views(out@)[m] == t.map_values(|e: QaEntry| qa_key(e))[m] by {
                if m < i {
                    assert(key_views(before)[m] == entries@.take(i as int).map_values(|e: QaEntry| qa_key(e))[m]);
                }
            }
            assert(key_views(out@) =~= t.map_values(|e: QaEntry| qa_key(e)));
        }
        i = i + 1;
    }
    assert(entries@.take(i as int) =~= entries@);
    out
}

/// The keys of the knowledge rows `entries`, in order.
pub fn knowledge_keys(entries: &Vec<KnowledgeEntry>) -> (r: Vec<EntryKey>)
    ensures
        key_views(r@) == entries@.map_values(|e: KnowledgeEntry| knowledge_key(e)),
{
    let mut out: Vec<EntryKey> = Vec::new();
    let mut i: usize = 0;
    while i < entries.len()
        invariant
            i <= entries.len(),
            out.len() == i,
            key_views(out@) == entries@.take(i as int).map_values(|e: KnowledgeEntry| knowledge_key(e)),
        decreases entries.len() - i,
    {
        let ghost before = out@;
        let k = EntryKey { first: entries[i].knowledge_text.clone(), second: entries[i].topic.clone() };
        assert(k@ == knowledge_key(entries@[i as int]));
        out.push(k);
        proof {
            let t = entries@.take(i + 1);
            assert forall|m: int| 0 <= m < i + 1 implies key_views(out@)[m] == t.map_values(|e: KnowledgeEntry| knowledge_key(e))[m] by {
                if m < i {
                    assert(key_views(before)[m] == entries@.take(i as int).map_values(|e: KnowledgeEntry| knowledge_key(e))[m]);
                }
            }
            assert(key_views(out@) =~= t.map_values(|e: KnowledgeEntry| knowledge_key(e)));
        }
        i = i + 1;
    }
    assert(entries@.take(i as int) =~= entries@);
    out
}

fn same_key(a: &EntryKey, b: &EntryKey) -> (r: bool)
    ensures
        r == (a@ == b@),
{
    a.first == b.first && a.second == b.second
}

/// Whether `keys` holds `k`.
pub fn contains_key(keys: &Vec<EntryKey>, k: &EntryKey) -> (r: bool)
    ensures
        r == key_views(keys@).contains(k@),
{
    let mut i: usize = 0;
    while i < keys.len()
        invariant
            i <= keys.len(),
            forall|j: int| 0 <= j < i ==> keys@[j]@ != k@,
        decreases keys.len() - i,
    {
        if same_key(&keys[i], k) {
            assert(key_views(keys@)[i as int] == k@);
            return true;
        }
        i = i + 1;
    }
    assert(!key_views(keys@).contains(k@)) by {
        if key_views(keys@).contains(k@) {
            let j = choose|j: int| 0 <= j < key_views(keys@).len() && key_views(keys@)[j] == k@;
            assert(keys@[j]@ == k@);
        }
    }
    false
}

/// Entry `i` is one that reading the snapshot inserts: its key is neither in
/// the store nor on an earlier entry.
pub open spec fn is_fresh(keys: Seq<(Seq<char>, Seq<char>)>, present: Seq<(Seq<char>, Seq<char>)>, i: int) -> bool {
    &&& !present.contains(keys[i])
    &&& forall|j: int| 0 <= j < i ==> keys[j] != keys[i]
}

/// The positions below `n` of the entries that reading the snapshot inserts, in order.
pub open spec fn fresh_upto(keys: Seq<(Seq<char>, Seq<char>)>, present: Seq<(Seq<char>, Seq<char>)>, n: int) -> Seq<usize>
    decreases n,
{
    if n <= 0 {
        Seq::empty()
    } else {
        let p = fresh_upto(keys, present, n - 1);
        if is_fresh(keys, present, n - 1) {
            p.push((n - 1) as usize)
        } else {
            p
        }
    }
}

/// The positions of the snapshot entries with keys `keys` that are to be
/// inserted into a store that holds the keys `present`: every entry whose key
/// the store lacks, once per key.
pub fn fresh_positions(keys: &Vec<EntryKey>, present: &Vec<EntryKey>) -> (r: Vec<usize>)
    ensures
        r@ == fresh_upto(key_views(keys@), key_views(present@), keys.len() as int),
{
    let ghost ks = key_views(keys@);
    let mut out: Vec<usize> = Vec::new();
    let mut i: usize = 0;
    while i < keys.len()
        invariant
            i <= keys.len(),
            ks == key_views(keys@),
            out@ == fresh_upto(ks, key_views(present@), i as int),
        decreases keys.len() - i,
    {
        let mut seen = false;
        let mut j: usize = 0;
        while j < i
            invariant
                j <= i < keys.len(),
                ks == key_views(keys@),
                seen == exists|m: int| 0 <= m < j && ks[m] == ks[i as int],
            decreases i - j,
        {
            if same_key(&keys[j], &keys[i]) {
                seen = true;
                assert(ks[j as int] == ks[i as int]);
            }
            j = j + 1;
        }
        if !seen && !contains_key(present, &keys[i]) {
            out.push(i);
        }
        i = i + 1;
    }
    out
}

/// Whether some key of `stored` is missing from `listed`.
pub fn any_missing(stored: &Vec<EntryKey>, listed: &Vec<EntryKey>) -> (r: bool)
    ensures
        r == exists|i: int| 0 <= i < stored.len() && !key_views(listed@).contains(#[trigger] stored@[i]@),
{
    let mut i: usize = 0;
    while i < stored.len()
        invariant
            i <= stored.len(),
            forall|k: int| 0 <= k < i ==> key_views(listed@).contains(#[trigger] stored@[k]@),
        decreases stored.len() - i,
    {
        if !contains_key(listed, &stored[i]) {
            return true;
        }
        i = i + 1;
    }
    false
}

/// Which snapshot entries reading the snapshot inserts into the store, by
/// position in the snapshot's lists.
#[derive(Debug, Clone)]
pub struct SyncPlan {
    pub topics: Vec<usize>,
    pub qa: Vec<usize>,
    pub knowledge: Vec<usize>,
}

/// Plans the snapshot-to-store pass of start-up: every snapshot entry whose
/// key the store does not hold yet is inserted, once per key.
pub fn plan_sync(
    snapshot: &MemorizeSnapshot,
    db_topics: &Vec<TopicEntry>,
    db_qa: &Vec<QaEntry>,
    db_knowledge: &Vec<KnowledgeEntry>,
) -> (r: SyncPlan)
    ensures
        r.topics@ == fresh_upto(
            snapshot.topics@.map_values(|e: TopicEntry| topic_key(e)),
            db_topics@.map_values(|e: TopicEntry| topic_key(e)),
            snapshot.topics.len() as int,
        ),
        r.qa@ == fresh_upto(
            snapshot.qa_records@.map_values(|e: QaEntry| qa_key(e)),
            db_qa@.map_values(|e: QaEntry| qa_key(e)),
            snapshot.qa_records.len() as int,
        ),
        r.knowledge@ == fresh_upto(
            snapshot.knowledge@.map_values(|e: KnowledgeEntry| knowledge_key(e)),
            db_knowledge@.map_values(|e: KnowledgeEntry| knowledge_key(e)),
            snapshot.knowledge.len() as int,
        ),
{
    let st = topic_keys(&snapshot.topics);
    let sq = qa_keys(&snapshot.qa_records);
    let sk = knowledge_keys(&snapshot.knowledge);
    assert(key_views(st@).len() == st.len());
    assert(key_views(sq@).len() == sq.len());
    assert(key_views(sk@).len() == sk.len());
    let topics = fresh_positions(&st, &topic_keys(db_topics));
    let qa = fresh_positions(&sq, &qa_keys(db_qa));
    let knowledge = fresh_positions(&sk, &knowledge_keys(db_knowledge));
    SyncPlan { topics, qa, knowledge }
}

/// Whether the store holds a row whose key the snapshot lacks, in which case
/// the snapshot is written anew.
pub fn has_extra_rows(
    snapshot: &MemorizeSnapshot,
    db_topics: &Vec<TopicEntry>,
    db_qa: &Vec<QaEntry>,
    db_knowledge: &Vec<KnowledgeEntry>,
) -> (r: bool)
    ensures
        r == ((exists|i: int| 0 <= i < db_topics.len()
            && !snapshot.topics@.map_values(|e: TopicEntry| topic_key(e)).contains(topic_key(#[trigger] db_topics@[i])))
        || (exists|i: int| 0 <= i < db_qa.len()
            && !snapshot.qa_records@.map_values(|e: QaEntry| qa_key(e)).contains(qa_key(#[trigger] db_qa@[i])))
        || (exists|i: int| 0 <= i < db_knowledge.len()
            && !snapshot.knowledge@.map_values(|e: KnowledgeEntry| knowledge_key(e)).contains(
                knowledge_key(#[trigger] db_knowledge@[i])))),
{
    let dt = topic_keys(db_topics);
    let dq = qa_keys(db_qa);
    let dk = knowledge_keys(db_knowledge);
    let st = topic_keys(&snapshot.topics);
    let sq = qa_keys(&snapshot.qa_records);
    let sk = knowledge_keys(&snapshot.knowledge);
    let a = any_missing(&dt, &st);
    let b = any_missing(&dq, &sq);
    let c = any_missing(&dk, &sk);
    proof {
        assert forall|i: int| 0 <= i < db_topics.len() implies dt@[i]@ == topic_key(#[trigger] db_topics@[i]) by {
            assert(key_views(dt@).len() == dt@.len());
            assert(key_views(dt@)[i] == dt@[i]@);
        }
        assert forall|i: int| 0 <= i < db_qa.len() implies dq@[i]@ == qa_key(#[trigger] db_qa@[i]) by {
            assert(key_views(dq@).len() == dq@.len());
            assert(key_views(dq@)[i] == dq@[i]@);
        }
        assert forall|i: int| 0 <= i < db_knowledge.len() implies dk@[i]@ == knowledge_key(#[trigger] db_knowledge@[i]) by {
            assert(key_views(dk@).len() == dk@.len());
            assert(key_views(dk@)[i] == dk@[i]@);
        }
        assert(key_views(dt@).len() == dt.len());
        assert(key_views(dq@).len() == dq.len());
        assert(key_views(dk@).len() == dk.len());
        let ts = snapshot.topics@.map_values(|e: TopicEntry| topic_key(e));
        let qs = snapshot.qa_records@.map_values(|e: QaEntry| qa_key(e));
        let ks = snapshot.knowledge@.map_values(|e: KnowledgeEntry| knowledge_key(e));
        if a {
            let i = choose|i: int| 0 <= i < dt.len() && !key_views(st@).contains(#[trigger] dt@[i]@);
            assert(!ts.contains(topic_key(db_topics@[i])));
        }
        if exists|i: int| 0 <= i < db_topics.len() && !ts.contains(topic_key(#[trigger] db_topics@[i])) {
            let i = choose|i: int| 0 <= i < db_topics.len() && !ts.contains(topic_key(#[trigger] db_topics@[i]));
            assert(!key_views(st@).contains(dt@[i]@));
        }
        if b {
            let i = choose|i: int| 0 <= i < dq.len() && !key_views(sq@).contains(#[trigger] dq@[i]@);
            assert(!qs.contains(qa_key(db_qa@[i])));
        }
        if exists|i: int| 0 <= i < db_qa.len() && !qs.contains(qa_key(#[trigger] db_qa@[i])) {
            let i = choose|i: int| 0 <= i < db_qa.len() && !qs.contains(qa_key(#[trigger] db_qa@[i]));
            assert(!key_views(sq@).contains(dq@[i]@));
        }
        if c {
            let i = choose|i: int| 0 <= i < dk.len() && !key_views(sk@).contains(#[trigger] dk@[i]@);
            assert(!ks.contains(knowledge_key(db_knowledge@[i])));
        }
        if exists|i: int| 0 <= i < db_knowledge.len() && !ks.contains(knowledge_key(#[trigger] db_knowledge@[i])) {
            let i = choose|i: int| 0 <= i < db_knowledge.len() && !ks.contains(knowledge_key(#[trigger] db_knowledge@[i]));
            assert(!key_views(sk@).contains(dk@[i]@));
        }
    }
    a || b || c
}

/// `e` with its creation time set to `now` where it has none.
pub open spec fn stamped_qa(e: QaEntry, now: String) -> QaEntry {
    QaEntry {
        created_at: match e.created_at {
            Some(c) => Some(c),
            None => Some(now),
        },
        ..e
    }
}

/// `e` with its creation time set to `now` where it has none.
pub open spec fn stamped_knowledge(e: KnowledgeEntry, now: String) -> KnowledgeEntry {
    KnowledgeEntry {
        created_at: match e.created_at {
            Some(c) => Some(c),
            None => Some(now),
        },
        ..e
    }
}

/// Gives every QA row without a creation time the time `now`.
pub fn stamp_qa(rows: Vec<QaEntry>, now: &String) -> (r: Vec<QaEntry>)
    ensures
        r@ == rows@.map_values(|e: QaEntry| stamped_qa(e, *now)),
{
    let ghost src = rows@;
    let mut out: Vec<QaEntry> = Vec::new();
    for e in it: rows.into_iter()
        invariant
            it.seq() == src,
            out@ == src.take(it.index() as int).map_values(|e: QaEntry| stamped_qa(e, *now)),
    {
        let mut e = e;
        if e.created_at.is_none() {
            e.created_at = Some(now.clone());
        }
        out.push(e);
        assert(out@ =~= src.take(it.index() as int + 1).map_values(|e: QaEntry| stamped_qa(e, *now)));
    }
    assert(src.take(src.len() as int) =~= src);
    out
}

/// Gives every knowledge row without a creation time the time `now`.
pub fn stamp_knowledge(rows: Vec<KnowledgeEntry>, now: &String) -> (r: Vec<KnowledgeEntry>)
    ensures
        r@ == rows@.map_values(|e: KnowledgeEntry| stamped_knowledge(e, *now)),
{
    let ghost src = rows@;
    let mut out: Vec<KnowledgeEntry> = Vec::new();
    for e in it: rows.into_iter()
        invariant
            it.seq() == src,
            out@ == src.take(it.index() as int).map_values(|e: KnowledgeEntry| stamped_knowledge(e, *now)),
    {
        let mut e = e;
        if e.created_at.is_none() {
            e.created_at = Some(now.clone());
        }
        out.push(e);
        assert(out@ =~= src.take(it.index() as int + 1).map_values(|e: KnowledgeEntry| stamped_knowledge(e, *now)));
    }
    assert(src.take(src.len() as int) =~= src);
    out
}

/// The snapshot of a store whose rows are `topics`, `qa` and `knowledge`,
/// exported at `now`: rows without a creation time get `now`.
pub fn export_snapshot(
    now: String,
    topics: Vec<TopicEntry>,
    qa: Vec<QaEntry>,
    knowledge: Vec<KnowledgeEntry>,
) -> (r: MemorizeSnapshot)
    ensures
        r.version == SNAPSHOT_VERSION,
        r.exported_at == now,
        r.topics == topics,
        r.qa_records@ == qa@.map_values(|e: QaEntry| stamped_qa(e, now)),
        r.knowledge@ == knowledge@.map_values(|e: KnowledgeEntry| stamped_knowledge(e, now)),
{
    let qa_records = stamp_qa(qa, &now);
    let knowledge = stamp_knowledge(knowledge, &now);
    MemorizeSnapshot { version: SNAPSHOT_VERSION, exported_at: now, topics, qa_records, knowledge }
}

/// `a` comes after `b` in the order of `str`: byte by byte, which for UTF-8
/// is character by character by code point.
pub open spec fn text_after(a: Seq<char>, b: Seq<char>) -> bool
    decreases a.len(),
{
    if a.len() == 0 {
        false
    } else if b.len() == 0 {
        true
    } else if a[0] != b[0] {
        (a[0] as int) > (b[0] as int)
    } else {
        text_after(a.subrange(1, a.len() as int), b.subrange(1, b.len() as int))
    }
}

/// Whether timestamp `incoming` is strictly later than `existing`, comparing
/// the texts as `str` does.
pub fn is_newer(incoming: &str, existing: &str) -> (r: bool)
    ensures
        r == text_after(incoming@, existing@),
{
    let a = chars_of(incoming);
    let b = chars_of(existing);
    let mut i: usize = 0;
    assert(a@.subrange(0, a.len() as int) =~= a@);
    assert(b@.subrange(0, b.len() as int) =~= b@);
    while i < a.len() && i < b.len() && a[i] == b[i]
        invariant
            i <= a.len(),
            i <= b.len(),
            a@ == incoming@,
            b@ == existing@,
            text_after(a@.subrange(i as int, a.len() as int), b@.subrange(i as int, b.len() as int))
                == text_after(incoming@, existing@),
        decreases a.len() - i,
    {
        proof {
            let x = a@.subrange(i as int, a.len() as int);
            let y = b@.subrange(i as int, b.len() as int);
            assert(x.subrange(1, x.len() as int) =~= a@.subrange(i + 1, a.len() as int));
            assert(y.subrange(1, y.len() as int) =~= b@.subrange(i + 1, b.len() as int));
        }
        i = i + 1;
    }
    let ghost x = a@.subrange(i as int, a.len() as int);
    let ghost y = b@.subrange(i as int, b.len() as int);
    if i == a.len() {
        assert(x.len() == 0);
        false
    } else if i == b.len() {
        assert(y.len() == 0);
        true
    } else {
        assert(x[0] == a@[i as int] && y[0] == b@[i as int]);
        a[i] > b[i]
    }
}

/// The creation time of the first row of `rows` with the given key, or the
/// empty text when there is no such row or it has no creation time.
pub open spec fn stored_time(rows: Seq<(Seq<char>, Seq<char>, Option<Seq<char>>)>, key: (Seq<char>, Seq<char>)) -> Seq<char>
    decreases rows.len(),
{
    if rows.len() == 0 {
        Seq::empty()
    } else if (rows[0].0, rows[0].1) == key {
        match rows[0].2 {
            Some(t) => t,
            None => Seq::empty(),
        }
    } else {
        stored_time(rows.subrange(1, rows.len() as int), key)
    }
}

pub open spec fn opt_view(o: Option<String>) -> Option<Seq<char>> {
    match o {
        Some(s) => Some(s@),
        None => None,
    }
}

pub open spec fn qa_times(rows: Seq<QaEntry>) -> Seq<(Seq<char>, Seq<char>, Option<Seq<char>>)> {
    rows.map_values(|e: QaEntry| (e.question@, e.topic@, opt_view(e.created_at)))
}

pub open spec fn knowledge_times(rows: Seq<KnowledgeEntry>) -> Seq<(Seq<char>, Seq<char>, Option<Seq<char>>)> {
    rows.map_values(|e: KnowledgeEntry| (e.knowledge_text@, e.topic@, opt_view(e.created_at)))
}

/// The creation time that `stored` records for the QA row `(question, topic)`.
pub fn stored_qa_time(stored: &Vec<QaEntry>, question: &String, topic: &String) -> (r: String)
    ensures
        r@ == stored_time(qa_times(stored@), (question@, topic@)),
{
    let ghost all = qa_times(stored@);
    let mut i: usize = 0;
    assert(all.subrange(0, all.len() as int) =~= all);
    while i < stored.len()
        invariant
            i <= stored.len(),
            all == qa_times(stored@),
            stored_time(all.subrange(i as int, all.len() as int), (question@, topic@)) == stored_time(all, (question@, topic@)),
        decreases stored.len() - i,
    {
        let ghost rest = all.subrange(i as int, all.len() as int);
        assert(rest[0] == all[i as int]);
        let e = &stored[i];
        if e.question == *question && e.topic == *topic {
            match &e.created_at {
                Some(t) => return t.clone(),
                None => return String::new(),
            }
        }
        assert(rest.subrange(1, rest.len() as int) =~= all.subrange(i + 1, all.len() as int));
        i = i + 1;
    }
    String::new()
}

/// The creation time that `stored` records for the knowledge row `(text, topic)`.
pub fn stored_knowledge_time(stored: &Vec<KnowledgeEntry>, text: &String, topic: &String) -> (r: String)
    ensures
        r@ == stored_time(knowledge_times(stored@), (text@, topic@)),
{
    let ghost all = knowledge_times(stored@);
    let mut i: usize = 0;
    assert(all.subrange(0, all.len() as int) =~= all);
    while i < stored.len()
        invariant
            i <= stored.len(),
            all == knowledge_times(stored@),
            stored_time(all.subrange(i as int, all.len() as int), (text@, topic@)) == stored_time(all, (text@, topic@)),
        decreases stored.len() - i,
    {
        let ghost rest = all.subrange(i as int, all.len() as int);
        assert(rest[0] == all[i as int]);
        let e = &stored[i];
        if e.knowledge_text == *text && e.topic == *topic {
            match &e.created_at {
                Some(t) => return t.clone(),
                None => return String::new(),
            }
        }
        assert(rest.subrange(1, rest.len() as int) =~= all.subrange(i + 1, all.len() as int));
        i = i + 1;
    }
    String::new()
}

/// What importing one shared entry does to the store.
#[derive(Debug, Clone, Copy, PartialEq, Eq, Structural)]
pub enum ImportAction {
    /// No stored row is the same entry: insert the incoming one.
    Insert,
    /// The nearest stored row is the same entry and older: delete it and insert the incoming one.
    Replace,
    /// The nearest stored row is the same entry and not older: keep it, drop the incoming one.
    Keep,
}

/// The incoming entry's time: its own, else the snapshot's export time.
pub open spec fn incoming_time(created_at: Option<String>, fallback: Seq<char>) -> Seq<char> {
    match created_at {
        Some(t) => t@,
        None => fallback,
    }
}

/// Last writer wins: given the incoming entry's time, whether a stored row is
/// the same entry (its distance, if there is a nearest row) and that row's
/// time, what to do.
pub open spec fn import_decision(incoming: Seq<char>, nearest_distance: Option<u32>, existing: Seq<char>) -> ImportAction {
    match nearest_distance {
        Some(d) => if d <= SHARED_IMPORT_DISTANCE {
            if text_after(incoming, existing) { ImportAction::Replace } else { ImportAction::Keep }
        } else {
            ImportAction::Insert
        },
        None => ImportAction::Insert,
    }
}

fn choose_action(incoming: &str, nearest_distance: Option<u32>, existing: &str) -> (r: ImportAction)
    ensures
        r == import_decision(incoming@, nearest_distance, existing@),
{
    match nearest_distance {
        Some(d) => if d <= SHARED_IMPORT_DISTANCE {
            if is_newer(incoming, existing) { ImportAction::Replace } else { ImportAction::Keep }
        } else {
            ImportAction::Insert
        },
        None => ImportAction::Insert,
    }
}

/// What importing the shared QA row `entry` does, given the stored QA row
/// nearest to its question and the stored rows with their times.
pub fn qa_import_action(
    entry: &QaEntry,
    fallback_time: &String,
    nearest: &Option<QaRecord>,
    stored: &Vec<QaEntry>,
) -> (r: ImportAction)
    ensures
        r == import_decision(
            incoming_time(entry.created_at, fallback_time@),
            match nearest { Some(n) => Some(n.score), None => None },
            match nearest {
                Some(n) => stored_time(qa_times(stored@), (n.question@, n.topic@)),
                None => Seq::empty(),
            },
        ),
{
    let incoming = match &entry.created_at {
        Some(t) => t.as_str(),
        None => fallback_time.as_str(),
    };
    match nearest {
        Some(n) => {
            if n.score <= SHARED_IMPORT_DISTANCE {
                let existing = stored_qa_time(stored, &n.question, &n.topic);
                choose_action(incoming, Some(n.score), existing.as_str())
            } else {
                ImportAction::Insert
            }
        },
        None => ImportAction::Insert,
    }
}

/// What importing the shared knowledge row `entry` does, given the stored
/// knowledge row nearest to its text and the stored rows with their times.
pub fn knowledge_import_action(
    entry: &KnowledgeEntry,
    fallback_time: &String,
    nearest: &Option<KnowledgeRecord>,
    stored: &Vec<KnowledgeEntry>,
) -> (r: ImportAction)
    ensures
        r == import_decision(
            incoming_time(entry.created_at, fallback_time@),
            match nearest { Some(n) => Some(n.score), None => None },
            match nearest {
                Some(n) => stored_time(knowledge_times(stored@), (n.knowledge_text@, n.topic@)),
                None => Seq::empty(),
            },
        ),
{
    let incoming = match &entry.created_at {
        Some(t) => t.as_str(),
        None => fallback_time.as_str(),
    };
    match nearest {
        Some(n) => {
            if n.score <= SHARED_IMPORT_DISTANCE {
                let existing = stored_knowledge_time(stored, &n.knowledge_text, &n.topic);
                choose_action(incoming, Some(n.score), existing.as_str())
            } else {
                ImportAction::Insert
            }
        },
        None => ImportAction::Insert,
    }
}

} // verus!
