use vstd::prelude::*;

use crate::filter::{question_filter, question_filter_text};
use crate::model::{KnowledgeEntry, QaRecord};
use crate::text::{decimal, push_decimal, push_str};

verus! {

/// The questions of `rows`, in order.
pub open spec fn questions_of(rows: Seq<QaRecord>) -> Seq<Seq<char>> {
    rows.map_values(|r: QaRecord| r.question@)
}

/// Position `j` holds the first occurrence of `q` in `qs`.
pub open spec fn first_at(qs: Seq<Seq<char>>, q: Seq<char>, j: int) -> bool {
    &&& 0 <= j < qs.len()
    &&& qs[j] == q
    &&& forall|k: int| 0 <= k < j ==> qs[k] != q
}

/// Growing a cluster: for each similar question in turn, the first candidate
/// that holds it joins the cluster unless it is already clustered.
/// Returns the cluster's positions and the clustered flags.
pub open spec fn grow(
    qs: Seq<Seq<char>>,
    cluster: Seq<usize>,
    clustered: Seq<bool>,
    similar: Seq<Seq<char>>,
) -> (Seq<usize>, Seq<bool>)
    decreases similar.len(),
{
    if similar.len() == 0 {
        (cluster, clustered)
    } else {
        let (c, f) = grow(qs, cluster, clustered, similar.drop_last());
        let q = similar.last();
        if exists|j: int| first_at(qs, q, j) {
            let j = choose|j: int| first_at(qs, q, j);
            if !f[j] {
                (c.push(j as usize), f.update(j, true))
            } else {
                (c, f)
            }
        } else {
            (c, f)
        }
    }
}

/// The body of a merge prompt: one numbered block per clustered QA pair.
pub open spec fn prompt_blocks(rows: Seq<QaRecord>, cluster: Seq<usize>) -> Seq<char>
    decreases cluster.len(),
{
    if cluster.len() == 0 {
        Seq::empty()
    } else {
        let r = rows[cluster.last() as int];
        prompt_blocks(rows, cluster.drop_last()) + "QA "@ + decimal(cluster.len()) + ":\nQ: "@
            + r.question@ + "\nA: "@ + r.answer@ + "\n\n"@
    }
}

/// The questions at the positions of `cluster`, in cluster order.
pub open spec fn cluster_questions(rows: Seq<QaRecord>, cluster: Seq<usize>) -> Seq<Seq<char>> {
    cluster.map_values(|i: usize| rows[i as int].question@)
}

/// The text `Topic '<topic>': merged <n> QA pairs`.
pub open spec fn merge_detail(topic: Seq<char>, n: nat) -> Seq<char> {
    "Topic "@ + seq!['\''] + topic + seq!['\''] + ": merged "@ + decimal(n) + " QA pairs"@
}

/// The fewest QA pairs that a merge turns into one knowledge row.
pub const MIN_CLUSTER_SIZE: usize = 2;

/// The opening line of every merge prompt.
pub const MERGE_PROMPT_HEADER: &'static str = "Merge the following QA pairs into a concise knowledge summary:\n\n";

/// The system prompt sent with every merge request.
pub const MERGE_SYSTEM_PROMPT: &'static str = "You are a knowledge synthesis assistant. Merge the following QA pairs into a concise, comprehensive knowledge summary. Preserve all important information but eliminate redundancy.";

/// One merge pass over the unmerged QA rows of one topic: which rows have
/// already been put in a cluster.
pub struct MergePass {
    pub topic: String,
    pub candidates: Vec<QaRecord>,
    pub clustered: Vec<bool>,
}

impl MergePass {
    pub open spec fn wf(&self) -> bool {
        self.clustered.len() == self.candidates.len()
    }

    /// A pass over `candidates`, none of them clustered yet.
    pub fn new(topic: String, candidates: Vec<QaRecord>) -> (r: MergePass)
        ensures
            r.wf(),
            r.topic == topic,
            r.candidates == candidates,
            forall|i: int| 0 <= i < r.clustered.len() ==> !r.clustered[i],
    {
        let mut clustered: Vec<bool> = Vec::new();
        let mut i: usize = 0;
        while i < candidates.len()
            invariant
                i <= candidates.len(),
                clustered.len() == i,
                forall|k: int| 0 <= k < i ==> !clustered[k],
            decreases candidates.len() - i,
        {
            clustered.push(false);
            i = i + 1;
        }
        MergePass { topic, candidates, clustered }
    }

    pub fn len(&self) -> (r: usize)
        ensures
            r == self.candidates.len(),
    {
        self.candidates.len()
    }

    /// Whether candidate `i` already belongs to a cluster.
    pub fn is_clustered(&self, i: usize) -> (r: bool)
        requires
            self.wf(),
            i < self.candidates.len(),
        ensures
            r == self.clustered[i as int],
    {
        self.clustered[i]
    }

    /// The first unclustered candidate at or after position `from`: the next
    /// anchor of the pass, taken in retrieval order.
    pub fn next_anchor(&self, from: usize) -> (r: Option<usize>)
        requires
            self.wf(),
        ensures
            match r {
                Some(a) => from <= a < self.candidates.len() && !self.clustered[a as int]
                    && forall|k: int| from <= k < a ==> self.clustered[k],
                None => forall|k: int| from <= k < self.candidates.len() ==> self.clustered[k],
            },
    {
        let mut i = from;
        while i < self.clustered.len()
            invariant
                self.wf(),
                from <= i,
                forall|k: int| from <= k < i ==> self.clustered[k],
            decreases self.clustered.len() - i,
        {
            if !self.clustered[i] {
                return Some(i);
            }
            i = i + 1;
        }
        None
    }

    /// The first candidate that holds `question`, if any.
    pub fn position_of(&self, question: &String) -> (r: Option<usize>)
        ensures
            match r {
                Some(j) => first_at(questions_of(self.candidates@), question@, j as int),
                None => forall|k: int|
                    0 <= k < self.candidates.len() ==> self.candidates[k].question@ != question@,
            },
    {
        let mut i: usize = 0;
        while i < self.candidates.len()
            invariant
                i <= self.candidates.len(),
                forall|k: int| 0 <= k < i ==> self.candidates[k].question@ != question@,
            decreases self.candidates.len() - i,
        {
            if self.candidates[i].question == *question {
                return Some(i);
            }
            i = i + 1;
        }
        None
    }

    /// Forms the cluster around the unclustered `anchor`, given the rows that a
    /// similarity search found around it: the anchor first, then each found row
    /// that is a candidate not yet clustered. Every member becomes clustered.
    pub fn form_cluster(&mut self, anchor: usize, similar: &Vec<QaRecord>) -> (r: Vec<usize>)
        requires
            old(self).wf(),
            anchor < old(self).candidates.len(),
        ensures
            final(self).wf(),
            final(self).topic == old(self).topic,
            final(self).candidates == old(self).candidates,
            (r@, final(self).clustered@) == grow(
                questions_of(old(self).candidates@),
                seq![anchor],
                old(self).clustered@.update(anchor as int, true),
                questions_of(similar@),
            ),
    {
        let ghost qs = questions_of(self.candidates@);
        let ghost sq = questions_of(similar@);
        self.clustered.set(anchor, true);
        let mut cluster: Vec<usize> = Vec::new();
        cluster.push(anchor);
        let ghost start = self.clustered@;
        let mut s: usize = 0;
        while s < similar.len()
            invariant
                self.wf(),
                s <= similar.len(),
                self.candidates == old(self).candidates,
                self.topic == old(self).topic,
                qs == questions_of(self.candidates@),
                sq == questions_of(similar@),
                start == old(self).clustered@.update(anchor as int, true),
                (cluster@, self.clustered@) == grow(qs, seq![anchor], start, sq.take(s as int)),
            decreases similar.len() - s,
        {
            assert(sq.take(s as int + 1).drop_last() =~= sq.take(s as int));
            let found = self.position_of(&similar[s].question);
            match found {
                Some(j) => {
                    if !self.clustered[j] {
                        self.clustered.set(j, true);
                        cluster.push(j);
                    }
                },
                None => {},
            }
            proof {
                let q = sq.take(s as int + 1).last();
                assert(q == similar[s as int].question@);
                match found {
                    Some(j) => {
                        assert(first_at(qs, q, j as int));
                        let c = choose|c: int| first_at(qs, q, c);
                        assert(first_at(qs, q, c));
                        if c < j {
                            assert(qs[c] == q);
                        } else if j < c {
                            assert(qs[j as int] == q);
                        }
                        assert(c == j);
                    },
                    None => {
                        assert(!exists|c: int| first_at(qs, q, c));
                    },
                }
            }
            s = s + 1;
        }
        assert(sq.take(similar.len() as int) =~= sq);
        cluster
    }

    /// The prompt that asks for one knowledge summary of the clustered pairs.
    pub fn merge_prompt(&self, cluster: &Vec<usize>) -> (r: String)
        requires
            forall|k: int| 0 <= k < cluster.len() ==> cluster[k] < self.candidates.len(),
            cluster.len() < u64::MAX,
        ensures
            r@ == MERGE_PROMPT_HEADER@ + prompt_blocks(self.candidates@, cluster@),
    {
        let mut out = String::new();
        push_str(&mut out, MERGE_PROMPT_HEADER);
        let mut j: usize = 0;
        while j < cluster.len()
            invariant
                j <= cluster.len(),
                cluster.len() < u64::MAX,
                forall|k: int| 0 <= k < cluster.len() ==> cluster[k] < self.candidates.len(),
                out@ == MERGE_PROMPT_HEADER@ + prompt_blocks(self.candidates@, cluster@.take(j as int)),
            decreases cluster.len() - j,
        {
            let row = &self.candidates[cluster[j]];
            push_str(&mut out, "QA ");
            push_decimal(&mut out, (j + 1) as u64);
            push_str(&mut out, ":\nQ: ");
            push_str(&mut out, row.question.as_str());
            push_str(&mut out, "\nA: ");
            push_str(&mut out, row.answer.as_str());
            push_str(&mut out, "\n\n");
            proof {
                let t = cluster@.take(j as int + 1);
                assert(t.drop_last() =~= cluster@.take(j as int));
                assert(t.last() == cluster[j as int]);
            }
            j = j + 1;
        }
        assert(cluster@.take(cluster.len() as int) =~= cluster@);
        out
    }

    /// Whether a cluster is worth merging: it needs at least two QA pairs.
    pub fn mergeable(cluster: &Vec<usize>) -> (r: bool)
        ensures
            r == (cluster.len() >= MIN_CLUSTER_SIZE),
    {
        cluster.len() >= MIN_CLUSTER_SIZE
    }

    /// The knowledge row that a merged text makes of a cluster: none when the
    /// cluster has fewer than two pairs or the text is empty, else the text
    /// under the pass's topic, with the cluster's questions as its sources.
    pub fn knowledge_draft(&self, cluster: &Vec<usize>, merged_text: String) -> (r: Option<KnowledgeEntry>)
        requires
            forall|k: int| 0 <= k < cluster.len() ==> cluster[k] < self.candidates.len(),
        ensures
            (cluster.len() < MIN_CLUSTER_SIZE || merged_text@.len() == 0) ==> r is None,
            (cluster.len() >= MIN_CLUSTER_SIZE && merged_text@.len() > 0) ==> (r matches Some(e) && e.knowledge_text == merged_text
                && e.topic@ == self.topic@ && e.created_at is None
                && e.source_questions@.map_values(|q: String| q@) == cluster_questions(self.candidates@, cluster@)),
    {
        if cluster.len() < MIN_CLUSTER_SIZE || merged_text.as_str().is_empty() {
            return None;
        }
        let mut sources: Vec<String> = Vec::new();
        let mut j: usize = 0;
        while j < cluster.len()
            invariant
                j <= cluster.len(),
                sources.len() == j,
                forall|k: int| 0 <= k < cluster.len() ==> cluster[k] < self.candidates.len(),
                sources@.map_values(|q: String| q@) == cluster_questions(self.candidates@, cluster@.take(j as int)),
            decreases cluster.len() - j,
        {
            let ghost before = sources@;
            let q = self.candidates[cluster[j]].question.clone();
            sources.push(q);
            proof {
                let t = cluster@.take(j as int + 1);
                let old_t = cluster@.take(j as int);
                assert forall|k: int| 0 <= k < j + 1 implies sources@.map_values(|q: String| q@)[k]
                    == cluster_questions(self.candidates@, t)[k] by {
                    if k < j {
                        assert(old_t[k] == t[k]);
                        assert(before.map_values(|q: String| q@)[k] == cluster_questions(self.candidates@, old_t)[k]);
                    }
                }
                assert(sources@.map_values(|q: String| q@) =~= cluster_questions(self.candidates@, t));
            }
            j = j + 1;
        }
        assert(cluster@.take(cluster.len() as int) =~= cluster@);
        Some(KnowledgeEntry {
            knowledge_text: merged_text,
            topic: self.topic.clone(),
            source_questions: sources,
            created_at: None,
        })
    }
}

/// One update filter per source question of a knowledge row: applied in
/// turn, they set `merged` on every QA row that holds one of those questions.
pub fn mark_merged_filters(questions: &Vec<String>) -> (r: Vec<String>)
    ensures
        r.len() == questions.len(),
        forall|i: int| 0 <= i < r.len() ==> r[i]@ == question_filter_text(questions[i]@),
{
    let mut out: Vec<String> = Vec::new();
    let mut i: usize = 0;
    while i < questions.len()
        invariant
            i <= questions.len(),
            out.len() == i,
            forall|k: int| 0 <= k < i ==> out[k]@ == question_filter_text(questions[k]@),
        decreases questions.len() - i,
    {
        out.push(question_filter(questions[i].as_str()));
        i = i + 1;
    }
    out
}

/// What a merge call has done so far: how many knowledge rows it wrote, and
/// one line of detail per row.
pub struct MergeReport {
    pub total_merges: u64,
    pub details: Vec<String>,
}

impl MergeReport {
    pub fn new() -> (r: MergeReport)
        ensures
            r.total_merges == 0,
            r.details@.len() == 0,
    {
        MergeReport { total_merges: 0, details: Vec::new() }
    }

    /// Records one knowledge row written for `topic` out of `pairs` QA pairs.
    pub fn record(&mut self, topic: &str, pairs: usize)
        requires
            old(self).total_merges < u64::MAX,
        ensures
            final(self).total_merges == old(self).total_merges + 1,
            final(self).details@.len() == old(self).details@.len() + 1,
            forall|i: int| 0 <= i < old(self).details@.len() ==> final(self).details[i] == old(self).details[i],
            final(self).details@.last()@ == merge_detail(topic@, pairs as nat),
    {
        let mut line = String::new();
        push_str(&mut line, "Topic '");
        push_str(&mut line, topic);
        push_str(&mut line, "': merged ");
        push_decimal(&mut line, pairs as u64);
        push_str(&mut line, " QA pairs");
        proof {
            reveal_strlit("Topic '");
            reveal_strlit("Topic ");
            reveal_strlit("': merged ");
            reveal_strlit(": merged ");
            assert(line@ =~= merge_detail(topic@, pairs as nat));
        }
        self.details.push(line);
        self.total_merges = self.total_merges + 1;
    }

    /// Whether any knowledge row was written.
    pub fn merged_any(&self) -> (r: bool)
        ensures
            r == (self.total_merges > 0),
    {
        self.total_merges > 0
    }

    /// The status of the reply: `merged` once a knowledge row was written, else `no_merges`.
    pub fn status(&self) -> (r: &'static str)
        ensures
            r@ == if self.total_merges > 0 { "merged"@ } else { "no_merges"@ },
    {
        if self.total_merges > 0 { "merged" } else { "no_merges" }
    }
}

} // verus!
