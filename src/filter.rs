use vstd::prelude::*;

use crate::text::{chars_of, push_char, push_str};

verus! {

/// `s` with every single quote doubled, as a filter literal holds it.
pub open spec fn escaped(s: Seq<char>) -> Seq<char>
    decreases s.len(),
{
    if s.len() == 0 {
        Seq::empty()
    } else {
        let c = s.last();
        escaped(s.drop_last()) + if c == '\'' { seq!['\'', '\''] } else { seq![c] }
    }
}

/// `s` with every pair of single quotes read back as one.
pub open spec fn unescaped(s: Seq<char>) -> Seq<char>
    decreases s.len(),
{
    if s.len() == 0 {
        Seq::empty()
    } else if s[0] == '\'' && s.len() >= 2 && s[1] == '\'' {
        seq!['\''] + unescaped(s.subrange(2, s.len() as int))
    } else {
        seq![s[0]] + unescaped(s.subrange(1, s.len() as int))
    }
}

/// Doubles every single quote of `s`; every other character passes unchanged.
pub fn escape_literal(s: &str) -> (r: String)
    ensures
        r@ == escaped(s@),
{
    let cs = chars_of(s);
    let mut out = String::new();
    let mut i: usize = 0;
    while i < cs.len()
        invariant
            i <= cs.len(),
            cs@ == s@,
            out@ == escaped(s@.take(i as int)),
        decreases cs.len() - i,
    {
        let c = cs[i];
        push_char(&mut out, c);
        if c == '\'' {
            push_char(&mut out, '\'');
        }
        assert(s@.take(i + 1).drop_last() =~= s@.take(i as int));
        i = i + 1;
        assert(out@ =~= escaped(s@.take(i as int)));
    }
    assert(s@.take(i as int) =~= s@);
    out
}

/// Appends `'` + the escaped `value` + `'`.
fn push_quoted(out: &mut String, value: &str)
    ensures
        final(out)@ == old(out)@ + seq!['\''] + escaped(value@) + seq!['\''],
{
    push_char(out, '\'');
    let e = escape_literal(value);
    push_str(out, e.as_str());
    push_char(out, '\'');
}

/// `topic = '<topic>'`: the rows of one topic.
pub fn topic_filter(topic: &str) -> (r: String)
    ensures
        r@ == "topic = "@ + seq!['\''] + escaped(topic@) + seq!['\''],
{
    let mut out = String::new();
    push_str(&mut out, "topic = ");
    push_quoted(&mut out, topic);
    out
}

/// `topic = '<topic>' AND merged = false`: the unmerged QA rows of one topic.
pub fn unmerged_topic_filter(topic: &str) -> (r: String)
    ensures
        r@ == "topic = "@ + seq!['\''] + escaped(topic@) + seq!['\''] + " AND merged = false"@,
{
    let mut out = topic_filter(topic);
    push_str(&mut out, " AND merged = false");
    out
}

/// The update filter that selects the QA rows holding question `q`.
pub open spec fn question_filter_text(q: Seq<char>) -> Seq<char> {
    "question = "@ + seq!['\''] + escaped(q) + seq!['\'']
}

/// `question = '<question>'`: the QA rows that hold one question.
pub fn question_filter(question: &str) -> (r: String)
    ensures
        r@ == question_filter_text(question@),
{
    let mut out = String::new();
    push_str(&mut out, "question = ");
    push_quoted(&mut out, question);
    out
}

/// `topic_name = '<name>'`: the topic of one name.
pub fn topic_name_filter(name: &str) -> (r: String)
    ensures
        r@ == "topic_name = "@ + seq!['\''] + escaped(name@) + seq!['\''],
{
    let mut out = String::new();
    push_str(&mut out, "topic_name = ");
    push_quoted(&mut out, name);
    out
}

/// `question = '<question>' AND topic = '<topic>'`: one QA row by its key.
pub fn qa_key_filter(question: &str, topic: &str) -> (r: String)
    ensures
        r@ == "question = "@ + seq!['\''] + escaped(question@) + seq!['\''] + " AND topic = "@
            + seq!['\''] + escaped(topic@) + seq!['\''],
{
    let mut out = question_filter(question);
    push_str(&mut out, " AND topic = ");
    push_quoted(&mut out, topic);
    out
}

/// `knowledge_text = '<text>' AND topic = '<topic>'`: one knowledge row by its key.
pub fn knowledge_key_filter(text: &str, topic: &str) -> (r: String)
    ensures
        r@ == "knowledge_text = "@ + seq!['\''] + escaped(text@) + seq!['\''] + " AND topic = "@
            + seq!['\''] + escaped(topic@) + seq!['\''],
{
    let mut out = String::new();
    push_str(&mut out, "knowledge_text = ");
    push_quoted(&mut out, text);
    push_str(&mut out, " AND topic = ");
    push_quoted(&mut out, topic);
    out
}

proof fn lemma_escaped_concat(a: Seq<char>, b: Seq<char>)
    ensures
        escaped(a + b) == escaped(a) + escaped(b),
    decreases b.len(),
{
    if b.len() == 0 {
        assert(a + b =~= a);
        assert(escaped(b) =~= Seq::<char>::empty());
        assert(escaped(a) + escaped(b) =~= escaped(a));
    } else {
        let c = b.last();
        lemma_escaped_concat(a, b.drop_last());
        assert((a + b).drop_last() =~= a + b.drop_last());
        assert((a + b).last() == c);
        let tail = if c == '\'' { seq!['\'', '\''] } else { seq![c] };
        assert(escaped(a + b) == escaped(a + b.drop_last()) + tail);
        assert(escaped(b) == escaped(b.drop_last()) + tail);
        assert(escaped(a + b) =~= escaped(a) + escaped(b));
    }
}

/// Reading a filter literal back gives the value that was written into it.
pub proof fn lemma_escape_reversible(s: Seq<char>)
    ensures
        unescaped(escaped(s)) == s,
    decreases s.len(),
{
    if s.len() > 0 {
        let head = seq![s[0]];
        let rest = s.subrange(1, s.len() as int);
        assert(s =~= head + rest);
        lemma_escaped_concat(head, rest);
        assert(head.drop_last() =~= Seq::<char>::empty());
        assert(escaped(Seq::<char>::empty()) =~= Seq::<char>::empty());
        let e = escaped(s);
        lemma_escape_reversible(rest);
        if s[0] == '\'' {
            assert(escaped(head) =~= seq!['\'', '\'']);
            assert(e =~= seq!['\'', '\''] + escaped(rest));
            assert(e.subrange(2, e.len() as int) =~= escaped(rest));
            assert(unescaped(e) =~= seq!['\''] + rest);
        } else {
            assert(escaped(head) =~= seq![s[0]]);
            assert(e =~= seq![s[0]] + escaped(rest));
            assert(e.subrange(1, e.len() as int) =~= escaped(rest));
            assert(unescaped(e) =~= seq![s[0]] + rest);
        }
    }
}

} // verus!
