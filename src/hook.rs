use vstd::prelude::*;

use crate::model::DEFAULT_SEARCH_LIMIT;

verus! {

/// A recall request that can be served.
#[derive(Debug, Clone)]
pub struct RecallPlan {
    /// The prose that locates the topic.
    pub context: String,
    /// The question to search for within the topic, if one was given.
    pub question: Option<String>,
    /// How many rows of each kind to return at most.
    pub limit: usize,
}

/// A recall request without a context; it is answered with status 400.
#[derive(Debug, Clone, Copy, PartialEq, Eq, Structural)]
pub enum RecallError {
    MissingContext,
}

pub open spec fn non_empty(o: Option<String>) -> Option<String> {
    match o {
        Some(s) => if s@.len() > 0 { Some(s) } else { None },
        None => None,
    }
}

/// Reads the parameters of a recall request: the context must be present and
/// non-empty; an empty question counts as none; the limit defaults to the
/// search limit.
pub fn recall_plan(context: Option<String>, q: Option<String>, limit: Option<usize>) -> (r: Result<RecallPlan, RecallError>)
    ensures
        match non_empty(context) {
            None => r == Err::<RecallPlan, RecallError>(RecallError::MissingContext),
            Some(c) => r matches Ok(p) && p.context == c && p.question == non_empty(q)
                && p.limit == match limit { Some(n) => n, None => DEFAULT_SEARCH_LIMIT },
        },
{
    let context = match context {
        Some(c) => if c.as_str().is_empty() { None } else { Some(c) },
        None => None,
    };
    let question = match q {
        Some(s) => if s.as_str().is_empty() { None } else { Some(s) },
        None => None,
    };
    let limit = match limit {
        Some(n) => n,
        None => DEFAULT_SEARCH_LIMIT,
    };
    match context {
        Some(c) => Ok(RecallPlan { context: c, question, limit }),
        None => Err(RecallError::MissingContext),
    }
}

impl RecallPlan {
    /// Whether QA rows are searched too: only when a question was given;
    /// without one, only knowledge rows are recalled.
    pub fn searches_qa(&self) -> (r: bool)
        ensures
            r == self.question is Some,
    {
        self.question.is_some()
    }

    /// The text whose embedding the searches within the topic use: the
    /// question when one was given, else the context.
    pub fn search_text(&self) -> (r: &String)
        ensures
            r == match self.question {
                Some(q) => q,
                None => self.context,
            },
    {
        match &self.question {
            Some(q) => q,
            None => &self.context,
        }
    }
}

} // verus!
