use vstd::prelude::*;

use crate::text::{chars_of, push_char, push_str, same_text};

verus! {

/// The tools that the server offers.
#[derive(Debug, Clone, Copy, PartialEq, Eq, Structural)]
pub enum ToolKind {
    StoreQa,
    QueryQa,
    MergeKnowledge,
}

pub open spec fn tool_named(name: Seq<char>) -> Option<ToolKind> {
    if name == "store_qa"@ {
        Some(ToolKind::StoreQa)
    } else if name == "query_qa"@ {
        Some(ToolKind::QueryQa)
    } else if name == "merge_knowledge"@ {
        Some(ToolKind::MergeKnowledge)
    } else {
        None
    }
}

/// The tool that a call names; an unknown name is an internal error.
pub fn tool_kind(name: &str) -> (r: Option<ToolKind>)
    ensures
        r == tool_named(name@),
{
    if same_text(name, "store_qa") {
        Some(ToolKind::StoreQa)
    } else if same_text(name, "query_qa") {
        Some(ToolKind::QueryQa)
    } else if same_text(name, "merge_knowledge") {
        Some(ToolKind::MergeKnowledge)
    } else {
        None
    }
}

/// The message of the error for a call of an unknown tool.
pub fn unknown_tool_message(name: &str) -> (r: String)
    ensures
        r@ == "Unknown tool: "@ + name@,
{
    let mut out = String::new();
    push_str(&mut out, "Unknown tool: ");
    push_str(&mut out, name);
    out
}

/// The message of the error for tool arguments that do not parse.
pub fn invalid_params_message(tool: &str, error: &str) -> (r: String)
    ensures
        r@ == "Invalid "@ + tool@ + " params: "@ + error@,
{
    let mut out = String::new();
    push_str(&mut out, "Invalid ");
    push_str(&mut out, tool);
    push_str(&mut out, " params: ");
    push_str(&mut out, error);
    out
}

/// The scheme that every knowledge resource address starts with.
pub const KNOWLEDGE_SCHEME: &'static str = "knowledge://";

/// The template of the knowledge resource addresses.
pub const KNOWLEDGE_URI_TEMPLATE: &'static str = "knowledge://{topic}/{query}";

/// Why a resource address names no knowledge search.
#[derive(Debug, Clone, Copy, PartialEq, Eq, Structural)]
pub enum UriError {
    /// It does not start with `knowledge://`.
    NotKnowledge,
    /// No `/` follows the scheme.
    NoQuery,
    /// The topic or the query is empty.
    EmptyPart,
}

/// The topic and query of a knowledge address: after the scheme, the text up
/// to the first `/` is the topic and the rest is the query.
pub open spec fn knowledge_parts(uri: Seq<char>) -> Result<(Seq<char>, Seq<char>), UriError> {
    let scheme = KNOWLEDGE_SCHEME@;
    if !(scheme.len() <= uri.len() && uri.take(scheme.len() as int) == scheme) {
        Err(UriError::NotKnowledge)
    } else {
        let path = uri.skip(scheme.len() as int);
        if !(exists|i: int| 0 <= i < path.len() && path[i] == '/') {
            Err(UriError::NoQuery)
        } else {
            let k = choose|i: int| 0 <= i < path.len() && path[i] == '/' && forall|j: int| 0 <= j < i ==> path[j] != '/';
            let topic = path.take(k);
            let query = path.skip(k + 1);
            if topic.len() == 0 || query.len() == 0 {
                Err(UriError::EmptyPart)
            } else {
                Ok((topic, query))
            }
        }
    }
}

/// The text of `cs` from `from` to `to`.
fn text_of(cs: &Vec<char>, from: usize, to: usize) -> (r: String)
    requires
        from <= to <= cs.len(),
    ensures
        r@ == cs@.subrange(from as int, to as int),
{
    let mut out = String::new();
    let mut i = from;
    while i < to
        invariant
            from <= i <= to <= cs.len(),
            out@ == cs@.subrange(from as int, i as int),
        decreases to - i,
    {
        push_char(&mut out, cs[i]);
        i = i + 1;
        assert(out@ =~= cs@.subrange(from as int, i as int));
    }
    out
}

/// Splits a knowledge address into its topic and its query.
pub fn parse_knowledge_uri(uri: &str) -> (r: Result<(String, String), UriError>)
    ensures
        match r {
            Ok((t, q)) => knowledge_parts(uri@) == Ok::<(Seq<char>, Seq<char>), UriError>((t@, q@)),
            Err(e) => knowledge_parts(uri@) == Err::<(Seq<char>, Seq<char>), UriError>(e),
        },
{
    let cs = chars_of(uri);
    let scheme = chars_of(KNOWLEDGE_SCHEME);
    let n = scheme.len();
    if n > cs.len() {
        return Err(UriError::NotKnowledge);
    }
    let mut i: usize = 0;
    while i < n
        invariant
            i <= n <= cs.len(),
            scheme@ == KNOWLEDGE_SCHEME@,
            n == scheme.len(),
            cs@ == uri@,
            forall|j: int| 0 <= j < i ==> cs@[j] == scheme@[j],
        decreases n - i,
    {
        if cs[i] != scheme[i] {
            assert(uri@.take(n as int)[i as int] != scheme@[i as int]);
            return Err(UriError::NotKnowledge);
        }
        i = i + 1;
    }
    assert(uri@.take(n as int) =~= scheme@);
    let ghost path = uri@.skip(n as int);
    let mut k: usize = n;
    while k < cs.len() && cs[k] != '/'
        invariant
            n <= k <= cs.len(),
            cs@ == uri@,
            path == uri@.skip(n as int),
            forall|j: int| 0 <= j < k - n ==> path[j] != '/',
        decreases cs.len() - k,
    {
        k = k + 1;
    }
    if k == cs.len() {
        assert(!(exists|j: int| 0 <= j < path.len() && path[j] == '/'));
        return Err(UriError::NoQuery);
    }
    let ghost at = (k - n) as int;
    assert(path[at] == '/');
    proof {
        let c = choose|i: int| 0 <= i < path.len() && path[i] == '/' && forall|j: int| 0 <= j < i ==> path[j] != '/';
        if c < at {
        } else if at < c {
            assert(path[at] == '/');
        }
        assert(c == at);
    }
    let topic = text_of(&cs, n, k);
    let query = text_of(&cs, k + 1, cs.len());
    assert(topic@ =~= path.take(at));
    assert(query@ =~= path.skip(at + 1));
    if topic.as_str().is_empty() || query.as_str().is_empty() {
        return Err(UriError::EmptyPart);
    }
    Ok((topic, query))
}

impl UriError {
    /// The message of the resource-not-found error for address `uri`.
    pub fn message(&self, uri: &str) -> (r: String)
        ensures
            match self {
                UriError::NotKnowledge => r@ == "Invalid knowledge URI: "@ + uri@,
                UriError::NoQuery => r@ == "URI must have format knowledge://{topic}/{query}, got: "@ + uri@,
                UriError::EmptyPart => r@ == "Topic and query must not be empty"@,
            },
    {
        let mut out = String::new();
        match self {
            UriError::NotKnowledge => {
                push_str(&mut out, "Invalid knowledge URI: ");
                push_str(&mut out, uri);
            },
            UriError::NoQuery => {
                push_str(&mut out, "URI must have format knowledge://{topic}/{query}, got: ");
                push_str(&mut out, uri);
            },
            UriError::EmptyPart => {
                push_str(&mut out, "Topic and query must not be empty");
            },
        }
        out
    }
}

} // verus!
