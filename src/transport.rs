use vstd::prelude::*;

use crate::text::{chars_of, push_char, push_str};

verus! {

/// `serde_json::Value`, carried through as an opaque value.
#[verifier::external_type_specification]
#[verifier::external_body]
pub struct ExJsonValue(serde_json::Value);

/// The number of bytes that UTF-8 takes for `c`.
pub open spec fn utf8_width(c: char) -> nat {
    if (c as int) < 0x80 {
        1
    } else if (c as int) < 0x800 {
        2
    } else if (c as int) < 0x10000 {
        3
    } else {
        4
    }
}

/// The number of bytes that UTF-8 takes for `s`.
pub open spec fn utf8_len(s: Seq<char>) -> nat
    decreases s.len(),
{
    if s.len() == 0 {
        0
    } else {
        utf8_len(s.drop_last()) + utf8_width(s.last())
    }
}

/// The JSON-RPC error code of a frame that does not parse.
pub const PARSE_ERROR_CODE: i32 = -32700;

/// The payload bytes quoted in a parse-error reply at most.
pub const RAW_QUOTE_LIMIT: usize = 200;

/// `k` characters of `s` are the longest prefix that fits in `limit` bytes.
pub open spec fn longest_fit(s: Seq<char>, limit: nat, k: int) -> bool {
    &&& 0 <= k <= s.len()
    &&& utf8_len(s.take(k)) <= limit
    &&& (k == s.len() || utf8_len(s.take(k + 1)) > limit)
}

/// The payload as a parse-error reply quotes it: whole when it fits in the
/// limit, else its longest prefix that fits, followed by `...`.
pub open spec fn quoted_payload(raw: Seq<char>, q: Seq<char>) -> bool {
    if utf8_len(raw) <= RAW_QUOTE_LIMIT {
        q == raw
    } else {
        exists|k: int| longest_fit(raw, RAW_QUOTE_LIMIT as nat, k) && q == raw.take(k) + "..."@
    }
}

fn char_width(c: char) -> (r: usize)
    ensures
        r == utf8_width(c),
{
    let v = c as u32;
    if v < 0x80 {
        1
    } else if v < 0x800 {
        2
    } else if v < 0x10000 {
        3
    } else {
        4
    }
}

/// The number of leading characters of `cs` that fit in `limit` bytes.
fn fit_len(cs: &Vec<char>, limit: usize) -> (k: usize)
    requires
        limit <= 0x10000,
    ensures
        longest_fit(cs@, limit as nat, k as int),
{
    let mut used: usize = 0;
    let mut k: usize = 0;
    while k < cs.len() && used + char_width(cs[k]) <= limit
        invariant
            k <= cs.len(),
            limit <= 0x10000,
            used == utf8_len(cs@.take(k as int)),
            used <= limit,
        decreases cs.len() - k,
    {
        assert(cs@.take(k + 1).drop_last() =~= cs@.take(k as int));
        used = used + char_width(cs[k]);
        k = k + 1;
    }
    if k < cs.len() {
        assert(cs@.take(k + 1).drop_last() =~= cs@.take(k as int));
    }
    k
}

/// The text of the first `k` characters of `cs`.
fn leading_text(cs: &Vec<char>, k: usize) -> (r: String)
    requires
        k <= cs.len(),
    ensures
        r@ == cs@.take(k as int),
{
    let mut out = String::new();
    let mut i: usize = 0;
    while i < k
        invariant
            i <= k <= cs.len(),
            out@ == cs@.take(i as int),
        decreases k - i,
    {
        push_char(&mut out, cs[i]);
        i = i + 1;
        assert(out@ =~= cs@.take(i as int));
    }
    out
}

/// The longest prefix of `s` whose UTF-8 form fits in `limit` bytes.
pub fn text_preview(s: &str, limit: usize) -> (r: String)
    requires
        limit <= 0x10000,
    ensures
        exists|k: int| longest_fit(s@, limit as nat, k) && r@ == s@.take(k),
{
    let cs = chars_of(s);
    let k = fit_len(&cs, limit);
    leading_text(&cs, k)
}

/// The payload as a parse-error reply quotes it.
pub fn quote_payload(raw: &str) -> (r: String)
    ensures
        quoted_payload(raw@, r@),
{
    let cs = chars_of(raw);
    let k = fit_len(&cs, RAW_QUOTE_LIMIT);
    let mut out = leading_text(&cs, k);
    if k == cs.len() {
        assert(raw@.take(k as int) =~= raw@);
        out
    } else {
        proof {
            lemma_utf8_len_prefix(raw@, k as int + 1);
        }
        push_str(&mut out, "...");
        out
    }
}

/// A prefix never takes more bytes than the whole.
proof fn lemma_utf8_len_prefix(s: Seq<char>, k: int)
    requires
        0 <= k <= s.len(),
    ensures
        utf8_len(s.take(k)) <= utf8_len(s),
    decreases s.len(),
{
    if k < s.len() {
        assert(s.drop_last().take(k) =~= s.take(k));
        lemma_utf8_len_prefix(s.drop_last(), k);
    } else {
        assert(s.take(k) =~= s);
    }
}

/// The error reply to a frame that does not parse: the request id found in
/// the frame, if any, and the message.
pub struct ParseErrorReply {
    pub id: Option<serde_json::Value>,
    pub message: String,
}

/// What `serde_json::from_str` reads from a text: the JSON value, or none
/// when the text is not one JSON document.
pub uninterp spec fn parsed_json(raw: Seq<char>) -> Option<serde_json::Value>;

/// What `serde_json::Value::get` finds in a value under a key: the member,
/// or none when the value is not an object or has no such member.
pub uninterp spec fn json_member_of(v: serde_json::Value, key: Seq<char>) -> Option<serde_json::Value>;

/// Relies on `serde_json::from_str`: the JSON value that `raw` holds, or
/// none when `raw` is not one JSON document; it depends on `raw` alone.
#[verifier::external_body]
fn parse_json(raw: &str) -> (r: Option<serde_json::Value>)
    ensures
        r == parsed_json(raw@),
{
    serde_json::from_str::<serde_json::Value>(raw).ok()
}

/// Relies on `serde_json::Value::get`: a copy of the member `key` of `v`, or
/// none when `v` is not an object or has no such member.
#[verifier::external_body]
fn json_member(v: &serde_json::Value, key: &str) -> (r: Option<serde_json::Value>)
    ensures
        r == json_member_of(*v, key@),
{
    v.get(key).cloned()
}

/// The request id of a frame: the member `id` of the JSON object it holds,
/// or none when it holds no JSON or no such member.
pub open spec fn frame_id(raw: Seq<char>) -> Option<serde_json::Value> {
    match parsed_json(raw) {
        Some(v) => json_member_of(v, "id"@),
        None => None,
    }
}

/// The reply to the malformed frame `raw` that the parser refused with
/// `error`: the id is the frame's own request id, if it has one; the
/// message names the parser's error and quotes the frame.
pub fn parse_error_reply(raw: &str, error: &str) -> (r: ParseErrorReply)
    ensures
        r.id == frame_id(raw@),
        exists|q: Seq<char>| quoted_payload(raw@, q) && r.message@ == "Failed to parse JSON-RPC message: "@ + error@
            + ". Ensure your request is valid JSON-RPC 2.0 conforming to the MCP protocol. Raw input: "@ + q,
{
    let id = match parse_json(raw) {
        Some(v) => json_member(&v, "id"),
        None => None,
    };
    let quoted = quote_payload(raw);
    let mut message = String::new();
    push_str(&mut message, "Failed to parse JSON-RPC message: ");
    push_str(&mut message, error);
    push_str(&mut message, ". Ensure your request is valid JSON-RPC 2.0 conforming to the MCP protocol. Raw input: ");
    push_str(&mut message, quoted.as_str());
    ParseErrorReply { id, message }
}

} // verus!
