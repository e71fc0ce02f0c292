use vstd::prelude::*;
use std::path::{Path, PathBuf};

use crate::sync::JSON_FILENAME;
use crate::text::{chars_of, push_str};
use crate::transport::{longest_fit, text_preview};

verus! {

/// `std::path::Path`, carried through as an opaque value.
#[verifier::external_type_specification]
#[verifier::external_body]
pub struct ExPath(Path);

/// `std::path::PathBuf`, carried through as an opaque value.
#[verifier::external_type_specification]
#[verifier::external_body]
pub struct ExPathBuf(PathBuf);

/// What `Path::join` makes of a directory and a name.
pub uninterp spec fn joined_path(dir: &Path, name: Seq<char>) -> PathBuf;

/// Relies on `Path::join`: the path `name` inside the directory `dir`; the
/// result depends on the two arguments alone.
#[verifier::external_body]
fn join_path(dir: &Path, name: &str) -> (r: PathBuf)
    ensures
        r == joined_path(dir, name@),
{
    dir.join(name)
}

/// The path of the snapshot file inside the data directory.
pub fn json_path(data_dir: &Path) -> (r: PathBuf)
    ensures
        r == joined_path(data_dir, JSON_FILENAME@),
{
    join_path(data_dir, JSON_FILENAME)
}

/// The ending of the name of every file that holds a shared snapshot to import.
pub const SHARED_SUFFIX: &'static str = "_shared.json";

/// Whether a file of this name holds a shared snapshot to import.
pub fn is_shared_file(name: &str) -> (r: bool)
    ensures
        r == (SHARED_SUFFIX@.len() <= name@.len()
            && name@.skip(name@.len() - SHARED_SUFFIX@.len()) == SHARED_SUFFIX@),
{
    let cs = chars_of(name);
    let suffix = chars_of(SHARED_SUFFIX);
    if suffix.len() > cs.len() {
        return false;
    }
    let start = cs.len() - suffix.len();
    let ghost tail = name@.skip(start as int);
    let mut i: usize = 0;
    while i < suffix.len()
        invariant
            i <= suffix.len(),
            start + suffix.len() == cs.len(),
            cs@ == name@,
            suffix@ == SHARED_SUFFIX@,
            tail == name@.skip(start as int),
            forall|j: int| 0 <= j < i ==> tail[j] == suffix@[j],
        decreases suffix.len() - i,
    {
        if cs[start + i] != suffix[i] {
            assert(tail[i as int] != suffix@[i as int]);
            return false;
        }
        i = i + 1;
    }
    assert(tail =~= suffix@);
    true
}

/// Bytes of a knowledge text that an import error line quotes at most.
pub const PREVIEW_LIMIT: usize = 50;

/// The import error line for a QA row of file `file`.
pub fn qa_import_error(file: &str, question: &str, error: &str) -> (r: String)
    ensures
        r@ == "["@ + file@ + "] QA '"@ + question@ + "': "@ + error@,
{
    let mut out = String::new();
    push_str(&mut out, "[");
    push_str(&mut out, file);
    push_str(&mut out, "] QA '");
    push_str(&mut out, question);
    push_str(&mut out, "': ");
    push_str(&mut out, error);
    out
}

/// The import error line for a knowledge row of file `file`: it quotes the
/// longest prefix of the text that fits in the preview limit.
pub fn knowledge_import_error(file: &str, text: &str, error: &str) -> (r: String)
    ensures
        exists|k: int| longest_fit(text@, PREVIEW_LIMIT as nat, k)
            && r@ == "["@ + file@ + "] Knowledge '"@ + text@.take(k) + "': "@ + error@,
{
    let preview = text_preview(text, PREVIEW_LIMIT);
    let mut out = String::new();
    push_str(&mut out, "[");
    push_str(&mut out, file);
    push_str(&mut out, "] Knowledge '");
    push_str(&mut out, preview.as_str());
    push_str(&mut out, "': ");
    push_str(&mut out, error);
    out
}

/// The error line for a shared file that could not be read or imported.
pub fn file_import_error(file: &str, error: &str) -> (r: String)
    ensures
        r@ == "["@ + file@ + "] Import failed: "@ + error@,
{
    let mut out = String::new();
    push_str(&mut out, "[");
    push_str(&mut out, file);
    push_str(&mut out, "] Import failed: ");
    push_str(&mut out, error);
    out
}

/// The error line for a shared file that was imported but not deleted.
pub fn delete_error(file: &str, error: &str) -> (r: String)
    ensures
        r@ == "["@ + file@ + "] Failed to delete after import: "@ + error@,
{
    let mut out = String::new();
    push_str(&mut out, "[");
    push_str(&mut out, file);
    push_str(&mut out, "] Failed to delete after import: ");
    push_str(&mut out, error);
    out
}

} // verus!
