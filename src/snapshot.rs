//! The per-file artifacts: where each goes and what it holds.
use vstd::prelude::*;
use crate::ignore_policy::names;
use crate::text::{sanitize_filename, sanitized};
use crate::tree::{joined, relative_text};

verus! {

/// The file name of the artifact of a relative path: the flattened path with a
/// `.txt` suffix.
pub open spec fn artifact_name_of(rel: Seq<char>) -> Seq<char> {
    sanitized(rel) + ".txt"@
}

/// The body of an artifact: the base name, a blank line, then the content.
pub open spec fn artifact_body_of(name: Seq<char>, content: Seq<char>) -> Seq<char> {
    name + "\n"@ + "\n"@ + content
}

/// The file name, inside the output directory, of the artifact of `rel`.
pub fn artifact_name(rel: &str) -> (r: String)
    ensures
        r@ == artifact_name_of(rel@),
{
    let mut r = sanitize_filename(rel);
    r.append(".txt");
    r
}

/// The body of the artifact of the file named `name` holding `content`.
pub fn artifact_body(name: &str, content: &str) -> (r: String)
    ensures
        r@ == artifact_body_of(name@, content@),
{
    let mut r = String::from_str(name);
    r.append("\n");
    r.append("\n");
    r.append(content);
    r
}

/// The file name of the artifact of the relative path given by its components.
pub fn artifact_name_for(rel: &Vec<String>) -> (r: String)
    ensures
        r@ == artifact_name_of(joined(names(rel@))),
{
    let text = relative_text(rel);
    artifact_name(text.as_str())
}

} // verus!
