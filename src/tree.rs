//! Lines of the tree document.
use vstd::prelude::*;
use crate::ignore_policy::names;
use crate::text::{capped_indent, decimal, decimal_of, get_indent};

verus! {

/// Directories with more components than this render as one sentinel line.
pub const MAX_NESTED_COMPONENTS: usize = 20;

/// Why a file got a "skipped" line.
#[derive(PartialEq, Eq, Structural, Clone, Copy, Debug)]
pub enum SkipReason {
    BinaryOrTooLarge,
    PathTooLong,
    ErrorReading,
}

/// The text of a relative path: its components joined by forward slashes.
pub open spec fn joined(path: Seq<Seq<char>>) -> Seq<char>
    decreases path.len(),
{
    if path.len() == 0 {
        Seq::empty()
    } else if path.len() == 1 {
        path[0]
    } else {
        joined(path.drop_last()) + seq!['/'] + path.last()
    }
}

/// The text of a relative path given by its components.
pub fn relative_text(path: &Vec<String>) -> (r: String)
    ensures
        r@ == joined(names(path@)),
{
    let mut r = String::new();
    let mut i: usize = 0;
    while i < path.len()
        invariant
            i <= path@.len(),
            r@ == joined(names(path@).subrange(0, i as int)),
        decreases path@.len() - i,
    {
        let ghost pre = names(path@).subrange(0, i as int);
        let ghost next = names(path@).subrange(0, i + 1);
        assert(next.drop_last() =~= pre);
        if i > 0 {
            r.push('/');
        }
        r.append(path[i].as_str());
        proof {
            if i == 0 {
                assert(r@ =~= next[0]);
            } else {
                assert(r@ =~= joined(pre) + seq!['/'] + next.last());
            }
        }
        i = i + 1;
    }
    assert(names(path@).subrange(0, path@.len() as int) =~= names(path@));
    r
}

/// The nesting level of a path: one less than its component count.
pub open spec fn nesting(path: Seq<Seq<char>>) -> nat {
    if path.len() == 0 { 0 } else { (path.len() - 1) as nat }
}

/// The start of an entry's line: indentation and the branch glyph.
pub open spec fn branch(path: Seq<Seq<char>>) -> Seq<char> {
    capped_indent(nesting(path)) + "├── "@
}

/// The line of an accepted directory.
pub open spec fn dir_line(path: Seq<Seq<char>>) -> Seq<char> {
    branch(path) + path.last() + "/"@
}

/// The line of an accepted file.
pub open spec fn file_line(path: Seq<Seq<char>>) -> Seq<char> {
    branch(path) + path.last()
}

/// The line of a skipped file.
pub open spec fn skipped_line(path: Seq<Seq<char>>, reason: SkipReason) -> Seq<char> {
    match reason {
        SkipReason::BinaryOrTooLarge => branch(path) + path.last() + " (skipped - binary or too large)"@,
        SkipReason::PathTooLong => branch(path) + "... (skipped - path too long)"@,
        SkipReason::ErrorReading => branch(path) + path.last() + " (skipped - error reading)"@,
    }
}

/// The sentinel line of a directory nested too deeply.
pub open spec fn nested_line() -> Seq<char> {
    "[Deeply nested directory skipped]"@
}

/// The terminal notice once `max_files` files have been processed.
pub open spec fn notice_line(max_files: nat) -> Seq<char> {
    "[Maximum file limit reached ("@ + decimal_of(max_files) + "). Some files were skipped.]"@
}

fn branch_of(path: &Vec<String>) -> (r: String)
    requires
        path@.len() > 0,
    ensures
        r@ == branch(names(path@)),
{
    let mut r = get_indent(path.len() - 1);
    r.append("├── ");
    r
}

/// The line of an accepted directory.
pub fn render_dir(path: &Vec<String>) -> (r: String)
    requires
        path@.len() > 0,
    ensures
        r@ == dir_line(names(path@)),
{
    let mut r = branch_of(path);
    r.append(path[path.len() - 1].as_str());
    r.append("/");
    r
}

/// The line of an accepted file.
pub fn render_file(path: &Vec<String>) -> (r: String)
    requires
        path@.len() > 0,
    ensures
        r@ == file_line(names(path@)),
{
    let mut r = branch_of(path);
    r.append(path[path.len() - 1].as_str());
    r
}

/// The line of a skipped file.
pub fn render_skipped(path: &Vec<String>, reason: SkipReason) -> (r: String)
    requires
        path@.len() > 0,
    ensures
        r@ == skipped_line(names(path@), reason),
{
    let mut r = branch_of(path);
    match reason {
        SkipReason::BinaryOrTooLarge => {
            r.append(path[path.len() - 1].as_str());
            r.append(" (skipped - binary or too large)");
        },
        SkipReason::PathTooLong => {
            r.append("... (skipped - path too long)");
        },
        SkipReason::ErrorReading => {
            r.append(path[path.len() - 1].as_str());
            r.append(" (skipped - error reading)");
        },
    }
    r
}

/// The sentinel line of a directory nested too deeply.
pub fn render_nested() -> (r: String)
    ensures
        r@ == nested_line(),
{
    String::from_str("[Deeply nested directory skipped]")
}

/// The terminal notice of an exhausted file budget.
pub fn render_notice(max_files: usize) -> (r: String)
    ensures
        r@ == notice_line(max_files as nat),
{
    let mut r = String::from_str("[Maximum file limit reached (");
    let n = decimal(max_files);
    r.append(n.as_str());
    r.append("). Some files were skipped.]");
    r
}

/// The document made of `lines`, each ended by a newline.
pub open spec fn document(lines: Seq<Seq<char>>) -> Seq<char>
    decreases lines.len(),
{
    if lines.len() == 0 {
        Seq::empty()
    } else {
        document(lines.drop_last()) + lines.last() + "\n"@
    }
}

/// The text of the tree document.
pub fn render_document(lines: &Vec<String>) -> (r: String)
    ensures
        r@ == document(names(lines@)),
{
    let mut r = String::new();
    let mut i: usize = 0;
    while i < lines.len()
        invariant
            i <= lines@.len(),
            r@ == document(names(lines@).subrange(0, i as int)),
        decreases lines@.len() - i,
    {
        let ghost next = names(lines@).subrange(0, i + 1);
        assert(next.drop_last() =~= names(lines@).subrange(0, i as int));
        r.append(lines[i].as_str());
        r.append("\n");
        assert(r@ =~= document(next));
        i = i + 1;
    }
    assert(names(lines@).subrange(0, lines@.len() as int) =~= names(lines@));
    r
}

} // verus!
