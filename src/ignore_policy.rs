//! Which entries of the walk are left out: names ignored anywhere in a path, and
//! everything under the output directory.
use vstd::prelude::*;

verus! {

/// The character sequences of a list of strings.
pub open spec fn names(v: Seq<String>) -> Seq<Seq<char>> {
    v.map_values(|s: String| s@)
}

/// The names ignored in every run.
pub open spec fn default_names() -> Seq<Seq<char>> {
    seq![
        "node_modules"@, "target"@, "dist"@, "build"@, ".git"@, ".idea"@, ".vscode"@,
        "__pycache__"@, ".next"@, "out"@, "coverage"@, ".vercel"@, ".turbo"@,
    ]
}

/// What `str::trim` makes of a name.
pub uninterp spec fn trimmed_of(s: Seq<char>) -> Seq<char>;

/// Relies on `str::trim`: leading and trailing white space removed.
#[verifier::external_body]
fn trim_name(s: &String) -> (r: String)
    ensures
        r@ == trimmed_of(s@),
{
    s.trim().to_string()
}

/// The pieces of a text cut at each comma, from left to right; a text without a
/// comma is one piece.
pub open spec fn comma_pieces(s: Seq<char>) -> Seq<Seq<char>>
    decreases s.len(),
{
    if s.len() == 0 {
        seq![Seq::empty()]
    } else {
        let init = comma_pieces(s.drop_last());
        if s.last() == ',' {
            init.push(Seq::empty())
        } else {
            init.update(init.len() - 1, init.last().push(s.last()))
        }
    }
}

/// The names that a comma-separated list adds: each piece trimmed; an empty list
/// adds none.
pub open spec fn user_names(extra: Seq<char>) -> Seq<Seq<char>> {
    if extra.len() == 0 {
        Seq::empty()
    } else {
        comma_pieces(extra).map_values(|p: Seq<char>| trimmed_of(p))
    }
}

/// A set of bare names; a path with any component among them is left out.
pub struct IgnoreSet {
    pub names: Vec<String>,
}

impl View for IgnoreSet {
    type V = Set<Seq<char>>;

    open spec fn view(&self) -> Set<Seq<char>> {
        names(self.names@).to_set()
    }
}

fn split_names(extra: &str) -> (r: Vec<String>)
    ensures
        names(r@) == user_names(extra@),
{
    let len = extra.unicode_len();
    let mut pieces: Vec<String> = Vec::new();
    if len == 0 {
        assert(names(pieces@) =~= user_names(extra@));
        return pieces;
    }
    let mut current = String::new();
    let ghost mut raw: Seq<Seq<char>> = Seq::empty();
    let mut i: usize = 0;
    assert(extra@.subrange(0, 0) =~= Seq::<char>::empty());
    while i < len
        invariant
            i <= len,
            len == extra@.len(),
            comma_pieces(extra@.subrange(0, i as int)) == raw.push(current@),
            names(pieces@) =~= raw.map_values(|p: Seq<char>| trimmed_of(p)),
        decreases len - i,
    {
        let c = extra.get_char(i);
        let ghost prefix = extra@.subrange(0, i as int);
        let ghost next = extra@.subrange(0, i + 1);
        assert(next.drop_last() =~= prefix);
        assert(next.last() == c);
        if c == ',' {
            let t = trim_name(&current);
            let ghost before = pieces@;
            pieces.push(t);
            proof {
                assert(names(pieces@) =~= names(before).push(trimmed_of(current@)));
                raw = raw.push(current@);
                assert(names(pieces@) =~= raw.map_values(|p: Seq<char>| trimmed_of(p)));
            }
            current = String::new();
            assert(comma_pieces(next) =~= raw.push(current@));
        } else {
            current.push(c);
            assert(comma_pieces(next) =~= raw.push(current@));
        }
        i = i + 1;
    }
    let t = trim_name(&current);
    let ghost before = pieces@;
    pieces.push(t);
    proof {
        assert(extra@.subrange(0, len as int) =~= extra@);
        assert(names(pieces@) =~= names(before).push(trimmed_of(current@)));
        raw = raw.push(current@);
        assert(names(pieces@) =~= raw.map_values(|p: Seq<char>| trimmed_of(p)));
    }
    assert(names(pieces@) =~= user_names(extra@));
    pieces
}

fn default_list() -> (r: Vec<String>)
    ensures
        names(r@) == default_names(),
{
    let mut v: Vec<String> = Vec::new();
    v.push(String::from_str("node_modules"));
    v.push(String::from_str("target"));
    v.push(String::from_str("dist"));
    v.push(String::from_str("build"));
    v.push(String::from_str(".git"));
    v.push(String::from_str(".idea"));
    v.push(String::from_str(".vscode"));
    v.push(String::from_str("__pycache__"));
    v.push(String::from_str(".next"));
    v.push(String::from_str("out"));
    v.push(String::from_str("coverage"));
    v.push(String::from_str(".vercel"));
    v.push(String::from_str(".turbo"));
    assert(names(v@) =~= default_names());
    v
}

proof fn lemma_concat_to_set(a: Seq<Seq<char>>, b: Seq<Seq<char>>)
    ensures
        (a + b).to_set() == a.to_set() + b.to_set(),
{
    assert forall|n: Seq<char>| (a + b).contains(n) <==> a.contains(n) || b.contains(n) by {
        if (a + b).contains(n) {
            let k = choose|k: int| 0 <= k < (a + b).len() && (a + b)[k] == n;
            if k < a.len() {
                assert(a[k] == n);
            } else {
                assert(b[k - a.len()] == n);
            }
        }
        if a.contains(n) {
            let k = choose|k: int| 0 <= k < a.len() && a[k] == n;
            assert((a + b)[k] == n);
        }
        if b.contains(n) {
            let k = choose|k: int| 0 <= k < b.len() && b[k] == n;
            assert((a + b)[k + a.len()] == n);
        }
    }
    assert((a + b).to_set() =~= a.to_set() + b.to_set());
}

impl IgnoreSet {
    /// The built-in names together with the comma-separated names of `extra`,
    /// each trimmed.
    pub fn new(extra: &str) -> (r: IgnoreSet)
        ensures
            r@ == default_names().to_set() + user_names(extra@).to_set(),
    {
        let mut v = default_list();
        let mut user = split_names(extra);
        let ghost d = v@;
        let ghost u = user@;
        v.append(&mut user);
        proof {
            assert(names(v@) =~= names(d) + names(u));
            lemma_concat_to_set(names(d), names(u));
        }
        IgnoreSet { names: v }
    }

    /// Whether `name` is in the set.
    pub fn contains(&self, name: &String) -> (r: bool)
        ensures
            r == self@.contains(name@),
    {
        let mut i: usize = 0;
        while i < self.names.len()
            invariant
                i <= self.names@.len(),
                forall|j: int| 0 <= j < i ==> self.names@[j]@ != name@,
            decreases self.names@.len() - i,
        {
            if self.names[i] == *name {
                assert(names(self.names@)[i as int] == name@);
                return true;
            }
            i = i + 1;
        }
        assert(!names(self.names@).contains(name@));
        false
    }
}

/// Some component of the path is an ignored name.
pub open spec fn has_ignored_component(path: Seq<Seq<char>>, set: Set<Seq<char>>) -> bool {
    exists|i: int| 0 <= i < path.len() && set.contains(#[trigger] path[i])
}

/// Whether any component of the relative path `path` is an ignored name.
pub fn is_ignored(path: &Vec<String>, set: &IgnoreSet) -> (r: bool)
    ensures
        r == has_ignored_component(names(path@), set@),
{
    let mut i: usize = 0;
    while i < path.len()
        invariant
            i <= path@.len(),
            forall|j: int| 0 <= j < i ==> !set@.contains(#[trigger] names(path@)[j]),
        decreases path@.len() - i,
    {
        if set.contains(&path[i]) {
            assert(set@.contains(names(path@)[i as int]));
            return true;
        }
        i = i + 1;
    }
    false
}

/// A path with an ignored component keeps it in every path beneath it, so the
/// whole subtree under an ignored name is left out.
pub proof fn lemma_ignored_subtree(path: Seq<Seq<char>>, below: Seq<Seq<char>>, set: Set<Seq<char>>)
    requires
        has_ignored_component(path, set),
    ensures
        has_ignored_component(path + below, set),
{
    let i = choose|i: int| 0 <= i < path.len() && set.contains(#[trigger] path[i]);
    assert((path + below)[i] == path[i]);
}

/// Whether the relative path `path` is `dir` itself or lies beneath it.
pub fn is_under(path: &Vec<String>, dir: &Vec<String>) -> (r: bool)
    ensures
        r == names(dir@).is_prefix_of(names(path@)),
{
    if dir.len() > path.len() {
        return false;
    }
    let mut i: usize = 0;
    while i < dir.len()
        invariant
            i <= dir@.len() <= path@.len(),
            forall|j: int| 0 <= j < i ==> names(dir@)[j] == names(path@)[j],
        decreases dir@.len() - i,
    {
        if path[i] != dir[i] {
            assert(names(dir@)[i as int] != names(path@).subrange(0, dir@.len() as int)[i as int]);
            return false;
        }
        i = i + 1;
    }
    assert(names(dir@) =~= names(path@).subrange(0, dir@.len() as int));
    true
}

} // verus!
