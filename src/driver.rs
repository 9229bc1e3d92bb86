//! The decisions of one run: for each entry of the walk, whether it is left out,
//! listed, or handed on for its file to be read, and the global file budget.
//! The walk itself and all file access belong to the caller, which feeds each
//! entry in and performs what comes back.
use vstd::prelude::*;
use crate::classify::{Classification, MAX_PATH_CHARS};
use crate::snapshot::{artifact_body, artifact_body_of, artifact_name_for, artifact_name_of};
use crate::ignore_policy::{has_ignored_component, is_ignored, is_under, names, IgnoreSet};
use crate::text::{indent_of, indent_unit, MAX_INDENT_LEVELS};
use crate::tree::{
    branch, dir_line, file_line, joined, nested_line, nesting, notice_line, relative_text,
    render_dir, render_file, render_nested, render_notice, render_skipped, skipped_line,
    SkipReason, MAX_NESTED_COMPONENTS,
};

verus! {

/// What kind of filesystem node an entry is.
#[derive(PartialEq, Eq, Structural, Clone, Copy, Debug)]
pub enum EntryKind {
    Directory,
    File,
    Other,
}

/// What the caller does next with an entry.
#[derive(PartialEq, Eq, Structural, Clone, Copy, Debug)]
pub enum Visit {
    /// The file budget is exhausted: the notice was written and the run is over.
    Stop,
    /// The entry is left out without a line.
    Skip,
    /// The entry got its line and needs nothing more.
    Listed,
    /// A regular file: classify it, read it, then record what came of it.
    Probe,
}

/// The mathematical state of a run.
pub ghost struct RunView {
    pub max_files: nat,
    pub processed: nat,
    pub finished: bool,
    pub lines: Seq<Seq<char>>,
}

/// The counters and the tree document of one run.
pub struct RunState {
    max_files: usize,
    processed: usize,
    finished: bool,
    lines: Vec<String>,
}

impl View for RunState {
    type V = RunView;

    closed spec fn view(&self) -> RunView {
        RunView {
            max_files: self.max_files as nat,
            processed: self.processed as nat,
            finished: self.finished,
            lines: names(self.lines@),
        }
    }
}

/// The reason for the skipped line of a classification, if it is not normal.
pub open spec fn reason_of(c: Classification) -> Option<SkipReason> {
    match c {
        Classification::Binary => Some(SkipReason::BinaryOrTooLarge),
        Classification::TooLarge => Some(SkipReason::BinaryOrTooLarge),
        Classification::TooLongPath => Some(SkipReason::PathTooLong),
        Classification::Normal => None,
    }
}

/// The reason for the skipped line of a classification, if it is not normal.
pub fn skip_reason(c: Classification) -> (r: Option<SkipReason>)
    ensures
        r == reason_of(c),
{
    match c {
        Classification::Binary => Some(SkipReason::BinaryOrTooLarge),
        Classification::TooLarge => Some(SkipReason::BinaryOrTooLarge),
        Classification::TooLongPath => Some(SkipReason::PathTooLong),
        Classification::Normal => None,
    }
}

/// Whether an entry is left out without a line: under the output directory,
/// the root itself, or with an ignored component.
pub open spec fn left_out(
    rel: Seq<Seq<char>>,
    output: Option<Seq<Seq<char>>>,
    ignored: Set<Seq<char>>,
) -> bool {
    (output matches Some(o) && o.is_prefix_of(rel)) || rel.len() == 0 || has_ignored_component(
        rel,
        ignored,
    )
}

/// The outcome of one entry of the walk, from a run that is not over.
pub open spec fn visit_result(
    s: RunView,
    rel: Seq<Seq<char>>,
    kind: EntryKind,
    output: Option<Seq<Seq<char>>>,
    ignored: Set<Seq<char>>,
) -> Visit {
    if s.processed >= s.max_files {
        Visit::Stop
    } else if left_out(rel, output, ignored) {
        Visit::Skip
    } else {
        match kind {
            EntryKind::Directory => Visit::Listed,
            EntryKind::File => if joined(rel).len() > MAX_PATH_CHARS {
                Visit::Listed
            } else {
                Visit::Probe
            },
            EntryKind::Other => Visit::Skip,
        }
    }
}

/// The lines that one entry of the walk adds to the tree document.
pub open spec fn visit_lines(
    s: RunView,
    rel: Seq<Seq<char>>,
    kind: EntryKind,
    output: Option<Seq<Seq<char>>>,
    ignored: Set<Seq<char>>,
) -> Seq<Seq<char>> {
    if s.processed >= s.max_files {
        seq![Seq::empty(), notice_line(s.max_files)]
    } else if left_out(rel, output, ignored) {
        Seq::empty()
    } else {
        match kind {
            EntryKind::Directory => if rel.len() > MAX_NESTED_COMPONENTS {
                seq![nested_line()]
            } else {
                seq![dir_line(rel)]
            },
            EntryKind::File => if joined(rel).len() > MAX_PATH_CHARS {
                seq![skipped_line(rel, SkipReason::PathTooLong)]
            } else {
                Seq::empty()
            },
            EntryKind::Other => Seq::empty(),
        }
    }
}

/// The view of an optional list of components.
pub open spec fn opt_names(o: Option<Vec<String>>) -> Option<Seq<Seq<char>>> {
    match o {
        Some(v) => Some(names(v@)),
        None => None,
    }
}

/// A line that cannot be the budget notice: it does not begin with `[M`.
pub open spec fn not_notice_shape(l: Seq<char>) -> bool {
    l.len() < 2 || l[0] != '[' || l[1] != 'M'
}

proof fn lemma_notice_shape(m: nat)
    ensures
        !not_notice_shape(notice_line(m)),
{
    reveal_strlit("[Maximum file limit reached (");
    let l = notice_line(m);
    assert(l[0] == '[');
    assert(l[1] == 'M');
}

proof fn lemma_indent_start(n: nat)
    ensures
        n > 0 ==> indent_of(n).len() > 0 && indent_of(n)[0] == '│',
    decreases n,
{
    if n > 0 {
        let prev = indent_of((n - 1) as nat);
        assert(indent_of(n) == prev + indent_unit());
        if n > 1 {
            lemma_indent_start((n - 1) as nat);
            assert(indent_of(n)[0] == prev[0]);
        } else {
            assert(prev =~= Seq::<char>::empty());
            assert(indent_of(n)[0] == indent_unit()[0]);
        }
    }
}

proof fn lemma_branch_shape(p: Seq<Seq<char>>, tail: Seq<char>)
    ensures
        not_notice_shape(branch(p) + tail),
{
    reveal_strlit("├── ");
    let d = nesting(p);
    let k: nat = if d <= MAX_INDENT_LEVELS { d } else { MAX_INDENT_LEVELS as nat };
    lemma_indent_start(k);
    let l = branch(p) + tail;
    if k == 0 {
        assert(indent_of(0) =~= Seq::<char>::empty());
        assert(l[0] == '├');
    } else {
        assert(l[0] == '│');
    }
}

proof fn lemma_nested_shape()
    ensures
        not_notice_shape(nested_line()),
{
    reveal_strlit("[Deeply nested directory skipped]");
}

/// The output record of one accepted file: the name of its file inside the
/// output directory, and its body.
pub struct Artifact {
    pub name: String,
    pub body: String,
}

/// One step of a run, as the caller drives it.
pub ghost enum Step {
    /// An entry of the walk handed to `visit`.
    Entry {
        rel: Seq<Seq<char>>,
        kind: EntryKind,
        output: Option<Seq<Seq<char>>>,
        ignored: Set<Seq<char>>,
    },
    /// A file recorded with `record_skipped`.
    Skipped { rel: Seq<Seq<char>>, reason: SkipReason },
    /// A file recorded with `record_accepted`.
    Accepted { rel: Seq<Seq<char>> },
}

/// The state of a run after one step.
pub open spec fn apply(s: RunView, step: Step) -> RunView {
    match step {
        Step::Entry { rel, kind, output, ignored } => RunView {
            lines: s.lines + visit_lines(s, rel, kind, output, ignored),
            finished: s.finished || visit_result(s, rel, kind, output, ignored) == Visit::Stop,
            ..s
        },
        Step::Skipped { rel, reason } => RunView {
            lines: s.lines.push(skipped_line(rel, reason)),
            ..s
        },
        Step::Accepted { rel } => RunView {
            lines: s.lines.push(file_line(rel)),
            processed: s.processed + 1,
            ..s
        },
    }
}

/// The state of a run after a sequence of steps.
pub open spec fn replay(s: RunView, steps: Seq<Step>) -> RunView
    decreases steps.len(),
{
    if steps.len() == 0 {
        s
    } else {
        apply(replay(s, steps.drop_last()), steps.last())
    }
}

/// The paths of the files accepted along a sequence of steps, in order.
pub open spec fn accepted_paths(steps: Seq<Step>) -> Seq<Seq<Seq<char>>>
    decreases steps.len(),
{
    if steps.len() == 0 {
        Seq::empty()
    } else {
        let init = accepted_paths(steps.drop_last());
        match steps.last() {
            Step::Accepted { rel } => init.push(rel),
            _ => init,
        }
    }
}

/// The state of a fresh run with a budget of `max_files` files.
pub open spec fn start(max_files: nat) -> RunView {
    RunView { max_files, processed: 0, finished: false, lines: seq!["."@] }
}

impl RunState {
    /// The state invariant: the budget is never overrun, the document starts with
    /// the root line, and a finished run ends with the notice.
    pub closed spec fn wf(&self) -> bool {
        &&& self.processed <= self.max_files
        &&& self@.lines.len() >= 1
        &&& self@.lines[0] == "."@
        &&& self.finished ==> self@.lines.last() == notice_line(self.max_files as nat)
        &&& forall|i: int|
            0 <= i < self@.lines.len() && !(self.finished && i == self@.lines.len() - 1)
                ==> not_notice_shape(#[trigger] self@.lines[i])
    }

    /// A fresh run whose budget is `max_files` files; its document holds the root
    /// line alone.
    pub fn new(max_files: usize) -> (r: RunState)
        ensures
            r.wf(),
            r@.max_files == max_files,
            r@.processed == 0,
            !r@.finished,
            r@.lines == seq!["."@],
            r@ == start(max_files as nat),
    {
        let mut lines: Vec<String> = Vec::new();
        lines.push(String::from_str("."));
        let r = RunState { max_files, processed: 0, finished: false, lines };
        assert(r@.lines =~= seq!["."@]);
        proof {
            reveal_strlit(".");
        }
        r
    }

    /// How many files have been processed.
    pub fn files_processed(&self) -> (r: usize)
        ensures
            r == self@.processed,
    {
        self.processed
    }

    /// The file budget of the run.
    pub fn max_files(&self) -> (r: usize)
        ensures
            r == self@.max_files,
    {
        self.max_files
    }

    /// Whether the budget was found exhausted and the run is over.
    pub fn is_finished(&self) -> (r: bool)
        ensures
            r == self@.finished,
    {
        self.finished
    }

    /// The lines of the tree document so far.
    pub fn lines(&self) -> (r: &Vec<String>)
        ensures
            names(r@) == self@.lines,
    {
        &self.lines
    }

    fn add_line(&mut self, line: String)
        requires
            old(self).wf(),
            !old(self).finished,
            not_notice_shape(line@),
        ensures
            final(self).wf(),
            final(self)@ == (RunView { lines: old(self)@.lines.push(line@), ..old(self)@ }),
    {
        self.lines.push(line);
        assert(names(self.lines@) =~= names(old(self).lines@).push(line@));
    }

    /// Handles the next entry of the walk, at relative path `rel` (its
    /// components), given the output directory relative to the root, if it lies
    /// under it. Once the budget is exhausted the first entry that follows ends
    /// the run with a blank line and the notice.
    ///
    /// A directory with more than `MAX_NESTED_COMPONENTS` components gets the
    /// sentinel line in place of its own line. The policy is per entry: what lies
    /// beneath it is still judged entry by entry (deeper directories get the
    /// sentinel too, files their usual lines at the capped indentation); the
    /// walk's depth limit is what prunes whole subtrees.
    pub fn visit(
        &mut self,
        rel: &Vec<String>,
        kind: EntryKind,
        output: &Option<Vec<String>>,
        ignored: &IgnoreSet,
    ) -> (r: Visit)
        requires
            old(self).wf(),
            !old(self)@.finished,
        ensures
            final(self).wf(),
            r == visit_result(old(self)@, names(rel@), kind, opt_names(*output), ignored@),
            final(self)@.lines == old(self)@.lines + visit_lines(
                old(self)@,
                names(rel@),
                kind,
                opt_names(*output),
                ignored@,
            ),
            final(self)@.processed == old(self)@.processed,
            final(self)@.max_files == old(self)@.max_files,
            final(self)@.finished == (r == Visit::Stop),
            r == Visit::Probe ==> final(self)@.processed < final(self)@.max_files,
            final(self)@ == apply(
                old(self)@,
                Step::Entry {
                    rel: names(rel@),
                    kind,
                    output: opt_names(*output),
                    ignored: ignored@,
                },
            ),
    {
        let ghost s0 = self@;
        let ghost p = names(rel@);
        if self.processed >= self.max_files {
            self.add_line(String::new());
            let notice = render_notice(self.max_files);
            let ghost before = self.lines@;
            self.lines.push(notice);
            assert(names(self.lines@) =~= names(before).push(notice_line(s0.max_files)));
            self.finished = true;
            proof {
                lemma_notice_shape(self.max_files as nat);
            }
            assert(self@.lines =~= s0.lines + visit_lines(s0, p, kind, opt_names(*output), ignored@));
            return Visit::Stop;
        }
        let under = match output {
            Some(o) => is_under(rel, o),
            None => false,
        };
        if under || rel.len() == 0 || is_ignored(rel, ignored) {
            assert(self@.lines =~= s0.lines + visit_lines(s0, p, kind, opt_names(*output), ignored@));
            return Visit::Skip;
        }
        match kind {
            EntryKind::Directory => {
                if rel.len() > MAX_NESTED_COMPONENTS {
                    proof {
                        lemma_nested_shape();
                    }
                    self.add_line(render_nested());
                } else {
                    proof {
                        lemma_branch_shape(p, p.last() + "/"@);
                        assert(dir_line(p) =~= branch(p) + (p.last() + "/"@));
                    }
                    self.add_line(render_dir(rel));
                }
                assert(self@.lines =~= s0.lines + visit_lines(s0, p, kind, opt_names(*output), ignored@));
                Visit::Listed
            },
            EntryKind::File => {
                let text = relative_text(rel);
                if text.unicode_len() > MAX_PATH_CHARS {
                    proof {
                        lemma_branch_shape(p, "... (skipped - path too long)"@);
                    }
                    self.add_line(render_skipped(rel, SkipReason::PathTooLong));
                    assert(self@.lines =~= s0.lines + visit_lines(s0, p, kind, opt_names(*output), ignored@));
                    Visit::Listed
                } else {
                    assert(self@.lines =~= s0.lines + visit_lines(s0, p, kind, opt_names(*output), ignored@));
                    Visit::Probe
                }
            },
            EntryKind::Other => {
                assert(self@.lines =~= s0.lines + visit_lines(s0, p, kind, opt_names(*output), ignored@));
                Visit::Skip
            },
        }
    }

    /// Records a file that was handed on but not accepted: its skipped line.
    pub fn record_skipped(&mut self, rel: &Vec<String>, reason: SkipReason)
        requires
            old(self).wf(),
            !old(self)@.finished,
            rel@.len() > 0,
        ensures
            final(self).wf(),
            final(self)@ == (RunView {
                lines: old(self)@.lines.push(skipped_line(names(rel@), reason)),
                ..old(self)@
            }),
            final(self)@ == apply(old(self)@, Step::Skipped { rel: names(rel@), reason }),
    {
        proof {
            let p = names(rel@);
            match reason {
                SkipReason::BinaryOrTooLarge => {
                    lemma_branch_shape(p, p.last() + " (skipped - binary or too large)"@);
                    assert(skipped_line(p, reason) =~= branch(p) + (p.last()
                        + " (skipped - binary or too large)"@));
                },
                SkipReason::PathTooLong => {
                    lemma_branch_shape(p, "... (skipped - path too long)"@);
                },
                SkipReason::ErrorReading => {
                    lemma_branch_shape(p, p.last() + " (skipped - error reading)"@);
                    assert(skipped_line(p, reason) =~= branch(p) + (p.last()
                        + " (skipped - error reading)"@));
                },
            }
        }
        self.add_line(render_skipped(rel, reason));
    }

    /// Records a file that was read and accepted: its line, and one more file
    /// against the budget. Returns its artifact, which the caller writes.
    pub fn record_accepted(&mut self, rel: &Vec<String>, content: &str) -> (r: Artifact)
        requires
            old(self).wf(),
            !old(self)@.finished,
            old(self)@.processed < old(self)@.max_files,
            rel@.len() > 0,
        ensures
            final(self).wf(),
            final(self)@ == (RunView {
                lines: old(self)@.lines.push(file_line(names(rel@))),
                processed: old(self)@.processed + 1,
                ..old(self)@
            }),
            final(self)@ == apply(old(self)@, Step::Accepted { rel: names(rel@) }),
            r.name@ == artifact_name_of(joined(names(rel@))),
            r.body@ == artifact_body_of(names(rel@).last(), content@),
    {
        proof {
            lemma_branch_shape(names(rel@), names(rel@).last());
        }
        self.add_line(render_file(rel));
        self.processed = self.processed + 1;
        let name = artifact_name_for(rel);
        let body = artifact_body(rel[rel.len() - 1].as_str(), content);
        Artifact { name, body }
    }
}

/// The file budget holds: no more files are processed than allowed, and the
/// notice stands in the document exactly once when the run is over (as its last
/// line), and nowhere before.
pub proof fn lemma_budget(s: &RunState)
    requires
        s.wf(),
    ensures
        s@.processed <= s@.max_files,
        s@.lines.len() >= 1,
        s@.finished ==> s@.lines.last() == notice_line(s@.max_files),
        forall|i: int|
            0 <= i < s@.lines.len() && !(s@.finished && i == s@.lines.len() - 1)
                ==> #[trigger] s@.lines[i] != notice_line(s@.max_files),
{
    lemma_notice_shape(s@.max_files);
    assert forall|i: int|
        0 <= i < s@.lines.len() && !(s@.finished && i == s@.lines.len() - 1)
            implies #[trigger] s@.lines[i] != notice_line(s@.max_files) by {
        assert(not_notice_shape(s@.lines[i]));
    }
}

/// An entry with an ignored component, and every entry beneath it, is left out
/// silently: no line, and it is never handed on to be read.
pub proof fn lemma_ignored_silent(
    s: RunView,
    rel: Seq<Seq<char>>,
    below: Seq<Seq<char>>,
    kind: EntryKind,
    output: Option<Seq<Seq<char>>>,
    ignored: Set<Seq<char>>,
)
    requires
        has_ignored_component(rel, ignored),
        s.processed < s.max_files,
    ensures
        visit_result(s, rel + below, kind, output, ignored) == Visit::Skip,
        visit_lines(s, rel + below, kind, output, ignored) == Seq::<Seq<char>>::empty(),
{
    crate::ignore_policy::lemma_ignored_subtree(rel, below, ignored);
}

/// A file whose relative path is longer than `MAX_PATH_CHARS` characters is never
/// handed on to be opened: it gets its "path too long" line at once.
pub proof fn lemma_long_path_not_opened(
    s: RunView,
    rel: Seq<Seq<char>>,
    output: Option<Seq<Seq<char>>>,
    ignored: Set<Seq<char>>,
)
    requires
        joined(rel).len() > MAX_PATH_CHARS,
        s.processed < s.max_files,
        !left_out(rel, output, ignored),
    ensures
        visit_result(s, rel, EntryKind::File, output, ignored) == Visit::Listed,
        visit_lines(s, rel, EntryKind::File, output, ignored) == seq![
            skipped_line(rel, SkipReason::PathTooLong),
        ],
{
}

/// One artifact per accepted file line: along any run, the count of processed
/// files grows by exactly the files accepted, each of which added one file line
/// (and had `record_accepted` hand out one artifact), while every other step
/// leaves the count alone.
pub proof fn lemma_processed_counts_accepted(s: RunView, steps: Seq<Step>)
    ensures
        replay(s, steps).processed == s.processed + accepted_paths(steps).len(),
        replay(s, steps).max_files == s.max_files,
    decreases steps.len(),
{
    if steps.len() > 0 {
        lemma_processed_counts_accepted(s, steps.drop_last());
    }
}

/// The tree lines of a run only grow: what was written stays.
pub proof fn lemma_lines_grow(s: RunView, steps: Seq<Step>)
    ensures
        s.lines.is_prefix_of(replay(s, steps).lines),
    decreases steps.len(),
{
    if steps.len() > 0 {
        lemma_lines_grow(s, steps.drop_last());
        let mid = replay(s, steps.drop_last());
        let next = replay(s, steps);
        assert(mid.lines.is_prefix_of(next.lines));
        assert(s.lines =~= next.lines.subrange(0, s.lines.len() as int));
    }
}

/// Two runs driven by the same steps from the same budget end in the same
/// state: the same tree document and the same accepted files, whose artifacts'
/// names and bodies are functions of their paths and contents.
pub proof fn lemma_same_steps_same_run(max_files: nat, first: Seq<Step>, second: Seq<Step>)
    requires
        first == second,
    ensures
        replay(start(max_files), first) == replay(start(max_files), second),
        accepted_paths(first) == accepted_paths(second),
{
}

} // verus!
