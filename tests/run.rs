use llm_context_gen::classify::{classify, Classification, FileFacts};
use llm_context_gen::driver::{skip_reason, EntryKind, RunState, Visit};
use llm_context_gen::ignore_policy::IgnoreSet;
use llm_context_gen::snapshot::{artifact_body, artifact_name, artifact_name_for};
use llm_context_gen::tree::{
    relative_text, render_dir, render_document, render_file, render_notice, render_skipped,
    SkipReason,
};

fn comps(parts: &[&str]) -> Vec<String> {
    parts.iter().map(|p| p.to_string()).collect()
}

fn text_facts(content: &str) -> FileFacts {
    FileFacts { prefix: Some(content.as_bytes().to_vec()), size: Some(content.len() as u64) }
}

/// Feeds one file through a run, as the program does; returns its artifact.
fn feed_file(
    state: &mut RunState,
    rel: &[&str],
    content: &str,
    set: &IgnoreSet,
) -> (Visit, Option<(String, String)>) {
    let rel = comps(rel);
    let v = state.visit(&rel, EntryKind::File, &None, set);
    if v != Visit::Probe {
        return (v, None);
    }
    let text = relative_text(&rel);
    let name = rel.last().unwrap().clone();
    let c = classify(&text, &name, &text_facts(content));
    match skip_reason(c) {
        Some(reason) => {
            state.record_skipped(&rel, reason);
            (v, None)
        }
        None => {
            let art = state.record_accepted(&rel, content);
            assert_eq!(art.name, artifact_name_for(&rel));
            assert_eq!(art.body, artifact_body(&name, content));
            (v, Some((art.name, art.body)))
        }
    }
}

#[test]
fn node_modules_scenario() {
    let set = IgnoreSet::new("");
    let mut state = RunState::new(2000);
    assert_eq!(state.visit(&comps(&[]), EntryKind::Directory, &None, &set), Visit::Skip);
    let (_, art) = feed_file(&mut state, &["a.txt"], "hello", &set);
    assert_eq!(
        state.visit(&comps(&["node_modules"]), EntryKind::Directory, &None, &set),
        Visit::Skip
    );
    let (v, none) = feed_file(&mut state, &["node_modules", "b.js"], "x", &set);
    assert_eq!(v, Visit::Skip);
    assert!(none.is_none());
    assert_eq!(render_document(state.lines()), ".\n├── a.txt\n");
    let (name, body) = art.unwrap();
    assert_eq!(name, "a.txt.txt");
    assert_eq!(body, "a.txt\n\nhello");
    assert_eq!(state.files_processed(), 1);
}

#[test]
fn budget_notice_once() {
    let set = IgnoreSet::new("");
    let mut state = RunState::new(2);
    let mut artifacts = 0;
    let mut stops = 0;
    for i in 0..5 {
        let name = format!("f{}.rs", i);
        let (v, art) = feed_file(&mut state, &[name.as_str()], "fn main() {}", &set);
        if art.is_some() {
            artifacts += 1;
        }
        if v == Visit::Stop {
            stops += 1;
            break;
        }
    }
    assert_eq!(artifacts, 2);
    assert_eq!(stops, 1);
    assert!(state.is_finished());
    let notice = "[Maximum file limit reached (2). Some files were skipped.]";
    assert_eq!(state.lines().iter().filter(|l| l.as_str() == notice).count(), 1);
    assert_eq!(
        render_document(state.lines()),
        format!(".\n├── f0.rs\n├── f1.rs\n\n{}\n", notice)
    );
}

#[test]
fn zero_budget_stops_at_first_entry() {
    let set = IgnoreSet::new("");
    let mut state = RunState::new(0);
    assert_eq!(state.visit(&comps(&[]), EntryKind::Directory, &None, &set), Visit::Stop);
    assert_eq!(state.files_processed(), 0);
    assert_eq!(state.lines().len(), 3);
}

#[test]
fn skipped_files_do_not_count() {
    let set = IgnoreSet::new("");
    let mut state = RunState::new(10);
    let (_, a) = feed_file(&mut state, &["img", "logo.png"], "text", &set);
    let (_, b) = feed_file(&mut state, &["bin.dat"], "a\0b", &set);
    assert!(a.is_none() && b.is_none());
    assert_eq!(state.files_processed(), 0);
    assert_eq!(
        render_document(state.lines()),
        ".\n│   ├── logo.png (skipped - binary or too large)\n├── bin.dat (skipped - binary or too large)\n"
    );
}

#[test]
fn directories_and_nesting() {
    let set = IgnoreSet::new("");
    let mut state = RunState::new(10);
    assert_eq!(state.visit(&comps(&["src"]), EntryKind::Directory, &None, &set), Visit::Listed);
    assert_eq!(
        state.visit(&comps(&["src", "util"]), EntryKind::Directory, &None, &set),
        Visit::Listed
    );
    let (_, art) = feed_file(&mut state, &["src", "util", "m.rs"], "mod m;", &set);
    assert_eq!(art.unwrap().0, "src_util_m.rs.txt");
    assert_eq!(
        render_document(state.lines()),
        ".\n├── src/\n│   ├── util/\n│   │   ├── m.rs\n"
    );
}

#[test]
fn deeply_nested_directory_sentinel() {
    let set = IgnoreSet::new("");
    let mut state = RunState::new(10);
    let deep: Vec<String> = (0..21).map(|i| format!("d{}", i)).collect();
    assert_eq!(state.visit(&deep, EntryKind::Directory, &None, &set), Visit::Listed);
    let twenty: Vec<String> = (0..20).map(|i| format!("d{}", i)).collect();
    assert_eq!(state.visit(&twenty, EntryKind::Directory, &None, &set), Visit::Listed);
    let lines = state.lines();
    assert_eq!(lines[1], "[Deeply nested directory skipped]");
    assert_eq!(lines[2], format!("{}├── d19/", "│   ".repeat(10)));
}

#[test]
fn long_path_listed_without_probe() {
    let set = IgnoreSet::new("");
    let mut state = RunState::new(10);
    let long = "x".repeat(198);
    let rel = comps(&["ab", long.as_str()]);
    assert_eq!(state.visit(&rel, EntryKind::File, &None, &set), Visit::Listed);
    assert_eq!(state.lines()[1], "│   ├── ... (skipped - path too long)");
    let ok = "x".repeat(197);
    let rel = comps(&["ab", ok.as_str()]);
    assert_eq!(state.visit(&rel, EntryKind::File, &None, &set), Visit::Probe);
}

#[test]
fn output_directory_and_other_entries_skipped() {
    let set = IgnoreSet::new("");
    let mut state = RunState::new(10);
    let out = Some(comps(&["llm-context"]));
    assert_eq!(state.visit(&comps(&["llm-context"]), EntryKind::Directory, &out, &set), Visit::Skip);
    assert_eq!(
        state.visit(&comps(&["llm-context", "file-tree.txt"]), EntryKind::File, &out, &set),
        Visit::Skip
    );
    assert_eq!(state.visit(&comps(&["link"]), EntryKind::Other, &out, &set), Visit::Skip);
    assert_eq!(state.lines().len(), 1);
}

#[test]
fn same_input_same_output() {
    let run = || {
        let set = IgnoreSet::new("tmp");
        let mut state = RunState::new(3);
        let mut arts = Vec::new();
        for (rel, body) in [(vec!["a.md"], "# a"), (vec!["tmp", "x"], "x"), (vec!["b", "c.rs"], "c")] {
            if let (_, Some(a)) = feed_file(&mut state, &rel, body, &set) {
                arts.push(a);
            }
        }
        (render_document(state.lines()), arts)
    };
    assert_eq!(run(), run());
}

#[test]
fn skip_reasons_and_lines() {
    assert_eq!(skip_reason(Classification::Binary), Some(SkipReason::BinaryOrTooLarge));
    assert_eq!(skip_reason(Classification::TooLarge), Some(SkipReason::BinaryOrTooLarge));
    assert_eq!(skip_reason(Classification::TooLongPath), Some(SkipReason::PathTooLong));
    assert_eq!(skip_reason(Classification::Normal), None);
    let rel = comps(&["a", "b.txt"]);
    assert_eq!(render_skipped(&rel, SkipReason::ErrorReading), "│   ├── b.txt (skipped - error reading)");
    assert_eq!(render_file(&rel), "│   ├── b.txt");
    assert_eq!(render_dir(&comps(&["a"])), "├── a/");
    assert_eq!(render_notice(2000), "[Maximum file limit reached (2000). Some files were skipped.]");
}

#[test]
fn artifact_names_and_bodies() {
    assert_eq!(artifact_name("src/main.rs"), "src_main.rs.txt");
    assert_eq!(artifact_name(&"q".repeat(160)), format!("{}.txt", "q".repeat(150)));
    assert_eq!(artifact_body("main.rs", "fn main() {}\n"), "main.rs\n\nfn main() {}\n");
    assert_eq!(artifact_body("e", ""), "e\n\n");
    assert_eq!(relative_text(&comps(&["a", "b", "c.rs"])), "a/b/c.rs");
}
