use rust_cleanup::engine::{decide, run_walk, Action, CleanFlags, ScanEntry};
use rust_cleanup::ProjectType;

fn entry(path: &str, has_dioxus_toml: bool, has_cargo_toml: bool) -> ScanEntry {
    ScanEntry { path: String::from(path), has_dioxus_toml, has_cargo_toml }
}

fn lines(ls: &[&str]) -> Vec<String> {
    ls.iter().map(|l| String::from(*l)).collect()
}

const NO_FLAGS: CleanFlags = CleanFlags { yes_cargo: false, yes_dioxus: false, yes_all: false };

#[test]
fn decide_ignores_regular_whatever_the_flags_and_answer() {
    assert_eq!(decide(ProjectType::Regular, true, true, true, Some(true)), Action::Ignore);
    assert_eq!(decide(ProjectType::Regular, false, false, false, None), Action::Ignore);
}

#[test]
fn decide_autocleans_without_consulting_the_answer() {
    assert_eq!(decide(ProjectType::Rust, false, true, false, Some(false)), Action::Clean);
    assert_eq!(decide(ProjectType::Dioxus, true, false, false, None), Action::Clean);
}

#[test]
fn decide_follows_the_answer_when_prompting() {
    assert_eq!(decide(ProjectType::Rust, false, false, false, Some(true)), Action::Clean);
    assert_eq!(decide(ProjectType::Rust, false, false, false, Some(false)), Action::Skip);
    assert_eq!(decide(ProjectType::Dioxus, false, false, false, None), Action::Ignore);
}

#[test]
fn regular_directories_produce_no_action_and_no_output() {
    let entries = vec![entry("/c", false, false), entry("/d", false, false)];
    let input = lines(&["y", "y"]);
    let r = run_walk(&entries, NO_FLAGS, &input);
    assert!(r.cleaned.is_empty());
    assert!(r.skipped.is_empty());
    assert!(r.prompted.is_empty());
}

#[test]
fn yes_all_cleans_every_marked_project_without_prompting() {
    let entries = vec![
        entry("/a", false, true),
        entry("/a/b", true, false),
        entry("/c", false, false),
        entry("/d", true, true),
    ];
    let flags = CleanFlags { yes_cargo: false, yes_dioxus: false, yes_all: true };
    let input = lines(&["n", "n", "n", "n"]);
    let r = run_walk(&entries, flags, &input);
    assert!(r.prompted.is_empty());
    assert!(r.skipped.is_empty());
    let cleaned: Vec<(String, ProjectType)> =
        r.cleaned.iter().map(|c| (c.path.clone(), c.project_type)).collect();
    assert_eq!(
        cleaned,
        vec![
            (String::from("/a"), ProjectType::Rust),
            (String::from("/a/b"), ProjectType::Dioxus),
            (String::from("/d"), ProjectType::Dioxus),
        ]
    );
}

#[test]
fn declining_every_prompt_skips_every_marked_project_in_order() {
    let entries = vec![
        entry("/a", false, true),
        entry("/c", false, false),
        entry("/a/b", true, false),
    ];
    let input = lines(&["n", "n"]);
    let r = run_walk(&entries, NO_FLAGS, &input);
    assert!(r.cleaned.is_empty());
    assert_eq!(r.skipped, vec![String::from("/a"), String::from("/a/b")]);
    assert_eq!(r.prompted, vec![String::from("/a"), String::from("/a/b")]);
}

#[test]
fn mixed_flags_scenario_cleans_prompts_and_ignores() {
    // root holds /a with Cargo.toml, /a/b with Dioxus.toml, /c with no marker;
    // --yes-cargo is set, the one prompt (for /a/b) is declined.
    let entries = vec![
        entry("/a", false, true),
        entry("/a/b", true, false),
        entry("/c", false, false),
    ];
    let flags = CleanFlags { yes_cargo: true, yes_dioxus: false, yes_all: false };
    let input = lines(&["n"]);
    let r = run_walk(&entries, flags, &input);
    let cleaned: Vec<(String, ProjectType)> =
        r.cleaned.iter().map(|c| (c.path.clone(), c.project_type)).collect();
    assert_eq!(cleaned, vec![(String::from("/a"), ProjectType::Rust)]);
    assert_eq!(r.prompted, vec![String::from("/a/b")]);
    assert_eq!(r.skipped, vec![String::from("/a/b")]);
}

#[test]
fn invalid_lines_are_consumed_without_advancing_to_the_next_project() {
    let entries = vec![entry("/a", false, true), entry("/b", false, true)];
    let input = lines(&["x", "huh", "y", "n"]);
    let r = run_walk(&entries, NO_FLAGS, &input);
    let cleaned: Vec<(String, ProjectType)> =
        r.cleaned.iter().map(|c| (c.path.clone(), c.project_type)).collect();
    assert_eq!(cleaned, vec![(String::from("/a"), ProjectType::Rust)]);
    assert_eq!(r.skipped, vec![String::from("/b")]);
    assert_eq!(r.prompted, vec![String::from("/a"), String::from("/b")]);
}

#[test]
fn exhausted_input_leaves_later_projects_untouched() {
    let entries = vec![entry("/a", false, true), entry("/b", true, false)];
    let input = lines(&["n"]);
    let r = run_walk(&entries, NO_FLAGS, &input);
    assert!(r.cleaned.is_empty());
    assert_eq!(r.skipped, vec![String::from("/a")]);
    // the second prompt was shown but input had ended: no decision, no skip
    assert_eq!(r.prompted, vec![String::from("/a"), String::from("/b")]);
}

#[test]
fn empty_scan_does_nothing() {
    let entries: Vec<ScanEntry> = Vec::new();
    let input: Vec<String> = Vec::new();
    let r = run_walk(&entries, NO_FLAGS, &input);
    assert!(r.cleaned.is_empty() && r.skipped.is_empty() && r.prompted.is_empty());
}
