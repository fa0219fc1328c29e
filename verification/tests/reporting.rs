use rust_cleanup::report::{clean_diagnostic, skipped_report_lines, CleanOutcome};

#[test]
fn successful_clean_prints_nothing() {
    assert!(clean_diagnostic("/a", &CleanOutcome::Success).is_none());
}

#[test]
fn nonzero_exit_prints_exactly_one_line_naming_the_path() {
    let diag = clean_diagnostic("/work/proj", &CleanOutcome::NonzeroExit);
    assert_eq!(
        diag,
        Some(String::from(
            "Command has a nonzero exit code while trying to clean /work/proj"
        ))
    );
    assert!(!diag.unwrap().contains('\n'));
}

#[test]
fn failed_launch_prints_path_and_detail() {
    let outcome = CleanOutcome::LaunchFailed { detail: String::from("command not found") };
    assert_eq!(
        clean_diagnostic("/work/proj", &outcome),
        Some(String::from(
            "There was an error cleaning /work/proj: command not found"
        ))
    );
}

#[test]
fn empty_skip_list_prints_no_report() {
    let skipped: Vec<String> = Vec::new();
    assert!(skipped_report_lines(&skipped).is_empty());
}

#[test]
fn skip_report_lists_paths_in_order_under_a_header() {
    let skipped = vec![String::from("/a"), String::from("/a/b")];
    assert_eq!(
        skipped_report_lines(&skipped),
        vec![
            String::from("Skipped projects:"),
            String::from("  /a"),
            String::from("  /a/b"),
        ]
    );
}
