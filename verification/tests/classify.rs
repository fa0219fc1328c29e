use rust_cleanup::ProjectType;

#[test]
fn dioxus_marker_wins_even_with_cargo_marker() {
    assert_eq!(ProjectType::new_from_path(true, true), ProjectType::Dioxus);
    assert_eq!(ProjectType::new_from_path(true, false), ProjectType::Dioxus);
}

#[test]
fn cargo_marker_alone_is_rust() {
    assert_eq!(ProjectType::new_from_path(false, true), ProjectType::Rust);
}

#[test]
fn no_marker_is_regular() {
    assert_eq!(ProjectType::new_from_path(false, false), ProjectType::Regular);
}

#[test]
fn display_names() {
    assert_eq!(ProjectType::Regular.display_name(), "Not a Rust project");
    assert_eq!(ProjectType::Rust.display_name(), "Rust");
    assert_eq!(ProjectType::Dioxus.display_name(), "Dioxus");
}

#[test]
fn clean_command_lines() {
    assert_eq!(ProjectType::Regular.clean_cmd(), "");
    assert_eq!(ProjectType::Rust.clean_cmd(), "cargo clean");
    assert_eq!(ProjectType::Dioxus.clean_cmd(), "dx clean");
}

#[test]
fn clean_command_splits_into_program_and_args() {
    assert_eq!(ProjectType::Rust.clean_program(), "cargo");
    assert_eq!(ProjectType::Dioxus.clean_program(), "dx");
    assert_eq!(ProjectType::Rust.clean_args(), vec!["clean"]);
    assert_eq!(ProjectType::Dioxus.clean_args(), vec!["clean"]);
    for t in [ProjectType::Rust, ProjectType::Dioxus] {
        let joined = format!("{} {}", t.clean_program(), t.clean_args().join(" "));
        assert_eq!(joined, t.clean_cmd());
    }
}

#[test]
fn autoclean_rust_needs_yes_cargo_or_yes_all() {
    assert!(ProjectType::Rust.should_autoclean(false, true, false));
    assert!(ProjectType::Rust.should_autoclean(false, false, true));
    assert!(!ProjectType::Rust.should_autoclean(true, false, false));
    assert!(!ProjectType::Rust.should_autoclean(false, false, false));
}

#[test]
fn autoclean_dioxus_needs_yes_dioxus_or_yes_all() {
    assert!(ProjectType::Dioxus.should_autoclean(true, false, false));
    assert!(ProjectType::Dioxus.should_autoclean(false, false, true));
    assert!(!ProjectType::Dioxus.should_autoclean(false, true, false));
    assert!(!ProjectType::Dioxus.should_autoclean(false, false, false));
}

#[test]
fn autoclean_regular_never() {
    assert!(!ProjectType::Regular.should_autoclean(true, true, true));
}
