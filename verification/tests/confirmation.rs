use rust_cleanup::confirm::{confirm_from, invalid_input_prompt, parse_answer, prompt_line, Answer};

#[test]
fn answers_are_case_insensitive() {
    assert_eq!(parse_answer("y"), Answer::Yes);
    assert_eq!(parse_answer("Y"), Answer::Yes);
    assert_eq!(parse_answer("n"), Answer::No);
    assert_eq!(parse_answer("N"), Answer::No);
}

#[test]
fn answers_ignore_surrounding_whitespace() {
    assert_eq!(parse_answer(" y\n"), Answer::Yes);
    assert_eq!(parse_answer("\tn\r\n"), Answer::No);
    assert_eq!(parse_answer("  Y  "), Answer::Yes);
}

#[test]
fn other_tokens_are_invalid() {
    assert_eq!(parse_answer(""), Answer::Invalid);
    assert_eq!(parse_answer("x"), Answer::Invalid);
    assert_eq!(parse_answer("yes"), Answer::Invalid);
    assert_eq!(parse_answer("no"), Answer::Invalid);
    assert_eq!(parse_answer("y n"), Answer::Invalid);
    assert_eq!(parse_answer("  \n"), Answer::Invalid);
}

#[test]
fn invalid_lines_reprompt_until_valid_answer() {
    let input = vec![String::from("x"), String::from("Y"), String::from("n")];
    let (decision, next) = confirm_from(&input, 0);
    assert_eq!(decision, Some(true));
    assert_eq!(next, 2);
}

#[test]
fn confirmation_starts_at_given_line() {
    let input = vec![String::from("x"), String::from("Y"), String::from("n")];
    let (decision, next) = confirm_from(&input, 2);
    assert_eq!(decision, Some(false));
    assert_eq!(next, 3);
}

#[test]
fn end_of_input_leaves_no_decision() {
    let input = vec![String::from("what"), String::from("maybe")];
    let (decision, next) = confirm_from(&input, 0);
    assert_eq!(decision, None);
    assert_eq!(next, 2);
    let empty: Vec<String> = Vec::new();
    let (decision, next) = confirm_from(&empty, 0);
    assert_eq!(decision, None);
    assert_eq!(next, 0);
}

#[test]
fn prompt_text_names_path_and_type() {
    assert_eq!(
        prompt_line("/home/me/proj", "Rust"),
        "/home/me/proj is a Rust project. Do you want to clean it? (y/n): "
    );
    assert_eq!(invalid_input_prompt(), "Invalid input. Try one of (y/n): ");
}
